//! Cuts the wire bytes of a transaction into labelled, coloured sections, one
//! per field, and lays those sections out as a hex grid and a legend.
//!
//! The cut follows a plan of fields and widths built from the structured
//! transaction; a single cursor walks the buffer along it. Colours come from a
//! palette that depends on its size alone.

pub mod compact;
pub mod field;
pub mod grid;
pub mod legend;
pub mod menu;
pub mod palette;
pub mod sections;
pub mod text;
pub mod transaction;
