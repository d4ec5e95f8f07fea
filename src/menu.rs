use vstd::prelude::*;

verus! {

/// What a line of the application's menu selects.
#[derive(Clone, Copy, Debug, PartialEq, Eq)]
pub enum AppMenuItem {
    /// The address of the node to fetch transactions from.
    Endpoint(&'static str),
}

} // verus!
