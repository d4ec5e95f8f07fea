use vstd::prelude::*;
use crate::text::{decimal, decimal_text};

verus! {

/// The field of the wire format that a run of bytes encodes.
#[derive(Clone, Copy, Debug, PartialEq, Eq, Structural)]
pub enum Field {
    SignatureCount,
    Signature(usize),
    VersionByte,
    NumRequiredSignatures,
    NumReadonlySignedAccounts,
    NumReadonlyUnsignedAccounts,
    StaticAccountKeysCount,
    StaticAccountKey(usize),
    RecentBlockhash,
    InstructionCount,
    /// The program index of an instruction, holding that index.
    ProgramIdIndex(u8),
    InstructionNumAccounts,
    InstructionAccounts,
    InstructionDataLength,
    InstructionData,
    LookupCount,
    LookupAddress,
    LookupWriteCount,
    LookupWriteSet,
    LookupReadCount,
    LookupReadSet,
}

pub open spec fn indexed_label(prefix: Seq<char>, i: nat) -> Seq<char> {
    prefix + decimal(i) + ")"@
}

/// The legend text of a field; the program index has none, as its colour
/// is that of the key it names.
pub open spec fn field_label(f: Field) -> Option<Seq<char>> {
    match f {
        Field::SignatureCount => Some("Signature Count"@),
        Field::Signature(i) => Some(indexed_label("Signature ("@, i as nat)),
        Field::VersionByte => Some("Version Byte"@),
        Field::NumRequiredSignatures => Some("num_required_signatures"@),
        Field::NumReadonlySignedAccounts => Some("num_readonly_signed_accounts"@),
        Field::NumReadonlyUnsignedAccounts => Some("num_readonly_unsigned_accounts"@),
        Field::StaticAccountKeysCount => Some("Static Account Keys Count"@),
        Field::StaticAccountKey(i) => Some(indexed_label("Static Account Key ("@, i as nat)),
        Field::RecentBlockhash => Some("Recent Blockhash"@),
        Field::InstructionCount => Some("Number of Instructions"@),
        Field::ProgramIdIndex(_) => None,
        Field::InstructionNumAccounts => Some("Instruction Number of Accounts"@),
        Field::InstructionAccounts => Some("Instruction Accounts"@),
        Field::InstructionDataLength => Some("Instruction Data Length"@),
        Field::InstructionData => Some("Instruction Data"@),
        Field::LookupCount => Some("Message Address Table Lookups Count"@),
        Field::LookupAddress => Some("Message Address Table Lookup Address"@),
        Field::LookupWriteCount => Some("Message Address Table Lookup Write Count"@),
        Field::LookupWriteSet => Some("Message Address Table Lookup Write Set"@),
        Field::LookupReadCount => Some("Message Address Table Lookup Read Count"@),
        Field::LookupReadSet => Some("Message Address Table Lookup Read Set"@),
    }
}

/// Position of a field's colour among the structural role colours, for the
/// fields that have one.
pub open spec fn role_index(f: Field) -> Option<nat> {
    match f {
        Field::SignatureCount => Some(0),
        Field::VersionByte => Some(1),
        Field::NumRequiredSignatures => Some(2),
        Field::NumReadonlySignedAccounts => Some(3),
        Field::NumReadonlyUnsignedAccounts => Some(4),
        Field::RecentBlockhash => Some(5),
        Field::InstructionCount => Some(6),
        Field::InstructionNumAccounts => Some(7),
        Field::InstructionAccounts => Some(8),
        Field::InstructionDataLength => Some(9),
        Field::InstructionData => Some(10),
        Field::LookupCount => Some(11),
        Field::LookupAddress => Some(12),
        Field::LookupWriteCount => Some(13),
        Field::LookupReadCount => Some(14),
        Field::LookupWriteSet => Some(15),
        Field::LookupReadSet => Some(16),
        _ => None,
    }
}

/// The account key position whose colour a field takes, for the fields tied to a key.
pub open spec fn key_slot_index(f: Field) -> Option<nat> {
    match f {
        Field::Signature(i) => Some(i as nat),
        Field::StaticAccountKey(i) => Some(i as nat),
        Field::ProgramIdIndex(i) => Some(i as nat),
        _ => None,
    }
}

fn indexed(prefix: &str, i: usize) -> (r: String)
    ensures
        r@ == indexed_label(prefix@, i as nat),
{
    let digits = decimal_text(i);
    let r = String::from_str(prefix).concat(digits.as_str()).concat(")");
    assert(r@ =~= indexed_label(prefix@, i as nat));
    r
}

impl Field {
    /// The legend text of this field, if it has one.
    pub fn label(&self) -> (r: Option<String>)
        ensures
            match r {
                Some(s) => field_label(*self) == Some(s@),
                None => field_label(*self) is None,
            },
    {
        match self {
            Field::SignatureCount => Some(String::from_str("Signature Count")),
            Field::Signature(i) => Some(indexed("Signature (", *i)),
            Field::VersionByte => Some(String::from_str("Version Byte")),
            Field::NumRequiredSignatures => Some(String::from_str("num_required_signatures")),
            Field::NumReadonlySignedAccounts => Some(
                String::from_str("num_readonly_signed_accounts"),
            ),
            Field::NumReadonlyUnsignedAccounts => Some(
                String::from_str("num_readonly_unsigned_accounts"),
            ),
            Field::StaticAccountKeysCount => Some(String::from_str("Static Account Keys Count")),
            Field::StaticAccountKey(i) => Some(indexed("Static Account Key (", *i)),
            Field::RecentBlockhash => Some(String::from_str("Recent Blockhash")),
            Field::InstructionCount => Some(String::from_str("Number of Instructions")),
            Field::ProgramIdIndex(_) => None,
            Field::InstructionNumAccounts => Some(
                String::from_str("Instruction Number of Accounts"),
            ),
            Field::InstructionAccounts => Some(String::from_str("Instruction Accounts")),
            Field::InstructionDataLength => Some(String::from_str("Instruction Data Length")),
            Field::InstructionData => Some(String::from_str("Instruction Data")),
            Field::LookupCount => Some(String::from_str("Message Address Table Lookups Count")),
            Field::LookupAddress => Some(
                String::from_str("Message Address Table Lookup Address"),
            ),
            Field::LookupWriteCount => Some(
                String::from_str("Message Address Table Lookup Write Count"),
            ),
            Field::LookupWriteSet => Some(
                String::from_str("Message Address Table Lookup Write Set"),
            ),
            Field::LookupReadCount => Some(
                String::from_str("Message Address Table Lookup Read Count"),
            ),
            Field::LookupReadSet => Some(String::from_str("Message Address Table Lookup Read Set")),
        }
    }
}

} // verus!
