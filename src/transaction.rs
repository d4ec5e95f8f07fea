use vstd::prelude::*;

verus! {

/// Width in bytes of a signature.
pub const SIGNATURE_LEN: usize = 64;

/// Width in bytes of an account key or a lookup table address.
pub const KEY_LEN: usize = 32;

/// Width in bytes of a block hash.
pub const HASH_LEN: usize = 32;

/// The version tag of a message: the legacy format has no version byte.
#[derive(Clone, Copy, Debug, PartialEq, Eq, Structural)]
pub enum MessageVersion {
    Legacy,
    Number(u8),
}

/// The three counts at the head of a message.
#[derive(Clone, Copy, Debug, PartialEq, Eq, Structural)]
pub struct MessageHeader {
    pub num_required_signatures: u8,
    pub num_readonly_signed_accounts: u8,
    pub num_readonly_unsigned_accounts: u8,
}

/// An instruction: the index of its program's key, the indexes of its accounts, its data.
#[derive(Clone, Debug)]
pub struct CompiledInstruction {
    pub program_id_index: u8,
    pub accounts: Vec<u8>,
    pub data: Vec<u8>,
}

/// A reference into an address lookup table.
#[derive(Clone, Debug)]
pub struct AddressTableLookup {
    pub account_key: [u8; 32],
    pub writable_indexes: Vec<u8>,
    pub readonly_indexes: Vec<u8>,
}

/// The structured value of a transaction, field by field in wire order.
#[derive(Clone, Debug)]
pub struct Transaction {
    pub signatures: Vec<[u8; 64]>,
    pub version: MessageVersion,
    pub header: MessageHeader,
    pub static_account_keys: Vec<[u8; 32]>,
    pub recent_blockhash: [u8; 32],
    pub instructions: Vec<CompiledInstruction>,
    /// Present on versioned messages only.
    pub address_table_lookups: Option<Vec<AddressTableLookup>>,
}

} // verus!
