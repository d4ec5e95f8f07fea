use solana_sdk::hash;
use solana_sdk::message::compiled_instruction::CompiledInstruction as SdkInstruction;
use solana_sdk::message::v0::{Message as V0Message, MessageAddressTableLookup};
use solana_sdk::message::{Message as LegacyMessage, MessageHeader as SdkHeader, VersionedMessage};
use solana_sdk::pubkey::Pubkey;
use solana_sdk::signature::Signature;
use solana_sdk::transaction::VersionedTransaction;
use tx_layout::palette::ColorSet;
use tx_layout::sections::get_transaction_byte_sections;
use tx_layout::transaction::{
    AddressTableLookup, CompiledInstruction, MessageHeader, MessageVersion, Transaction,
};

fn sdk_header() -> SdkHeader {
    SdkHeader {
        num_required_signatures: 1,
        num_readonly_signed_accounts: 0,
        num_readonly_unsigned_accounts: 1,
    }
}

fn header() -> MessageHeader {
    MessageHeader {
        num_required_signatures: 1,
        num_readonly_signed_accounts: 0,
        num_readonly_unsigned_accounts: 1,
    }
}

fn instructions() -> (Vec<SdkInstruction>, Vec<CompiledInstruction>) {
    let sdk = vec![
        SdkInstruction { program_id_index: 1, accounts: vec![0], data: vec![1, 2, 3] },
        SdkInstruction { program_id_index: 1, accounts: vec![], data: vec![9; 130] },
    ];
    let ours = sdk
        .iter()
        .map(|i| CompiledInstruction {
            program_id_index: i.program_id_index,
            accounts: i.accounts.clone(),
            data: i.data.clone(),
        })
        .collect();
    (sdk, ours)
}

#[test]
fn serialized_legacy_transaction_is_covered() {
    let (sdk_ix, ix) = instructions();
    let sdk = VersionedTransaction {
        signatures: vec![Signature::from([3u8; 64])],
        message: VersionedMessage::Legacy(LegacyMessage {
            header: sdk_header(),
            account_keys: vec![Pubkey::new_from_array([1; 32]), Pubkey::new_from_array([2; 32])],
            recent_blockhash: hash::Hash::new_from_array([4; 32]),
            instructions: sdk_ix,
        }),
    };
    let bytes = bincode::serialize(&sdk).unwrap();
    let tx = Transaction {
        signatures: vec![[3u8; 64]],
        version: MessageVersion::Legacy,
        header: header(),
        static_account_keys: vec![[1; 32], [2; 32]],
        recent_blockhash: [4; 32],
        instructions: ix,
        address_table_lookups: None,
    };
    let mut sections = Vec::new();
    assert_eq!(get_transaction_byte_sections(&tx, &bytes, &ColorSet::new(), &mut sections), Ok(()));
    let joined: Vec<u8> = sections.iter().flat_map(|s| s.bytes.clone()).collect();
    assert_eq!(joined, bytes);
    let data_len = sections.iter().rev().nth(1).unwrap();
    assert_eq!(data_len.bytes.len(), 2);
}

#[test]
fn serialized_v0_transaction_is_covered() {
    let (sdk_ix, ix) = instructions();
    let sdk = VersionedTransaction {
        signatures: vec![Signature::from([3u8; 64])],
        message: VersionedMessage::V0(V0Message {
            header: sdk_header(),
            account_keys: vec![Pubkey::new_from_array([1; 32]), Pubkey::new_from_array([2; 32])],
            recent_blockhash: hash::Hash::new_from_array([4; 32]),
            instructions: sdk_ix,
            address_table_lookups: vec![MessageAddressTableLookup {
                account_key: Pubkey::new_from_array([6; 32]),
                writable_indexes: vec![0, 1],
                readonly_indexes: vec![2, 3, 4],
            }],
        }),
    };
    let bytes = bincode::serialize(&sdk).unwrap();
    let tx = Transaction {
        signatures: vec![[3u8; 64]],
        version: MessageVersion::Number(0),
        header: header(),
        static_account_keys: vec![[1; 32], [2; 32]],
        recent_blockhash: [4; 32],
        instructions: ix,
        address_table_lookups: Some(vec![AddressTableLookup {
            account_key: [6; 32],
            writable_indexes: vec![0, 1],
            readonly_indexes: vec![2, 3, 4],
        }]),
    };
    let mut sections = Vec::new();
    assert_eq!(get_transaction_byte_sections(&tx, &bytes, &ColorSet::new(), &mut sections), Ok(()));
    let joined: Vec<u8> = sections.iter().flat_map(|s| s.bytes.clone()).collect();
    assert_eq!(joined, bytes);
    assert_eq!(sections.last().unwrap().bytes, vec![2, 3, 4]);
}
