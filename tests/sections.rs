use tx_layout::field::Field;
use tx_layout::palette::{ColorSet, Rgb};
use tx_layout::sections::{
    get_bytes, get_transaction_byte_sections, ExtractError, TransactionByteSection,
};
use tx_layout::transaction::{
    AddressTableLookup, CompiledInstruction, MessageHeader, MessageVersion, Transaction,
};

fn header() -> MessageHeader {
    MessageHeader {
        num_required_signatures: 1,
        num_readonly_signed_accounts: 0,
        num_readonly_unsigned_accounts: 1,
    }
}

/// One signature, two keys, one instruction on account 0 with three bytes of data.
fn legacy_transaction() -> Transaction {
    Transaction {
        signatures: vec![[7u8; 64]],
        version: MessageVersion::Legacy,
        header: header(),
        static_account_keys: vec![[1u8; 32], [2u8; 32]],
        recent_blockhash: [9u8; 32],
        instructions: vec![CompiledInstruction {
            program_id_index: 1,
            accounts: vec![0],
            data: vec![0xaa, 0xbb, 0xcc],
        }],
        address_table_lookups: None,
    }
}

fn legacy_bytes() -> Vec<u8> {
    let mut b = vec![1u8];
    b.extend([7u8; 64]);
    b.extend([1, 0, 1]);
    b.push(2);
    b.extend([1u8; 32]);
    b.extend([2u8; 32]);
    b.extend([9u8; 32]);
    b.push(1);
    b.extend([1, 1, 0, 3, 0xaa, 0xbb, 0xcc]);
    b
}

fn labels(sections: &[TransactionByteSection]) -> Vec<Option<String>> {
    sections.iter().map(|s| s.label.clone()).collect()
}

fn concatenated(sections: &[TransactionByteSection]) -> Vec<u8> {
    sections.iter().flat_map(|s| s.bytes.iter().copied()).collect()
}

#[test]
fn legacy_transaction_sections_in_wire_order() {
    let colors = ColorSet::new();
    let tx = legacy_transaction();
    let bytes = legacy_bytes();
    let mut sections = Vec::new();
    assert_eq!(get_transaction_byte_sections(&tx, &bytes, &colors, &mut sections), Ok(()));
    let expected: Vec<(Option<&str>, usize)> = vec![
        (Some("Signature Count"), 1),
        (Some("Signature (0)"), 64),
        (Some("num_required_signatures"), 1),
        (Some("num_readonly_signed_accounts"), 1),
        (Some("num_readonly_unsigned_accounts"), 1),
        (Some("Static Account Keys Count"), 1),
        (Some("Static Account Key (0)"), 32),
        (Some("Static Account Key (1)"), 32),
        (Some("Recent Blockhash"), 32),
        (Some("Number of Instructions"), 1),
        (None, 1),
        (Some("Instruction Number of Accounts"), 1),
        (Some("Instruction Accounts"), 1),
        (Some("Instruction Data Length"), 1),
        (Some("Instruction Data"), 3),
    ];
    assert_eq!(sections.len(), expected.len());
    for (section, (label, len)) in sections.iter().zip(expected.iter()) {
        assert_eq!(section.label.as_deref(), *label);
        assert_eq!(section.bytes.len(), *len);
    }
    let total: usize = sections.iter().map(|s| s.bytes.len()).sum();
    assert_eq!(total, bytes.len());
    assert_eq!(concatenated(&sections), bytes);
    assert_eq!(sections[14].bytes, vec![0xaa, 0xbb, 0xcc]);
}

#[test]
fn offsets_are_contiguous_from_zero_to_end() {
    let colors = ColorSet::new();
    let bytes = legacy_bytes();
    let mut sections = Vec::new();
    get_transaction_byte_sections(&legacy_transaction(), &bytes, &colors, &mut sections).unwrap();
    let mut offset = 0usize;
    for s in &sections {
        assert!(!s.bytes.is_empty());
        assert_eq!(s.bytes[..], bytes[offset..offset + s.bytes.len()]);
        offset += s.bytes.len();
    }
    assert_eq!(offset, bytes.len());
}

#[test]
fn section_colors_follow_roles_and_key_slots() {
    let colors = ColorSet::new();
    let bytes = legacy_bytes();
    let mut sections = Vec::new();
    get_transaction_byte_sections(&legacy_transaction(), &bytes, &colors, &mut sections).unwrap();
    assert_eq!(sections[0].color, colors.roles[0]);
    assert_eq!(sections[1].color, colors.key_slots[0]);
    assert_eq!(sections[5].color, Rgb { r: 255, g: 255, b: 0 });
    assert_eq!(sections[7].color, colors.key_slots[1]);
    assert_eq!(sections[8].color, colors.roles[5]);
    // The program index byte takes the colour of the key it names.
    assert_eq!(sections[10].color, colors.key_slots[1]);
    assert_eq!(sections[14].color, colors.roles[10]);
}

#[test]
fn program_index_past_the_key_slots_is_neutral() {
    let colors = ColorSet::new();
    assert_eq!(colors.color_of(&Field::ProgramIdIndex(200)), Rgb { r: 255, g: 255, b: 255 });
    assert_eq!(colors.color_of(&Field::ProgramIdIndex(3)), colors.key_slots[3]);
}

#[test]
fn versioned_transaction_with_lookups() {
    let colors = ColorSet::new();
    let mut tx = legacy_transaction();
    tx.version = MessageVersion::Number(0);
    tx.address_table_lookups = Some(vec![AddressTableLookup {
        account_key: [5u8; 32],
        writable_indexes: vec![1, 2],
        readonly_indexes: vec![3],
    }]);
    let mut bytes = vec![1u8];
    bytes.extend([7u8; 64]);
    bytes.push(0x80);
    bytes.extend(legacy_bytes()[65..].iter().copied());
    bytes.push(1);
    bytes.extend([5u8; 32]);
    bytes.extend([2, 1, 2, 1, 3]);
    let mut sections = Vec::new();
    assert_eq!(get_transaction_byte_sections(&tx, &bytes, &colors, &mut sections), Ok(()));
    assert_eq!(sections[2].label.as_deref(), Some("Version Byte"));
    assert_eq!(sections[2].bytes, vec![0x80]);
    let tail: Vec<(Option<String>, Vec<u8>)> =
        sections[sections.len() - 6..].iter().map(|s| (s.label.clone(), s.bytes.clone())).collect();
    let want = vec![
        ("Message Address Table Lookups Count", vec![1u8]),
        ("Message Address Table Lookup Address", vec![5u8; 32]),
        ("Message Address Table Lookup Write Count", vec![2]),
        ("Message Address Table Lookup Write Set", vec![1, 2]),
        ("Message Address Table Lookup Read Count", vec![1]),
        ("Message Address Table Lookup Read Set", vec![3]),
    ];
    for ((label, b), (wl, wb)) in tail.iter().zip(want.iter()) {
        assert_eq!(label.as_deref(), Some(*wl));
        assert_eq!(b, wb);
    }
    assert_eq!(concatenated(&sections), bytes);
}

#[test]
fn truncated_buffer_is_refused_with_offset_and_field() {
    let colors = ColorSet::new();
    let mut bytes = legacy_bytes();
    bytes.truncate(100);
    let mut sections = Vec::new();
    let r = get_transaction_byte_sections(&legacy_transaction(), &bytes, &colors, &mut sections);
    assert_eq!(r, Err(ExtractError::Truncated { offset: 69, field: Field::StaticAccountKey(0) }));
    assert!(sections.is_empty());
}

#[test]
fn trailing_bytes_are_refused() {
    let colors = ColorSet::new();
    let mut bytes = legacy_bytes();
    let end = bytes.len();
    bytes.push(0);
    let mut sections = Vec::new();
    let r = get_transaction_byte_sections(&legacy_transaction(), &bytes, &colors, &mut sections);
    assert_eq!(r, Err(ExtractError::TrailingBytes { offset: end }));
    assert!(sections.is_empty());
}

#[test]
fn empty_buffer_gives_no_sections() {
    let colors = ColorSet::new();
    let mut sections = Vec::new();
    let r = get_transaction_byte_sections(&legacy_transaction(), &[], &colors, &mut sections);
    assert_eq!(r, Err(ExtractError::Truncated { offset: 0, field: Field::SignatureCount }));
    assert!(sections.is_empty());
    assert!(tx_layout::grid::byte_grid(&sections, 60, 10).is_empty());
}

#[test]
fn extraction_replaces_earlier_sections() {
    let colors = ColorSet::new();
    let bytes = legacy_bytes();
    let mut sections = Vec::new();
    get_transaction_byte_sections(&legacy_transaction(), &bytes, &colors, &mut sections).unwrap();
    let first = labels(&sections);
    get_transaction_byte_sections(&legacy_transaction(), &bytes, &colors, &mut sections).unwrap();
    assert_eq!(labels(&sections), first);
    assert_eq!(sections.len(), 15);
}

#[test]
fn wide_counts_take_wider_prefixes() {
    let colors = ColorSet::new();
    let mut tx = legacy_transaction();
    tx.instructions[0].data = vec![4u8; 200];
    let mut bytes = legacy_bytes();
    bytes.truncate(bytes.len() - 4);
    bytes.extend([0xc8, 0x01]);
    bytes.extend([4u8; 200]);
    let mut sections = Vec::new();
    assert_eq!(get_transaction_byte_sections(&tx, &bytes, &colors, &mut sections), Ok(()));
    assert_eq!(sections[13].bytes, vec![0xc8, 0x01]);
    assert_eq!(sections[14].bytes.len(), 200);
}

#[test]
fn get_bytes_moves_the_cursor() {
    let bytes = [1u8, 2, 3, 4, 5];
    let mut offset = 1usize;
    assert_eq!(get_bytes(&bytes, &mut offset, 3), vec![2, 3, 4]);
    assert_eq!(offset, 4);
    assert_eq!(get_bytes(&bytes, &mut offset, 0), Vec::<u8>::new());
    assert_eq!(offset, 4);
}
