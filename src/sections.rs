use vstd::prelude::*;
use crate::compact::{compact_len_size, compact_len_width};
use crate::field::{field_label, Field};
use crate::grid::grid_of;
use crate::palette::{ColorSet, Rgb};
use crate::transaction::{
    AddressTableLookup, CompiledInstruction, MessageVersion, Transaction, HASH_LEN, KEY_LEN,
    SIGNATURE_LEN,
};

verus! {

/// How many bytes a field occupies.
#[derive(Clone, Copy, Debug, PartialEq, Eq, Structural)]
pub enum Width {
    /// A width known from the structured value.
    Exact(usize),
    /// As many bytes as the one-byte count just before the field says.
    FromCount,
}

/// One step of the decomposition: a field and its width.
#[derive(Clone, Copy, Debug, PartialEq, Eq, Structural)]
pub struct Piece {
    pub field: Field,
    pub width: Width,
}

/// Why a buffer cannot be cut along a transaction's fields.
#[derive(Clone, Copy, Debug, PartialEq, Eq, Structural)]
pub enum ExtractError {
    /// The field that starts at `offset` runs past the end of the buffer.
    Truncated { offset: usize, field: Field },
    /// The fields end at `offset`, before the end of the buffer.
    TrailingBytes { offset: usize },
}

/// A labelled, coloured run of bytes of the buffer.
pub struct TransactionByteSection {
    pub label: Option<String>,
    pub bytes: Vec<u8>,
    pub color: Rgb,
}

/// What a section holds, as mathematical values.
pub struct SectionView {
    pub label: Option<Seq<char>>,
    pub bytes: Seq<u8>,
    pub color: Rgb,
}

impl View for TransactionByteSection {
    type V = SectionView;

    open spec fn view(&self) -> SectionView {
        SectionView {
            label: match self.label {
                Some(s) => Some(s@),
                None => None,
            },
            bytes: self.bytes@,
            color: self.color,
        }
    }
}

/// The views of a list of sections, in order.
pub open spec fn section_views(s: Seq<TransactionByteSection>) -> Seq<SectionView> {
    s.map_values(|x: TransactionByteSection| x@)
}

/// A piece of a width known in advance.
pub open spec fn exact(field: Field, n: usize) -> Piece {
    Piece { field, width: Width::Exact(n) }
}

/// The compact-length prefix of a list of `count` items.
pub open spec fn compact(field: Field, count: nat) -> Piece {
    exact(field, compact_len_width(count) as usize)
}

pub open spec fn signature_pieces(n: nat) -> Seq<Piece> {
    seq![compact(Field::SignatureCount, n)] + Seq::new(
        n,
        |i: int| exact(Field::Signature(i as usize), SIGNATURE_LEN),
    )
}

pub open spec fn header_pieces(version: MessageVersion) -> Seq<Piece> {
    let counts = seq![
        exact(Field::NumRequiredSignatures, 1),
        exact(Field::NumReadonlySignedAccounts, 1),
        exact(Field::NumReadonlyUnsignedAccounts, 1),
    ];
    match version {
        MessageVersion::Legacy => counts,
        MessageVersion::Number(_) => seq![exact(Field::VersionByte, 1)] + counts,
    }
}

pub open spec fn key_pieces(n: nat) -> Seq<Piece> {
    seq![compact(Field::StaticAccountKeysCount, n)] + Seq::new(
        n,
        |i: int| exact(Field::StaticAccountKey(i as usize), KEY_LEN),
    )
}

pub open spec fn blockhash_pieces() -> Seq<Piece> {
    seq![exact(Field::RecentBlockhash, HASH_LEN)]
}

pub open spec fn instruction_pieces(ix: CompiledInstruction) -> Seq<Piece> {
    seq![
        exact(Field::ProgramIdIndex(ix.program_id_index), 1),
        compact(Field::InstructionNumAccounts, ix.accounts@.len()),
        exact(Field::InstructionAccounts, ix.accounts@.len() as usize),
        compact(Field::InstructionDataLength, ix.data@.len()),
        exact(Field::InstructionData, ix.data@.len() as usize),
    ]
}

pub open spec fn instruction_list_pieces(ixs: Seq<CompiledInstruction>) -> Seq<Piece>
    decreases ixs.len(),
{
    if ixs.len() == 0 {
        Seq::empty()
    } else {
        instruction_list_pieces(ixs.drop_last()) + instruction_pieces(ixs.last())
    }
}

pub open spec fn instructions_pieces(ixs: Seq<CompiledInstruction>) -> Seq<Piece> {
    seq![compact(Field::InstructionCount, ixs.len())] + instruction_list_pieces(ixs)
}

pub open spec fn lookup_entry_pieces() -> Seq<Piece> {
    seq![
        exact(Field::LookupAddress, KEY_LEN),
        exact(Field::LookupWriteCount, 1),
        Piece { field: Field::LookupWriteSet, width: Width::FromCount },
        exact(Field::LookupReadCount, 1),
        Piece { field: Field::LookupReadSet, width: Width::FromCount },
    ]
}

pub open spec fn lookup_list_pieces(n: nat) -> Seq<Piece>
    decreases n,
{
    if n == 0 {
        Seq::empty()
    } else {
        lookup_list_pieces((n - 1) as nat) + lookup_entry_pieces()
    }
}

pub open spec fn lookups_pieces(lookups: Option<Vec<AddressTableLookup>>) -> Seq<Piece> {
    match lookups {
        None => Seq::empty(),
        Some(l) => seq![compact(Field::LookupCount, l@.len())] + lookup_list_pieces(l@.len()),
    }
}

/// The fields of a transaction in wire order, with their widths.
pub open spec fn plan_of(tx: Transaction) -> Seq<Piece> {
    signature_pieces(tx.signatures@.len()) + header_pieces(tx.version) + key_pieces(
        tx.static_account_keys@.len(),
    ) + blockhash_pieces() + instructions_pieces(tx.instructions@) + lookups_pieces(
        tx.address_table_lookups,
    )
}

/// The width of a piece that starts at `at`.
pub open spec fn piece_width(p: Piece, bytes: Seq<u8>, at: nat) -> nat {
    match p.width {
        Width::Exact(n) => n as nat,
        Width::FromCount => if 0 < at && at <= bytes.len() {
            bytes[at - 1] as nat
        } else {
            0
        },
    }
}

/// Offset at which the first `k` pieces end.
pub open spec fn piece_end(plan: Seq<Piece>, bytes: Seq<u8>, k: nat) -> nat
    decreases k,
{
    if k == 0 {
        0
    } else {
        let at = piece_end(plan, bytes, (k - 1) as nat);
        at + piece_width(plan[k - 1], bytes, at)
    }
}

/// The first piece, from the `k`-th on, that ends past the buffer.
pub open spec fn first_overrun(plan: Seq<Piece>, bytes: Seq<u8>, k: nat) -> Option<nat>
    decreases plan.len() - k,
{
    if k >= plan.len() {
        None
    } else if piece_end(plan, bytes, k + 1) > bytes.len() {
        Some(k)
    } else {
        first_overrun(plan, bytes, k + 1)
    }
}

/// Whether a buffer can be cut along a plan: every piece fits, and the last ends
/// with the buffer.
pub open spec fn extract_outcome(plan: Seq<Piece>, bytes: Seq<u8>) -> Result<(), ExtractError> {
    match first_overrun(plan, bytes, 0) {
        Some(k) => Err(
            ExtractError::Truncated {
                offset: piece_end(plan, bytes, k) as usize,
                field: plan[k as int].field,
            },
        ),
        None => if piece_end(plan, bytes, plan.len()) == bytes.len() {
            Ok(())
        } else {
            Err(ExtractError::TrailingBytes { offset: piece_end(plan, bytes, plan.len()) as usize })
        },
    }
}

/// The section that the `i`-th piece cuts from the buffer.
pub open spec fn section_for(plan: Seq<Piece>, bytes: Seq<u8>, colors: ColorSet, i: nat) -> SectionView {
    SectionView {
        label: field_label(plan[i as int].field),
        bytes: bytes.subrange(piece_end(plan, bytes, i) as int, piece_end(plan, bytes, i + 1) as int),
        color: colors.field_color(plan[i as int].field),
    }
}

pub open spec fn sections_of(plan: Seq<Piece>, bytes: Seq<u8>, colors: ColorSet) -> Seq<SectionView> {
    Seq::new(plan.len(), |i: int| section_for(plan, bytes, colors, i as nat))
}

/// Copies the `num_bytes` bytes at the cursor and moves the cursor past them.
pub fn get_bytes(bytes: &[u8], offset: &mut usize, num_bytes: usize) -> (r: Vec<u8>)
    requires
        *old(offset) + num_bytes <= bytes@.len(),
    ensures
        r@ == bytes@.subrange(*old(offset) as int, *old(offset) + num_bytes),
        *final(offset) == *old(offset) + num_bytes,
{
    let start = *offset;
    let len: usize = bytes.len();
    let mut r: Vec<u8> = Vec::new();
    let mut i: usize = 0;
    while i < num_bytes
        invariant
            start + num_bytes <= bytes@.len(),
            len == bytes@.len(),
            i <= num_bytes,
            r@ =~= bytes@.subrange(start as int, start + i),
        decreases num_bytes - i,
    {
        r.push(bytes[start + i]);
        i += 1;
    }
    *offset = start + num_bytes;
    r
}

fn add_signature_pieces(transaction: &Transaction, plan: &mut Vec<Piece>)
    ensures
        final(plan)@ == old(plan)@ + signature_pieces(transaction.signatures@.len()),
{
    let n = transaction.signatures.len();
    plan.push(Piece { field: Field::SignatureCount, width: Width::Exact(compact_len_size(n)) });
    let ghost base = plan@;
    let mut i: usize = 0;
    while i < n
        invariant
            n == transaction.signatures@.len(),
            i <= n,
            plan@ =~= base + Seq::new(
                i as nat,
                |j: int| exact(Field::Signature(j as usize), SIGNATURE_LEN),
            ),
        decreases n - i,
    {
        plan.push(Piece { field: Field::Signature(i), width: Width::Exact(SIGNATURE_LEN) });
        i += 1;
    }
    assert(plan@ =~= old(plan)@ + signature_pieces(n as nat));
}

fn add_message_header_pieces(transaction: &Transaction, plan: &mut Vec<Piece>)
    ensures
        final(plan)@ == old(plan)@ + header_pieces(transaction.version),
{
    match transaction.version {
        MessageVersion::Legacy => {},
        MessageVersion::Number(_) => {
            plan.push(Piece { field: Field::VersionByte, width: Width::Exact(1) });
        },
    }
    plan.push(Piece { field: Field::NumRequiredSignatures, width: Width::Exact(1) });
    plan.push(Piece { field: Field::NumReadonlySignedAccounts, width: Width::Exact(1) });
    plan.push(Piece { field: Field::NumReadonlyUnsignedAccounts, width: Width::Exact(1) });
    assert(plan@ =~= old(plan)@ + header_pieces(transaction.version));
}

fn add_static_account_keys_pieces(transaction: &Transaction, plan: &mut Vec<Piece>)
    ensures
        final(plan)@ == old(plan)@ + key_pieces(transaction.static_account_keys@.len()),
{
    let n = transaction.static_account_keys.len();
    plan.push(
        Piece { field: Field::StaticAccountKeysCount, width: Width::Exact(compact_len_size(n)) },
    );
    let ghost base = plan@;
    let mut i: usize = 0;
    while i < n
        invariant
            n == transaction.static_account_keys@.len(),
            i <= n,
            plan@ =~= base + Seq::new(
                i as nat,
                |j: int| exact(Field::StaticAccountKey(j as usize), KEY_LEN),
            ),
        decreases n - i,
    {
        plan.push(Piece { field: Field::StaticAccountKey(i), width: Width::Exact(KEY_LEN) });
        i += 1;
    }
    assert(plan@ =~= old(plan)@ + key_pieces(n as nat));
}

fn add_recent_blockhash_piece(plan: &mut Vec<Piece>)
    ensures
        final(plan)@ == old(plan)@ + blockhash_pieces(),
{
    plan.push(Piece { field: Field::RecentBlockhash, width: Width::Exact(HASH_LEN) });
    assert(plan@ =~= old(plan)@ + blockhash_pieces());
}

fn add_instructions_pieces(transaction: &Transaction, plan: &mut Vec<Piece>)
    ensures
        final(plan)@ == old(plan)@ + instructions_pieces(transaction.instructions@),
{
    let ixs = &transaction.instructions;
    let n = ixs.len();
    plan.push(Piece { field: Field::InstructionCount, width: Width::Exact(compact_len_size(n)) });
    let ghost base = plan@;
    let mut i: usize = 0;
    while i < n
        invariant
            n == ixs@.len(),
            i <= n,
            plan@ =~= base + instruction_list_pieces(ixs@.take(i as int)),
        decreases n - i,
    {
        let ix = &ixs[i];
        let num_accounts = ix.accounts.len();
        let data_len = ix.data.len();
        plan.push(Piece { field: Field::ProgramIdIndex(ix.program_id_index), width: Width::Exact(1) });
        plan.push(
            Piece {
                field: Field::InstructionNumAccounts,
                width: Width::Exact(compact_len_size(num_accounts)),
            },
        );
        plan.push(Piece { field: Field::InstructionAccounts, width: Width::Exact(num_accounts) });
        plan.push(
            Piece {
                field: Field::InstructionDataLength,
                width: Width::Exact(compact_len_size(data_len)),
            },
        );
        plan.push(Piece { field: Field::InstructionData, width: Width::Exact(data_len) });
        proof {
            assert(ixs@.take(i + 1).drop_last() =~= ixs@.take(i as int));
            assert(ixs@.take(i + 1).last() == ixs@[i as int]);
        }
        i += 1;
    }
    assert(ixs@.take(n as int) =~= ixs@);
    assert(plan@ =~= old(plan)@ + instructions_pieces(ixs@));
}

fn add_address_table_lookups_pieces(transaction: &Transaction, plan: &mut Vec<Piece>)
    ensures
        final(plan)@ == old(plan)@ + lookups_pieces(transaction.address_table_lookups),
{
    let lookups = match &transaction.address_table_lookups {
        None => {
            assert(plan@ =~= old(plan)@ + lookups_pieces(transaction.address_table_lookups));
            return;
        },
        Some(l) => l,
    };
    let n = lookups.len();
    plan.push(Piece { field: Field::LookupCount, width: Width::Exact(compact_len_size(n)) });
    let ghost base = plan@;
    let mut i: usize = 0;
    while i < n
        invariant
            n == lookups@.len(),
            i <= n,
            plan@ =~= base + lookup_list_pieces(i as nat),
        decreases n - i,
    {
        plan.push(Piece { field: Field::LookupAddress, width: Width::Exact(KEY_LEN) });
        plan.push(Piece { field: Field::LookupWriteCount, width: Width::Exact(1) });
        plan.push(Piece { field: Field::LookupWriteSet, width: Width::FromCount });
        plan.push(Piece { field: Field::LookupReadCount, width: Width::Exact(1) });
        plan.push(Piece { field: Field::LookupReadSet, width: Width::FromCount });
        i += 1;
    }
    assert(plan@ =~= old(plan)@ + lookups_pieces(transaction.address_table_lookups));
}

/// The fields of a transaction in wire order, with their widths.
pub fn transaction_plan(transaction: &Transaction) -> (plan: Vec<Piece>)
    ensures
        plan@ == plan_of(*transaction),
{
    let mut plan: Vec<Piece> = Vec::new();
    add_signature_pieces(transaction, &mut plan);
    add_message_header_pieces(transaction, &mut plan);
    add_static_account_keys_pieces(transaction, &mut plan);
    add_recent_blockhash_piece(&mut plan);
    add_instructions_pieces(transaction, &mut plan);
    add_address_table_lookups_pieces(transaction, &mut plan);
    assert(plan@ =~= plan_of(*transaction));
    plan
}

/// Cuts the buffer along the plan with one cursor, from offset zero: a section
/// for each piece, or the first piece that runs past the end, or the offset
/// where the pieces end short of it. On failure no section is left.
pub fn cut_sections(
    plan: &Vec<Piece>,
    bytes: &[u8],
    colors: &ColorSet,
    sections: &mut Vec<TransactionByteSection>,
) -> (r: Result<(), ExtractError>)
    requires
        colors.wf(),
    ensures
        r == extract_outcome(plan@, bytes@),
        r is Ok ==> section_views(final(sections)@) == sections_of(plan@, bytes@, *colors),
        r is Err ==> final(sections)@.len() == 0,
{
    sections.clear();
    let len: usize = bytes.len();
    let mut offset: usize = 0;
    let mut k: usize = 0;
    while k < plan.len()
        invariant
            colors.wf(),
            len == bytes@.len(),
            k <= plan@.len(),
            offset as nat == piece_end(plan@, bytes@, k as nat),
            offset <= len,
            first_overrun(plan@, bytes@, 0) == first_overrun(plan@, bytes@, k as nat),
            sections@.len() == k,
            forall|i: int|
                0 <= i < k ==> #[trigger] sections@[i]@ == section_for(
                    plan@,
                    bytes@,
                    *colors,
                    i as nat,
                ),
        decreases plan@.len() - k,
    {
        let p = plan[k];
        let w: usize = match p.width {
            Width::Exact(n) => n,
            Width::FromCount => if offset > 0 {
                bytes[offset - 1] as usize
            } else {
                0
            },
        };
        assert(w as nat == piece_width(plan@[k as int], bytes@, offset as nat));
        if w > len - offset {
            sections.clear();
            return Err(ExtractError::Truncated { offset, field: p.field });
        }
        let chunk = get_bytes(bytes, &mut offset, w);
        let section = TransactionByteSection {
            label: p.field.label(),
            bytes: chunk,
            color: colors.color_of(&p.field),
        };
        sections.push(section);
        k += 1;
    }
    if offset != len {
        sections.clear();
        return Err(ExtractError::TrailingBytes { offset });
    }
    assert(section_views(sections@) =~= sections_of(plan@, bytes@, *colors));
    Ok(())
}

/// Splits the buffer of a transaction into one section per field, in wire order.
/// The sections are written into `sections`, which is cleared first.
pub fn get_transaction_byte_sections(
    transaction: &Transaction,
    bytes: &[u8],
    colors: &ColorSet,
    sections: &mut Vec<TransactionByteSection>,
) -> (r: Result<(), ExtractError>)
    requires
        colors.wf(),
    ensures
        r == extract_outcome(plan_of(*transaction), bytes@),
        r is Ok ==> section_views(final(sections)@) == sections_of(
            plan_of(*transaction),
            bytes@,
            *colors,
        ),
        r is Err ==> final(sections)@.len() == 0,
{
    let plan = transaction_plan(transaction);
    cut_sections(&plan, bytes, colors, sections)
}

/// The sections of a transaction's buffer, one per field.
pub open spec fn transaction_sections(
    transaction: Transaction,
    bytes: Seq<u8>,
    colors: ColorSet,
) -> Seq<SectionView> {
    sections_of(plan_of(transaction), bytes, colors)
}

/// The bytes of the sections, one after another.
pub open spec fn concat_bytes(s: Seq<SectionView>) -> Seq<u8>
    decreases s.len(),
{
    if s.len() == 0 {
        Seq::empty()
    } else {
        concat_bytes(s.drop_last()) + s.last().bytes
    }
}

/// The offset in the buffer at which the `i`-th section starts.
pub open spec fn section_start(s: Seq<SectionView>, i: nat) -> nat {
    concat_bytes(s.take(i as int)).len()
}

proof fn lemma_no_overrun(plan: Seq<Piece>, bytes: Seq<u8>, k: nat, j: nat)
    requires
        first_overrun(plan, bytes, k) is None,
        k <= j < plan.len(),
    ensures
        piece_end(plan, bytes, j + 1) <= bytes.len(),
    decreases j - k,
{
    if k < j {
        lemma_no_overrun(plan, bytes, k + 1, j);
    }
}

proof fn lemma_end_monotone(plan: Seq<Piece>, bytes: Seq<u8>, i: nat, j: nat)
    requires
        i <= j,
    ensures
        piece_end(plan, bytes, i) <= piece_end(plan, bytes, j),
    decreases j - i,
{
    if i < j {
        lemma_end_monotone(plan, bytes, i, (j - 1) as nat);
    }
}

proof fn lemma_prefix_cover(plan: Seq<Piece>, bytes: Seq<u8>, colors: ColorSet, k: nat)
    requires
        first_overrun(plan, bytes, 0) is None,
        k <= plan.len(),
    ensures
        piece_end(plan, bytes, k) <= bytes.len(),
        concat_bytes(sections_of(plan, bytes, colors).take(k as int)) == bytes.subrange(
            0,
            piece_end(plan, bytes, k) as int,
        ),
    decreases k,
{
    let s = sections_of(plan, bytes, colors);
    if k == 0 {
        assert(s.take(0) =~= Seq::<SectionView>::empty());
        assert(bytes.subrange(0, 0) =~= Seq::<u8>::empty());
    } else {
        let a = piece_end(plan, bytes, (k - 1) as nat);
        let b = piece_end(plan, bytes, k);
        lemma_prefix_cover(plan, bytes, colors, (k - 1) as nat);
        lemma_no_overrun(plan, bytes, 0, (k - 1) as nat);
        assert(s.take(k as int).drop_last() =~= s.take(k - 1));
        assert(s.take(k as int).last() == s[k - 1]);
        assert(bytes.subrange(0, a as int) + bytes.subrange(a as int, b as int) =~= bytes.subrange(
            0,
            b as int,
        ));
    }
}

proof fn lemma_section_start_is_end(plan: Seq<Piece>, bytes: Seq<u8>, colors: ColorSet, k: nat)
    requires
        first_overrun(plan, bytes, 0) is None,
        k <= plan.len(),
    ensures
        section_start(sections_of(plan, bytes, colors), k) == piece_end(plan, bytes, k),
{
    lemma_prefix_cover(plan, bytes, colors, k);
}

/// The sections of a buffer that was cut without error, put back together in
/// order, give the buffer byte for byte.
pub proof fn lemma_sections_reproduce_buffer(
    transaction: Transaction,
    bytes: Seq<u8>,
    colors: ColorSet,
)
    requires
        extract_outcome(plan_of(transaction), bytes) is Ok,
    ensures
        concat_bytes(transaction_sections(transaction, bytes, colors)) == bytes,
{
    let plan = plan_of(transaction);
    let s = sections_of(plan, bytes, colors);
    lemma_prefix_cover(plan, bytes, colors, plan.len());
    assert(s.take(plan.len() as int) =~= s);
    assert(bytes.subrange(0, bytes.len() as int) =~= bytes);
}

/// The sections of a buffer that was cut without error start at offset zero,
/// each starts where the one before ends, the offsets never decrease and grow
/// at every section that holds a byte, and the last section ends with the buffer.
pub proof fn lemma_section_offsets_contiguous(
    transaction: Transaction,
    bytes: Seq<u8>,
    colors: ColorSet,
)
    requires
        extract_outcome(plan_of(transaction), bytes) is Ok,
    ensures
        section_start(transaction_sections(transaction, bytes, colors), 0) == 0,
        section_start(
            transaction_sections(transaction, bytes, colors),
            transaction_sections(transaction, bytes, colors).len(),
        ) == bytes.len(),
        forall|i: nat|
            i < transaction_sections(transaction, bytes, colors).len() ==> section_start(
                transaction_sections(transaction, bytes, colors),
                i + 1,
            ) == section_start(transaction_sections(transaction, bytes, colors), i)
                + #[trigger] transaction_sections(transaction, bytes, colors)[i as int].bytes.len(),
        forall|i: nat|
            i < transaction_sections(transaction, bytes, colors).len()
                && #[trigger] transaction_sections(transaction, bytes, colors)[i as int].bytes.len()
                > 0 ==> section_start(transaction_sections(transaction, bytes, colors), i)
                < section_start(transaction_sections(transaction, bytes, colors), i + 1),
        forall|i: nat, j: nat|
            i <= j <= transaction_sections(transaction, bytes, colors).len() ==> #[trigger] section_start(
                transaction_sections(transaction, bytes, colors),
                i,
            ) <= #[trigger] section_start(transaction_sections(transaction, bytes, colors), j),
{
    let plan = plan_of(transaction);
    let s = sections_of(plan, bytes, colors);
    let n = plan.len();
    lemma_section_start_is_end(plan, bytes, colors, 0);
    lemma_section_start_is_end(plan, bytes, colors, n);
    assert forall|i: nat| i < s.len() implies section_start(s, i + 1) == section_start(s, i)
        + #[trigger] s[i as int].bytes.len() by {
        lemma_section_start_is_end(plan, bytes, colors, i);
        lemma_section_start_is_end(plan, bytes, colors, i + 1);
        lemma_no_overrun(plan, bytes, 0, i);
        lemma_end_monotone(plan, bytes, i, i + 1);
    }
    assert forall|i: nat| i < s.len() && #[trigger] s[i as int].bytes.len() > 0 implies section_start(
        s,
        i,
    ) < section_start(s, i + 1) by {
        lemma_section_start_is_end(plan, bytes, colors, i);
        lemma_section_start_is_end(plan, bytes, colors, i + 1);
        lemma_no_overrun(plan, bytes, 0, i);
        lemma_end_monotone(plan, bytes, i, i + 1);
    }
    assert forall|i: nat, j: nat| i <= j <= s.len() implies #[trigger] section_start(s, i)
        <= #[trigger] section_start(s, j) by {
        lemma_section_start_is_end(plan, bytes, colors, i);
        lemma_section_start_is_end(plan, bytes, colors, j);
        lemma_end_monotone(plan, bytes, i, j);
    }
}

/// An empty buffer holds not even the signature count: it is refused at
/// offset zero, so it yields no section, and no section list gives a grid of
/// no rows.
pub proof fn lemma_empty_buffer_yields_no_sections(
    transaction: Transaction,
    width: nat,
    height: nat,
)
    ensures
        extract_outcome(plan_of(transaction), Seq::empty()) == Err::<(), ExtractError>(
            ExtractError::Truncated { offset: 0, field: Field::SignatureCount },
        ),
        grid_of(Seq::empty(), width, height).len() == 0,
{
    assert(crate::grid::cells_of(Seq::empty()) =~= Seq::empty());
    let plan = plan_of(transaction);
    let bytes = Seq::<u8>::empty();
    assert(plan[0] == compact(Field::SignatureCount, transaction.signatures@.len()));
    assert(piece_end(plan, bytes, 0) == 0);
    assert(piece_end(plan, bytes, 1) >= 1);
}

} // verus!
