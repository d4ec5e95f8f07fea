use vstd::prelude::*;
use crate::palette::Rgb;
use crate::sections::{section_views, SectionView, TransactionByteSection};

verus! {

/// Columns that one byte takes on screen: two hex digits and a space.
pub const CELL_WIDTH: u16 = 3;

/// One byte of the grid with the colour of its section.
#[derive(Clone, Copy, Debug, PartialEq, Eq, Structural)]
pub struct GridCell {
    pub byte: u8,
    pub color: Rgb,
}

pub open spec fn section_cells(s: SectionView) -> Seq<GridCell> {
    Seq::new(s.bytes.len(), |i: int| GridCell { byte: s.bytes[i], color: s.color })
}

/// The bytes of all sections in order, each with its section's colour.
pub open spec fn cells_of(s: Seq<SectionView>) -> Seq<GridCell>
    decreases s.len(),
{
    if s.len() == 0 {
        Seq::empty()
    } else {
        cells_of(s.drop_last()) + section_cells(s.last())
    }
}

/// Number of rows that `total` bytes fill at `per_row` bytes a row, the last
/// one possibly partial.
pub open spec fn rows_needed(total: nat, per_row: nat) -> nat {
    if per_row == 0 {
        0
    } else {
        (total / per_row + if total % per_row == 0 {
            0nat
        } else {
            1nat
        }) as nat
    }
}

pub open spec fn min(a: nat, b: nat) -> nat {
    if a <= b {
        a
    } else {
        b
    }
}

/// Rows of `per_row` cells from `start` on, at most `limit` of them.
pub open spec fn rows_from(cells: Seq<GridCell>, per_row: nat, start: nat, limit: nat) -> Seq<
    Seq<GridCell>,
>
    decreases limit,
{
    if per_row == 0 || start >= cells.len() || limit == 0 {
        Seq::empty()
    } else {
        seq![cells.subrange(start as int, min(start + per_row, cells.len()) as int)] + rows_from(
            cells,
            per_row,
            start + per_row,
            (limit - 1) as nat,
        )
    }
}

/// The grid of a section list in an area `width` columns wide and `height` rows high.
pub open spec fn grid_of(s: Seq<SectionView>, width: nat, height: nat) -> Seq<Seq<GridCell>> {
    rows_from(cells_of(s), width / CELL_WIDTH as nat, 0, height)
}

pub open spec fn row_views(rows: Seq<Vec<GridCell>>) -> Seq<Seq<GridCell>> {
    rows.map_values(|r: Vec<GridCell>| r@)
}

proof fn lemma_rows_needed_step(total: nat, per_row: nat)
    requires
        0 < per_row < total,
    ensures
        rows_needed(total, per_row) == 1 + rows_needed((total - per_row) as nat, per_row),
{
    let y = total - per_row;
    vstd::arithmetic::div_mod::lemma_div_plus_one(y, per_row as int);
    vstd::arithmetic::div_mod::lemma_mod_add_multiples_vanish(y, per_row as int);
    assert(per_row + y == total);
}

proof fn lemma_rows_needed_last(total: nat, per_row: nat)
    requires
        0 < total <= per_row,
    ensures
        rows_needed(total, per_row) == 1,
{
    if total == per_row {
        vstd::arithmetic::div_mod::lemma_div_by_self(per_row as int);
        vstd::arithmetic::div_mod::lemma_mod_self_0(per_row as int);
    } else {
        vstd::arithmetic::div_mod::lemma_basic_div(total as int, per_row as int);
        vstd::arithmetic::div_mod::lemma_small_mod(total, per_row);
    }
}

proof fn lemma_rows_from_len(cells: Seq<GridCell>, per_row: nat, start: nat, limit: nat)
    requires
        0 < per_row,
        start <= cells.len(),
    ensures
        rows_from(cells, per_row, start, limit).len() == min(
            rows_needed((cells.len() - start) as nat, per_row),
            limit,
        ),
    decreases limit,
{
    let rest = (cells.len() - start) as nat;
    if rest == 0 {
        vstd::arithmetic::div_mod::lemma_basic_div(0, per_row as int);
        vstd::arithmetic::div_mod::lemma_small_mod(0, per_row);
    } else if limit == 0 {
    } else if rest <= per_row {
        lemma_rows_needed_last(rest, per_row);
        assert(rows_from(cells, per_row, start + per_row, (limit - 1) as nat) =~= Seq::empty());
    } else {
        lemma_rows_needed_step(rest, per_row);
        lemma_rows_from_len(cells, per_row, start + per_row, (limit - 1) as nat);
    }
}

/// The cells of the grid, one per byte of the sections, in order.
pub fn byte_cells(sections: &[TransactionByteSection]) -> (cells: Vec<GridCell>)
    ensures
        cells@ == cells_of(section_views(sections@)),
{
    let mut cells: Vec<GridCell> = Vec::new();
    let mut k: usize = 0;
    while k < sections.len()
        invariant
            k <= sections@.len(),
            cells@ == cells_of(section_views(sections@.take(k as int))),
        decreases sections@.len() - k,
    {
        let section = &sections[k];
        let ghost base = cells@;
        let mut i: usize = 0;
        while i < section.bytes.len()
            invariant
                i <= section.bytes@.len(),
                section == sections@[k as int],
                cells@ =~= base + section_cells(section@).take(i as int),
            decreases section.bytes@.len() - i,
        {
            cells.push(GridCell { byte: section.bytes[i], color: section.color });
            i += 1;
        }
        proof {
            let before = section_views(sections@.take(k as int));
            let after = section_views(sections@.take(k + 1));
            assert(after.drop_last() =~= before);
            assert(after.last() == section@);
            assert(section_cells(section@).take(i as int) =~= section_cells(section@));
        }
        k += 1;
    }
    assert(sections@.take(sections@.len() as int) =~= sections@);
    cells
}

/// Bytes that fit in a row `width` columns wide.
pub fn bytes_per_row(width: u16) -> (r: usize)
    ensures
        r as nat == width as nat / CELL_WIDTH as nat,
{
    (width / CELL_WIDTH) as usize
}

/// Rows that `total_bytes` bytes fill at `per_row` bytes a row.
pub fn row_count(total_bytes: usize, per_row: usize) -> (r: usize)
    requires
        per_row > 0,
    ensures
        r as nat == rows_needed(total_bytes as nat, per_row as nat),
{
    let full = total_bytes / per_row;
    if total_bytes % per_row == 0 {
        full
    } else {
        assert(full < usize::MAX) by {
            if per_row == 1 {
                vstd::arithmetic::div_mod::lemma_small_mod(0, 1);
                vstd::arithmetic::div_mod::lemma_mod_multiples_basic(total_bytes as int, 1);
            } else {
                vstd::arithmetic::div_mod::lemma_div_is_ordered_by_denominator(
                    total_bytes as int,
                    2,
                    per_row as int,
                );
            }
        }
        full + 1
    }
}

/// Row and column of the byte at `index` in rows of `per_row` bytes.
pub fn cell_position(index: usize, per_row: usize) -> (r: (usize, usize))
    requires
        per_row > 0,
    ensures
        r.0 == index / per_row,
        r.1 == index % per_row,
{
    (index / per_row, index % per_row)
}

/// The grid of the sections' bytes in an area `width` columns wide and `height`
/// rows high: rows of `width / 3` cells, filled left to right then top to bottom
/// across section boundaries, and only as many rows as fit.
pub fn byte_grid(sections: &[TransactionByteSection], width: u16, height: u16) -> (rows: Vec<
    Vec<GridCell>,
>)
    ensures
        row_views(rows@) == grid_of(section_views(sections@), width as nat, height as nat),
        rows@.len() == min(
            rows_needed(
                cells_of(section_views(sections@)).len(),
                width as nat / CELL_WIDTH as nat,
            ),
            height as nat,
        ),
{
    let cells = byte_cells(sections);
    let per_row = bytes_per_row(width);
    let len = cells.len();
    let mut rows: Vec<Vec<GridCell>> = Vec::new();
    let mut start: usize = 0;
    let mut left: usize = height as usize;
    while per_row > 0 && start < len && left > 0
        invariant
            len == cells@.len(),
            start <= len,
            left <= height,
            row_views(rows@) + rows_from(cells@, per_row as nat, start as nat, left as nat)
                == rows_from(cells@, per_row as nat, 0, height as nat),
        decreases left,
    {
        let end: usize = if len - start > per_row {
            start + per_row
        } else {
            len
        };
        let mut row: Vec<GridCell> = Vec::new();
        let mut i: usize = start;
        while i < end
            invariant
                start <= i <= end,
                end <= len,
                len == cells@.len(),
                row@ =~= cells@.subrange(start as int, i as int),
            decreases end - i,
        {
            row.push(cells[i]);
            i += 1;
        }
        proof {
            let tail = rows_from(cells@, per_row as nat, start as nat, left as nat);
            let next = rows_from(cells@, per_row as nat, (start + per_row) as nat, (left - 1) as nat);
            assert(tail == seq![row@] + next);
            if end == len {
                assert(next =~= Seq::empty());
                assert(rows_from(cells@, per_row as nat, end as nat, (left - 1) as nat) =~= Seq::empty());
            }
            assert(row_views(rows@.push(row)) =~= row_views(rows@).push(row@));
        }
        rows.push(row);
        start = end;
        left -= 1;
    }
    proof {
        assert(rows_from(cells@, per_row as nat, start as nat, left as nat) =~= Seq::empty());
        assert(row_views(rows@) =~= rows_from(cells@, per_row as nat, 0, height as nat));
        if per_row > 0 {
            lemma_rows_from_len(cells@, per_row as nat, 0, height as nat);
        }
    }
    rows
}

} // verus!
