use tx_layout::compact::compact_len_size;
use tx_layout::grid::{byte_cells, byte_grid, bytes_per_row, cell_position, row_count};
use tx_layout::legend::legend_entries;
use tx_layout::palette::{generate, ColorSet, Rgb, PALETTE_SIZE, ROLE_COUNT};
use tx_layout::sections::TransactionByteSection;
use tx_layout::text::decimal_text;

fn section(label: Option<&str>, len: usize, color: Rgb) -> TransactionByteSection {
    TransactionByteSection {
        label: label.map(|l| l.to_string()),
        bytes: (0..len).map(|i| i as u8).collect(),
        color,
    }
}

fn rgb(r: u8) -> Rgb {
    Rgb { r, g: 0, b: 0 }
}

#[test]
fn generate_is_deterministic() {
    for n in [1usize, 17, 60] {
        let a = generate(n);
        let b = generate(n);
        assert_eq!(a, b);
        assert_eq!(a.len(), n);
    }
}

#[test]
fn generate_one_is_the_first_candidate() {
    assert_eq!(generate(1), vec![Rgb { r: 0, g: 85, b: 170 }]);
    assert!(generate(0).is_empty());
}

#[test]
fn generate_shuffles_the_candidates() {
    let mut got: Vec<(u8, u8, u8)> = generate(4).iter().map(|c| (c.r, c.g, c.b)).collect();
    got.sort();
    assert_eq!(got, vec![(0, 85, 170), (64, 149, 234), (128, 213, 42), (192, 21, 106)]);
}

#[test]
fn color_set_splits_the_palette() {
    let colors = ColorSet::new();
    let all = generate(PALETTE_SIZE);
    assert_eq!(colors.roles[..], all[..ROLE_COUNT]);
    assert_eq!(colors.key_slots[..], all[ROLE_COUNT..]);
    assert_eq!(colors.key_slots.len(), 43);
}

#[test]
fn compact_prefix_widths() {
    assert_eq!(compact_len_size(0), 1);
    assert_eq!(compact_len_size(127), 1);
    assert_eq!(compact_len_size(128), 2);
    assert_eq!(compact_len_size(16383), 2);
    assert_eq!(compact_len_size(16384), 3);
}

#[test]
fn decimal_text_of_indexes() {
    assert_eq!(decimal_text(0), "0");
    assert_eq!(decimal_text(9), "9");
    assert_eq!(decimal_text(407), "407");
}

#[test]
fn grid_row_counts() {
    assert_eq!(row_count(100, 20), 5);
    assert_eq!(row_count(101, 20), 6);
    assert_eq!(bytes_per_row(60), 20);
    assert_eq!(bytes_per_row(62), 20);
    let hundred = vec![section(Some("a"), 100, rgb(1))];
    assert_eq!(byte_grid(&hundred, 60, 50).len(), 5);
    let more = vec![section(Some("a"), 60, rgb(1)), section(Some("b"), 41, rgb(2))];
    let rows = byte_grid(&more, 60, 50);
    assert_eq!(rows.len(), 6);
    assert!(rows[..5].iter().all(|r| r.len() == 20));
    assert_eq!(rows[5].len(), 1);
}

#[test]
fn grid_wraps_across_sections_and_keeps_colors() {
    let s = vec![section(Some("a"), 3, rgb(1)), section(Some("b"), 4, rgb(2))];
    let rows = byte_grid(&s, 15, 10);
    assert_eq!(rows.len(), 2);
    let colors: Vec<u8> = rows.iter().flatten().map(|c| c.color.r).collect();
    assert_eq!(colors, vec![1, 1, 1, 2, 2, 2, 2]);
    let bytes: Vec<u8> = rows.iter().flatten().map(|c| c.byte).collect();
    assert_eq!(bytes, vec![0, 1, 2, 0, 1, 2, 3]);
    assert_eq!(byte_cells(&s).len(), 7);
}

#[test]
fn grid_is_cut_to_the_height_and_needs_a_cell_of_width() {
    let s = vec![section(None, 101, rgb(1))];
    assert_eq!(byte_grid(&s, 60, 3).len(), 3);
    assert!(byte_grid(&s, 2, 10).is_empty());
    assert!(byte_grid(&[], 60, 10).is_empty());
}

#[test]
fn cell_positions() {
    assert_eq!(cell_position(0, 20), (0, 0));
    assert_eq!(cell_position(45, 20), (2, 5));
}

#[test]
fn legend_lists_each_label_once_in_first_order() {
    let s = vec![
        section(Some("Number of Instructions"), 1, rgb(1)),
        section(None, 1, rgb(9)),
        section(Some("Instruction Data"), 2, rgb(2)),
        section(None, 1, rgb(8)),
        section(Some("Instruction Data"), 2, rgb(2)),
        section(Some(""), 1, rgb(7)),
        section(Some("Instruction Data"), 2, rgb(2)),
        section(Some("Recent Blockhash"), 1, rgb(3)),
    ];
    let legend = legend_entries(&s);
    let got: Vec<(&str, u8)> = legend.iter().map(|e| (e.label.as_str(), e.color.r)).collect();
    assert_eq!(got, vec![("Number of Instructions", 1), ("Instruction Data", 2), ("Recent Blockhash", 3)]);
}

#[test]
fn legend_keeps_the_first_color() {
    let s = vec![section(Some("x"), 1, rgb(4)), section(Some("x"), 1, rgb(5))];
    let legend = legend_entries(&s);
    assert_eq!(legend.len(), 1);
    assert_eq!(legend[0].color, rgb(4));
    assert!(legend_entries(&[]).is_empty());
}
