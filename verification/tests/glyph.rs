use gpu_util::glyph::{bitmap, build_glyph_table, GLYPH_TABLE_SIZE};
use gpu_util::text::glyph_table_bytes;

#[test]
fn bitmap_single_pixel_top_left_is_bit_zero() {
    assert_eq!(bitmap(["X..", "...", "...", "...", "..."]), 1);
}

#[test]
fn bitmap_rows_occupy_three_bits_each() {
    assert_eq!(bitmap(["XXX", "...", "...", "...", "..."]), 0b111);
    assert_eq!(bitmap(["...", "XXX", "...", "...", "..."]), 0b111 << 3);
    assert_eq!(bitmap(["...", "...", "...", "...", "XXX"]), 0b111 << 12);
    assert_eq!(bitmap(["..X", "...", "...", "...", "..."]), 1 << 2);
}

#[test]
fn bitmap_blank_glyph_is_zero() {
    assert_eq!(bitmap(["...", "...", "...", "...", "..."]), 0);
}

#[test]
fn bitmap_reads_only_three_columns() {
    assert_eq!(bitmap(["XXXX", "...X", "....", "....", "...."]), 0b111);
}

#[test]
fn bitmap_short_rows_are_blank_past_their_end() {
    assert_eq!(bitmap(["X", "", ".X", "", "XX"]), 1 | (1 << 7) | (1 << 12) | (1 << 13));
}

#[test]
fn bitmap_only_capital_x_lights_a_pixel() {
    assert_eq!(bitmap(["x#o", "XxX", "é.X", "...", "..."]), (1 << 3) | (1 << 5) | (1 << 8));
}

#[test]
fn bitmap_multibyte_characters_count_as_one_column() {
    assert_eq!(bitmap(["ééX", "...", "...", "...", "..."]), 1 << 2);
}

#[test]
fn bitmap_full_glyph_uses_fifteen_bits() {
    assert_eq!(bitmap(["XXX", "XXX", "XXX", "XXX", "XXX"]), 0x7fff);
}

#[test]
fn glyph_table_known_glyphs() {
    let g = build_glyph_table();
    assert_eq!(g.len(), GLYPH_TABLE_SIZE);
    assert_eq!(g[b'?' as usize], 8355);
    assert_eq!(g[b'A' as usize], 23530);
    assert_eq!(g[b'0' as usize], 31599);
    assert_eq!(g[b'!' as usize], 8338);
    assert_eq!(g[b'Z' as usize], 29351);
    assert_eq!(g[b'T' as usize], 9367);
    assert_eq!(g[b'"' as usize], 45);
    assert_eq!(g[b'~' as usize], 240);
    assert_eq!(g[b'#' as usize], 24445);
    assert_eq!(g[b'\\' as usize], 18569);
    assert_eq!(g.iter().map(|&w| w as u64).sum::<u64>(), 1787339);
}

#[test]
fn glyph_table_matches_bitmap_of_drawing() {
    let g = build_glyph_table();
    assert_eq!(g[b'A' as usize], bitmap([".X.", "X.X", "XXX", "X.X", "X.X"]));
}

#[test]
fn glyph_table_control_codes_space_and_del_are_blank() {
    let g = build_glyph_table();
    for code in 0..=32usize {
        assert_eq!(g[code], 0);
    }
    assert_eq!(g[127], 0);
}

#[test]
fn glyph_table_covers_every_printable_code() {
    let g = build_glyph_table();
    for code in b'!'..=b'~' {
        assert_ne!(g[code as usize], 0, "code {}", code);
    }
    for ch in ['"', '$', '&', '\'', '<', '>', '@', '^', '`', '{', '}', '~'] {
        assert_ne!(g[ch as usize], 0);
    }
}

#[test]
fn glyph_table_rows_are_top_row_first() {
    let g = build_glyph_table();
    // The dot of '?' is on the bottom row.
    assert_eq!((g[b'?' as usize] >> 12) & 7, 0b010);
    // The bars of 'T' and '7' are on the top row.
    assert_eq!(g[b'T' as usize] & 7, 0b111);
    assert_eq!(g[b'7' as usize] & 7, 0b111);
    // The bar of 'L' is on the bottom row, its stem on the left.
    assert_eq!((g[b'L' as usize] >> 12) & 7, 0b111);
    assert_eq!(g[b'L' as usize] & 7, 0b001);
    // '_' and '!' as drawn.
    assert_eq!((g[b'_' as usize] >> 12) & 7, 0b111);
    assert_eq!((g[b'!' as usize] >> 12) & 7, 0b010);
}

#[test]
fn glyph_table_lowercase_is_uppercase() {
    let g = build_glyph_table();
    for code in b'a'..=b'z' {
        assert_eq!(g[code as usize], g[(code - 32) as usize]);
        assert_ne!(g[code as usize], 0);
    }
}

#[test]
fn glyph_table_words_fit_fifteen_bits() {
    let g = build_glyph_table();
    for &w in g.iter() {
        assert!(w < 0x8000);
    }
}

#[test]
fn glyph_table_bytes_are_the_table_in_memory_order() {
    let g = build_glyph_table();
    let bytes = glyph_table_bytes();
    assert_eq!(bytes.len(), 4 * GLYPH_TABLE_SIZE);
    let expected: Vec<u8> = g.iter().flat_map(|w| w.to_ne_bytes()).collect();
    assert_eq!(bytes, expected);
}
