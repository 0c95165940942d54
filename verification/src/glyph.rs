//! The 3×5 bitmap font. A glyph is drawn as five rows of three cells; a cell
//! holding `X` is lit. Row `r`, column `c` is stored in bit `3 * r + c` of a
//! `u32`, so row 0 occupies bits 0..=2 and row 4 occupies bits 12..=14.

use vstd::prelude::*;
use vstd::std_specs::iter::IteratorSpec;
use crate::font_table::{font_word, lemma_glyph_words_are_font_words};

verus! {

broadcast use vstd::string::next_postcondition;

/// Whether the cell at row `r`, column `c` of the drawn rows is lit: it lies
/// inside the 5×3 grid, the row is long enough, and the character there is `X`.
pub open spec fn pixel_lit(rows: Seq<Seq<char>>, r: int, c: int) -> bool {
    &&& 0 <= r < 5
    &&& r < rows.len()
    &&& 0 <= c < 3
    &&& c < rows[r].len()
    &&& rows[r][c] == 'X'
}

/// The glyph word built from the first `k` cells, taken in bit order
/// (cell `k` is row `k / 3`, column `k % 3`).
pub open spec fn packed_cells(rows: Seq<Seq<char>>, k: nat) -> u32
    decreases k,
{
    if k == 0 {
        0
    } else {
        let j = (k - 1) as nat;
        let prev = packed_cells(rows, j);
        if pixel_lit(rows, (j / 3) as int, (j % 3) as int) {
            prev | (1u32 << (j as u32))
        } else {
            prev
        }
    }
}

/// The packed glyph word of a drawing.
#[verifier::opaque]
pub open spec fn glyph_bits(rows: Seq<Seq<char>>) -> u32 {
    packed_cells(rows, 15)
}

/// The drawing held by an array of five row strings.
pub open spec fn rows_view(rows: [&str; 5]) -> Seq<Seq<char>> {
    Seq::new(5, |i: int| rows[i]@)
}

/// Cells of row `r` past the end of its string are blank, so they leave the
/// packed word unchanged.
proof fn lemma_blank_row_tail(rows: Seq<Seq<char>>, r: int, c: int)
    requires
        0 <= r < 5,
        r < rows.len(),
        0 <= c <= 3,
        rows[r].len() <= c,
    ensures
        packed_cells(rows, (3 * r + 3) as nat) == packed_cells(rows, (3 * r + c) as nat),
    decreases 3 - c,
{
    if c < 3 {
        lemma_blank_row_tail(rows, r, c + 1);
        let j = (3 * r + c) as nat;
        assert(j / 3 == r && j % 3 == c);
        assert(packed_cells(rows, (j + 1) as nat) == packed_cells(rows, j));
    }
}

/// Setting bit `n` of `x` sets bit `n` and leaves every other bit as it was;
/// when `x` is below `2^n`, the result is below `2^(n+1)`.
proof fn lemma_set_bit(x: u32, n: u32, k: u32)
    by (bit_vector)
    requires
        n < 31,
        k < 32,
    ensures
        (((x | (1u32 << n)) >> k) & 1u32 == 1u32) == (((x >> k) & 1u32 == 1u32) || k == n),
        x < (1u32 << n) ==> (x | (1u32 << n)) < (1u32 << (n + 1)),
        x < (1u32 << n) ==> x < (1u32 << (n + 1)),
{
}

proof fn lemma_zero_bits(k: u32)
    by (bit_vector)
    requires
        k < 32,
    ensures
        (0u32 >> k) & 1u32 != 1u32,
        0u32 < (1u32 << 0u32),
{
}

/// After the first `n` cells, bit `k` is set exactly when `k < n` and cell
/// `k` is lit, and the word stays below `2^n`.
pub(crate) proof fn lemma_packed_cells_bits(rows: Seq<Seq<char>>, n: nat)
    requires
        n <= 15,
    ensures
        packed_cells(rows, n) < (1u32 << (n as u32)),
        forall|k: u32|
            k < 32 ==> ((((packed_cells(rows, n) >> k) & 1u32) == 1u32) == (k < n && pixel_lit(
                rows,
                (k / 3) as int,
                (k % 3) as int,
            ))),
    decreases n,
{
    if n == 0 {
        assert forall|k: u32| k < 32 implies ((packed_cells(rows, 0) >> k) & 1u32) != 1u32 by {
            lemma_zero_bits(k);
        }
        lemma_zero_bits(0);
    } else {
        let j = (n - 1) as nat;
        lemma_packed_cells_bits(rows, j);
        let x = packed_cells(rows, j);
        lemma_set_bit(x, j as u32, 0);
        assert forall|k: u32| k < 32 implies ((((packed_cells(rows, n) >> k) & 1u32) == 1u32) == (k
            < n && pixel_lit(rows, (k / 3) as int, (k % 3) as int))) by {
            lemma_set_bit(x, j as u32, k);
        }
    }
}

/// Law of the glyph layout: in a packed glyph, bit `3 * r + c` is set exactly
/// when row `r`, column `c` of the drawing is lit, and no bit from 15 up is set.
pub proof fn lemma_glyph_bit_layout(rows: Seq<Seq<char>>)
    ensures
        glyph_bits(rows) < 0x8000,
        forall|r: int, c: int|
            0 <= r < 5 && 0 <= c < 3 ==> ((((glyph_bits(rows) >> ((3 * r + c) as u32)) & 1u32)
                == 1u32) == pixel_lit(rows, r, c)),
{
    reveal(glyph_bits);
    lemma_packed_cells_bits(rows, 15);
    assert((1u32 << 15u32) == 0x8000) by (bit_vector);
    assert forall|r: int, c: int| 0 <= r < 5 && 0 <= c < 3 implies ((((glyph_bits(rows) >> ((3 * r
        + c) as u32)) & 1u32) == 1u32) == pixel_lit(rows, r, c)) by {
        let k = (3 * r + c) as u32;
        assert(k / 3 == r && k % 3 == c);
    }
}

/// Pack a 3×5 visual glyph (top-to-bottom rows) into a `u32`. Only the first
/// three characters of each row are read; `X` sets a pixel, anything else
/// leaves it blank.
pub fn bitmap(rows: [&str; 5]) -> (v: u32)
    ensures
        v == glyph_bits(rows_view(rows)),
        v < 0x8000,
        forall|r: int, c: int|
            0 <= r < 5 && 0 <= c < 3 ==> ((((v >> ((3 * r + c) as u32)) & 1u32) == 1u32)
                == pixel_lit(rows_view(rows), r, c)),
{
    let ghost view = rows_view(rows);
    let mut v: u32 = 0;
    let mut r: usize = 0;
    while r < 5
        invariant
            r <= 5,
            view == rows_view(rows),
            v == packed_cells(view, (3 * r) as nat),
        decreases 5 - r,
    {
        let row: &str = rows[r];
        assert(row@ == view[r as int]);
        let mut chars = row.chars();
        let mut c: usize = 0;
        while c < 3
            invariant_except_break
                r < 5,
                c <= 3,
                view == rows_view(rows),
                row@ == view[r as int],
                c <= row@.len(),
                chars.remaining() == row@.skip(c as int),
                v == packed_cells(view, (3 * r + c) as nat),
            ensures
                v == packed_cells(view, (3 * r + 3) as nat),
            decreases 3 - c,
        {
            match chars.next() {
                Some(ch) => {
                    if ch == 'X' {
                        v = v | (1u32 << ((r * 3 + c) as u32));
                    }
                },
                None => {
                    proof {
                        lemma_blank_row_tail(view, r as int, c as int);
                    }
                    break;
                },
            }
            c += 1;
        }
        r += 1;
    }
    proof {
        reveal(glyph_bits);
        lemma_glyph_bit_layout(view);
    }
    v
}

/// Size of the glyph table: the font covers the printable ASCII codes
/// 32..=126, and earlier codes are zero-padded so that a glyph is found by
/// indexing with its ASCII value directly.
pub const GLYPH_TABLE_SIZE: usize = 128;

/// The font: the drawing of each ASCII code that has one, as five rows of
/// three cells, top row first. Every printable code from `'!'` to `'~'` is
/// drawn, lowercase letters as their uppercase forms (see [`glyph_word`]);
/// the space, the control codes and DEL have no drawing.
#[verifier::opaque]
pub open spec fn font_glyph(code: int) -> Option<[&'static str; 5]> {
    if code == '!' as int {
        Some([".X.", ".X.", ".X.", "...", ".X."])
    } else if code == '.' as int {
        Some(["...", "...", "...", "...", ".X."])
    } else if code == ',' as int {
        Some(["...", "...", "...", ".X.", ".X."])
    } else if code == ':' as int {
        Some([".X.", "...", "...", "...", ".X."])
    } else if code == ';' as int {
        Some([".X.", "...", "...", ".X.", ".X."])
    } else if code == '-' as int {
        Some(["...", "...", "XXX", "...", "..."])
    } else if code == '+' as int {
        Some(["...", ".X.", "XXX", ".X.", "..."])
    } else if code == '=' as int {
        Some(["...", "XXX", "...", "XXX", "..."])
    } else if code == '/' as int {
        Some(["..X", "..X", ".X.", "X..", "X.."])
    } else if code == '\\' as int {
        Some(["X..", "X..", ".X.", "..X", "..X"])
    } else if code == '|' as int {
        Some([".X.", ".X.", ".X.", ".X.", ".X."])
    } else if code == '(' as int {
        Some(["..X", ".X.", ".X.", ".X.", "..X"])
    } else if code == ')' as int {
        Some(["X..", ".X.", ".X.", ".X.", "X.."])
    } else if code == '[' as int {
        Some([".XX", ".X.", ".X.", ".X.", ".XX"])
    } else if code == ']' as int {
        Some(["XX.", ".X.", ".X.", ".X.", "XX."])
    } else if code == '_' as int {
        Some(["...", "...", "...", "...", "XXX"])
    } else if code == '#' as int {
        Some(["X.X", "XXX", "X.X", "XXX", "X.X"])
    } else if code == '*' as int {
        Some(["...", "X.X", ".X.", "X.X", "..."])
    } else if code == '%' as int {
        Some(["X.X", "..X", ".X.", "X..", "X.X"])
    } else if code == '?' as int {
        Some(["XX.", "..X", ".X.", "...", ".X."])
    } else if code == '"' as int {
        Some(["X.X", "X.X", "...", "...", "..."])
    } else if code == '$' as int {
        Some([".XX", "XX.", ".X.", ".XX", "XX."])
    } else if code == '&' as int {
        Some([".X.", "X.X", ".X.", "X.X", ".XX"])
    } else if code == '\'' as int {
        Some([".X.", ".X.", "...", "...", "..."])
    } else if code == '<' as int {
        Some(["..X", ".X.", "X..", ".X.", "..X"])
    } else if code == '>' as int {
        Some(["X..", ".X.", "..X", ".X.", "X.."])
    } else if code == '@' as int {
        Some([".X.", "X.X", "XXX", "X..", ".XX"])
    } else if code == '^' as int {
        Some([".X.", "X.X", "...", "...", "..."])
    } else if code == '`' as int {
        Some(["X..", ".X.", "...", "...", "..."])
    } else if code == '{' as int {
        Some([".XX", ".X.", "XX.", ".X.", ".XX"])
    } else if code == '}' as int {
        Some(["XX.", ".X.", ".XX", ".X.", "XX."])
    } else if code == '~' as int {
        Some(["...", ".XX", "XX.", "...", "..."])
    } else if code == '0' as int {
        Some(["XXX", "X.X", "X.X", "X.X", "XXX"])
    } else if code == '1' as int {
        Some([".X.", "XX.", ".X.", ".X.", "XXX"])
    } else if code == '2' as int {
        Some(["XXX", "..X", "XXX", "X..", "XXX"])
    } else if code == '3' as int {
        Some(["XXX", "..X", ".XX", "..X", "XXX"])
    } else if code == '4' as int {
        Some(["X.X", "X.X", "XXX", "..X", "..X"])
    } else if code == '5' as int {
        Some(["XXX", "X..", "XXX", "..X", "XXX"])
    } else if code == '6' as int {
        Some(["XXX", "X..", "XXX", "X.X", "XXX"])
    } else if code == '7' as int {
        Some(["XXX", "..X", "..X", "..X", "..X"])
    } else if code == '8' as int {
        Some(["XXX", "X.X", "XXX", "X.X", "XXX"])
    } else if code == '9' as int {
        Some(["XXX", "X.X", "XXX", "..X", "XXX"])
    } else if code == 'A' as int {
        Some([".X.", "X.X", "XXX", "X.X", "X.X"])
    } else if code == 'B' as int {
        Some(["XX.", "X.X", "XX.", "X.X", "XX."])
    } else if code == 'C' as int {
        Some(["XXX", "X..", "X..", "X..", "XXX"])
    } else if code == 'D' as int {
        Some(["XX.", "X.X", "X.X", "X.X", "XX."])
    } else if code == 'E' as int {
        Some(["XXX", "X..", "XX.", "X..", "XXX"])
    } else if code == 'F' as int {
        Some(["XXX", "X..", "XX.", "X..", "X.."])
    } else if code == 'G' as int {
        Some(["XXX", "X..", "X..", "X.X", "XXX"])
    } else if code == 'H' as int {
        Some(["X.X", "X.X", "XXX", "X.X", "X.X"])
    } else if code == 'I' as int {
        Some(["XXX", ".X.", ".X.", ".X.", "XXX"])
    } else if code == 'J' as int {
        Some(["XXX", "..X", "..X", "X.X", "XX."])
    } else if code == 'K' as int {
        Some(["X.X", "XX.", "X..", "XX.", "X.X"])
    } else if code == 'L' as int {
        Some(["X..", "X..", "X..", "X..", "XXX"])
    } else if code == 'M' as int {
        Some(["X.X", "XXX", "X.X", "X.X", "X.X"])
    } else if code == 'N' as int {
        Some(["X.X", "XXX", "XXX", "X.X", "X.X"])
    } else if code == 'O' as int {
        Some(["XXX", "X.X", "X.X", "X.X", "XXX"])
    } else if code == 'P' as int {
        Some(["XXX", "X.X", "XXX", "X..", "X.."])
    } else if code == 'Q' as int {
        Some(["XXX", "X.X", "X.X", "XX.", ".XX"])
    } else if code == 'R' as int {
        Some(["XXX", "X.X", "XXX", "XX.", "X.X"])
    } else if code == 'S' as int {
        Some(["XXX", "X..", "XXX", "..X", "XXX"])
    } else if code == 'T' as int {
        Some(["XXX", ".X.", ".X.", ".X.", ".X."])
    } else if code == 'U' as int {
        Some(["X.X", "X.X", "X.X", "X.X", "XXX"])
    } else if code == 'V' as int {
        Some(["X.X", "X.X", "X.X", "X.X", ".X."])
    } else if code == 'W' as int {
        Some(["X.X", "X.X", "X.X", "XXX", "X.X"])
    } else if code == 'X' as int {
        Some(["X.X", "X.X", ".X.", "X.X", "X.X"])
    } else if code == 'Y' as int {
        Some(["X.X", "X.X", ".X.", ".X.", ".X."])
    } else if code == 'Z' as int {
        Some(["XXX", "..X", ".X.", "X..", "XXX"])
    } else {
        None
    }
}

/// The packed word of a character's own drawing, or 0 when it has none.
pub open spec fn drawn_word(code: int) -> u32 {
    match font_glyph(code) {
        Some(rows) => glyph_bits(rows_view(rows)),
        None => 0,
    }
}

/// Whether an ASCII code is a lowercase letter.
pub open spec fn is_lowercase_code(code: int) -> bool {
    'a' as int <= code <= 'z' as int
}

/// The glyph table entry for an ASCII code: lowercase letters share the
/// glyph of their uppercase letter, every other code has its own drawing.
pub open spec fn glyph_word(code: int) -> u32 {
    if is_lowercase_code(code) {
        drawn_word(code - 32)
    } else {
        drawn_word(code)
    }
}

/// Build the glyph table, indexed by ASCII code.
#[verifier::rlimit(100)]
#[verifier::spinoff_prover]
pub fn build_glyph_table() -> (table: [u32; GLYPH_TABLE_SIZE])
    ensures
        forall|code: int| 0 <= code < GLYPH_TABLE_SIZE ==> table[code] == glyph_word(code),
        forall|code: int| 0 <= code < GLYPH_TABLE_SIZE ==> table[code] == font_word(code),
{
    let mut g = [0u32; 128];

    // 32 = space
    g[' ' as usize] = 0;

    g['!' as usize] = bitmap([
        ".X.",
        ".X.",
        ".X.",
        "...",
        ".X.",
    ]);
    g['.' as usize] = bitmap([
        "...",
        "...",
        "...",
        "...",
        ".X.",
    ]);
    g[',' as usize] = bitmap([
        "...",
        "...",
        "...",
        ".X.",
        ".X.",
    ]);
    g[':' as usize] = bitmap([
        ".X.",
        "...",
        "...",
        "...",
        ".X.",
    ]);
    g[';' as usize] = bitmap([
        ".X.",
        "...",
        "...",
        ".X.",
        ".X.",
    ]);
    g['-' as usize] = bitmap([
        "...",
        "...",
        "XXX",
        "...",
        "...",
    ]);
    g['+' as usize] = bitmap([
        "...",
        ".X.",
        "XXX",
        ".X.",
        "...",
    ]);
    g['=' as usize] = bitmap([
        "...",
        "XXX",
        "...",
        "XXX",
        "...",
    ]);
    g['/' as usize] = bitmap([
        "..X",
        "..X",
        ".X.",
        "X..",
        "X..",
    ]);
    g['\\' as usize] = bitmap([
        "X..",
        "X..",
        ".X.",
        "..X",
        "..X",
    ]);
    g['|' as usize] = bitmap([
        ".X.",
        ".X.",
        ".X.",
        ".X.",
        ".X.",
    ]);
    g['(' as usize] = bitmap([
        "..X",
        ".X.",
        ".X.",
        ".X.",
        "..X",
    ]);
    g[')' as usize] = bitmap([
        "X..",
        ".X.",
        ".X.",
        ".X.",
        "X..",
    ]);
    g['[' as usize] = bitmap([
        ".XX",
        ".X.",
        ".X.",
        ".X.",
        ".XX",
    ]);
    g[']' as usize] = bitmap([
        "XX.",
        ".X.",
        ".X.",
        ".X.",
        "XX.",
    ]);
    g['_' as usize] = bitmap([
        "...",
        "...",
        "...",
        "...",
        "XXX",
    ]);
    g['#' as usize] = bitmap([
        "X.X",
        "XXX",
        "X.X",
        "XXX",
        "X.X",
    ]);
    g['*' as usize] = bitmap([
        "...",
        "X.X",
        ".X.",
        "X.X",
        "...",
    ]);
    g['%' as usize] = bitmap([
        "X.X",
        "..X",
        ".X.",
        "X..",
        "X.X",
    ]);
    g['?' as usize] = bitmap([
        "XX.",
        "..X",
        ".X.",
        "...",
        ".X.",
    ]);
    g['"' as usize] = bitmap([
        "X.X",
        "X.X",
        "...",
        "...",
        "...",
    ]);
    g['$' as usize] = bitmap([
        ".XX",
        "XX.",
        ".X.",
        ".XX",
        "XX.",
    ]);
    g['&' as usize] = bitmap([
        ".X.",
        "X.X",
        ".X.",
        "X.X",
        ".XX",
    ]);
    g['\'' as usize] = bitmap([
        ".X.",
        ".X.",
        "...",
        "...",
        "...",
    ]);
    g['<' as usize] = bitmap([
        "..X",
        ".X.",
        "X..",
        ".X.",
        "..X",
    ]);
    g['>' as usize] = bitmap([
        "X..",
        ".X.",
        "..X",
        ".X.",
        "X..",
    ]);
    g['@' as usize] = bitmap([
        ".X.",
        "X.X",
        "XXX",
        "X..",
        ".XX",
    ]);
    g['^' as usize] = bitmap([
        ".X.",
        "X.X",
        "...",
        "...",
        "...",
    ]);
    g['`' as usize] = bitmap([
        "X..",
        ".X.",
        "...",
        "...",
        "...",
    ]);
    g['{' as usize] = bitmap([
        ".XX",
        ".X.",
        "XX.",
        ".X.",
        ".XX",
    ]);
    g['}' as usize] = bitmap([
        "XX.",
        ".X.",
        ".XX",
        ".X.",
        "XX.",
    ]);
    g['~' as usize] = bitmap([
        "...",
        ".XX",
        "XX.",
        "...",
        "...",
    ]);

    // Digits 0-9
    g['0' as usize] = bitmap([
        "XXX",
        "X.X",
        "X.X",
        "X.X",
        "XXX",
    ]);
    g['1' as usize] = bitmap([
        ".X.",
        "XX.",
        ".X.",
        ".X.",
        "XXX",
    ]);
    g['2' as usize] = bitmap([
        "XXX",
        "..X",
        "XXX",
        "X..",
        "XXX",
    ]);
    g['3' as usize] = bitmap([
        "XXX",
        "..X",
        ".XX",
        "..X",
        "XXX",
    ]);
    g['4' as usize] = bitmap([
        "X.X",
        "X.X",
        "XXX",
        "..X",
        "..X",
    ]);
    g['5' as usize] = bitmap([
        "XXX",
        "X..",
        "XXX",
        "..X",
        "XXX",
    ]);
    g['6' as usize] = bitmap([
        "XXX",
        "X..",
        "XXX",
        "X.X",
        "XXX",
    ]);
    g['7' as usize] = bitmap([
        "XXX",
        "..X",
        "..X",
        "..X",
        "..X",
    ]);
    g['8' as usize] = bitmap([
        "XXX",
        "X.X",
        "XXX",
        "X.X",
        "XXX",
    ]);
    g['9' as usize] = bitmap([
        "XXX",
        "X.X",
        "XXX",
        "..X",
        "XXX",
    ]);

    // Uppercase A-Z
    g['A' as usize] = bitmap([
        ".X.",
        "X.X",
        "XXX",
        "X.X",
        "X.X",
    ]);
    g['B' as usize] = bitmap([
        "XX.",
        "X.X",
        "XX.",
        "X.X",
        "XX.",
    ]);
    g['C' as usize] = bitmap([
        "XXX",
        "X..",
        "X..",
        "X..",
        "XXX",
    ]);
    g['D' as usize] = bitmap([
        "XX.",
        "X.X",
        "X.X",
        "X.X",
        "XX.",
    ]);
    g['E' as usize] = bitmap([
        "XXX",
        "X..",
        "XX.",
        "X..",
        "XXX",
    ]);
    g['F' as usize] = bitmap([
        "XXX",
        "X..",
        "XX.",
        "X..",
        "X..",
    ]);
    g['G' as usize] = bitmap([
        "XXX",
        "X..",
        "X..",
        "X.X",
        "XXX",
    ]);
    g['H' as usize] = bitmap([
        "X.X",
        "X.X",
        "XXX",
        "X.X",
        "X.X",
    ]);
    g['I' as usize] = bitmap([
        "XXX",
        ".X.",
        ".X.",
        ".X.",
        "XXX",
    ]);
    g['J' as usize] = bitmap([
        "XXX",
        "..X",
        "..X",
        "X.X",
        "XX.",
    ]);
    g['K' as usize] = bitmap([
        "X.X",
        "XX.",
        "X..",
        "XX.",
        "X.X",
    ]);
    g['L' as usize] = bitmap([
        "X..",
        "X..",
        "X..",
        "X..",
        "XXX",
    ]);
    g['M' as usize] = bitmap([
        "X.X",
        "XXX",
        "X.X",
        "X.X",
        "X.X",
    ]);
    g['N' as usize] = bitmap([
        "X.X",
        "XXX",
        "XXX",
        "X.X",
        "X.X",
    ]);
    g['O' as usize] = bitmap([
        "XXX",
        "X.X",
        "X.X",
        "X.X",
        "XXX",
    ]);
    g['P' as usize] = bitmap([
        "XXX",
        "X.X",
        "XXX",
        "X..",
        "X..",
    ]);
    g['Q' as usize] = bitmap([
        "XXX",
        "X.X",
        "X.X",
        "XX.",
        ".XX",
    ]);
    g['R' as usize] = bitmap([
        "XXX",
        "X.X",
        "XXX",
        "XX.",
        "X.X",
    ]);
    g['S' as usize] = bitmap([
        "XXX",
        "X..",
        "XXX",
        "..X",
        "XXX",
    ]);
    g['T' as usize] = bitmap([
        "XXX",
        ".X.",
        ".X.",
        ".X.",
        ".X.",
    ]);
    g['U' as usize] = bitmap([
        "X.X",
        "X.X",
        "X.X",
        "X.X",
        "XXX",
    ]);
    g['V' as usize] = bitmap([
        "X.X",
        "X.X",
        "X.X",
        "X.X",
        ".X.",
    ]);
    g['W' as usize] = bitmap([
        "X.X",
        "X.X",
        "X.X",
        "XXX",
        "X.X",
    ]);
    g['X' as usize] = bitmap([
        "X.X",
        "X.X",
        ".X.",
        "X.X",
        "X.X",
    ]);
    g['Y' as usize] = bitmap([
        "X.X",
        "X.X",
        ".X.",
        ".X.",
        ".X.",
    ]);
    g['Z' as usize] = bitmap([
        "XXX",
        "..X",
        ".X.",
        "X..",
        "XXX",
    ]);

    assert forall|k: int| 0 <= k < 48 implies g[k] == drawn_word(k) by {
        reveal(font_glyph);
    }
    assert forall|k: int| 48 <= k < 65 implies g[k] == drawn_word(k) by {
        reveal(font_glyph);
    }
    assert forall|k: int| 65 <= k < 91 implies g[k] == drawn_word(k) by {
        reveal(font_glyph);
    }
    assert forall|k: int| 91 <= k < 128 implies g[k] == drawn_word(k) by {
        reveal(font_glyph);
    }

    // Lowercase: alias to uppercase (compact, readable, saves time).
    let mut c: u8 = 'a' as u8;
    while c <= 'z' as u8
        invariant
            'a' as u8 <= c <= 'z' as u8 + 1,
            forall|k: int|
                0 <= k < 128 ==> g[k] == if 'a' as int <= k < c {
                    drawn_word(k - 32)
                } else {
                    drawn_word(k)
                },
        decreases 'z' as u8 + 1 - c,
    {
        g[c as usize] = g[(c - 32) as usize];
        c += 1;
    }
    proof {
        lemma_glyph_words_are_font_words();
        assert forall|code: int| 0 <= code < 128 implies g[code] == glyph_word(code)
            && g[code] == font_word(code) by {
            assert(g[code] == glyph_word(code));
        }
    }
    g
}

/// Law: the control codes, the space and DEL have no glyph, so the table is
/// zero there; indexing by ASCII value finds blank cells for them.
pub proof fn lemma_blank_codes()
    ensures
        forall|code: int| (0 <= code <= 32 || code == 127) ==> #[trigger] glyph_word(code) == 0,
{
    reveal(font_glyph);
}

/// Law: a lowercase letter is drawn exactly as its uppercase letter.
pub proof fn lemma_lowercase_is_uppercase()
    ensures
        forall|code: int| is_lowercase_code(code) ==> #[trigger] glyph_word(code) == glyph_word(code - 32),
{
}

/// Law: every glyph of the table fits in the 15 bits of its 5×3 cells.
pub proof fn lemma_glyph_words_fit()
    ensures
        forall|code: int| #[trigger] glyph_word(code) < 0x8000,
{
    assert forall|code: int| #[trigger] glyph_word(code) < 0x8000 by {
        let c = if is_lowercase_code(code) { code - 32 } else { code };
        if let Some(rows) = font_glyph(c) {
            lemma_glyph_bit_layout(rows_view(rows));
        }
    }
}

/// A drawing with a lit cell packs to a nonzero word.
proof fn lemma_lit_cell_is_visible(rows: Seq<Seq<char>>, r: int, c: int)
    requires
        pixel_lit(rows, r, c),
    ensures
        glyph_bits(rows) != 0,
{
    lemma_glyph_bit_layout(rows);
    let v = glyph_bits(rows);
    let k = (3 * r + c) as u32;
    assert(((v >> k) & 1u32) == 1u32);
    assert(k < 32 && ((v >> k) & 1u32) == 1u32 ==> v != 0) by (bit_vector);
}

/// Some cell of the drawing is lit.
spec fn any_cell_lit(rows: Seq<Seq<char>>) -> bool {
    ||| pixel_lit(rows, 0, 0)
    ||| pixel_lit(rows, 0, 1)
    ||| pixel_lit(rows, 0, 2)
    ||| pixel_lit(rows, 1, 0)
    ||| pixel_lit(rows, 1, 1)
    ||| pixel_lit(rows, 1, 2)
    ||| pixel_lit(rows, 2, 0)
    ||| pixel_lit(rows, 2, 1)
    ||| pixel_lit(rows, 2, 2)
    ||| pixel_lit(rows, 3, 0)
    ||| pixel_lit(rows, 3, 1)
    ||| pixel_lit(rows, 3, 2)
    ||| pixel_lit(rows, 4, 0)
    ||| pixel_lit(rows, 4, 1)
    ||| pixel_lit(rows, 4, 2)
}

proof fn lemma_any_lit_is_visible(rows: Seq<Seq<char>>)
    requires
        any_cell_lit(rows),
    ensures
        glyph_bits(rows) != 0,
{
    let mut r: int = 0;
    let mut c: int = 0;
    if pixel_lit(rows, 0, 0) {
    } else if pixel_lit(rows, 0, 1) {
        c = 1;
    } else if pixel_lit(rows, 0, 2) {
        c = 2;
    } else if pixel_lit(rows, 1, 0) {
        r = 1;
    } else if pixel_lit(rows, 1, 1) {
        r = 1;
        c = 1;
    } else if pixel_lit(rows, 1, 2) {
        r = 1;
        c = 2;
    } else if pixel_lit(rows, 2, 0) {
        r = 2;
    } else if pixel_lit(rows, 2, 1) {
        r = 2;
        c = 1;
    } else if pixel_lit(rows, 2, 2) {
        r = 2;
        c = 2;
    } else if pixel_lit(rows, 3, 0) {
        r = 3;
    } else if pixel_lit(rows, 3, 1) {
        r = 3;
        c = 1;
    } else if pixel_lit(rows, 3, 2) {
        r = 3;
        c = 2;
    } else if pixel_lit(rows, 4, 0) {
        r = 4;
    } else if pixel_lit(rows, 4, 1) {
        r = 4;
        c = 1;
    } else {
        r = 4;
        c = 2;
    }
    lemma_lit_cell_is_visible(rows, r, c);
}

/// Every drawing of the font lights at least one cell.
proof fn lemma_drawings_lit(code: int)
    requires
        font_glyph(code) is Some,
    ensures
        any_cell_lit(rows_view(font_glyph(code)->0)),
{
    reveal(font_glyph);
    reveal_strlit(".X.");
    reveal_strlit("X..");
    reveal_strlit("..X");
    reveal_strlit("XX.");
    reveal_strlit(".XX");
    reveal_strlit("X.X");
    reveal_strlit("XXX");
}

/// Law: the font covers every printable ASCII code: each code from `'!'` to
/// `'~'` has a glyph with at least one lit cell.
pub proof fn lemma_printable_codes_visible()
    ensures
        forall|code: int| '!' as int <= code <= '~' as int ==> #[trigger] glyph_word(code) != 0,
{
    assert forall|code: int| '!' as int <= code <= '~' as int implies #[trigger] glyph_word(code)
        != 0 by {
        let c = if is_lowercase_code(code) {
            code - 32
        } else {
            code
        };
        assert(font_glyph(c) is Some) by {
            reveal(font_glyph);
        }
        lemma_drawings_lit(c);
        lemma_any_lit_is_visible(rows_view(font_glyph(c)->0));
    }
}

/// Law: the replacement glyph `'?'` is not blank, so text outside ASCII,
/// which is shown as `'?'`, stays visible.
pub proof fn lemma_question_mark_is_visible()
    ensures
        glyph_word('?' as int) != 0,
{
    lemma_printable_codes_visible();
}

} // verus!
