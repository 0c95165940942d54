//! The font as packed words, written independently of its drawings: each
//! word is an octal literal whose digits are the rows, bottom row first
//! (digit value: 1 for the left cell, 2 for the middle, 4 for the right).
//! The law here ties every entry of the glyph table to this list.

use vstd::prelude::*;
use crate::glyph::{
    font_glyph, glyph_bits, glyph_word, is_lowercase_code, lemma_packed_cells_bits, packed_cells,
    pixel_lit, rows_view,
};

verus! {

/// The packed word of each character that has a drawing of its own, as an
/// octal literal read row by row from the bottom; 0 for the others.
pub open spec fn own_font_word(code: int) -> u32 {
    if code == '!' as int {
        0o20222
    } else if code == '.' as int {
        0o20000
    } else if code == ',' as int {
        0o22000
    } else if code == ':' as int {
        0o20002
    } else if code == ';' as int {
        0o22002
    } else if code == '-' as int {
        0o00700
    } else if code == '+' as int {
        0o02720
    } else if code == '=' as int {
        0o07070
    } else if code == '/' as int {
        0o11244
    } else if code == '\\' as int {
        0o44211
    } else if code == '|' as int {
        0o22222
    } else if code == '(' as int {
        0o42224
    } else if code == ')' as int {
        0o12221
    } else if code == '[' as int {
        0o62226
    } else if code == ']' as int {
        0o32223
    } else if code == '_' as int {
        0o70000
    } else if code == '#' as int {
        0o57575
    } else if code == '*' as int {
        0o05250
    } else if code == '%' as int {
        0o51245
    } else if code == '?' as int {
        0o20243
    } else if code == '"' as int {
        0o00055
    } else if code == '$' as int {
        0o36236
    } else if code == '&' as int {
        0o65252
    } else if code == '\'' as int {
        0o00022
    } else if code == '<' as int {
        0o42124
    } else if code == '>' as int {
        0o12421
    } else if code == '@' as int {
        0o61752
    } else if code == '^' as int {
        0o00052
    } else if code == '`' as int {
        0o00021
    } else if code == '{' as int {
        0o62326
    } else if code == '}' as int {
        0o32623
    } else if code == '~' as int {
        0o00360
    } else if code == '0' as int {
        0o75557
    } else if code == '1' as int {
        0o72232
    } else if code == '2' as int {
        0o71747
    } else if code == '3' as int {
        0o74647
    } else if code == '4' as int {
        0o44755
    } else if code == '5' as int {
        0o74717
    } else if code == '6' as int {
        0o75717
    } else if code == '7' as int {
        0o44447
    } else if code == '8' as int {
        0o75757
    } else if code == '9' as int {
        0o74757
    } else if code == 'A' as int {
        0o55752
    } else if code == 'B' as int {
        0o35353
    } else if code == 'C' as int {
        0o71117
    } else if code == 'D' as int {
        0o35553
    } else if code == 'E' as int {
        0o71317
    } else if code == 'F' as int {
        0o11317
    } else if code == 'G' as int {
        0o75117
    } else if code == 'H' as int {
        0o55755
    } else if code == 'I' as int {
        0o72227
    } else if code == 'J' as int {
        0o35447
    } else if code == 'K' as int {
        0o53135
    } else if code == 'L' as int {
        0o71111
    } else if code == 'M' as int {
        0o55575
    } else if code == 'N' as int {
        0o55775
    } else if code == 'O' as int {
        0o75557
    } else if code == 'P' as int {
        0o11757
    } else if code == 'Q' as int {
        0o63557
    } else if code == 'R' as int {
        0o53757
    } else if code == 'S' as int {
        0o74717
    } else if code == 'T' as int {
        0o22227
    } else if code == 'U' as int {
        0o75555
    } else if code == 'V' as int {
        0o25555
    } else if code == 'W' as int {
        0o57555
    } else if code == 'X' as int {
        0o55255
    } else if code == 'Y' as int {
        0o22255
    } else if code == 'Z' as int {
        0o71247
    } else {
        0
    }
}

/// The glyph table entry of an ASCII code: lowercase letters show their
/// uppercase letter.
pub open spec fn font_word(code: int) -> u32 {
    if is_lowercase_code(code) {
        own_font_word(code - 32)
    } else {
        own_font_word(code)
    }
}

/// The value of a row: 1 for a lit left cell, 2 for the middle, 4 for the
/// right.
pub open spec fn row_value(row: Seq<char>) -> nat {
    (if 0 < row.len() && row[0] == 'X' { 1nat } else { 0nat }) + (if 1 < row.len() && row[1]
        == 'X' { 2nat } else { 0nat }) + (if 2 < row.len() && row[2] == 'X' { 4nat } else { 0nat })
}

/// `2^k`.
spec fn cell_weight(k: nat) -> nat
    decreases k,
{
    if k == 0 {
        1
    } else {
        2 * cell_weight((k - 1) as nat)
    }
}

/// The sum of the weights of the lit cells among the first `k`.
spec fn cells_sum(rows: Seq<Seq<char>>, k: nat) -> nat
    decreases k,
{
    if k == 0 {
        0
    } else {
        let j = (k - 1) as nat;
        cells_sum(rows, j) + if pixel_lit(rows, (j / 3) as int, (j % 3) as int) {
            cell_weight(j)
        } else {
            0
        }
    }
}

proof fn lemma_shift_doubles(k: u32)
    by (bit_vector)
    requires
        k < 31,
    ensures
        (1u32 << (k + 1)) == 2 * (1u32 << k),
        (1u32 << 0u32) == 1u32,
{
}

proof fn lemma_shift_is_weight(k: nat)
    requires
        k < 32,
    ensures
        (1u32 << (k as u32)) as nat == cell_weight(k),
    decreases k,
{
    lemma_shift_doubles(0);
    if k > 0 {
        lemma_shift_is_weight((k - 1) as nat);
        lemma_shift_doubles((k - 1) as u32);
    }
}

proof fn lemma_or_is_add(x: u32, n: u32)
    by (bit_vector)
    requires
        n < 31,
        x < (1u32 << n),
    ensures
        (x | (1u32 << n)) == x + (1u32 << n),
{
}

proof fn lemma_packed_is_sum(rows: Seq<Seq<char>>, k: nat)
    requires
        k <= 15,
    ensures
        packed_cells(rows, k) as nat == cells_sum(rows, k),
    decreases k,
{
    if k > 0 {
        let j = (k - 1) as nat;
        lemma_packed_is_sum(rows, j);
        lemma_packed_cells_bits(rows, j);
        lemma_shift_is_weight(j);
        if pixel_lit(rows, (j / 3) as int, (j % 3) as int) {
            lemma_or_is_add(packed_cells(rows, j), j as u32);
        }
    }
}

/// The three cells of row `r` add the row's value, weighted by the weight
/// of its first cell.
proof fn lemma_row_sum(rows: Seq<Seq<char>>, r: nat, w: nat)
    requires
        rows.len() == 5,
        r < 5,
        w == cell_weight(3 * r),
    ensures
        cells_sum(rows, 3 * r + 3) == cells_sum(rows, 3 * r) + row_value(rows[r as int]) * w,
{
    let j = 3 * r;
    assert(cell_weight(j + 1) == 2 * w);
    assert(cell_weight(j + 2) == 4 * w) by {
        assert(cell_weight(j + 2) == 2 * cell_weight(j + 1));
    }
    assert(j / 3 == r && j % 3 == 0);
    assert((j + 1) / 3 == r && (j + 1) % 3 == 1);
    assert((j + 2) / 3 == r && (j + 2) % 3 == 2);
    let row = rows[r as int];
    let a: nat = if 0 < row.len() && row[0] == 'X' { 1 } else { 0 };
    let b: nat = if 1 < row.len() && row[1] == 'X' { 1 } else { 0 };
    let c: nat = if 2 < row.len() && row[2] == 'X' { 1 } else { 0 };
    assert(cells_sum(rows, j + 1) == cells_sum(rows, j) + a * w) by {
        if a == 1 {
            assert(pixel_lit(rows, r as int, 0));
        } else {
            assert(!pixel_lit(rows, r as int, 0));
        }
    }
    assert(cells_sum(rows, j + 2) == cells_sum(rows, j + 1) + b * (2 * w)) by {
        if b == 1 {
            assert(pixel_lit(rows, r as int, 1));
        } else {
            assert(!pixel_lit(rows, r as int, 1));
        }
    }
    assert(cells_sum(rows, j + 3) == cells_sum(rows, j + 2) + c * (4 * w)) by {
        if c == 1 {
            assert(pixel_lit(rows, r as int, 2));
        } else {
            assert(!pixel_lit(rows, r as int, 2));
        }
    }
    assert(row_value(row) == a + 2 * b + 4 * c);
    assert(a * w + b * (2 * w) + c * (4 * w) == (a + 2 * b + 4 * c) * w) by (nonlinear_arith);
}

/// A drawing of five rows packs to the sum of its row values, row `r`
/// weighted by `8^r`.
pub proof fn lemma_glyph_bits_by_rows(rows: Seq<Seq<char>>)
    requires
        rows.len() == 5,
    ensures
        glyph_bits(rows) as nat == row_value(rows[0]) + 8 * row_value(rows[1]) + 64 * row_value(
            rows[2],
        ) + 512 * row_value(rows[3]) + 4096 * row_value(rows[4]),
{
    reveal(glyph_bits);
    lemma_packed_is_sum(rows, 15);
    reveal_with_fuel(cell_weight, 13);
    assert(cell_weight(0) == 1 && cell_weight(3) == 8 && cell_weight(6) == 64 && cell_weight(9)
        == 512 && cell_weight(12) == 4096);
    lemma_row_sum(rows, 0, 1);
    lemma_row_sum(rows, 1, 8);
    lemma_row_sum(rows, 2, 64);
    lemma_row_sum(rows, 3, 512);
    lemma_row_sum(rows, 4, 4096);
}

/// The values of the row strings the font is drawn with.
proof fn lemma_row_values()
    ensures
        row_value("..."@) == 0,
        row_value("X.."@) == 1,
        row_value(".X."@) == 2,
        row_value("XX."@) == 3,
        row_value("..X"@) == 4,
        row_value("X.X"@) == 5,
        row_value(".XX"@) == 6,
        row_value("XXX"@) == 7,
{
    reveal_strlit("...");
    reveal_strlit("X..");
    reveal_strlit(".X.");
    reveal_strlit("XX.");
    reveal_strlit("..X");
    reveal_strlit("X.X");
    reveal_strlit(".XX");
    reveal_strlit("XXX");
}

/// The drawing of a character packs to its word in the octal list.
spec fn own_word_matches(code: int) -> bool {
    match font_glyph(code) {
        Some(rows) => glyph_bits(rows_view(rows)) == own_font_word(code),
        None => own_font_word(code) == 0,
    }
}

/// An array of five row strings packs to the sum of its row values.
proof fn lemma_drawing_word(rows: [&str; 5])
    ensures
        glyph_bits(rows_view(rows)) as nat == row_value(rows[0]@) + 8 * row_value(rows[1]@) + 64
            * row_value(rows[2]@) + 512 * row_value(rows[3]@) + 4096 * row_value(rows[4]@),
{
    lemma_glyph_bits_by_rows(rows_view(rows));
}

/// The drawings of the codes 0..40 pack to their words.
#[verifier::spinoff_prover]
proof fn lemma_own_words_0_40()
    ensures
        forall|code: int| 0 <= code < 40 ==> #[trigger] own_word_matches(code),
{
    reveal(font_glyph);
    lemma_row_values();
    lemma_drawing_word(font_glyph('!' as int)->0);
    lemma_drawing_word(font_glyph('#' as int)->0);
    lemma_drawing_word(font_glyph('%' as int)->0);
    lemma_drawing_word(font_glyph('"' as int)->0);
    lemma_drawing_word(font_glyph('$' as int)->0);
    lemma_drawing_word(font_glyph('&' as int)->0);
    lemma_drawing_word(font_glyph('\'' as int)->0);
}

/// The drawings of the codes 40..48 pack to their words.
#[verifier::spinoff_prover]
proof fn lemma_own_words_40_48()
    ensures
        forall|code: int| 40 <= code < 48 ==> #[trigger] own_word_matches(code),
{
    reveal(font_glyph);
    lemma_row_values();
    lemma_drawing_word(font_glyph('.' as int)->0);
    lemma_drawing_word(font_glyph(',' as int)->0);
    lemma_drawing_word(font_glyph('-' as int)->0);
    lemma_drawing_word(font_glyph('+' as int)->0);
    lemma_drawing_word(font_glyph('/' as int)->0);
    lemma_drawing_word(font_glyph('(' as int)->0);
    lemma_drawing_word(font_glyph(')' as int)->0);
    lemma_drawing_word(font_glyph('*' as int)->0);
}

/// The drawings of the codes 48..58 pack to their words.
#[verifier::spinoff_prover]
proof fn lemma_own_words_48_58()
    ensures
        forall|code: int| 48 <= code < 58 ==> #[trigger] own_word_matches(code),
{
    reveal(font_glyph);
    lemma_row_values();
    lemma_drawing_word(font_glyph('0' as int)->0);
    lemma_drawing_word(font_glyph('1' as int)->0);
    lemma_drawing_word(font_glyph('2' as int)->0);
    lemma_drawing_word(font_glyph('3' as int)->0);
    lemma_drawing_word(font_glyph('4' as int)->0);
    lemma_drawing_word(font_glyph('5' as int)->0);
    lemma_drawing_word(font_glyph('6' as int)->0);
    lemma_drawing_word(font_glyph('7' as int)->0);
    lemma_drawing_word(font_glyph('8' as int)->0);
    lemma_drawing_word(font_glyph('9' as int)->0);
}

/// The drawings of the codes 58..65 pack to their words.
#[verifier::spinoff_prover]
proof fn lemma_own_words_58_65()
    ensures
        forall|code: int| 58 <= code < 65 ==> #[trigger] own_word_matches(code),
{
    reveal(font_glyph);
    lemma_row_values();
    lemma_drawing_word(font_glyph(':' as int)->0);
    lemma_drawing_word(font_glyph(';' as int)->0);
    lemma_drawing_word(font_glyph('=' as int)->0);
    lemma_drawing_word(font_glyph('?' as int)->0);
    lemma_drawing_word(font_glyph('<' as int)->0);
    lemma_drawing_word(font_glyph('>' as int)->0);
    lemma_drawing_word(font_glyph('@' as int)->0);
}

/// The drawings of the codes 65..72 pack to their words.
#[verifier::spinoff_prover]
proof fn lemma_own_words_65_72()
    ensures
        forall|code: int| 65 <= code < 72 ==> #[trigger] own_word_matches(code),
{
    reveal(font_glyph);
    lemma_row_values();
    lemma_drawing_word(font_glyph('A' as int)->0);
    lemma_drawing_word(font_glyph('B' as int)->0);
    lemma_drawing_word(font_glyph('C' as int)->0);
    lemma_drawing_word(font_glyph('D' as int)->0);
    lemma_drawing_word(font_glyph('E' as int)->0);
    lemma_drawing_word(font_glyph('F' as int)->0);
    lemma_drawing_word(font_glyph('G' as int)->0);
}

/// The drawings of the codes 72..79 pack to their words.
#[verifier::spinoff_prover]
proof fn lemma_own_words_72_79()
    ensures
        forall|code: int| 72 <= code < 79 ==> #[trigger] own_word_matches(code),
{
    reveal(font_glyph);
    lemma_row_values();
    lemma_drawing_word(font_glyph('H' as int)->0);
    lemma_drawing_word(font_glyph('I' as int)->0);
    lemma_drawing_word(font_glyph('J' as int)->0);
    lemma_drawing_word(font_glyph('K' as int)->0);
    lemma_drawing_word(font_glyph('L' as int)->0);
    lemma_drawing_word(font_glyph('M' as int)->0);
    lemma_drawing_word(font_glyph('N' as int)->0);
}

/// The drawings of the codes 79..86 pack to their words.
#[verifier::spinoff_prover]
proof fn lemma_own_words_79_86()
    ensures
        forall|code: int| 79 <= code < 86 ==> #[trigger] own_word_matches(code),
{
    reveal(font_glyph);
    lemma_row_values();
    lemma_drawing_word(font_glyph('O' as int)->0);
    lemma_drawing_word(font_glyph('P' as int)->0);
    lemma_drawing_word(font_glyph('Q' as int)->0);
    lemma_drawing_word(font_glyph('R' as int)->0);
    lemma_drawing_word(font_glyph('S' as int)->0);
    lemma_drawing_word(font_glyph('T' as int)->0);
    lemma_drawing_word(font_glyph('U' as int)->0);
}

/// The drawings of the codes 86..91 pack to their words.
#[verifier::spinoff_prover]
proof fn lemma_own_words_86_91()
    ensures
        forall|code: int| 86 <= code < 91 ==> #[trigger] own_word_matches(code),
{
    reveal(font_glyph);
    lemma_row_values();
    lemma_drawing_word(font_glyph('V' as int)->0);
    lemma_drawing_word(font_glyph('W' as int)->0);
    lemma_drawing_word(font_glyph('X' as int)->0);
    lemma_drawing_word(font_glyph('Y' as int)->0);
    lemma_drawing_word(font_glyph('Z' as int)->0);
}

/// The drawings of the codes 91..128 pack to their words.
#[verifier::spinoff_prover]
proof fn lemma_own_words_91_128()
    ensures
        forall|code: int| 91 <= code < 128 ==> #[trigger] own_word_matches(code),
{
    reveal(font_glyph);
    lemma_row_values();
    lemma_drawing_word(font_glyph('\\' as int)->0);
    lemma_drawing_word(font_glyph('|' as int)->0);
    lemma_drawing_word(font_glyph('[' as int)->0);
    lemma_drawing_word(font_glyph(']' as int)->0);
    lemma_drawing_word(font_glyph('_' as int)->0);
    lemma_drawing_word(font_glyph('^' as int)->0);
    lemma_drawing_word(font_glyph('`' as int)->0);
    lemma_drawing_word(font_glyph('{' as int)->0);
    lemma_drawing_word(font_glyph('}' as int)->0);
    lemma_drawing_word(font_glyph('~' as int)->0);
}

/// Law: every entry of the glyph table is the word given for its own
/// character in the octal list (lowercase letters: their uppercase letter's).
pub proof fn lemma_glyph_words_are_font_words()
    ensures
        forall|code: int| 0 <= code < 128 ==> #[trigger] glyph_word(code) == font_word(code),
{
    assert forall|code: int| 0 <= code < 128 implies #[trigger] glyph_word(code) == font_word(
        code,
    ) by {
        let c = if is_lowercase_code(code) {
            code - 32
        } else {
            code
        };
        if c < 40 {
            lemma_own_words_0_40();
        } else if c < 48 {
            lemma_own_words_40_48();
        } else if c < 58 {
            lemma_own_words_48_58();
        } else if c < 65 {
            lemma_own_words_58_65();
        } else if c < 72 {
            lemma_own_words_65_72();
        } else if c < 79 {
            lemma_own_words_72_79();
        } else if c < 86 {
            lemma_own_words_79_86();
        } else if c < 91 {
            lemma_own_words_86_91();
        } else {
            lemma_own_words_91_128();
        }
        assert(own_word_matches(c));
    }
}

} // verus!
