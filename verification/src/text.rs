//! The text shown by the overlay: turning a string into the glyph codes that
//! the text buffer holds, and the overlay's own bookkeeping of how much of
//! the buffer is in use.

use vstd::prelude::*;
use vstd::std_specs::iter::IteratorSpec;
use crate::glyph::{build_glyph_table, glyph_word, GLYPH_TABLE_SIZE};
use crate::upload::{words_as_bytes, native_bytes};

verus! {

broadcast use vstd::string::next_postcondition;

/// The code stored for a character: its own ASCII value when it is ASCII,
/// and the code of `'?'` otherwise.
pub open spec fn char_code(ch: char) -> u32 {
    if (ch as u32) < 128 {
        ch as u32
    } else {
        '?' as u32
    }
}

/// How many characters of `text` are shown when at most `max_chars` fit.
pub open spec fn visible_len(text: Seq<char>, max_chars: u32) -> nat {
    if text.len() < max_chars {
        text.len()
    } else {
        max_chars as nat
    }
}

/// The full content of the text buffer for `text`: one code per visible
/// character, then zeros up to `max_chars` entries.
pub open spec fn text_codes(text: Seq<char>, max_chars: u32) -> Seq<u32> {
    Seq::new(
        max_chars as nat,
        |i: int|
            if i < text.len() {
                char_code(text[i])
            } else {
                0u32
            },
    )
}

/// The codes of the characters of `text` that fit in `max_chars` entries.
fn visible_codes(text: &str, max_chars: u32) -> (codes: Vec<u32>)
    ensures
        codes@.len() == visible_len(text@, max_chars),
        forall|i: int| 0 <= i < codes@.len() ==> codes@[i] == char_code(text@[i]),
{
    let mut codes: Vec<u32> = Vec::with_capacity(max_chars as usize);
    let mut chars = text.chars();
    loop
        invariant_except_break
            codes@.len() <= max_chars,
            codes@.len() <= text@.len(),
            chars.remaining() == text@.skip(codes@.len() as int),
            forall|i: int| 0 <= i < codes@.len() ==> codes@[i] == char_code(text@[i]),
        ensures
            codes@.len() == visible_len(text@, max_chars),
            forall|i: int| 0 <= i < codes@.len() ==> codes@[i] == char_code(text@[i]),
        decreases text@.len() - codes@.len(),
    {
        match chars.next() {
            Some(ch) => {
                if codes.len() as u32 >= max_chars {
                    break;
                }
                let c: u32 = if (ch as u32) < 128 {
                    ch as u32
                } else {
                    '?' as u32
                };
                codes.push(c);
            },
            None => {
                break;
            },
        }
    }
    codes
}

/// Fill `codes` with zeros up to `max_chars` entries.
fn pad_codes(codes: &mut Vec<u32>, max_chars: u32)
    requires
        old(codes)@.len() <= max_chars,
    ensures
        final(codes)@.len() == max_chars,
        forall|i: int| 0 <= i < old(codes)@.len() ==> final(codes)@[i] == old(codes)@[i],
        forall|i: int| old(codes)@.len() <= i < max_chars ==> final(codes)@[i] == 0u32,
{
    let ghost start = codes@;
    while codes.len() < max_chars as usize
        invariant
            start.len() <= codes@.len() <= max_chars,
            forall|i: int| 0 <= i < start.len() ==> codes@[i] == start[i],
            forall|i: int| start.len() <= i < codes@.len() ==> codes@[i] == 0u32,
        decreases max_chars - codes@.len(),
    {
        codes.push(0);
    }
}

/// The state of the overlay's text bookkeeping.
pub struct TextContentView {
    /// Number of characters the text buffer holds.
    pub max_chars: u32,
    /// Number of characters of the current text that are shown.
    pub text_len: u32,
}

impl TextContentView {
    /// The state after `text` is set: the buffer keeps its size and shows
    /// as much of `text` as fits, whatever was shown before.
    pub open spec fn after_text(self, text: Seq<char>) -> TextContentView {
        TextContentView { max_chars: self.max_chars, text_len: visible_len(text, self.max_chars) as u32 }
    }
}

/// Law: a new text replaces the old one entirely. Setting `a` and then `b`
/// leaves the same state as setting `b` alone, and `b` is written as the
/// same codes, and so as the same buffer bytes, in both cases.
pub proof fn lemma_set_text_replaces(v: TextContentView, a: Seq<char>, b: Seq<char>)
    ensures
        v.after_text(a).after_text(b) == v.after_text(b),
        text_codes(b, v.after_text(a).max_chars) == text_codes(b, v.max_chars),
        native_bytes(text_codes(b, v.after_text(a).max_chars)) == native_bytes(
            text_codes(b, v.max_chars),
        ),
{
}

/// The overlay's text bookkeeping: how many characters the text buffer
/// holds, fixed at construction, and how many of them the current text uses.
pub struct TextContent {
    max_chars: u32,
    text_len: u32,
}

impl View for TextContent {
    type V = TextContentView;

    closed spec fn view(&self) -> TextContentView {
        TextContentView { max_chars: self.max_chars, text_len: self.text_len }
    }
}

impl TextContent {
    /// The shown text never uses more entries than the buffer has.
    #[verifier::type_invariant]
    spec fn well_formed(self) -> bool {
        self.text_len <= self.max_chars
    }

    /// Number of characters the text buffer holds.
    pub open spec fn spec_max_chars(&self) -> u32 {
        self@.max_chars
    }

    /// Number of characters of the current text that are shown.
    pub open spec fn spec_text_len(&self) -> u32 {
        self@.text_len
    }

    /// Empty text in a buffer of `max_chars` characters.
    pub fn new(max_chars: u32) -> (t: Self)
        ensures
            t.max_chars() == max_chars,
            t.text_len() == 0,
    {
        TextContent { max_chars, text_len: 0 }
    }

    /// Number of characters the text buffer holds.
    #[verifier::when_used_as_spec(spec_max_chars)]
    pub fn max_chars(&self) -> (n: u32)
        ensures
            n == self.spec_max_chars(),
    {
        self.max_chars
    }

    /// Number of characters of the current text that are shown.
    #[verifier::when_used_as_spec(spec_text_len)]
    pub fn text_len(&self) -> (n: u32)
        ensures
            n == self.spec_text_len(),
            n <= self.spec_max_chars(),
    {
        proof {
            use_type_invariant(self);
        }
        self.text_len
    }

    /// Size in bytes of the text buffer: four bytes per character.
    pub fn buffer_size(&self) -> (n: u64)
        ensures
            n == 4 * self.max_chars(),
    {
        (self.max_chars as u64) * 4
    }

    /// Replace the current text and return the new content of the text
    /// buffer as bytes. ASCII only: any other character is shown as `'?'`.
    /// The text is cut after `max_chars` characters and the buffer is
    /// filled up with zeros.
    pub fn set_text(&mut self, text: &str) -> (bytes: Vec<u8>)
        ensures
            final(self)@ == old(self)@.after_text(text@),
            final(self).max_chars() == old(self).max_chars(),
            final(self).text_len() == visible_len(text@, old(self).max_chars()),
            bytes@ == native_bytes(text_codes(text@, old(self).max_chars())),
    {
        let mut codes = visible_codes(text, self.max_chars);
        self.text_len = codes.len() as u32;
        pad_codes(&mut codes, self.max_chars);
        assert(codes@ =~= text_codes(text@, self.max_chars));
        vstd::slice::slice_to_vec(words_as_bytes(codes.as_slice()))
    }
}

/// The glyph table, indexed by ASCII code.
pub open spec fn glyph_table() -> Seq<u32> {
    Seq::new(GLYPH_TABLE_SIZE as nat, |code: int| glyph_word(code))
}

/// The content of the glyph buffer: the glyph table as bytes.
pub fn glyph_table_bytes() -> (bytes: Vec<u8>)
    ensures
        bytes@ == native_bytes(glyph_table()),
{
    let table = build_glyph_table();
    assert(table@ =~= glyph_table());
    vstd::slice::slice_to_vec(words_as_bytes(table.as_slice()))
}

/// Law: every code the text buffer holds indexes the glyph table, and every
/// entry past the shown text is the blank code 0, whose glyph is empty.
pub proof fn lemma_codes_index_glyph_table(text: Seq<char>, max_chars: u32)
    ensures
        forall|i: int|
            0 <= i < max_chars ==> #[trigger] text_codes(text, max_chars)[i] < GLYPH_TABLE_SIZE,
        forall|i: int|
            visible_len(text, max_chars) <= i < max_chars ==> #[trigger] text_codes(text, max_chars)[i]
                == 0 && glyph_word(text_codes(text, max_chars)[i] as int) == 0,
{
    crate::glyph::lemma_blank_codes();
}

/// Law: the text buffer holds, for each shown character, its own code when
/// it is ASCII (letters, digits, the space and punctuation alike) and the
/// code of `'?'` when it is not; the text is shown whole when it fits and cut
/// to `max_chars` characters when it does not; every later entry is 0.
pub proof fn lemma_text_codes_by_character(text: Seq<char>, max_chars: u32)
    ensures
        text_codes(text, max_chars).len() == max_chars,
        visible_len(text, max_chars) == if text.len() <= max_chars {
            text.len()
        } else {
            max_chars as nat
        },
        forall|i: int|
            0 <= i < visible_len(text, max_chars) && (text[i] as u32) < 128 ==> #[trigger] text_codes(
                text,
                max_chars,
            )[i] == text[i] as u32,
        forall|i: int|
            0 <= i < visible_len(text, max_chars) && (text[i] as u32) >= 128 ==> #[trigger] text_codes(
                text,
                max_chars,
            )[i] == '?' as u32,
        forall|i: int|
            visible_len(text, max_chars) <= i < max_chars ==> #[trigger] text_codes(text, max_chars)[i]
                == 0,
{
}

/// Law: a shown character outside ASCII is stored as `'?'`, and the glyph of
/// `'?'` is not blank, so such a character stays visible.
pub proof fn lemma_non_ascii_shows_question_mark(text: Seq<char>, max_chars: u32)
    ensures
        forall|i: int|
            0 <= i < visible_len(text, max_chars) && (text[i] as u32) >= 128 ==> {
                &&& #[trigger] text_codes(text, max_chars)[i] == '?' as u32
                &&& glyph_word(text_codes(text, max_chars)[i] as int) != 0
            },
{
    crate::glyph::lemma_question_mark_is_visible();
}

} // verus!
