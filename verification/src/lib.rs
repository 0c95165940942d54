//! Verified core of a small GPU utility library: the packed 3×5 bitmap font
//! used by the text overlay, the encoding of overlay text into glyph codes,
//! and the parameters of the key-value radix sorter.

pub mod glyph;
pub mod font_table;
pub mod text;
pub mod upload;
pub mod radix_sort;

pub use radix_sort::RadixSorter;
pub use text::TextContent;
