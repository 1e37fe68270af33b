//! Thin trusted bindings to the Unicode facilities the terminal relies on:
//! display widths (`unicode-width`), grapheme clusters
//! (`unicode-segmentation`), UTF-8 validation and `String::push` (std).
//! Everything else in the crate is proved against the contracts stated here.

use vstd::prelude::*;
use vstd::utf8::{valid_utf8, decode_utf8};
use unicode_segmentation::UnicodeSegmentation;
use unicode_width::UnicodeWidthChar;

verus! {

/// Displayed width in columns that `unicode-width` assigns to `c`
/// (`None` for a control character).
pub uninterp spec fn unicode_width_of(c: char) -> Option<usize>;

/// The display width of `c` as the terminal uses it: 1 for printable ASCII,
/// `None` for the C0 and C1 control characters, and otherwise the width
/// `unicode-width` assigns.
pub open spec fn char_columns(c: char) -> Option<usize> {
    if 0x20 <= (c as u32) && (c as u32) < 0x7f {
        Some(1usize)
    } else if (c as u32) < 0x20 || (0x7f <= (c as u32) && (c as u32) < 0xa0) {
        None
    } else {
        unicode_width_of(c)
    }
}

/// Calls `unicode_width::UnicodeWidthChar::width`.
///
/// Claimed of it, as its source shows: the result is `None` exactly for the C0
/// controls (below U+0020) and for U+007F..=U+009F; printable ASCII
/// (U+0020..=U+007E) has width 1; every width comes from a `u8` table entry, so
/// it is at most 255. Which width a character above U+00A0 has is not stated:
/// it comes from the crate's tables and is only named.
#[verifier::external_body]
pub(crate) fn char_width(c: char) -> (w: Option<usize>)
    ensures
        w == unicode_width_of(c),
        w == char_columns(c),
        w is None <==> ((c as u32) < 0x20 || (0x7f <= (c as u32) && (c as u32) < 0xa0)),
        (0x20 <= (c as u32) && (c as u32) < 0x7f) ==> w == Some(1usize),
        w matches Some(n) ==> n <= 255,
{
    UnicodeWidthChar::width(c)
}

/// The extended grapheme clusters that `unicode-segmentation` splits `s` into.
pub uninterp spec fn extended_graphemes(s: Seq<char>) -> Seq<Seq<char>>;

/// Concatenation of a sequence of character sequences.
pub open spec fn concat_all(parts: Seq<Seq<char>>) -> Seq<char>
    decreases parts.len(),
{
    if parts.len() == 0 {
        Seq::empty()
    } else {
        concat_all(parts.drop_last()) + parts.last()
    }
}

/// The clusters of `graphemes`, each taken as its character sequence.
pub open spec fn cluster_views(gs: Seq<String>) -> Seq<Seq<char>> {
    gs.map_values(|g: String| g@)
}

/// Calls `unicode_segmentation::UnicodeSegmentation::graphemes(s, true)` and
/// copies each cluster into a `String`.
///
/// Claimed of it, as the crate's iterator shows (it hands out consecutive
/// slices `start..next_boundary` from the start of `s` to its end): the
/// clusters concatenate to `s`, and none is empty. Where the boundaries fall is
/// not stated: that is Unicode's segmentation algorithm, and is only named.
#[verifier::external_body]
pub(crate) fn graphemes(s: &str) -> (r: Vec<String>)
    ensures
        cluster_views(r@) == extended_graphemes(s@),
        concat_all(cluster_views(r@)) == s@,
        forall|i: int| 0 <= i < r@.len() ==> (#[trigger] r@[i])@.len() > 0,
{
    UnicodeSegmentation::graphemes(s, true).map(|g| g.to_string()).collect()
}

/// True when `bytes` is not valid UTF-8 only because it stops in the middle of
/// a character: some continuation would make it valid.
pub open spec fn utf8_truncated(bytes: Seq<u8>) -> bool {
    !valid_utf8(bytes) && exists|tail: Seq<u8>| valid_utf8(bytes + tail)
}

/// Outcome of decoding a byte sequence as UTF-8.
pub enum Utf8Decoded {
    /// The bytes are valid UTF-8; the decoded text.
    Text(String),
    /// The bytes end in the middle of a character.
    Incomplete,
    /// The bytes hold a sequence that no continuation can make valid.
    Invalid,
}

/// Calls `std::str::from_utf8`, and tells its two kinds of error apart with
/// `Utf8Error::error_len` (`None`: "the end of the input was reached
/// unexpectedly").
///
/// Claimed of it: `Ok` exactly for valid UTF-8 (vstd's `valid_utf8`), with the
/// text that vstd's `decode_utf8` gives; `error_len() == None` exactly when the
/// input is a truncated valid encoding.
#[verifier::external_body]
pub(crate) fn decode_utf8_bytes(bytes: &[u8]) -> (r: Utf8Decoded)
    ensures
        (r is Text) == valid_utf8(bytes@),
        r matches Utf8Decoded::Text(s) ==> s@ == decode_utf8(bytes@),
        (r is Incomplete) == utf8_truncated(bytes@),
{
    match std::str::from_utf8(bytes) {
        Ok(s) => Utf8Decoded::Text(s.to_string()),
        Err(e) => match e.error_len() {
            None => Utf8Decoded::Incomplete,
            Some(_) => Utf8Decoded::Invalid,
        },
    }
}

/// Calls `String::push`: appends `c` to the end of `s`.
#[verifier::external_body]
pub(crate) fn push_char(s: &mut String, c: char)
    ensures
        final(s)@ == old(s)@.push(c),
{
    s.push(c)
}

} // verus!
