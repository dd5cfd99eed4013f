//! The string operations the logic needs, each a call of one function of
//! std or of the unicode-width crate, with the contract that its
//! documentation gives.
use unicode_width::{UnicodeWidthChar, UnicodeWidthStr};
use vstd::prelude::*;

verus! {

/// The character has the Unicode White_Space property (the characters
/// that `char::is_whitespace` and `str::trim` treat as white space).
pub open spec fn is_white_space(c: char) -> bool {
    let n = c as int;
    ||| 0x09 <= n <= 0x0D
    ||| n == 0x20
    ||| n == 0x85
    ||| n == 0xA0
    ||| n == 0x1680
    ||| 0x2000 <= n <= 0x200A
    ||| n == 0x2028
    ||| n == 0x2029
    ||| n == 0x202F
    ||| n == 0x205F
    ||| n == 0x3000
}

/// The string without its leading white space.
pub open spec fn trim_start(s: Seq<char>) -> Seq<char>
    decreases s.len(),
{
    if s.len() > 0 && is_white_space(s[0]) {
        trim_start(s.drop_first())
    } else {
        s
    }
}

/// The string without its trailing white space.
pub open spec fn trim_end(s: Seq<char>) -> Seq<char>
    decreases s.len(),
{
    if s.len() > 0 && is_white_space(s.last()) {
        trim_end(s.drop_last())
    } else {
        s
    }
}

/// The string without its leading and trailing white space, as `str::trim`
/// gives it back.
pub open spec fn trimmed(s: Seq<char>) -> Seq<char> {
    trim_end(trim_start(s))
}

/// What `str::to_lowercase` gives back for a string: its lowercase
/// equivalent under Unicode's case mapping.
pub uninterp spec fn lowercased(s: Seq<char>) -> Seq<char>;

/// Every character of the string is ASCII.
pub open spec fn is_ascii_text(s: Seq<char>) -> bool {
    forall|i: int| 0 <= i < s.len() ==> (#[trigger] s[i] as int) < 128
}

/// The ASCII lowercase of a character: A to Z become a to z, every other
/// character stays.
pub open spec fn ascii_lower(c: char) -> char {
    if 'A' <= c && c <= 'Z' {
        ((c as int) + 32) as char
    } else {
        c
    }
}

/// The string with its ASCII capitals made lowercase.
pub open spec fn ascii_lowered(s: Seq<char>) -> Seq<char> {
    s.map_values(|c: char| ascii_lower(c))
}

/// The search key of a string, as `str::to_lowercase` gives it back: for an
/// ASCII string its ASCII lowercase (so the empty string for the empty
/// string), else the named Unicode lowercase.
pub open spec fn lower_key(s: Seq<char>) -> Seq<char> {
    if is_ascii_text(s) {
        ascii_lowered(s)
    } else {
        lowercased(s)
    }
}

/// What `UnicodeWidthChar::width` of the unicode-width crate gives back for
/// a character: its display width in columns, or `None` for a control
/// character.
pub uninterp spec fn char_width(c: char) -> Option<usize>;

/// What `UnicodeWidthStr::width` of the unicode-width crate gives back for a
/// string: its display width in columns (not always the sum of its
/// characters' widths, as some sequences join).
pub uninterp spec fn str_width_of(s: Seq<char>) -> usize;

/// `needle` occurs in `hay` as a contiguous piece (the empty string occurs
/// in every string).
pub open spec fn is_substring(needle: Seq<char>, hay: Seq<char>) -> bool {
    exists|i: int|
        0 <= i && i + needle.len() <= hay.len() && #[trigger] hay.subrange(i, i + needle.len())
            == needle
}

/// Calls `str::trim`, which removes leading and trailing white space (the
/// Unicode White_Space property).
#[verifier::external_body]
pub(crate) fn trim_str(s: &str) -> (r: &str)
    ensures
        r@ == trimmed(s@),
{
    s.trim()
}

/// Calls `str::to_lowercase`. The result is named, as the Unicode case
/// mapping is not written out here; of an ASCII string it is the ASCII
/// lowercase, character by character.
#[verifier::external_body]
pub(crate) fn to_lower(s: &str) -> (r: String)
    ensures
        r@ == lowercased(s@),
        is_ascii_text(s@) ==> r@ == ascii_lowered(s@),
{
    s.to_lowercase()
}

/// Calls `str::contains` with a string pattern: true exactly when the
/// pattern is a contiguous piece of the string.
#[verifier::external_body]
pub(crate) fn str_contains(hay: &str, needle: &str) -> (r: bool)
    ensures
        r == is_substring(needle@, hay@),
{
    hay.contains(needle)
}

/// Calls `String::push`: the character is appended.
#[verifier::external_body]
pub(crate) fn push_char(s: &mut String, c: char)
    ensures
        final(s)@ == old(s)@.push(c),
{
    s.push(c)
}

/// Calls `String::pop`: the last character is removed and handed back, or
/// `None` when the string is empty, which is then left as it was.
#[verifier::external_body]
pub(crate) fn pop_char(s: &mut String) -> (r: Option<char>)
    ensures
        old(s)@.len() == 0 ==> r is None && final(s)@ == old(s)@,
        old(s)@.len() > 0 ==> r == Some(old(s)@.last()) && final(s)@ == old(s)@.drop_last(),
{
    s.pop()
}

/// Calls `UnicodeWidthStr::width` of the unicode-width crate; the result
/// is named.
#[verifier::external_body]
pub(crate) fn str_width(s: &str) -> (r: usize)
    ensures
        r == str_width_of(s@),
{
    s.width()
}

/// Calls `UnicodeWidthChar::width` of the unicode-width crate. Besides the
/// name, its source shows: no width is above 3, printable ASCII characters
/// have width 1, and the control characters below U+0020 and from U+007F
/// to U+009F have none.
#[verifier::external_body]
pub(crate) fn width_of_char(c: char) -> (r: Option<usize>)
    ensures
        r == char_width(c),
        r matches Some(w) ==> w <= 3,
        (' ' <= c && c <= '~') ==> r == Some(1usize),
        (c < ' ' || ('\u{7f}' <= c && c < '\u{a0}')) ==> r is None,
{
    c.width()
}

} // verus!
