//! What the Unicode tables decide: letters, case and display width.
//!
//! Nothing here is proved. Each item says of a function of the standard library, or of the
//! crate `unicode-width`, that its result is a function of the argument alone, and gives the
//! result a name where it cannot be written down in a few lines.

use unicode_width::UnicodeWidthStr;
use vstd::prelude::*;

verus! {

/// What `char::is_alphabetic` returns for `c`: whether `c` has the Unicode property `Alphabetic`.
pub uninterp spec fn alphabetic(c: char) -> bool;

/// What `char::is_uppercase` returns for `c`: whether `c` has the Unicode property `Uppercase`.
pub uninterp spec fn uppercase(c: char) -> bool;

/// What `str::to_lowercase` returns for a string `s` that is not all ASCII.
pub uninterp spec fn unicode_lowercase(s: Seq<char>) -> Seq<char>;

/// What `UnicodeWidthStr::width` returns for `s`: the number of terminal columns that `s` takes
/// outside of an East Asian context.
pub uninterp spec fn display_width(s: Seq<char>) -> nat;

/// Whether every character of `s` is below U+0080.
pub open spec fn is_ascii(s: Seq<char>) -> bool {
    forall|i: int| 0 <= i < s.len() ==> #[trigger] s[i] <= '\u{7f}'
}

/// `c` with `A` to `Z` turned into `a` to `z`.
pub open spec fn ascii_lower(c: char) -> char {
    if 'A' <= c <= 'Z' {
        ((c as u8) + 32) as char
    } else {
        c
    }
}

/// The lowercase form of `s`. Where `s` is ASCII it is `s` with `A` to `Z` turned into `a` to
/// `z`; elsewhere it is what the Unicode tables give.
pub open spec fn lowercase(s: Seq<char>) -> Seq<char> {
    if is_ascii(s) {
        s.map_values(|c: char| ascii_lower(c))
    } else {
        unicode_lowercase(s)
    }
}

/// `char::is_alphabetic` of the standard library. Taken on trust: what it returns depends on
/// the character alone; it is named `alphabetic`.
pub assume_specification[ char::is_alphabetic ](c: char) -> (r: bool)
    ensures
        r == alphabetic(c),
;

/// `char::is_uppercase` of the standard library. Taken on trust: what it returns depends on
/// the character alone; it is named `uppercase`.
pub assume_specification[ char::is_uppercase ](c: char) -> (r: bool)
    ensures
        r == uppercase(c),
;

/// `str::to_lowercase` of the standard library. Taken on trust: what it returns depends on
/// the characters of the string alone; for a string of ASCII characters it is the string with
/// `A` to `Z` turned into `a` to `z`, and for every other string it is named
/// `unicode_lowercase`.
pub assume_specification[ str::to_lowercase ](s: &str) -> (r: String)
    ensures
        r@ == lowercase(s@),
        !is_ascii(s@) ==> r@ == unicode_lowercase(s@),
;

/// `UnicodeWidthStr::width` of the crate `unicode-width`, on `str`. Taken on trust: what it
/// returns depends on the characters of the string alone; it is named `display_width`.
#[verifier::external_body]
pub(crate) fn width(s: &str) -> (w: usize)
    ensures
        w == display_width(s@),
{
    UnicodeWidthStr::width(s)
}

} // verus!
