//! Layout of the overlay widgets (prompt editor, autocomplete popup,
//! command palette, panel, filled header bar): their heights, positions and
//! the rows they show. Drawing the rows is left to the terminal front end.

pub mod prompt_editor;
pub mod autocomplete;
pub mod command_palette;
pub mod panel;
pub mod header_bar;

use vstd::prelude::*;
use unicode_width::{UnicodeWidthChar, UnicodeWidthStr};
use crate::text::utf8_len;

verus! {

/// A screen rectangle in terminal cells.
#[derive(Clone, Copy, Debug, PartialEq, Eq, Structural)]
pub struct Rect {
    pub x: u16,
    pub y: u16,
    pub width: u16,
    pub height: u16,
}

/// The displayed width in columns of one character, as `unicode-width`
/// computes it (`None` for control characters).
pub uninterp spec fn unicode_char_width(c: char) -> Option<usize>;

/// The displayed width in columns of a string, as `unicode-width` computes it.
pub uninterp spec fn unicode_str_width(s: Seq<char>) -> usize;

/// `UnicodeWidthChar::width`. Claimed of it: the result is the named width
/// of `c`; control characters below U+0020 and from U+007F to U+009F have no
/// width, and printable ASCII characters are one column wide (the crate's
/// lookup answers these ranges before consulting its tables).
#[verifier::external_body]
pub(crate) fn char_width(c: char) -> (w: Option<usize>)
    ensures
        w == unicode_char_width(c),
        (c as u32) < 0x20 ==> w is None,
        0x20 <= (c as u32) < 0x7F ==> w == Some(1usize),
        0x7F <= (c as u32) < 0xA0 ==> w is None,
{
    c.width()
}

/// `UnicodeWidthStr::width`. Claimed of it: the result is the named width of
/// `s`, and a string of printable ASCII characters is as wide as it is long
/// (the crate counts every character up to U+00A0 as one column, CR before
/// LF aside). Nothing more is stated: the crate treats several character
/// sequences (CR LF, emoji sequences, ligatures) otherwise than as the sum of
/// their characters.
#[verifier::external_body]
pub(crate) fn str_width(s: &str) -> (w: usize)
    ensures
        w == unicode_str_width(s@),
        (forall|i: int| 0 <= i < s@.len() ==> 0x20 <= (#[trigger] s@[i] as u32) < 0x7F) ==> w == s@.len(),
{
    s.width()
}

/// The number of bytes of the UTF-8 encoding of `s`.
pub(crate) fn byte_len(s: &str) -> (n: usize)
    ensures
        n == utf8_len(s@),
{
    s.as_bytes().len()
}

/// Width of a character where control characters count as one column.
pub open spec fn columns_or_one(c: char) -> nat {
    match unicode_char_width(c) {
        Some(w) => w as nat,
        None => 1,
    }
}

/// `n` copies of `c`.
pub open spec fn repeat_char(c: char, n: nat) -> Seq<char> {
    Seq::new(n, |_i: int| c)
}

/// A string of `n` copies of `c`.
pub fn repeat_string(c: char, n: usize) -> (s: String)
    ensures
        s@ == repeat_char(c, n as nat),
{
    let mut s = String::new();
    let mut i: usize = 0;
    while i < n
        invariant
            i <= n,
            s@ == repeat_char(c, i as nat),
        decreases n - i,
    {
        s.push(c);
        i = i + 1;
        assert(s@ =~= repeat_char(c, i as nat));
    }
    s
}

} // verus!
