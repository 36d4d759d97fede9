//! The text of a buffer is a `ropey::Rope`. Its contents are named by
//! `rope_text`; each method the logic calls goes through a wrapper whose
//! contract restates what ropey's documentation gives for it, over the line
//! model that ropey builds with its default features off (a line ends after
//! each `'\n'`).

use ropey::Rope;
use vstd::prelude::*;

use crate::text::{utf8_len, utf8_width};

verus! {

#[verifier::external_type_specification]
#[verifier::external_body]
pub struct ExRope(ropey::Rope);

/// The chars held by a rope, in order.
pub uninterp spec fn rope_text(r: Rope) -> Seq<char>;

/// Number of `'\n'` chars in `t`.
pub open spec fn count_nl(t: Seq<char>) -> nat
    decreases t.len(),
{
    if t.len() == 0 {
        0
    } else {
        count_nl(t.drop_last()) + if t.last() == '\n' { 1nat } else { 0nat }
    }
}

/// Number of lines: one more than the number of line breaks.
pub open spec fn len_lines(t: Seq<char>) -> nat {
    count_nl(t) + 1
}

/// Line index of char offset `i`: the line breaks before it.
pub open spec fn char_to_line(t: Seq<char>, i: int) -> nat {
    count_nl(t.take(i))
}

/// Char offset at which line `row` starts; `t.len()` for the line one past the end.
pub open spec fn line_to_char(t: Seq<char>, row: nat) -> nat
    decreases t.len(),
{
    if row == 0 {
        0
    } else if row > count_nl(t) {
        t.len()
    } else if t.len() == 0 {
        0
    } else if row <= count_nl(t.drop_last()) {
        line_to_char(t.drop_last(), row)
    } else {
        t.len()
    }
}

/// Byte offset of char offset `i`.
pub open spec fn char_to_byte(t: Seq<char>, i: int) -> nat {
    utf8_len(t.take(i))
}

/// Char offset of byte offset `b`: the number of chars that end at or before `b`
/// (a byte inside a multi-byte char maps to that char).
pub open spec fn byte_to_char(t: Seq<char>, b: int) -> nat
    decreases t.len(),
{
    if t.len() == 0 {
        0
    } else if utf8_len(t) <= b {
        t.len()
    } else {
        byte_to_char(t.drop_last(), b)
    }
}

/// `Rope::from_str`: a rope holding exactly the chars of `s`.
#[verifier::external_body]
pub(crate) fn rope_from_str(s: &str) -> (r: Rope)
    ensures
        rope_text(r) == s@,
{
    Rope::from_str(s)
}

/// `Rope::len_chars`: the number of chars.
#[verifier::external_body]
pub(crate) fn rope_len_chars(r: &Rope) -> (n: usize)
    ensures
        n == rope_text(*r).len(),
{
    r.len_chars()
}

/// `Rope::len_bytes`: the UTF-8 length.
#[verifier::external_body]
pub(crate) fn rope_len_bytes(r: &Rope) -> (n: usize)
    ensures
        n == utf8_len(rope_text(*r)),
{
    r.len_bytes()
}

/// `Rope::len_lines`: line breaks plus one.
#[verifier::external_body]
pub(crate) fn rope_len_lines(r: &Rope) -> (n: usize)
    ensures
        n == len_lines(rope_text(*r)),
{
    r.len_lines()
}

/// `Rope::char`: the char at `i` (it panics past the end).
#[verifier::external_body]
pub(crate) fn rope_char(r: &Rope, i: usize) -> (c: char)
    requires
        i < rope_text(*r).len(),
    ensures
        c == rope_text(*r)[i as int],
{
    r.char(i)
}

/// `Rope::line_to_char`: the first char of line `row` (it panics past one line beyond the end).
#[verifier::external_body]
pub(crate) fn rope_line_to_char(r: &Rope, row: usize) -> (n: usize)
    requires
        row <= len_lines(rope_text(*r)),
    ensures
        n == line_to_char(rope_text(*r), row as nat),
{
    r.line_to_char(row)
}

/// `Rope::char_to_line`: the number of line breaks before char `i`.
#[verifier::external_body]
pub(crate) fn rope_char_to_line(r: &Rope, i: usize) -> (n: usize)
    requires
        i <= rope_text(*r).len(),
    ensures
        n == char_to_line(rope_text(*r), i as int),
{
    r.char_to_line(i)
}

/// `Rope::char_to_byte`: the UTF-8 offset of char `i`.
#[verifier::external_body]
pub(crate) fn rope_char_to_byte(r: &Rope, i: usize) -> (n: usize)
    requires
        i <= rope_text(*r).len(),
    ensures
        n == char_to_byte(rope_text(*r), i as int),
{
    r.char_to_byte(i)
}

/// `Rope::byte_to_char`: the char that byte `b` belongs to.
#[verifier::external_body]
pub(crate) fn rope_byte_to_char(r: &Rope, b: usize) -> (n: usize)
    requires
        b <= utf8_len(rope_text(*r)),
    ensures
        n == byte_to_char(rope_text(*r), b as int),
{
    r.byte_to_char(b)
}

/// `Rope::line_to_byte`: the UTF-8 offset of the first char of line `row`.
#[verifier::external_body]
pub(crate) fn rope_line_to_byte(r: &Rope, row: usize) -> (n: usize)
    requires
        row <= len_lines(rope_text(*r)),
    ensures
        n == char_to_byte(rope_text(*r), line_to_char(rope_text(*r), row as nat) as int),
{
    r.line_to_byte(row)
}

/// `Rope::slice(start..end).to_string()`: the chars in `start..end` as a `String`.
#[verifier::external_body]
pub(crate) fn rope_slice_string(r: &Rope, start: usize, end: usize) -> (s: String)
    requires
        start <= end <= rope_text(*r).len(),
    ensures
        s@ == rope_text(*r).subrange(start as int, end as int),
{
    r.slice(start..end).to_string()
}

} // verus!
