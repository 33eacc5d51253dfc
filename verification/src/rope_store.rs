//! Trusted interface to the rope that stores the document text.
//!
//! The crate is built against a rope configured so that `'\n'` is its one
//! line break, which is exactly the line model of `textmodel`: the number of
//! lines is one more than the number of `'\n'` characters, a terminator
//! belongs to the line it ends, and line `i` starts just after the `i`-th
//! terminator.  Each wrapper states over `rope_chars` what the rope's source
//! shows for that method.
use vstd::prelude::*;

use crate::textmodel::{char_line, line_count, line_seq, line_start};

verus! {

#[verifier::external_type_specification]
#[verifier::external_body]
pub struct ExRope(ropey::Rope);

/// The characters a rope holds, in order.
pub uninterp spec fn rope_chars(r: ropey::Rope) -> Seq<char>;

/// Relies on ropey::Rope::from_str: the rope holds the characters of `s`.
#[verifier::external_body]
pub(crate) fn rope_from_str(s: &str) -> (r: ropey::Rope)
    ensures
        rope_chars(r) == s@,
{
    ropey::Rope::from_str(s)
}

/// Relies on ropey::Rope::len_chars: the total number of characters held.
#[verifier::external_body]
pub(crate) fn rope_len_chars(r: &ropey::Rope) -> (n: usize)
    ensures
        n == rope_chars(*r).len(),
{
    r.len_chars()
}

/// Relies on ropey::Rope::len_lines: one more than the number of line
/// breaks, which with this build's line-feed-only breaks is `line_count`.
#[verifier::external_body]
pub(crate) fn rope_len_lines(r: &ropey::Rope) -> (n: usize)
    ensures
        n == line_count(rope_chars(*r)),
{
    r.len_lines()
}

/// Relies on ropey::Rope::char_to_line: the index of the line the character
/// at `at` belongs to, counting a line break as part of the line it ends;
/// the one-past-the-end offset belongs to the last line.
#[verifier::external_body]
pub(crate) fn rope_char_to_line(r: &ropey::Rope, at: usize) -> (line: usize)
    requires
        at <= rope_chars(*r).len(),
    ensures
        line == char_line(rope_chars(*r), at as int),
{
    r.char_to_line(at)
}

/// Relies on ropey::Rope::line_to_char: the character offset at which line
/// `idx` starts; the one-past-the-end line index gives the text's length.
#[verifier::external_body]
pub(crate) fn rope_line_to_char(r: &ropey::Rope, idx: usize) -> (at: usize)
    requires
        idx <= line_count(rope_chars(*r)),
    ensures
        at == line_start(rope_chars(*r), idx as int),
{
    r.line_to_char(idx)
}

/// Relies on ropey::Rope::char: the character at offset `at`.
#[verifier::external_body]
pub(crate) fn rope_char_at(r: &ropey::Rope, at: usize) -> (c: char)
    requires
        at < rope_chars(*r).len(),
    ensures
        c == rope_chars(*r)[at as int],
{
    r.char(at)
}

/// Relies on ropey::Rope::line (and RopeSlice's string conversion): the
/// characters of line `idx`, trailing line break included.
#[verifier::external_body]
pub(crate) fn rope_line(r: &ropey::Rope, idx: usize) -> (s: String)
    requires
        idx < line_count(rope_chars(*r)),
    ensures
        s@ == line_seq(rope_chars(*r), idx as int),
{
    r.line(idx).to_string()
}

/// Relies on ropey::Rope::insert_char: splices one character in at offset
/// `at`.
#[verifier::external_body]
pub(crate) fn rope_insert_char(r: &mut ropey::Rope, at: usize, c: char)
    requires
        at <= rope_chars(*old(r)).len(),
    ensures
        rope_chars(*final(r)) == rope_chars(*old(r)).insert(at as int, c),
{
    r.insert_char(at, c)
}

/// Relies on ropey::Rope::remove: takes out the characters of the range
/// `from..to`.
#[verifier::external_body]
pub(crate) fn rope_remove_range(r: &mut ropey::Rope, from: usize, to: usize)
    requires
        from <= to <= rope_chars(*old(r)).len(),
    ensures
        rope_chars(*final(r)) == rope_chars(*old(r)).subrange(0, from as int) + rope_chars(
            *old(r),
        ).skip(to as int),
{
    r.remove(from..to)
}

/// Relies on ropey::Rope's string conversion: the whole text, verbatim.
#[verifier::external_body]
pub(crate) fn rope_to_string(r: &ropey::Rope) -> (s: String)
    ensures
        s@ == rope_chars(*r),
{
    r.to_string()
}

} // verus!
