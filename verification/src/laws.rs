//! Crate-level laws of the cursor and edit model: what repeated horizontal
//! motion does to the cursor, and that an insert undone by a deletion at
//! the same offset restores the text.
use vstd::prelude::*;

use crate::textmodel::{cursor_left, cursor_right};

verus! {

/// Where `n` repeated steps right put a cursor that started at `c`.
pub open spec fn iterated_right(s: Seq<char>, c: int, n: nat) -> int
    decreases n,
{
    if n == 0 {
        c
    } else {
        cursor_right(s, iterated_right(s, c, (n - 1) as nat))
    }
}

/// Where `n` repeated steps left put a cursor that started at `c`.
pub open spec fn iterated_left(c: int, n: nat) -> int
    decreases n,
{
    if n == 0 {
        c
    } else {
        cursor_left(iterated_left(c, (n - 1) as nat))
    }
}

/// Law: repeated `move_right` advances the cursor one character a step —
/// strictly increasing — until it clamps at the end of the text and stays
/// there.
pub proof fn lemma_repeated_move_right(s: Seq<char>, c: int, n: nat)
    requires
        0 <= c <= s.len(),
    ensures
        iterated_right(s, c, n) == (if c + n <= s.len() {
            c + n
        } else {
            s.len() as int
        }),
    decreases n,
{
    if n > 0 {
        lemma_repeated_move_right(s, c, (n - 1) as nat);
    }
}

/// Law: repeated `move_left` steps the cursor back one character a step —
/// strictly decreasing — until it clamps at offset zero and stays there.
pub proof fn lemma_repeated_move_left(c: int, n: nat)
    requires
        0 <= c,
    ensures
        iterated_left(c, n) == (if c - n >= 0 {
            c - n
        } else {
            0
        }),
    decreases n,
{
    if n > 0 {
        lemma_repeated_move_left(c, (n - 1) as nat);
    }
}

/// Law: splicing a character in at an offset and then removing the
/// character at that same offset — an insert undone by a backspace —
/// restores the original text; by the buffer contracts the cursor, having
/// advanced past the insertion and stepped back over the removal, is
/// restored with it.
pub proof fn lemma_insert_then_remove(s: Seq<char>, c: int, ch: char)
    requires
        0 <= c <= s.len(),
    ensures
        s.insert(c, ch).remove(c) == s,
{
    assert(s.insert(c, ch).remove(c) =~= s);
}

} // verus!
