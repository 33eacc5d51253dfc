//! The mathematical model of the document text: a sequence of Unicode scalar
//! values in which `'\n'` is the one line terminator.  Lines are numbered from
//! zero; a terminator belongs to the line it ends, and a text that ends with a
//! terminator has a final empty line.  All coordinate reasoning in the crate
//! is done against the spec functions of this module.
use vstd::prelude::*;

verus! {

/// Number of occurrences of the character `ch` in `s`.
pub open spec fn count_char(s: Seq<char>, ch: char) -> nat
    decreases s.len(),
{
    if s.len() == 0 {
        0
    } else {
        (if s[0] == ch {
            1nat
        } else {
            0nat
        }) + count_char(s.skip(1), ch)
    }
}

/// Number of line terminators (`'\n'`) in `s`.
pub open spec fn count_nl(s: Seq<char>) -> nat {
    count_char(s, '\n')
}

/// Number of logical lines of `s`: one more than the number of terminators.
pub open spec fn line_count(s: Seq<char>) -> nat {
    count_nl(s) + 1
}

/// Character offset at which line `i` begins: offset 0 for line 0, and the
/// offset just after the `i`-th terminator otherwise.  Every index at or past
/// the line count yields `s.len()`.
pub open spec fn line_start(s: Seq<char>, i: int) -> int
    decreases s.len(),
{
    if i <= 0 || s.len() == 0 {
        0
    } else if s[0] == '\n' {
        1 + line_start(s.skip(1), i - 1)
    } else {
        1 + line_start(s.skip(1), i)
    }
}

/// Index of the line that the character offset `c` lies on: the number of
/// terminators strictly before `c`.  Offset `s.len()` lies on the last line.
pub open spec fn char_line(s: Seq<char>, c: int) -> nat {
    count_nl(s.take(c))
}

/// Length of line `i` in characters, terminator included.
pub open spec fn line_len(s: Seq<char>, i: int) -> int {
    line_start(s, i + 1) - line_start(s, i)
}

/// The characters of line `i`, terminator included.
pub open spec fn line_seq(s: Seq<char>, i: int) -> Seq<char> {
    s.subrange(line_start(s, i), line_start(s, i + 1))
}

/// Length of line `i` without its trailing terminator, if it has one.
pub open spec fn line_content_len(s: Seq<char>, i: int) -> int {
    if line_len(s, i) > 0 && s[line_start(s, i + 1) - 1] == '\n' {
        line_len(s, i) - 1
    } else {
        line_len(s, i)
    }
}

/// Cursor one step right, clamped at the end of the text.
pub open spec fn cursor_right(s: Seq<char>, c: int) -> int {
    if c < s.len() {
        c + 1
    } else {
        c
    }
}

/// Cursor one step left, clamped at offset zero.
pub open spec fn cursor_left(c: int) -> int {
    if c > 0 {
        c - 1
    } else {
        c
    }
}

/// Where a vertical move into line `target` puts a cursor that sat at
/// logical column `col`: at the target's start if that line has no content
/// or the column was zero, else at the old column clamped to the target's
/// content length.
pub open spec fn vertical_landing(s: Seq<char>, target: int, col: int) -> int {
    let st = line_start(s, target);
    let cl = line_content_len(s, target);
    if cl == 0 || col == 0 {
        st
    } else if col <= cl {
        st + col
    } else {
        st + cl
    }
}

/// Cursor one line up: to offset zero from line zero, else into the line
/// above, keeping the logical column as far as that line's content allows.
pub open spec fn cursor_up(s: Seq<char>, c: int) -> int {
    let l = char_line(s, c) as int;
    if l == 0 {
        0
    } else {
        vertical_landing(s, l - 1, c - line_start(s, l))
    }
}

/// Cursor one line down: to the end of the text from the last line, else
/// into the line below, keeping the logical column as far as that line's
/// content allows.
pub open spec fn cursor_down(s: Seq<char>, c: int) -> int {
    let l = char_line(s, c) as int;
    if l == count_nl(s) {
        s.len() as int
    } else {
        vertical_landing(s, l + 1, c - line_start(s, l))
    }
}

/// Cursor to the start of its line.
pub open spec fn cursor_line_home(s: Seq<char>, c: int) -> int {
    line_start(s, char_line(s, c) as int)
}

/// Cursor to the last content character of its line, or to the line's start
/// if the line has no content before its terminator.
pub open spec fn cursor_line_end(s: Seq<char>, c: int) -> int {
    let l = char_line(s, c) as int;
    let cl = line_content_len(s, l);
    if cl == 0 {
        line_start(s, l)
    } else {
        line_start(s, l) + cl - 1
    }
}

/// The text after line-ending normalization: every `"\r\n"` pair becomes a
/// bare `'\n'`; every other character is kept as it is.
pub open spec fn normalize_crlf(s: Seq<char>) -> Seq<char>
    decreases s.len(),
{
    if s.len() == 0 {
        Seq::<char>::empty()
    } else if s.len() >= 2 && s[0] == '\r' && s[1] == '\n' {
        seq!['\n'] + normalize_crlf(s.skip(2))
    } else {
        seq![s[0]] + normalize_crlf(s.skip(1))
    }
}

/// Normalization never lengthens the text.
pub proof fn lemma_normalize_len(s: Seq<char>)
    ensures
        normalize_crlf(s).len() <= s.len(),
    decreases s.len(),
{
    if s.len() != 0 {
        if s.len() >= 2 && s[0] == '\r' && s[1] == '\n' {
            lemma_normalize_len(s.skip(2));
        } else {
            lemma_normalize_len(s.skip(1));
        }
    }
}

/// A text without carriage returns passes through normalization unchanged.
pub proof fn lemma_normalize_no_cr_identity(s: Seq<char>)
    requires
        forall|i: int| 0 <= i < s.len() ==> s[i] != '\r',
    ensures
        normalize_crlf(s) == s,
    decreases s.len(),
{
    if s.len() == 0 {
        assert(normalize_crlf(s) =~= s);
    } else {
        assert(forall|i: int| 0 <= i < s.skip(1).len() ==> s.skip(1)[i] != '\r');
        lemma_normalize_no_cr_identity(s.skip(1));
        assert(seq![s[0]] + s.skip(1) =~= s);
    }
}

/// `needle` occurs in `s` starting at offset `i`.
pub open spec fn occurs_at(s: Seq<char>, needle: Seq<char>, i: int) -> bool {
    &&& 0 <= i
    &&& i + needle.len() <= s.len()
    &&& s.subrange(i, i + needle.len() as int) == needle
}

/// `at` is the first occurrence of `needle` strictly after `from`.
pub open spec fn first_occurrence_after(s: Seq<char>, needle: Seq<char>, from: int, at: int) -> bool {
    &&& occurs_at(s, needle, at)
    &&& at > from
    &&& forall|j: int| from < j < at ==> !occurs_at(s, needle, j)
}

/// `needle` occurs nowhere strictly after `from`.
pub open spec fn no_occurrence_after(s: Seq<char>, needle: Seq<char>, from: int) -> bool {
    forall|j: int| j > from ==> !occurs_at(s, needle, j)
}

/// Counting a character distributes over concatenation.
pub proof fn lemma_count_char_add(a: Seq<char>, b: Seq<char>, ch: char)
    ensures
        count_char(a + b, ch) == count_char(a, ch) + count_char(b, ch),
    decreases a.len(),
{
    if a.len() == 0 {
        assert(a + b =~= b);
    } else {
        assert((a + b).skip(1) =~= a.skip(1) + b);
        lemma_count_char_add(a.skip(1), b, ch);
    }
}

/// The count over a one-character sequence.
pub proof fn lemma_count_char_singleton(x: char, ch: char)
    ensures
        count_char(seq![x], ch) == (if x == ch {
            1nat
        } else {
            0nat
        }),
{
    assert(seq![x].skip(1) =~= Seq::<char>::empty());
    assert(count_char(Seq::<char>::empty(), ch) == 0);
    assert(seq![x][0] == x);
}

/// Extending a prefix by one character adds that character's count.
pub proof fn lemma_count_char_take_succ(s: Seq<char>, c: int, ch: char)
    requires
        0 <= c < s.len(),
    ensures
        count_char(s.take(c + 1), ch) == count_char(s.take(c), ch) + (if s[c] == ch {
            1nat
        } else {
            0nat
        }),
{
    assert(s.take(c + 1) =~= s.take(c) + seq![s[c]]);
    lemma_count_char_add(s.take(c), seq![s[c]], ch);
    lemma_count_char_singleton(s[c], ch);
}

/// A sequence holds no more occurrences than characters.
pub proof fn lemma_count_char_le_len(s: Seq<char>, ch: char)
    ensures
        count_char(s, ch) <= s.len(),
    decreases s.len(),
{
    if s.len() != 0 {
        lemma_count_char_le_len(s.skip(1), ch);
    }
}

/// A longer prefix never holds fewer occurrences.
pub proof fn lemma_count_char_monotone(s: Seq<char>, c1: int, c2: int, ch: char)
    requires
        0 <= c1 <= c2 <= s.len(),
    ensures
        count_char(s.take(c1), ch) <= count_char(s.take(c2), ch),
    decreases c2 - c1,
{
    if c1 < c2 {
        lemma_count_char_take_succ(s, c2 - 1, ch);
        lemma_count_char_monotone(s, c1, c2 - 1, ch);
    }
}

/// A prefix holds at most as many occurrences as the whole.
pub proof fn lemma_count_char_take_le(s: Seq<char>, c: int, ch: char)
    requires
        0 <= c <= s.len(),
    ensures
        count_char(s.take(c), ch) <= count_char(s, ch),
{
    lemma_count_char_monotone(s, c, s.len() as int, ch);
    assert(s.take(s.len() as int) =~= s);
}

/// Line starts stay inside the text.
pub proof fn lemma_line_start_bounds(s: Seq<char>, i: int)
    ensures
        0 <= line_start(s, i) <= s.len(),
    decreases s.len(),
{
    if !(i <= 0 || s.len() == 0) {
        if s[0] == '\n' {
            lemma_line_start_bounds(s.skip(1), i - 1);
        } else {
            lemma_line_start_bounds(s.skip(1), i);
        }
    }
}

/// Line starts never decrease with the line index.
pub proof fn lemma_line_start_monotone(s: Seq<char>, i: int, j: int)
    requires
        i <= j,
    ensures
        line_start(s, i) <= line_start(s, j),
    decreases s.len(),
{
    if !(j <= 0 || s.len() == 0) {
        if i <= 0 {
            lemma_line_start_bounds(s, j);
        } else if s[0] == '\n' {
            lemma_line_start_monotone(s.skip(1), i - 1, j - 1);
        } else {
            lemma_line_start_monotone(s.skip(1), i, j);
        }
    }
}

/// Splitting off the first character splits the prefix count.
pub proof fn lemma_char_line_decompose(s: Seq<char>, c: int)
    requires
        1 <= c <= s.len(),
    ensures
        char_line(s, c) == (if s[0] == '\n' {
            1nat
        } else {
            0nat
        }) + char_line(s.skip(1), c - 1),
{
    assert(s.take(c) =~= seq![s[0]] + s.skip(1).take(c - 1));
    lemma_count_char_add(seq![s[0]], s.skip(1).take(c - 1), '\n');
    lemma_count_char_singleton(s[0], '\n');
}

/// Every character offset lies between the start of its own line and the
/// start of the next one; strictly before the next start unless the offset is
/// the end of the text.
pub proof fn lemma_char_line_bracket(s: Seq<char>, c: int)
    requires
        0 <= c <= s.len(),
    ensures
        line_start(s, char_line(s, c) as int) <= c,
        c <= line_start(s, char_line(s, c) as int + 1),
        c < s.len() ==> c < line_start(s, char_line(s, c) as int + 1),
    decreases s.len(),
{
    if c == 0 {
        assert(s.take(0) =~= Seq::<char>::empty());
        assert(count_char(Seq::<char>::empty(), '\n') == 0);
        lemma_line_start_bounds(s, 1);
        if 0 < s.len() {
            lemma_line_start_bounds(s.skip(1), 0);
            lemma_line_start_bounds(s.skip(1), 1);
            assert(line_start(s, 1) >= 1);
        }
    } else {
        let t = s.skip(1);
        let k = char_line(t, c - 1) as int;
        lemma_char_line_decompose(s, c);
        lemma_char_line_bracket(t, c - 1);
        if s[0] == '\n' {
            assert(char_line(s, c) == 1 + k);
            assert(line_start(s, 1 + k) == 1 + line_start(t, k));
            assert(line_start(s, 1 + k + 1) == 1 + line_start(t, k + 1));
        } else {
            assert(char_line(s, c) == k);
            if k == 0 {
                assert(line_start(s, 0) == 0);
            } else {
                assert(line_start(s, k) == 1 + line_start(t, k));
            }
            assert(line_start(s, k + 1) == 1 + line_start(t, k + 1));
        }
    }
}

} // verus!
