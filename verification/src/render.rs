//! Composing the screen image: the text of each viewport row, the status
//! line and the footer line, each fitted to the terminal width.  Drawing
//! the rows into terminal cells is the driver's job; everything textual is
//! computed — and specified — here.
use vstd::prelude::*;

use crate::codec::push_char;
use crate::session::Editor;
use crate::textmodel::{lemma_count_char_le_len, line_count, line_seq};
use vstd::string::{StrSliceExecFns, StringExecFns};

verus! {

/// Each tab character widened to four spaces; every other character kept.
pub open spec fn expand_tabs(s: Seq<char>) -> Seq<char>
    decreases s.len(),
{
    if s.len() == 0 {
        s
    } else if s[0] == '\t' {
        seq![' ', ' ', ' ', ' '] + expand_tabs(s.skip(1))
    } else {
        seq![s[0]] + expand_tabs(s.skip(1))
    }
}

/// The text with its first `n` characters dropped; empty when `n` reaches
/// past the end.
pub open spec fn drop_prefix(s: Seq<char>, n: int) -> Seq<char> {
    if n <= 0 {
        s
    } else if n >= s.len() {
        Seq::<char>::empty()
    } else {
        s.skip(n)
    }
}

/// The text with a trailing line feed removed, then a trailing carriage
/// return, in that order.
pub open spec fn strip_line_break(s: Seq<char>) -> Seq<char> {
    let a = if s.len() > 0 && s.last() == '\n' {
        s.drop_last()
    } else {
        s
    };
    if a.len() > 0 && a.last() == '\r' {
        a.drop_last()
    } else {
        a
    }
}

/// What unicode_width's east-asian-width measure says the text occupies in
/// terminal cells.  A function of the characters alone.
pub uninterp spec fn display_width(s: Seq<char>) -> nat;

/// `n` spaces.
pub open spec fn spaces(n: int) -> Seq<char> {
    Seq::new(
        if n >= 0 {
            n as nat
        } else {
            0
        },
        |i: int| ' ',
    )
}

/// One screen line fitted to `width`: truncated to `width` characters when
/// longer, padded with spaces up to `width` cells when its display width
/// falls short.
pub open spec fn fitted_row(s: Seq<char>, width: int) -> Seq<char> {
    if s.len() > width {
        s.take(width)
    } else if display_width(s) < width {
        s + spaces(width - display_width(s))
    } else {
        s
    }
}

/// The text of one viewport content row: the row's source line with the
/// first `origin_col` characters dropped, tabs expanded and the trailing
/// line break stripped — or the empty-line marker where no source line
/// exists — fitted to the width.
pub open spec fn content_row(
    text: Seq<char>,
    line_idx: int,
    origin_col: int,
    width: int,
) -> Seq<char> {
    let base = if line_idx < line_count(text) {
        strip_line_break(expand_tabs(drop_prefix(line_seq(text, line_idx), origin_col)))
    } else {
        seq!['~']
    };
    fitted_row(base, width)
}

/// Relies on unicode_width's width_cjk: the cells the text occupies on a
/// terminal, a function of the characters alone.
#[verifier::external_body]
fn text_width(s: &str) -> (w: usize)
    ensures
        w == display_width(s@),
{
    unicode_width::UnicodeWidthStr::width_cjk(s)
}

/// Expands each tab character to four spaces.
fn expand_tabs_exec(s: &str) -> (r: String)
    ensures
        r@ == expand_tabs(s@),
{
    let n = s.unicode_len();
    let mut out = String::new();
    let mut i: usize = 0;
    proof {
        assert(s@.skip(0) =~= s@);
        assert(out@ + expand_tabs(s@) =~= expand_tabs(s@));
    }
    while i < n
        invariant
            i <= n,
            n == s@.len(),
            out@ + expand_tabs(s@.skip(i as int)) == expand_tabs(s@),
        decreases n - i,
    {
        let c = s.get_char(i);
        let ghost pre = out@;
        let ghost tail = s@.skip(i as int);
        if c == '\t' {
            push_char(&mut out, ' ');
            push_char(&mut out, ' ');
            push_char(&mut out, ' ');
            push_char(&mut out, ' ');
            proof {
                assert(tail[0] == '\t');
                assert(tail.skip(1) =~= s@.skip(i + 1));
                assert(expand_tabs(tail) == seq![' ', ' ', ' ', ' '] + expand_tabs(s@.skip(i + 1)));
                assert(out@ =~= pre + seq![' ', ' ', ' ', ' ']);
                assert((pre + seq![' ', ' ', ' ', ' ']) + expand_tabs(s@.skip(i + 1)) =~= pre + (
                seq![' ', ' ', ' ', ' '] + expand_tabs(s@.skip(i + 1))));
            }
        } else {
            push_char(&mut out, c);
            proof {
                assert(tail[0] == c);
                assert(tail.skip(1) =~= s@.skip(i + 1));
                assert(expand_tabs(tail) == seq![c] + expand_tabs(s@.skip(i + 1)));
                assert(out@ =~= pre + seq![c]);
                assert((pre + seq![c]) + expand_tabs(s@.skip(i + 1)) =~= pre + (seq![c]
                    + expand_tabs(s@.skip(i + 1))));
            }
        }
        i = i + 1;
    }
    proof {
        assert(s@.skip(n as int) =~= Seq::<char>::empty());
        assert(expand_tabs(Seq::<char>::empty()) =~= Seq::<char>::empty());
        assert(out@ + Seq::<char>::empty() =~= out@);
    }
    out
}

/// Drops the first `n` characters.
fn drop_prefix_exec(s: &str, n: usize) -> (r: String)
    ensures
        r@ == drop_prefix(s@, n as int),
{
    let len = s.unicode_len();
    if n >= len {
        proof {
            if n as int == s@.len() {
                assert(s@.subrange(n as int, s@.len() as int) =~= Seq::<char>::empty());
            }
        }
        if n == len {
            let r = s.substring_char(len, len);
            r.to_owned()
        } else {
            String::new()
        }
    } else {
        let r = s.substring_char(n, len);
        r.to_owned()
    }
}

/// Strips a trailing line feed, then a trailing carriage return.
fn strip_line_break_exec(s: &str) -> (r: String)
    ensures
        r@ == strip_line_break(s@),
{
    let n = s.unicode_len();
    let mut end = n;
    if end > 0 && s.get_char(end - 1) == '\n' {
        end = end - 1;
    }
    proof {
        if n > 0 && s@.last() == '\n' {
            assert(s@.take(n - 1) =~= s@.drop_last());
        } else {
            assert(s@.take(n as int) =~= s@);
        }
    }
    let ghost a = if s@.len() > 0 && s@.last() == '\n' {
        s@.drop_last()
    } else {
        s@
    };
    if end > 0 && s.get_char(end - 1) == '\r' {
        end = end - 1;
        proof {
            assert(a.last() == '\r');
            assert(s@.take(end as int) =~= a.drop_last());
        }
    } else {
        proof {
            assert(s@.take(end as int) =~= a);
        }
    }
    let r = s.substring_char(0, end);
    r.to_owned()
}

/// Fits one screen line to `width`: truncates past it, pads with spaces up
/// to it.
pub fn pad_line(s: &str, width: usize) -> (r: String)
    ensures
        r@ == fitted_row(s@, width as int),
{
    let n = s.unicode_len();
    if n > width {
        let r = s.substring_char(0, width);
        r.to_owned()
    } else {
        let w = text_width(s);
        let mut out = s.to_owned();
        if w < width {
            let mut j: usize = 0;
            proof {
                assert(spaces(0) =~= Seq::<char>::empty());
                assert(out@ + Seq::<char>::empty() =~= out@);
            }
            while j < width - w
                invariant
                    j <= width - w,
                    w < width,
                    out@ == s@ + spaces(j as int),
                decreases width - w - j,
            {
                let ghost pre = out@;
                push_char(&mut out, ' ');
                proof {
                    assert(spaces(j + 1) =~= spaces(j as int).push(' '));
                    assert(out@ =~= s@ + spaces(j + 1));
                }
                j = j + 1;
            }
        }
        out
    }
}

impl Editor {
    /// The text of viewport content row `r`: the slice of its source line
    /// the viewport shows, tabs expanded and the line break stripped, or
    /// the empty-line marker where the document has no such line; fitted to
    /// the viewport width either way.
    pub fn render_row(&self, r: usize) -> (row: String)
        requires
            self.wf(),
        ensures
            row@ == content_row(
                self.buffer.content(),
                self.buffer.visual_origin_row + r,
                self.buffer.visual_origin_col as int,
                self.buffer.visual_width as int,
            ),
    {
        proof {
            lemma_count_char_le_len(self.buffer.content(), '\n');
        }
        let lines = self.buffer.len_lines();
        let origin = self.buffer.visual_origin_row;
        if r < lines && origin <= lines - 1 - r {
            let line_idx = origin + r;
            let text = self.buffer.get_line(line_idx);
            let sliced = drop_prefix_exec(text.as_str(), self.buffer.visual_origin_col);
            let expanded = expand_tabs_exec(sliced.as_str());
            let stripped = strip_line_break_exec(expanded.as_str());
            pad_line(stripped.as_str(), self.buffer.visual_width)
        } else {
            proof {
                reveal_strlit("~");
                assert(("~")@ =~= seq!['~']);
            }
            pad_line("~", self.buffer.visual_width)
        }
    }

    /// The viewport's content rows, top to bottom: `visual_height - 2` of
    /// them when at least three terminal rows exist, none otherwise.
    pub fn render_content_rows(&self) -> (rows: Vec<String>)
        requires
            self.wf(),
        ensures
            self.buffer.visual_height < 3 ==> rows@.len() == 0,
            self.buffer.visual_height >= 3 ==> rows@.len() == self.buffer.visual_height - 2,
            forall|r: int|
                0 <= r < rows@.len() ==> rows@[r]@ == content_row(
                    self.buffer.content(),
                    self.buffer.visual_origin_row + r,
                    self.buffer.visual_origin_col as int,
                    self.buffer.visual_width as int,
                ),
    {
        let mut rows: Vec<String> = Vec::new();
        if self.buffer.visual_height < 3 {
            return rows;
        }
        let count = self.buffer.visual_height - 2;
        let mut r: usize = 0;
        while r < count
            invariant
                r <= count,
                count == self.buffer.visual_height - 2,
                self.wf(),
                rows@.len() == r,
                forall|k: int|
                    0 <= k < r ==> rows@[k]@ == content_row(
                        self.buffer.content(),
                        self.buffer.visual_origin_row + k,
                        self.buffer.visual_origin_col as int,
                        self.buffer.visual_width as int,
                    ),
            decreases count - r,
        {
            let row = self.render_row(r);
            rows.push(row);
            r = r + 1;
        }
        rows
    }
}

} // verus!
