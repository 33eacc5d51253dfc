//! The text buffer: one open document, its cursor, and the viewport origin.
//! The text itself lives in a rope; every operation's contract is stated
//! against the buffer's character sequence and the line model of
//! `textmodel`.
use vstd::prelude::*;

use crate::keys::{Key, KeyPress};
use crate::rope_store::{
    rope_char_at, rope_char_to_line, rope_chars, rope_from_str, rope_insert_char, rope_len_chars,
    rope_len_lines, rope_line, rope_line_to_char, rope_remove_range, rope_to_string,
};
use crate::textmodel::{
    char_line, count_char, cursor_down, cursor_left, cursor_line_end, cursor_line_home,
    cursor_right, cursor_up, lemma_char_line_bracket, lemma_count_char_add,
    lemma_count_char_le_len, lemma_count_char_singleton, lemma_count_char_take_le,
    lemma_line_start_bounds, lemma_line_start_monotone, first_occurrence_after, line_content_len,
    line_count, line_seq, line_start, no_occurrence_after, occurs_at, vertical_landing,
};
use vstd::string::{StrSliceExecFns, StringExecFns};
use vstd::utf8::encode_utf8;

verus! {

/// Width in screen cells of one tab character.
pub const TAB_WIDTH: usize = 4;

/// Capacity bound on the text, in characters.  It keeps every coordinate
/// computation comfortably inside `usize`, on 32-bit machines included.
pub const MAX_CHARS: usize = 0x0FFF_FFFF;

/// One buffer represents one open file.
pub struct Buffer {
    /// The document text.
    pub text: ropey::Rope,
    /// Path of the backing file; empty means no file yet.
    pub file_path: String,
    /// Width in columns of the screen region this buffer is drawn to.
    pub visual_width: usize,
    /// Height in rows of the screen region this buffer is drawn to.
    pub visual_height: usize,
    /// The logical line shown at the region's top-left corner.
    pub visual_origin_row: usize,
    /// The logical column shown at the region's top-left corner.
    pub visual_origin_col: usize,
    /// The cursor, as a character offset into the text.
    pub cursor_idx: usize,
    /// True once any edit has happened since load or last successful save.
    pub dirty: bool,
}

impl Buffer {
    /// The characters of the document.
    pub open spec fn content(&self) -> Seq<char> {
        rope_chars(self.text)
    }

    /// Well-formedness: the cursor stays inside the text, the text inside
    /// the capacity bound.
    pub open spec fn wf(&self) -> bool {
        &&& self.cursor_idx <= self.content().len()
        &&& self.content().len() <= MAX_CHARS
    }

    /// The logical line the cursor is on.
    pub open spec fn cursor_line(&self) -> nat {
        char_line(self.content(), self.cursor_idx as int)
    }

    /// The logical column the cursor is on.
    pub open spec fn cursor_col(&self) -> int {
        self.cursor_idx - line_start(self.content(), self.cursor_line() as int)
    }

    /// Builds a buffer over the given text, cursor and viewport origin at
    /// zero, nothing unsaved yet.
    pub fn from_text(
        file_path: String,
        text: &str,
        visual_width: usize,
        visual_height: usize,
    ) -> (b: Buffer)
        requires
            text@.len() <= MAX_CHARS,
        ensures
            b.wf(),
            b.content() == text@,
            b.file_path@ == file_path@,
            b.visual_width == visual_width,
            b.visual_height == visual_height,
            b.visual_origin_row == 0,
            b.visual_origin_col == 0,
            b.cursor_idx == 0,
            b.dirty == false,
    {
        Buffer {
            text: rope_from_str(text),
            file_path,
            visual_width,
            visual_height,
            visual_origin_row: 0,
            visual_origin_col: 0,
            cursor_idx: 0,
            dirty: false,
        }
    }

    /// Length of the buffer in characters.
    pub fn len_chars(&self) -> (n: usize)
        ensures
            n == self.content().len(),
    {
        rope_len_chars(&self.text)
    }

    /// Number of logical lines in the buffer.
    pub fn len_lines(&self) -> (n: usize)
        ensures
            n == line_count(self.content()),
    {
        rope_len_lines(&self.text)
    }

    /// Character offset at which the given line starts.
    pub fn line_to_char(&self, idx: usize) -> (at: usize)
        requires
            idx <= line_count(self.content()),
        ensures
            at == line_start(self.content(), idx as int),
    {
        rope_line_to_char(&self.text, idx)
    }

    /// Line index of the given character offset.
    pub fn char_to_line(&self, idx: usize) -> (line: usize)
        requires
            idx <= self.content().len(),
        ensures
            line == char_line(self.content(), idx as int),
    {
        rope_char_to_line(&self.text, idx)
    }

    /// The text of one line, trailing terminator included.
    pub fn get_line(&self, idx: usize) -> (s: String)
        requires
            idx < line_count(self.content()),
        ensures
            s@ == line_seq(self.content(), idx as int),
    {
        rope_line(&self.text, idx)
    }

    /// The whole text, verbatim, for persistence.
    pub fn save_text(&self) -> (s: String)
        ensures
            s@ == self.content(),
    {
        rope_to_string(&self.text)
    }

    /// The whole text encoded as UTF-8 bytes, for persistence.
    pub fn save_bytes(&self) -> (b: Vec<u8>)
        ensures
            b@ == encode_utf8(self.content()),
    {
        let s = rope_to_string(&self.text);
        s.as_str().as_bytes_vec()
    }

    /// The logical line the cursor is on.
    pub fn get_logical_cursor_line(&self) -> (line: usize)
        requires
            self.wf(),
        ensures
            line == self.cursor_line(),
    {
        rope_char_to_line(&self.text, self.cursor_idx)
    }

    /// The logical column the cursor is on.
    pub fn get_logical_cursor_col(&self) -> (col: usize)
        requires
            self.wf(),
        ensures
            col as int == self.cursor_col(),
    {
        proof {
            lemma_count_char_take_le(self.content(), self.cursor_idx as int, '\n');
            lemma_char_line_bracket(self.content(), self.cursor_idx as int);
        }
        let line = rope_char_to_line(&self.text, self.cursor_idx);
        let start = rope_line_to_char(&self.text, line);
        self.cursor_idx - start
    }

    /// The cursor's logical line and column, in that order.
    pub fn get_logical_cursor_pos(&self) -> (pos: (usize, usize))
        requires
            self.wf(),
        ensures
            pos.0 == self.cursor_line(),
            pos.1 as int == self.cursor_col(),
    {
        (self.get_logical_cursor_line(), self.get_logical_cursor_col())
    }

    /// Length of line `idx` without its trailing terminator, if any.
    fn line_content_len_at(&self, idx: usize) -> (n: usize)
        requires
            self.wf(),
            idx < line_count(self.content()),
        ensures
            n as int == line_content_len(self.content(), idx as int),
    {
        proof {
            lemma_count_char_le_len(self.content(), '\n');
            lemma_line_start_bounds(self.content(), idx as int);
            lemma_line_start_monotone(self.content(), idx as int, idx as int + 1);
            lemma_line_start_bounds(self.content(), idx as int + 1);
        }
        let start = rope_line_to_char(&self.text, idx);
        let next = rope_line_to_char(&self.text, idx + 1);
        let llen = next - start;
        if llen > 0 && rope_char_at(&self.text, next - 1) == '\n' {
            llen - 1
        } else {
            llen
        }
    }
}

/// The file-name part of a path: the characters after the last `'/'`.
pub open spec fn after_last_slash(p: Seq<char>) -> Seq<char>
    decreases p.len(),
{
    if p.len() == 0 {
        p
    } else if p.last() == '/' {
        Seq::<char>::empty()
    } else {
        after_last_slash(p.drop_last()).push(p.last())
    }
}

/// Where scanning back from the end first meets a `'/'` (or the start), the
/// name part is everything after it.
proof fn lemma_after_last_slash_at(p: Seq<char>, i: int)
    requires
        0 <= i <= p.len(),
        forall|k: int| i <= k < p.len() ==> p[k] != '/',
        i > 0 ==> p[i - 1] == '/',
    ensures
        after_last_slash(p) == p.skip(i),
    decreases p.len(),
{
    if i == p.len() {
        if i == 0 {
            assert(p.skip(0) =~= p);
        } else {
            assert(p.last() == '/');
            assert(after_last_slash(p) =~= p.skip(i));
        }
    } else {
        let q = p.drop_last();
        lemma_after_last_slash_at(q, i);
        assert(p.skip(i) =~= q.skip(i).push(p.last()));
    }
}

/// The name shown in the status bar: the path's file-name part, or a
/// placeholder for a buffer without one.
pub open spec fn display_name(path: Seq<char>) -> Seq<char> {
    if after_last_slash(path).len() == 0 {
        "<unnamed>"@
    } else {
        after_last_slash(path)
    }
}

/// The status line for a buffer backed by `path`.
pub open spec fn status_text(path: Seq<char>) -> Seq<char> {
    "Viewing file "@ + display_name(path)
}

impl Buffer {
    /// The text the session shows in the status bar for this buffer.
    pub fn get_status_bar_text(&self) -> (s: String)
        ensures
            s@ == status_text(self.file_path@),
    {
        let path = self.file_path.as_str();
        let plen = path.unicode_len();
        let mut i: usize = plen;
        while i > 0 && path.get_char(i - 1) != '/'
            invariant
                i <= plen,
                plen == path@.len(),
                forall|k: int| i <= k < plen ==> path@[k] != '/',
            decreases i,
        {
            i = i - 1;
        }
        proof {
            lemma_after_last_slash_at(path@, i as int);
        }
        let base = path.substring_char(i, plen);
        let mut out = "Viewing file ".to_owned();
        if base.unicode_len() == 0 {
            out.append("<unnamed>");
        } else {
            out.append(base);
        }
        out
    }

    /// Number of tab characters between the cursor's line start and the
    /// cursor.
    pub open spec fn cursor_tabs(&self) -> nat {
        count_char(
            self.content().subrange(
                line_start(self.content(), self.cursor_line() as int),
                self.cursor_idx as int,
            ),
            '\t',
        )
    }

    /// The screen column the cursor sits on: its logical column, widened by
    /// the extra cells of each tab before it, less the viewport's column
    /// origin.
    pub open spec fn visual_cursor_col(&self) -> int {
        self.cursor_col() + (TAB_WIDTH - 1) * self.cursor_tabs() - self.visual_origin_col
    }

    /// The screen row the cursor sits on: its logical line less the
    /// viewport's row origin.
    pub open spec fn visual_cursor_row(&self) -> int {
        self.cursor_line() - self.visual_origin_row
    }

    /// The screen column of the cursor.  Meaningful only once the viewport
    /// is aligned, which is what the precondition says.
    pub fn get_visual_cursor_col(&self) -> (v: usize)
        requires
            self.wf(),
            self.visual_origin_col <= self.cursor_col(),
        ensures
            v as int == self.visual_cursor_col(),
    {
        let ghost s = self.content();
        let ghost cl = self.cursor_line() as int;
        proof {
            lemma_count_char_take_le(s, self.cursor_idx as int, '\n');
            lemma_char_line_bracket(s, self.cursor_idx as int);
        }
        let line = rope_char_to_line(&self.text, self.cursor_idx);
        let start = rope_line_to_char(&self.text, line);
        let col = self.cursor_idx - start;
        let mut tabs: usize = 0;
        let mut j: usize = start;
        while j < self.cursor_idx
            invariant
                self.wf(),
                s == self.content(),
                start == line_start(s, cl),
                cl == self.cursor_line(),
                start <= j <= self.cursor_idx <= s.len(),
                tabs == count_char(s.subrange(start as int, j as int), '\t'),
                tabs <= j - start,
            decreases self.cursor_idx - j,
        {
            proof {
                assert(s.subrange(start as int, j + 1) =~= s.subrange(start as int, j as int)
                    + seq![s[j as int]]);
                lemma_count_char_add(
                    s.subrange(start as int, j as int),
                    seq![s[j as int]],
                    '\t',
                );
                lemma_count_char_singleton(s[j as int], '\t');
            }
            if rope_char_at(&self.text, j) == '\t' {
                tabs = tabs + 1;
            }
            j = j + 1;
        }
        proof {
            assert((TAB_WIDTH - 1) as int == 3);
            assert(tabs <= col);
            assert(col <= MAX_CHARS);
            assert(col + 3 * tabs <= 4 * MAX_CHARS);
        }
        col + (TAB_WIDTH - 1) * tabs - self.visual_origin_col
    }

    /// The screen row of the cursor.  Meaningful only once the viewport is
    /// aligned, which is what the precondition says.
    pub fn get_visual_cursor_line(&self) -> (v: usize)
        requires
            self.wf(),
            self.visual_origin_row <= self.cursor_line(),
        ensures
            v as int == self.visual_cursor_row(),
    {
        let line = self.get_logical_cursor_line();
        line - self.visual_origin_row
    }
}

/// The fields an operation on the text or the cursor leaves alone: the
/// backing path and the viewport geometry.
pub open spec fn same_frame(pre: Buffer, post: Buffer) -> bool {
    &&& post.file_path@ == pre.file_path@
    &&& post.visual_width == pre.visual_width
    &&& post.visual_height == pre.visual_height
    &&& post.visual_origin_row == pre.visual_origin_row
    &&& post.visual_origin_col == pre.visual_origin_col
}

/// A pure cursor motion: the text, the frame and the dirty flag are kept,
/// and the cursor lands on offset `c`.
pub open spec fn moved_to(pre: Buffer, post: Buffer, c: int) -> bool {
    &&& post.content() == pre.content()
    &&& same_frame(pre, post)
    &&& post.dirty == pre.dirty
    &&& post.cursor_idx == c
}

/// An edit: the text becomes `s2`, the cursor lands on offset `c`, the
/// frame is kept, and the buffer is marked unsaved.
pub open spec fn edited_to(pre: Buffer, post: Buffer, s2: Seq<char>, c: int) -> bool {
    &&& post.content() == s2
    &&& same_frame(pre, post)
    &&& post.dirty == true
    &&& post.cursor_idx == c
}

impl Buffer {
    /// Moves the cursor right by one character, clamped at the end.
    pub fn move_right(&mut self)
        requires
            old(self).wf(),
        ensures
            final(self).wf(),
            moved_to(*old(self), *final(self), cursor_right(old(self).content(), old(self).cursor_idx as int)),
    {
        let len = rope_len_chars(&self.text);
        if self.cursor_idx < len {
            self.cursor_idx = self.cursor_idx + 1;
        }
    }

    /// Moves the cursor left by one character, clamped at offset zero.
    pub fn move_left(&mut self)
        requires
            old(self).wf(),
        ensures
            final(self).wf(),
            moved_to(*old(self), *final(self), cursor_left(old(self).cursor_idx as int)),
    {
        if self.cursor_idx > 0 {
            self.cursor_idx = self.cursor_idx - 1;
        }
    }

    /// Moves the cursor up a line: to offset zero from line zero, else into
    /// the line above, keeping the column as far as its content reaches.
    pub fn move_up(&mut self)
        requires
            old(self).wf(),
        ensures
            final(self).wf(),
            moved_to(*old(self), *final(self), cursor_up(old(self).content(), old(self).cursor_idx as int)),
    {
        let line = self.get_logical_cursor_line();
        if line == 0 {
            self.cursor_idx = 0;
        } else {
            let col = self.get_logical_cursor_col();
            let target = line - 1;
            proof {
                lemma_count_char_take_le(self.content(), self.cursor_idx as int, '\n');
                lemma_line_start_bounds(self.content(), target as int);
                lemma_line_start_monotone(self.content(), target as int, target as int + 1);
                lemma_line_start_bounds(self.content(), target as int + 1);
            }
            let start = rope_line_to_char(&self.text, target);
            let clen = self.line_content_len_at(target);
            if clen == 0 || col == 0 {
                self.cursor_idx = start;
            } else if col <= clen {
                self.cursor_idx = start + col;
            } else {
                self.cursor_idx = start + clen;
            }
        }
    }

    /// Moves the cursor down a line: to the end of the text from the last
    /// line, else into the line below, keeping the column as far as its
    /// content reaches.
    pub fn move_down(&mut self)
        requires
            old(self).wf(),
        ensures
            final(self).wf(),
            moved_to(*old(self), *final(self), cursor_down(old(self).content(), old(self).cursor_idx as int)),
    {
        let line = self.get_logical_cursor_line();
        let lines = rope_len_lines(&self.text);
        proof {
            lemma_count_char_take_le(self.content(), self.cursor_idx as int, '\n');
        }
        if line == lines - 1 {
            self.cursor_idx = rope_len_chars(&self.text);
        } else {
            let col = self.get_logical_cursor_col();
            let target = line + 1;
            proof {
                lemma_line_start_bounds(self.content(), target as int);
                lemma_line_start_monotone(self.content(), target as int, target as int + 1);
                lemma_line_start_bounds(self.content(), target as int + 1);
            }
            let start = rope_line_to_char(&self.text, target);
            let clen = self.line_content_len_at(target);
            if clen == 0 || col == 0 {
                self.cursor_idx = start;
            } else if col <= clen {
                self.cursor_idx = start + col;
            } else {
                self.cursor_idx = start + clen;
            }
        }
    }

    /// Moves the cursor to the start of its line.
    pub fn line_home(&mut self)
        requires
            old(self).wf(),
        ensures
            final(self).wf(),
            moved_to(*old(self), *final(self), cursor_line_home(old(self).content(), old(self).cursor_idx as int)),
    {
        proof {
            lemma_count_char_take_le(self.content(), self.cursor_idx as int, '\n');
            lemma_char_line_bracket(self.content(), self.cursor_idx as int);
        }
        let line = rope_char_to_line(&self.text, self.cursor_idx);
        self.cursor_idx = rope_line_to_char(&self.text, line);
    }

    /// Moves the cursor to the last content character of its line, or to the
    /// line's start if the line has no content before its terminator.
    pub fn line_end(&mut self)
        requires
            old(self).wf(),
        ensures
            final(self).wf(),
            moved_to(*old(self), *final(self), cursor_line_end(old(self).content(), old(self).cursor_idx as int)),
    {
        proof {
            lemma_count_char_take_le(self.content(), self.cursor_idx as int, '\n');
        }
        let line = rope_char_to_line(&self.text, self.cursor_idx);
        proof {
            lemma_line_start_bounds(self.content(), line as int);
            lemma_line_start_monotone(self.content(), line as int, line as int + 1);
            lemma_line_start_bounds(self.content(), line as int + 1);
        }
        let start = rope_line_to_char(&self.text, line);
        let clen = self.line_content_len_at(line);
        if clen == 0 {
            self.cursor_idx = start;
        } else {
            self.cursor_idx = start + clen - 1;
        }
    }

    /// Moves the cursor to the start of the buffer.
    pub fn buffer_home(&mut self)
        requires
            old(self).wf(),
        ensures
            final(self).wf(),
            moved_to(*old(self), *final(self), 0),
    {
        self.cursor_idx = 0;
    }

    /// Moves the cursor to the end of the buffer.
    pub fn buffer_end(&mut self)
        requires
            old(self).wf(),
        ensures
            final(self).wf(),
            moved_to(*old(self), *final(self), old(self).content().len() as int),
    {
        self.cursor_idx = rope_len_chars(&self.text);
    }

    /// Splices one character in at the cursor and advances the cursor past
    /// it.
    pub fn insert_char(&mut self, c: char)
        requires
            old(self).wf(),
            old(self).content().len() < MAX_CHARS,
        ensures
            final(self).wf(),
            edited_to(
                *old(self),
                *final(self),
                old(self).content().insert(old(self).cursor_idx as int, c),
                old(self).cursor_idx + 1,
            ),
    {
        rope_insert_char(&mut self.text, self.cursor_idx, c);
        self.cursor_idx = self.cursor_idx + 1;
        self.dirty = true;
    }

    /// Removes the character before the cursor and steps the cursor back; a
    /// silent no-op at offset zero.
    pub fn backspace(&mut self)
        requires
            old(self).wf(),
        ensures
            final(self).wf(),
            old(self).cursor_idx > 0 ==> edited_to(
                *old(self),
                *final(self),
                old(self).content().remove(old(self).cursor_idx - 1),
                old(self).cursor_idx - 1,
            ),
            old(self).cursor_idx == 0 ==> *final(self) == *old(self),
    {
        if self.cursor_idx > 0 {
            let at = self.cursor_idx - 1;
            proof {
                let s = self.content();
                assert(s.subrange(0, at as int) + s.skip(at + 1) =~= s.remove(at as int));
            }
            rope_remove_range(&mut self.text, at, self.cursor_idx);
            self.cursor_idx = at;
            self.dirty = true;
        }
    }

    /// Removes the character at the cursor, cursor unchanged; a silent
    /// no-op at the end of the buffer.
    pub fn delete_forward(&mut self)
        requires
            old(self).wf(),
        ensures
            final(self).wf(),
            old(self).cursor_idx < old(self).content().len() ==> edited_to(
                *old(self),
                *final(self),
                old(self).content().remove(old(self).cursor_idx as int),
                old(self).cursor_idx as int,
            ),
            old(self).cursor_idx == old(self).content().len() ==> *final(self) == *old(self),
    {
        let len = rope_len_chars(&self.text);
        if self.cursor_idx < len {
            let at = self.cursor_idx;
            proof {
                let s = self.content();
                assert(s.subrange(0, at as int) + s.skip(at + 1) =~= s.remove(at as int));
            }
            rope_remove_range(&mut self.text, at, at + 1);
            self.dirty = true;
        }
    }
}

/// True of the key presses that splice a character into the text.
pub open spec fn key_inserts(key: KeyPress) -> bool {
    key.press && (key.code matches Key::Char(_) || key.code == Key::Enter || key.code == Key::Tab)
}

/// What one key press does to a buffer: the editor's keystroke-to-edit
/// table.  Non-press events and unrecognized keys leave the buffer alone.
pub open spec fn key_applied(pre: Buffer, post: Buffer, key: KeyPress) -> bool {
    let s = pre.content();
    let c = pre.cursor_idx as int;
    if !key.press {
        post == pre
    } else {
        match key.code {
            Key::Right => moved_to(pre, post, cursor_right(s, c)),
            Key::Left => moved_to(pre, post, cursor_left(c)),
            Key::Up => moved_to(pre, post, cursor_up(s, c)),
            Key::Down => moved_to(pre, post, cursor_down(s, c)),
            Key::Home => moved_to(
                pre,
                post,
                if key.ctrl {
                    0
                } else {
                    cursor_line_home(s, c)
                },
            ),
            Key::End => moved_to(
                pre,
                post,
                if key.ctrl {
                    s.len() as int
                } else {
                    cursor_line_end(s, c)
                },
            ),
            Key::Char(ch) => edited_to(pre, post, s.insert(c, ch), c + 1),
            Key::Enter => edited_to(pre, post, s.insert(c, '\n'), c + 1),
            Key::Tab => edited_to(pre, post, s.insert(c, '\t'), c + 1),
            Key::Backspace => if c > 0 {
                edited_to(pre, post, s.remove(c - 1), c - 1)
            } else {
                post == pre
            },
            Key::Delete => if c < s.len() {
                edited_to(pre, post, s.remove(c), c)
            } else {
                post == pre
            },
            _ => post == pre,
        }
    }
}

impl Buffer {
    /// Applies one key press to the buffer: motions move the cursor, edits
    /// splice the text, anything else is a silent no-op.
    pub fn handle_key_event(&mut self, key: KeyPress)
        requires
            old(self).wf(),
            key_inserts(key) ==> old(self).content().len() < MAX_CHARS,
        ensures
            final(self).wf(),
            key_applied(*old(self), *final(self), key),
    {
        if !key.press {
            return ;
        }
        match key.code {
            Key::Right => self.move_right(),
            Key::Left => self.move_left(),
            Key::Up => self.move_up(),
            Key::Down => self.move_down(),
            Key::Home => {
                if key.ctrl {
                    self.buffer_home();
                } else {
                    self.line_home();
                }
            },
            Key::End => {
                if key.ctrl {
                    self.buffer_end();
                } else {
                    self.line_end();
                }
            },
            Key::Char(ch) => self.insert_char(ch),
            Key::Enter => self.insert_char('\n'),
            Key::Tab => self.insert_char('\t'),
            Key::Backspace => self.backspace(),
            Key::Delete => self.delete_forward(),
            _ => {},
        }
    }

    /// Scans forward from the character after the cursor for the first
    /// occurrence of `needle`; on success the cursor lands on the start of
    /// that occurrence, on failure the buffer is untouched.
    pub fn go_to_next_instance(&mut self, needle: &str) -> (found: bool)
        requires
            old(self).wf(),
        ensures
            final(self).wf(),
            found ==> moved_to(*old(self), *final(self), final(self).cursor_idx as int)
                && first_occurrence_after(
                old(self).content(),
                needle@,
                old(self).cursor_idx as int,
                final(self).cursor_idx as int,
            ),
            !found ==> *final(self) == *old(self) && no_occurrence_after(
                old(self).content(),
                needle@,
                old(self).cursor_idx as int,
            ),
    {
        let ghost s = self.content();
        let ghost nd = needle@;
        let n = needle.unicode_len();
        let len = rope_len_chars(&self.text);
        if n > len {
            return false;
        }
        let mut start = self.cursor_idx + 1;
        while start + n <= len
            invariant
                *self == *old(self),
                self.wf(),
                s == self.content(),
                nd == needle@,
                n == nd.len(),
                len == s.len(),
                n <= len,
                start >= old(self).cursor_idx + 1,
                start <= len + 1,
                forall|j: int| old(self).cursor_idx < j < start ==> !occurs_at(s, nd, j),
            decreases len + 1 - start,
        {
            let mut j: usize = 0;
            let mut is_match = true;
            while j < n && is_match
                invariant
                    *self == *old(self),
                    s == self.content(),
                    nd == needle@,
                    n == nd.len(),
                    len == s.len(),
                    start + n <= len,
                    j <= n,
                    is_match ==> forall|k: int| 0 <= k < j ==> s[start + k] == nd[k],
                    !is_match ==> !occurs_at(s, nd, start as int),
                decreases n - j + (if is_match {
                    1int
                } else {
                    0int
                }),
            {
                if rope_char_at(&self.text, start + j) != needle.get_char(j) {
                    proof {
                        if occurs_at(s, nd, start as int) {
                            assert(s.subrange(start as int, start + n as int)[j as int] == s[start
                                + j]);
                        }
                    }
                    is_match = false;
                } else {
                    j = j + 1;
                }
            }
            if is_match {
                proof {
                    assert(s.subrange(start as int, start + n as int) =~= nd);
                }
                self.cursor_idx = start;
                return true;
            }
            start = start + 1;
        }
        proof {
            assert forall|j: int| j > old(self).cursor_idx implies !occurs_at(s, nd, j) by {
                if j < start {
                } else {
                    assert(j + nd.len() > len);
                }
            }
        }
        false
    }
}

} // verus!
