//! The editor session: one buffer plus a footer message, the
//! viewport-alignment algorithm, and the state machine that turns key
//! presses and prompt replies into buffer operations and driver actions.
//!
//! The session never touches the terminal itself.  Whatever needs the
//! outside world — writing the file, running the modal prompt — is handed
//! back to the driver as an [`EditorAction`], and the driver reports the
//! outcome through [`Editor::handle_prompt_result`] or
//! [`Editor::note_save_result`].
use vstd::prelude::*;

use crate::buffer::{key_applied, key_inserts, same_frame, Buffer, MAX_CHARS};
use crate::keys::{Key, KeyPress};
use crate::textmodel::{
    first_occurrence_after, lemma_line_start_bounds, no_occurrence_after,
};
use vstd::string::{StrSliceExecFns, StringExecFns};

verus! {

/// A modal prompt the driver must run for the session.  The reply comes
/// back through [`Editor::handle_prompt_result`] with the same kind.
pub enum PromptKind {
    /// "Enter new filename> " — a name for a buffer that has none.
    SaveFilename,
    /// "Enter target text> " — the text to search for.
    SearchTarget,
    /// "No match found. Search from top? y/n> " — whether to wrap the
    /// search; carries the needle.
    SearchFromTop(String),
    /// "The buffer is unsaved. Do you really want to exit? (y/n): ".
    ConfirmExit,
}

/// What the session asks its driver to do after a step.
pub enum EditorAction {
    /// Nothing outside the session is needed.
    Stay,
    /// End the session.
    Quit,
    /// Write the buffer's text to its backing path, then report through
    /// [`Editor::note_save_result`], handing `new_name` back as given.
    SaveFile { new_name: Option<String> },
    /// Run the given modal prompt, then report through
    /// [`Editor::handle_prompt_result`].
    Prompt(PromptKind),
}

/// What one keystroke did to a modal prompt's accumulated input.
pub enum PromptStep {
    /// Keep prompting.
    Pending,
    /// The input is committed.
    Submit,
    /// The prompt is cancelled.
    Cancel,
}

/// The editor session.
pub struct Editor {
    /// The one open buffer.
    pub buffer: Buffer,
    /// The transient message shown in the footer row.
    pub footer_text: String,
}

/// Where the viewport's row origin lands after alignment: pulled up to the
/// cursor's line, or down just far enough to keep that line on the last
/// content row.
pub open spec fn aligned_row_origin(line: int, origin: int, height: int) -> int {
    if line < origin {
        line
    } else if line >= origin + (height - 2) {
        line - (height - 3)
    } else {
        origin
    }
}

/// Where the viewport's column origin lands after alignment: pulled left to
/// the cursor's column, or right just far enough to keep that column the
/// last visible one.
pub open spec fn aligned_col_origin(col: int, origin: int, width: int) -> int {
    if col < origin {
        col
    } else if col >= origin + width {
        col - width + 1
    } else {
        origin
    }
}

/// An affirmative reply to the exit confirmation.
pub open spec fn affirmative(s: Seq<char>) -> bool {
    s == "y"@ || s == "Y"@ || s == "yes"@
}

/// The observable buffer state a footer-only step leaves alone.
pub open spec fn same_buffer(pre: Buffer, post: Buffer) -> bool {
    &&& post.content() == pre.content()
    &&& post.cursor_idx == pre.cursor_idx
    &&& same_frame(pre, post)
    &&& post.dirty == pre.dirty
}

/// True of the key presses the session handles itself instead of handing
/// to the buffer.
pub open spec fn session_handles(key: KeyPress) -> bool {
    ||| key.ctrl && (key.code == Key::Char('d') || key.code == Key::Char('s') || key.code
        == Key::Char('f'))
    ||| !key.ctrl && key.code == Key::Function(10)
}

/// The session's answer to one key press: control combinations drive the
/// save, search and exit flows; everything else goes to the buffer.
pub open spec fn editor_key_step(pre: Editor, post: Editor, key: KeyPress, a: EditorAction) -> bool {
    if !key.press {
        post == pre && a == EditorAction::Stay
    } else if key.ctrl && key.code == Key::Char('d') {
        post == pre && a == (if pre.buffer.dirty {
            EditorAction::Prompt(PromptKind::ConfirmExit)
        } else {
            EditorAction::Quit
        })
    } else if key.ctrl && key.code == Key::Char('s') {
        post == pre && (if pre.buffer.file_path@.len() == 0 {
            a == EditorAction::Prompt(PromptKind::SaveFilename)
        } else {
            a == (EditorAction::SaveFile { new_name: Option::None })
        })
    } else if key.ctrl && key.code == Key::Char('f') {
        post == pre && a == EditorAction::Prompt(PromptKind::SearchTarget)
    } else if !key.ctrl && key.code == Key::Function(10) {
        post == pre && a == EditorAction::Quit
    } else {
        &&& post.footer_text@ == pre.footer_text@
        &&& key_applied(pre.buffer, post.buffer, key)
        &&& a == EditorAction::Stay
    }
}

/// The session's answer to one prompt reply.
pub open spec fn prompt_result_step(
    pre: Editor,
    post: Editor,
    kind: PromptKind,
    resp: Option<String>,
    a: EditorAction,
) -> bool {
    match kind {
        PromptKind::SaveFilename => match resp {
            Option::Some(name) => {
                &&& post.buffer.file_path@ == name@
                &&& post.buffer.content() == pre.buffer.content()
                &&& post.buffer.cursor_idx == pre.buffer.cursor_idx
                &&& post.buffer.visual_width == pre.buffer.visual_width
                &&& post.buffer.visual_height == pre.buffer.visual_height
                &&& post.buffer.visual_origin_row == pre.buffer.visual_origin_row
                &&& post.buffer.visual_origin_col == pre.buffer.visual_origin_col
                &&& post.buffer.dirty == pre.buffer.dirty
                &&& post.footer_text@ == pre.footer_text@
                &&& match a {
                    EditorAction::SaveFile { new_name } => match new_name {
                        Option::Some(n) => n@ == name@,
                        Option::None => false,
                    },
                    _ => false,
                }
            },
            Option::None => {
                &&& same_buffer(pre.buffer, post.buffer)
                &&& post.footer_text@ == "No file name given, cancelled save."@
                &&& a == EditorAction::Stay
            },
        },
        PromptKind::SearchTarget => match resp {
            Option::Some(t) => {
                &&& post.buffer.content() == pre.buffer.content()
                &&& same_frame(pre.buffer, post.buffer)
                &&& post.buffer.dirty == pre.buffer.dirty
                &&& ({
                    ||| {
                        &&& first_occurrence_after(
                            pre.buffer.content(),
                            t@,
                            pre.buffer.cursor_idx as int,
                            post.buffer.cursor_idx as int,
                        )
                        &&& post.footer_text@ == "Match found."@
                        &&& a == EditorAction::Stay
                    }
                    ||| {
                        &&& post.buffer == pre.buffer
                        &&& no_occurrence_after(
                            pre.buffer.content(),
                            t@,
                            pre.buffer.cursor_idx as int,
                        )
                        &&& post.footer_text@ == pre.footer_text@
                        &&& match a {
                            EditorAction::Prompt(PromptKind::SearchFromTop(n)) => n@ == t@,
                            _ => false,
                        }
                    }
                })
            },
            Option::None => {
                &&& same_buffer(pre.buffer, post.buffer)
                &&& post.footer_text@ == "Search cancelled."@
                &&& a == EditorAction::Stay
            },
        },
        PromptKind::SearchFromTop(t) => match resp {
            Option::Some(r) => {
                if r@ == "y"@ {
                    &&& post.buffer.content() == pre.buffer.content()
                    &&& same_frame(pre.buffer, post.buffer)
                    &&& post.buffer.dirty == pre.buffer.dirty
                    &&& ({
                        ||| {
                            &&& first_occurrence_after(
                                pre.buffer.content(),
                                t@,
                                0,
                                post.buffer.cursor_idx as int,
                            )
                            &&& post.footer_text@ == "Match found."@
                        }
                        ||| {
                            &&& post.buffer == pre.buffer
                            &&& no_occurrence_after(pre.buffer.content(), t@, 0)
                            &&& post.footer_text@ == "No match found."@
                        }
                    })
                    &&& a == EditorAction::Stay
                } else {
                    &&& same_buffer(pre.buffer, post.buffer)
                    &&& post.footer_text@ == pre.footer_text@
                    &&& a == EditorAction::Stay
                }
            },
            Option::None => {
                &&& same_buffer(pre.buffer, post.buffer)
                &&& post.footer_text@ == "Search cancelled."@
                &&& a == EditorAction::Stay
            },
        },
        PromptKind::ConfirmExit => match resp {
            Option::Some(r) => post == pre && a == (if affirmative(r@) {
                EditorAction::Quit
            } else {
                EditorAction::Stay
            }),
            Option::None => post == pre && a == EditorAction::Stay,
        },
    }
}

/// One keystroke of a modal prompt: printable characters accumulate,
/// backspace deletes, enter commits, escape cancels, anything else waits.
pub open spec fn prompt_step_applied(
    pre: Seq<char>,
    post: Seq<char>,
    key: KeyPress,
    r: PromptStep,
) -> bool {
    if !key.press {
        post == pre && r == PromptStep::Pending
    } else {
        match key.code {
            Key::Char(c) => post == pre.push(c) && r == PromptStep::Pending,
            Key::Backspace => (if pre.len() > 0 {
                post == pre.drop_last()
            } else {
                post == pre
            }) && r == PromptStep::Pending,
            Key::Enter => post == pre && r == PromptStep::Submit,
            Key::Esc => post == pre && r == PromptStep::Cancel,
            _ => post == pre && r == PromptStep::Pending,
        }
    }
}

/// Relies on String::pop: removes the last character, if there is one.
#[verifier::external_body]
fn pop_char(s: &mut String)
    ensures
        old(s)@.len() > 0 ==> final(s)@ == old(s)@.drop_last(),
        old(s)@.len() == 0 ==> final(s)@ == old(s)@,
{
    let _ = s.pop();
}

/// Feeds one key press into a modal prompt's accumulated input.  The driver
/// loops on this until it returns `Submit` or `Cancel`.
pub fn prompt_step(input: &mut String, key: KeyPress) -> (r: PromptStep)
    ensures
        prompt_step_applied(old(input)@, final(input)@, key, r),
{
    if !key.press {
        return PromptStep::Pending;
    }
    match key.code {
        Key::Char(c) => {
            crate::codec::push_char(input, c);
            PromptStep::Pending
        },
        Key::Backspace => {
            pop_char(input);
            PromptStep::Pending
        },
        Key::Enter => PromptStep::Submit,
        Key::Esc => PromptStep::Cancel,
        _ => PromptStep::Pending,
    }
}

impl Editor {
    /// Well-formedness of the session: its buffer is well formed.
    pub open spec fn wf(&self) -> bool {
        self.buffer.wf()
    }

    /// A session over a freshly loaded buffer, with an empty footer.
    pub fn from_buffer(buffer: Buffer) -> (e: Editor)
        requires
            buffer.wf(),
        ensures
            e.wf(),
            e.buffer == buffer,
            e.footer_text@ == Seq::<char>::empty(),
    {
        Editor { buffer, footer_text: String::new() }
    }

    /// Moves the viewport origin the least it must so the cursor lies inside
    /// the content region again; with fewer than three rows nothing of the
    /// buffer is shown and nothing moves.
    pub fn align_cursor(&mut self)
        requires
            old(self).wf(),
        ensures
            final(self).wf(),
            final(self).buffer.content() == old(self).buffer.content(),
            final(self).buffer.cursor_idx == old(self).buffer.cursor_idx,
            final(self).buffer.file_path@ == old(self).buffer.file_path@,
            final(self).buffer.visual_width == old(self).buffer.visual_width,
            final(self).buffer.visual_height == old(self).buffer.visual_height,
            final(self).buffer.dirty == old(self).buffer.dirty,
            final(self).footer_text@ == old(self).footer_text@,
            old(self).buffer.visual_height < 3 ==> *final(self) == *old(self),
            old(self).buffer.visual_height >= 3 ==> {
                &&& final(self).buffer.visual_origin_row == aligned_row_origin(
                    old(self).buffer.cursor_line() as int,
                    old(self).buffer.visual_origin_row as int,
                    old(self).buffer.visual_height as int,
                )
                &&& final(self).buffer.visual_origin_col == aligned_col_origin(
                    old(self).buffer.cursor_col(),
                    old(self).buffer.visual_origin_col as int,
                    old(self).buffer.visual_width as int,
                )
                &&& final(self).buffer.visual_origin_row <= final(self).buffer.cursor_line()
                    < final(self).buffer.visual_origin_row + (final(self).buffer.visual_height - 2)
                &&& final(self).buffer.visual_width >= 1
                    ==> final(self).buffer.visual_origin_col <= final(self).buffer.cursor_col()
                    < final(self).buffer.visual_origin_col + final(self).buffer.visual_width
            },
    {
        if self.buffer.visual_height < 3 {
            return ;
        }
        let line_idx = self.buffer.get_logical_cursor_line();
        let col_idx = self.buffer.get_logical_cursor_col();
        proof {
            lemma_line_start_bounds(
                self.buffer.content(),
                self.buffer.cursor_line() as int,
            );
        }
        if line_idx < self.buffer.visual_origin_row {
            self.buffer.visual_origin_row = line_idx;
        } else if line_idx - self.buffer.visual_origin_row >= self.buffer.visual_height - 2 {
            self.buffer.visual_origin_row = line_idx - (self.buffer.visual_height - 3);
        }
        if col_idx < self.buffer.visual_origin_col {
            self.buffer.visual_origin_col = col_idx;
        } else if col_idx - self.buffer.visual_origin_col >= self.buffer.visual_width {
            self.buffer.visual_origin_col = col_idx - self.buffer.visual_width + 1;
        }
    }

    /// Takes a terminal resize: adopts the new size, then re-aligns, since a
    /// shrink can leave the cursor outside the now-smaller viewport.
    pub fn handle_resize(&mut self, width: usize, height: usize)
        requires
            old(self).wf(),
        ensures
            final(self).wf(),
            final(self).buffer.content() == old(self).buffer.content(),
            final(self).buffer.cursor_idx == old(self).buffer.cursor_idx,
            final(self).buffer.file_path@ == old(self).buffer.file_path@,
            final(self).buffer.dirty == old(self).buffer.dirty,
            final(self).footer_text@ == old(self).footer_text@,
            final(self).buffer.visual_width == width,
            final(self).buffer.visual_height == height,
            height < 3 ==> {
                &&& final(self).buffer.visual_origin_row == old(self).buffer.visual_origin_row
                &&& final(self).buffer.visual_origin_col == old(self).buffer.visual_origin_col
            },
            height >= 3 ==> {
                &&& final(self).buffer.visual_origin_row == aligned_row_origin(
                    old(self).buffer.cursor_line() as int,
                    old(self).buffer.visual_origin_row as int,
                    height as int,
                )
                &&& final(self).buffer.visual_origin_col == aligned_col_origin(
                    old(self).buffer.cursor_col(),
                    old(self).buffer.visual_origin_col as int,
                    width as int,
                )
                &&& final(self).buffer.visual_origin_row <= final(self).buffer.cursor_line()
                    < final(self).buffer.visual_origin_row + (height - 2)
                &&& width >= 1
                    ==> final(self).buffer.visual_origin_col <= final(self).buffer.cursor_col()
                    < final(self).buffer.visual_origin_col + width
            },
    {
        self.buffer.visual_width = width;
        self.buffer.visual_height = height;
        self.align_cursor();
    }

    /// Applies one key press: the control combinations drive the save,
    /// search and exit flows, everything else goes to the buffer.  The
    /// returned action tells the driver what the session needs next.
    pub fn handle_key_event(&mut self, key: KeyPress) -> (a: EditorAction)
        requires
            old(self).wf(),
            key_inserts(key) && !session_handles(key) ==> old(self).buffer.content().len()
                < MAX_CHARS,
        ensures
            final(self).wf(),
            editor_key_step(*old(self), *final(self), key, a),
    {
        if !key.press {
            return EditorAction::Stay;
        }
        if key.ctrl {
            match key.code {
                Key::Char(c) => {
                    if c == 'd' {
                        if self.buffer.dirty {
                            EditorAction::Prompt(PromptKind::ConfirmExit)
                        } else {
                            EditorAction::Quit
                        }
                    } else if c == 's' {
                        if self.buffer.file_path.as_str().is_empty() {
                            EditorAction::Prompt(PromptKind::SaveFilename)
                        } else {
                            EditorAction::SaveFile { new_name: Option::None }
                        }
                    } else if c == 'f' {
                        EditorAction::Prompt(PromptKind::SearchTarget)
                    } else {
                        self.buffer.handle_key_event(key);
                        EditorAction::Stay
                    }
                },
                _ => {
                    self.buffer.handle_key_event(key);
                    EditorAction::Stay
                },
            }
        } else {
            match key.code {
                Key::Function(n) => {
                    if n == 10 {
                        EditorAction::Quit
                    } else {
                        self.buffer.handle_key_event(key);
                        EditorAction::Stay
                    }
                },
                _ => {
                    self.buffer.handle_key_event(key);
                    EditorAction::Stay
                },
            }
        }
    }

    /// Takes the reply of a finished modal prompt and finishes the flow the
    /// prompt belonged to: adopting a new file name, running the search,
    /// wrapping it from the top, or confirming the exit.
    pub fn handle_prompt_result(&mut self, kind: PromptKind, resp: Option<String>) -> (a:
        EditorAction)
        requires
            old(self).wf(),
        ensures
            final(self).wf(),
            prompt_result_step(*old(self), *final(self), kind, resp, a),
    {
        match kind {
            PromptKind::SaveFilename => match resp {
                Option::Some(name) => {
                    self.buffer.file_path = name.clone();
                    EditorAction::SaveFile { new_name: Option::Some(name) }
                },
                Option::None => {
                    self.footer_text = "No file name given, cancelled save.".to_owned();
                    EditorAction::Stay
                },
            },
            PromptKind::SearchTarget => match resp {
                Option::Some(t) => {
                    let found = self.buffer.go_to_next_instance(t.as_str());
                    if found {
                        self.footer_text = "Match found.".to_owned();
                        EditorAction::Stay
                    } else {
                        EditorAction::Prompt(PromptKind::SearchFromTop(t))
                    }
                },
                Option::None => {
                    self.footer_text = "Search cancelled.".to_owned();
                    EditorAction::Stay
                },
            },
            PromptKind::SearchFromTop(t) => match resp {
                Option::Some(r) => {
                    let yes = "y".to_owned();
                    if r == yes {
                        let past = self.buffer.cursor_idx;
                        self.buffer.cursor_idx = 0;
                        let found = self.buffer.go_to_next_instance(t.as_str());
                        if !found {
                            self.buffer.cursor_idx = past;
                            self.footer_text = "No match found.".to_owned();
                        } else {
                            self.footer_text = "Match found.".to_owned();
                        }
                    }
                    EditorAction::Stay
                },
                Option::None => {
                    self.footer_text = "Search cancelled.".to_owned();
                    EditorAction::Stay
                },
            },
            PromptKind::ConfirmExit => match resp {
                Option::Some(r) => {
                    let y = "y".to_owned();
                    let cap_y = "Y".to_owned();
                    let yes = "yes".to_owned();
                    if r == y || r == cap_y || r == yes {
                        EditorAction::Quit
                    } else {
                        EditorAction::Stay
                    }
                },
                Option::None => EditorAction::Stay,
            },
        }
    }

    /// Records the outcome of writing the buffer to disk: success clears
    /// the unsaved flag and announces it — under the buffer's new name, if
    /// it was just given one — and failure only reports.
    pub fn note_save_result(&mut self, ok: bool, new_name: Option<String>)
        requires
            old(self).wf(),
        ensures
            final(self).wf(),
            final(self).buffer.content() == old(self).buffer.content(),
            final(self).buffer.cursor_idx == old(self).buffer.cursor_idx,
            same_frame(old(self).buffer, final(self).buffer),
            ok ==> final(self).buffer.dirty == false,
            !ok ==> final(self).buffer.dirty == old(self).buffer.dirty,
            !ok ==> final(self).footer_text@ == "File save failed. Please try again."@,
            ok && new_name is None ==> final(self).footer_text@ == "File saved."@,
            ok ==> match new_name {
                Option::Some(n) => final(self).footer_text@ == "New file saved as "@ + n@,
                Option::None => true,
            },
    {
        if ok {
            self.buffer.dirty = false;
            match new_name {
                Option::Some(n) => {
                    let mut m = "New file saved as ".to_owned();
                    m.append(n.as_str());
                    self.footer_text = m;
                },
                Option::None => {
                    self.footer_text = "File saved.".to_owned();
                },
            }
        } else {
            self.footer_text = "File save failed. Please try again.".to_owned();
        }
    }
}

} // verus!
