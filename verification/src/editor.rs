//! The editing session: a document together with a cursor, mutated by
//! cursor-relative operations, and the dispatcher that turns one input
//! event into one such operation or into a save or quit request.
//!
//! Vertical cursor moves clamp the column to the destination line's
//! length, so the cursor always stays within its line; horizontal moves
//! and insertion clamp as the operations themselves demand.

use vstd::prelude::*;
use crate::buffer::Document;
use crate::input::{Direction, InputEvent, is_control_scalar};

verus! {

/// The insertion point: a line index and a column measured in scalar
/// values, ranging from 0 to the line's length inclusive.
#[derive(Clone, Copy, PartialEq, Eq, Structural, Debug)]
pub struct Cursor {
    pub line: usize,
    pub col: usize,
}

/// What the dispatcher asks of the surrounding loop after an event:
/// keep going, save the document, or save it and end the session.
#[derive(Clone, Copy, PartialEq, Eq, Structural, Debug)]
pub enum EditorAction {
    Continue,
    Save,
    SaveAndQuit,
}

/// A document with its cursor.
pub struct Editor {
    pub doc: Document,
    pub cursor: Cursor,
}

/// The two editors agree on every observable part: same lines, same
/// cursor.
pub open spec fn unchanged(pre: Editor, post: Editor) -> bool {
    post.doc@ == pre.doc@ && post.cursor == pre.cursor
}

/// Inserting scalar value `ch`: a control character changes nothing;
/// any other scalar lands at the cursor's column and the column
/// advances past it.
pub open spec fn inserted(pre: Editor, post: Editor, ch: char) -> bool {
    if is_control_scalar(ch) {
        unchanged(pre, post)
    } else {
        let li = pre.cursor.line as int;
        &&& post.doc@ == pre.doc@.update(li, pre.doc@[li].insert(pre.cursor.col as int, ch))
        &&& post.cursor.line == pre.cursor.line
        &&& post.cursor.col == pre.cursor.col + 1
    }
}

/// Splitting the line: a new empty line appears immediately after the
/// cursor's line, and the cursor moves to its start. The text after the
/// cursor stays on the original line.
pub open spec fn line_split(pre: Editor, post: Editor) -> bool {
    &&& post.doc@ == pre.doc@.insert(pre.cursor.line + 1, Seq::<char>::empty())
    &&& post.cursor.line == pre.cursor.line + 1
    &&& post.cursor.col == 0
}

/// Backspacing: within a line the scalar before the cursor disappears;
/// at column 0 of a later line the whole line is appended to the
/// previous one and removed, the cursor landing where the previous line
/// used to end; at the very start of the document nothing happens.
pub open spec fn backspaced(pre: Editor, post: Editor) -> bool {
    let li = pre.cursor.line as int;
    let co = pre.cursor.col as int;
    if co > 0 {
        &&& post.doc@ == pre.doc@.update(li, pre.doc@[li].remove(co - 1))
        &&& post.cursor.line == pre.cursor.line
        &&& post.cursor.col == pre.cursor.col - 1
    } else if li > 0 {
        &&& post.doc@ == pre.doc@.update(li - 1, pre.doc@[li - 1] + pre.doc@[li]).remove(li)
        &&& post.cursor.line == pre.cursor.line - 1
        &&& post.cursor.col == pre.doc@[li - 1].len()
    } else {
        unchanged(pre, post)
    }
}

/// Moving the cursor: vertical moves step the line index by one, clamped
/// to the document, and clamp the column to the destination line;
/// horizontal moves step the column by one, clamped to the current line.
pub open spec fn moved(pre: Editor, post: Editor, d: Direction) -> bool {
    let len = pre.doc@.len();
    &&& post.doc@ == pre.doc@
    &&& match d {
        Direction::Up => {
            let l2 = if pre.cursor.line > 0 {
                pre.cursor.line - 1
            } else {
                0
            };
            &&& post.cursor.line == l2
            &&& post.cursor.col == vstd::math::min(
                pre.cursor.col as int,
                pre.doc@[l2 as int].len() as int,
            )
        },
        Direction::Down => {
            let l2 = if pre.cursor.line + 1 < len {
                pre.cursor.line + 1
            } else {
                len - 1
            };
            &&& post.cursor.line == l2
            &&& post.cursor.col == vstd::math::min(
                pre.cursor.col as int,
                pre.doc@[l2 as int].len() as int,
            )
        },
        Direction::Left => {
            &&& post.cursor.line == pre.cursor.line
            &&& post.cursor.col == if pre.cursor.col > 0 {
                pre.cursor.col - 1
            } else {
                0
            }
        },
        Direction::Right => {
            &&& post.cursor.line == pre.cursor.line
            &&& post.cursor.col == vstd::math::min(
                pre.cursor.col + 1,
                pre.doc@[pre.cursor.line as int].len() as int,
            )
        },
    }
}

impl Editor {
    /// The session invariant: the document has a line under the cursor
    /// and the column is an insertion point of that line.
    pub open spec fn wf(&self) -> bool {
        &&& self.doc.wf()
        &&& (self.cursor.line as int) < self.doc@.len()
        &&& self.cursor.col <= self.doc@[self.cursor.line as int].len()
    }

    /// Opens a session on a document, cursor at the top left corner.
    pub fn new(doc: Document) -> (e: Editor)
        requires
            doc.wf(),
        ensures
            e.doc@ == doc@,
            e.cursor.line == 0,
            e.cursor.col == 0,
            e.wf(),
    {
        Editor { doc, cursor: Cursor { line: 0, col: 0 } }
    }

    /// Inserts one scalar value at the cursor.
    pub fn insert_scalar(&mut self, ch: char)
        requires
            old(self).wf(),
            old(self).doc@[old(self).cursor.line as int].len() < usize::MAX,
        ensures
            final(self).wf(),
            inserted(*old(self), *final(self), ch),
    {
        let v = ch as u32;
        if v < 0x20 || (0x7F <= v && v <= 0x9F) {
            proof {
                vstd::utf8::char_u32_cast(ch, v);
            }
            return ;
        }
        proof {
            vstd::utf8::char_u32_cast(ch, v);
        }
        let li = self.cursor.line;
        self.doc.lines[li].insert(self.cursor.col, ch);
        self.cursor.col = self.cursor.col + 1;
        proof {
            assert(self.doc@ =~= old(self).doc@.update(
                li as int,
                old(self).doc@[li as int].insert(old(self).cursor.col as int, ch),
            ));
        }
    }

    /// Inserts a new empty line after the cursor's line and moves the
    /// cursor to its start.
    pub fn split_line(&mut self)
        requires
            old(self).wf(),
        ensures
            final(self).wf(),
            line_split(*old(self), *final(self)),
    {
        let len = self.doc.line_count();
        assert(self.cursor.line < len);
        let at = self.cursor.line + 1;
        self.doc.lines.insert(at, Vec::new());
        self.cursor.line = at;
        self.cursor.col = 0;
        proof {
            assert(self.doc@ =~= old(self).doc@.insert(at as int, Seq::<char>::empty()));
        }
    }

    /// Deletes backwards over the cursor: one scalar within a line, or
    /// the line break at column 0; a no-op at the start of the document.
    pub fn backspace(&mut self)
        requires
            old(self).wf(),
        ensures
            final(self).wf(),
            backspaced(*old(self), *final(self)),
    {
        let li = self.cursor.line;
        if self.cursor.col > 0 {
            let at = self.cursor.col - 1;
            self.doc.lines[li].remove(at);
            self.cursor.col = at;
            proof {
                assert(self.doc@ =~= old(self).doc@.update(
                    li as int,
                    old(self).doc@[li as int].remove(at as int),
                ));
            }
        } else if li > 0 {
            let prev_len = self.doc.lines[li - 1].len();
            let mut tail = self.doc.lines.remove(li);
            self.doc.lines[li - 1].append(&mut tail);
            self.cursor.line = li - 1;
            self.cursor.col = prev_len;
            proof {
                assert(self.doc@ =~= old(self).doc@.update(
                    li - 1,
                    old(self).doc@[li - 1] + old(self).doc@[li as int],
                ).remove(li as int));
            }
        }
    }

    /// Moves the cursor one step in the given direction, clamped to the
    /// document and, vertically, to the destination line's length.
    pub fn move_cursor(&mut self, d: Direction)
        requires
            old(self).wf(),
        ensures
            final(self).wf(),
            moved(*old(self), *final(self), d),
    {
        match d {
            Direction::Up => {
                let l2 = if self.cursor.line > 0 {
                    self.cursor.line - 1
                } else {
                    0
                };
                self.cursor.line = l2;
                let ll = self.doc.line_len(l2);
                if self.cursor.col > ll {
                    self.cursor.col = ll;
                }
            },
            Direction::Down => {
                let len = self.doc.line_count();
                let l2 = if self.cursor.line + 1 < len {
                    self.cursor.line + 1
                } else {
                    len - 1
                };
                self.cursor.line = l2;
                let ll = self.doc.line_len(l2);
                if self.cursor.col > ll {
                    self.cursor.col = ll;
                }
            },
            Direction::Left => {
                if self.cursor.col > 0 {
                    self.cursor.col = self.cursor.col - 1;
                }
            },
            Direction::Right => {
                let ll = self.doc.line_len(self.cursor.line);
                if self.cursor.col < ll {
                    self.cursor.col = self.cursor.col + 1;
                }
            },
        }
    }

    /// Dispatches one decoded event: text is inserted, the five control
    /// codes edit, save or quit, arrows move the cursor, and an
    /// unrecognized escape sequence changes nothing.
    pub fn apply_event(&mut self, ev: &InputEvent) -> (a: EditorAction)
        requires
            old(self).wf(),
            old(self).doc@[old(self).cursor.line as int].len() < usize::MAX,
        ensures
            final(self).wf(),
            match *ev {
                InputEvent::Scalar(c) => inserted(*old(self), *final(self), c) && a
                    == EditorAction::Continue,
                InputEvent::ControlKey(k) => {
                    if k == 0x7F {
                        backspaced(*old(self), *final(self)) && a == EditorAction::Continue
                    } else if k == 0x0A || k == 0x0D {
                        line_split(*old(self), *final(self)) && a == EditorAction::Continue
                    } else if k == 0x13 {
                        unchanged(*old(self), *final(self)) && a == EditorAction::Save
                    } else if k == 0x11 {
                        unchanged(*old(self), *final(self)) && a == EditorAction::SaveAndQuit
                    } else {
                        unchanged(*old(self), *final(self)) && a == EditorAction::Continue
                    }
                },
                InputEvent::Arrow(d) => moved(*old(self), *final(self), d) && a
                    == EditorAction::Continue,
                InputEvent::UnrecognizedEscape(_) => unchanged(*old(self), *final(self)) && a
                    == EditorAction::Continue,
            },
    {
        match ev {
            InputEvent::Scalar(c) => {
                self.insert_scalar(*c);
                EditorAction::Continue
            },
            InputEvent::ControlKey(k) => {
                let code = *k;
                if code == 0x7F {
                    self.backspace();
                    EditorAction::Continue
                } else if code == 0x0A || code == 0x0D {
                    self.split_line();
                    EditorAction::Continue
                } else if code == 0x13 {
                    EditorAction::Save
                } else if code == 0x11 {
                    EditorAction::SaveAndQuit
                } else {
                    EditorAction::Continue
                }
            },
            InputEvent::Arrow(d) => {
                self.move_cursor(*d);
                EditorAction::Continue
            },
            InputEvent::UnrecognizedEscape(_) => EditorAction::Continue,
        }
    }
}

} // verus!
