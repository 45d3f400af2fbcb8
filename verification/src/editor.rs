//! The plain-text editing front: the text as last pulled from the document, a cursor (a
//! byte offset into that text), and what each key does.
use vstd::prelude::*;
use crate::changes::utf8_len;
use crate::document::{Document, DocumentView};
use crate::text::{text_deleted, text_inserted, TextError};

verus! {

/// A key the editor reacts to.
#[derive(Debug, Clone, Copy, PartialEq, Eq)]
pub enum EditKey {
    /// A character to insert.
    Char(char),
    /// A line break to insert.
    Enter,
    /// Deletes the position before the cursor.
    Backspace,
    /// Moves the cursor back by one.
    Left,
    /// Moves the cursor on by one.
    Right,
    /// Any other key: nothing happens.
    Other,
}

/// What handling a key came to.
#[derive(Debug, Clone, PartialEq, Eq)]
pub enum InputOutcome {
    /// The key was handled (or ignored).
    Handled,
    /// Inserting into the document failed; nothing changed.
    WriteFailed(TextError),
    /// Deleting from the document failed; nothing changed.
    DeleteFailed(TextError),
}

/// What the terminal's loop receives.
#[derive(Debug, Clone, Copy, PartialEq, Eq)]
pub enum LoopEvent {
    /// The refresh timer fired.
    Tick,
    /// The escape key was pressed.
    Escape,
    /// Another key was pressed, as the editor reads it.
    Key(EditKey),
    /// Anything else: a key released, the terminal resized.
    Ignored,
}

/// What the terminal's loop does next.
#[derive(Debug, Clone, Copy, PartialEq, Eq)]
pub enum LoopAction {
    /// Pull the document's text into the editor.
    Refresh,
    /// Leave the loop.
    Quit,
    /// Hand the key to the editor.
    Edit(EditKey),
    /// Wait for the next event.
    Wait,
}

/// One turn of the terminal's loop: the timer refreshes, escape and `q` quit, any other
/// key goes to the editor, and anything else is waited out.
pub fn loop_step(event: LoopEvent) -> (action: LoopAction)
    ensures
        action == (match event {
            LoopEvent::Tick => LoopAction::Refresh,
            LoopEvent::Escape => LoopAction::Quit,
            LoopEvent::Key(key) => if key == EditKey::Char('q') {
                LoopAction::Quit
            } else {
                LoopAction::Edit(key)
            },
            LoopEvent::Ignored => LoopAction::Wait,
        }),
{
    match event {
        LoopEvent::Tick => LoopAction::Refresh,
        LoopEvent::Escape => LoopAction::Quit,
        LoopEvent::Key(key) => match key {
            EditKey::Char(c) => if c == 'q' {
                LoopAction::Quit
            } else {
                LoopAction::Edit(key)
            },
            _ => LoopAction::Edit(key),
        },
        LoopEvent::Ignored => LoopAction::Wait,
    }
}

/// The number of bytes of a character's UTF-8 form.
pub open spec fn char_utf8_width(c: char) -> usize {
    if (c as u32) < 0x80 {
        1
    } else if (c as u32) < 0x800 {
        2
    } else if (c as u32) < 0x10000 {
        3
    } else {
        4
    }
}

/// Law: `char_utf8_width(c)` is the number of bytes of the UTF-8 encoding of `c`, so
/// the cursor moves past exactly the bytes that typing `c` adds to the text.
pub proof fn lemma_char_utf8_width_is_encoding_length(c: char)
    ensures
        char_utf8_width(c) as int == vstd::utf8::encode_utf8(seq![c]).len(),
        utf8_len(seq![c]) == char_utf8_width(c),
{
    let s = seq![c];
    vstd::utf8::char_is_scalar(c);
    assert(s.drop_first() =~= Seq::<char>::empty());
    assert(vstd::utf8::encode_utf8(s) == vstd::utf8::encode_scalar(c as u32)
        + vstd::utf8::encode_utf8(s.drop_first()));
    assert(vstd::utf8::encode_utf8(Seq::<char>::empty()) =~= Seq::<u8>::empty());
    assert(vstd::utf8::encode_utf8(s) =~= vstd::utf8::encode_scalar(c as u32));
}

/// The number of bytes of the character's UTF-8 form, as `char::len_utf8` gives it.
fn char_len_utf8(c: char) -> (n: usize)
    ensures
        n == char_utf8_width(c),
{
    let v = c as u32;
    if v < 0x80 {
        1
    } else if v < 0x800 {
        2
    } else if v < 0x10000 {
        3
    } else {
        4
    }
}

/// `char::to_string`: the one-character string.
#[verifier::external_body]
fn char_to_string(c: char) -> (s: String)
    ensures
        s@ == seq![c],
{
    c.to_string()
}

/// The text after an insertion at `pos` of `s`, when the insertion is taken.
pub open spec fn inserted_view(doc: DocumentView, pos: i32, s: Seq<char>) -> DocumentView {
    DocumentView { text: text_inserted(doc.text, (pos as usize) as int, s), ..doc }
}

/// The editor's state: the text as last pulled from the document, and the cursor.
pub struct Editor {
    text: String,
    cursor: usize,
}

impl Editor {
    /// The text as last pulled from the document.
    pub closed spec fn spec_text(&self) -> Seq<char> {
        self.text@
    }

    /// The cursor: a byte offset into the text.
    pub closed spec fn spec_cursor(&self) -> usize {
        self.cursor
    }

    /// An editor on the document's text, with the cursor at the end (its byte length).
    pub fn new(document: &Document) -> (editor: Editor)
        ensures
            editor.spec_text() == document@.text,
            editor.spec_cursor() == utf8_len(document@.text),
    {
        let text = document.text();
        let cursor = text.as_str().len();
        Editor { text, cursor }
    }

    /// The text as last pulled from the document.
    pub fn text(&self) -> (text: &str)
        ensures
            text@ == self.spec_text(),
    {
        self.text.as_str()
    }

    /// The cursor.
    pub fn cursor(&self) -> (cursor: usize)
        ensures
            cursor == self.spec_cursor(),
    {
        self.cursor
    }

    /// Pulls the document's current text; a cursor beyond its byte length moves to its end.
    pub fn refresh_from_doc(&mut self, document: &Document)
        ensures
            final(self).spec_text() == document@.text,
            final(self).spec_cursor() == (if utf8_len(document@.text) < old(self).spec_cursor() {
                utf8_len(document@.text)
            } else {
                old(self).spec_cursor()
            }),
    {
        let latest = document.text();
        let len = latest.as_str().len();
        if len < self.cursor {
            self.cursor = len;
        }
        self.text = latest;
    }

    /// Handles a key against the document. A character or line break is inserted at the
    /// cursor (taken as `cursor as i32`), the cursor moves past its UTF-8 bytes and the text
    /// is pulled again; Backspace removes the position before the cursor, which moves back
    /// by one, and pulls the text; Left and Right move the cursor by one within
    /// `0..=text length in bytes`. A failed edit changes nothing and is reported; an edit at
    /// a position within the document's text does not fail.
    pub fn handle_input(&mut self, document: &mut Document, key: EditKey) -> (outcome: InputOutcome)
        requires
            (key is Char || key is Enter) ==> old(self).spec_cursor() + 4 <= usize::MAX,
            (key is Backspace && old(self).spec_cursor() > 0) ==> i32::MIN <= (old(
                self,
            ).spec_cursor() as i32) - ((old(self).spec_cursor() - 1) as usize as i32) <= i32::MAX,
        ensures
            ({
                let cursor = old(self).spec_cursor();
                match key {
                    EditKey::Char(c) => {
                        &&& outcome is Handled ==> {
                            &&& final(document)@ == inserted_view(old(document)@, cursor as i32, seq![c])
                            &&& final(self).spec_text() == final(document)@.text
                            &&& final(self).spec_cursor() == cursor + char_utf8_width(c)
                            &&& final(self).spec_cursor() == cursor + utf8_len(seq![c])
                        }
                        &&& outcome is WriteFailed ==> *final(self) == *old(self)
                        &&& outcome is Handled || outcome is WriteFailed
                        &&& (cursor as i32 as usize) > old(document)@.text.len() ==> (
                        outcome is WriteFailed && final(document)@ == old(document)@)
                        &&& (cursor as i32 as usize) <= old(document)@.text.len() ==> outcome
                            is Handled
                    },
                    EditKey::Enter => {
                        &&& outcome is Handled ==> {
                            &&& final(document)@ == inserted_view(old(document)@, cursor as i32, seq!['\n'])
                            &&& final(self).spec_text() == final(document)@.text
                            &&& final(self).spec_cursor() == cursor + 1
                        }
                        &&& outcome is WriteFailed ==> *final(self) == *old(self)
                        &&& outcome is Handled || outcome is WriteFailed
                        &&& (cursor as i32 as usize) > old(document)@.text.len() ==> (
                        outcome is WriteFailed && final(document)@ == old(document)@)
                        &&& (cursor as i32 as usize) <= old(document)@.text.len() ==> outcome
                            is Handled
                    },
                    EditKey::Backspace => {
                        &&& cursor == 0 ==> (outcome is Handled && *final(self) == *old(self)
                            && final(document)@ == old(document)@)
                        &&& (cursor > 0 && outcome is Handled) ==> {
                            &&& final(document)@ == (DocumentView {
                                text: text_deleted(
                                    old(document)@.text,
                                    ((cursor - 1) as usize as i32) as usize as int,
                                    ((cursor as i32) - ((cursor - 1) as usize as i32)) as i32 as usize as int,
                                ),
                                ..old(document)@
                            })
                            &&& final(self).spec_text() == final(document)@.text
                            &&& final(self).spec_cursor() == cursor - 1
                        }
                        &&& outcome is DeleteFailed ==> *final(self) == *old(self)
                        &&& outcome is Handled || outcome is DeleteFailed
                        &&& (0 < cursor <= old(document)@.text.len() && cursor <= i32::MAX)
                            ==> outcome is Handled
                    },
                    EditKey::Left => {
                        &&& outcome is Handled
                        &&& final(document)@ == old(document)@
                        &&& final(self).spec_text() == old(self).spec_text()
                        &&& final(self).spec_cursor() == (if cursor > 0 {
                            (cursor - 1) as usize
                        } else {
                            cursor
                        })
                    },
                    EditKey::Right => {
                        &&& outcome is Handled
                        &&& final(document)@ == old(document)@
                        &&& final(self).spec_text() == old(self).spec_text()
                        &&& final(self).spec_cursor() == (if cursor < utf8_len(old(self).spec_text()) {
                            (cursor + 1) as usize
                        } else {
                            cursor
                        })
                    },
                    EditKey::Other => {
                        &&& outcome is Handled
                        &&& final(document)@ == old(document)@
                        &&& *final(self) == *old(self)
                    },
                }
            }),
            final(document).spec_peer_id() == old(document).spec_peer_id(),
    {
        match key {
            EditKey::Char(c) => {
                let s = char_to_string(c);
                match document.insert_text(self.cursor as i32, s.as_str()) {
                    Err(e) => {
                        return InputOutcome::WriteFailed(e);
                    },
                    Ok(()) => {},
                }
                proof {
                    lemma_char_utf8_width_is_encoding_length(c);
                }
                self.cursor = self.cursor + char_len_utf8(c);
                self.text = document.text();
                InputOutcome::Handled
            },
            EditKey::Enter => {
                let s = "\n";
                proof {
                    reveal_strlit("\n");
                    assert(s@ =~= seq!['\n']);
                }
                match document.insert_text(self.cursor as i32, s) {
                    Err(e) => {
                        return InputOutcome::WriteFailed(e);
                    },
                    Ok(()) => {},
                }
                self.cursor = self.cursor + 1;
                self.text = document.text();
                InputOutcome::Handled
            },
            EditKey::Backspace => {
                if self.cursor > 0 {
                    let start = self.cursor - 1;
                    match document.delete_range(start as i32, self.cursor as i32) {
                        Err(e) => {
                            return InputOutcome::DeleteFailed(e);
                        },
                        Ok(()) => {},
                    }
                    self.cursor = start;
                    self.text = document.text();
                }
                InputOutcome::Handled
            },
            EditKey::Left => {
                if self.cursor > 0 {
                    self.cursor = self.cursor - 1;
                }
                InputOutcome::Handled
            },
            EditKey::Right => {
                if self.cursor < self.text.as_str().len() {
                    self.cursor = self.cursor + 1;
                }
                InputOutcome::Handled
            },
            EditKey::Other => InputOutcome::Handled,
        }
    }
}

} // verus!
