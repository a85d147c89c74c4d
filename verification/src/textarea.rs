use vstd::prelude::*;
use crate::strutil::chars_to_string;

verus! {

/// What can go wrong when the surrounding application saves or exports;
/// the text box remembers the last failure to display it.
#[derive(Clone, Copy, Debug, PartialEq, Eq, Structural)]
pub enum FileSaveError {
    NoName,
    NoCanvas,
    NameConflict,
    CantCreate,
    Other,
}

/// A one-line text box: a character buffer, a cursor and the last file
/// error to show.
#[derive(Debug)]
pub struct TextArea {
    pub buffer: Vec<char>,
    pub pos: usize,
    pub error: Option<FileSaveError>,
}

impl Default for TextArea {
    fn default() -> (t: TextArea)
        ensures
            t.buffer@ == Seq::<char>::empty(),
            t.pos == 0,
            t.error is None,
    {
        proof {
            assert(Seq::<char>::empty() =~= Seq::<char>::empty());
        }
        TextArea { buffer: Vec::new(), pos: 0, error: Option::None }
    }
}

impl TextArea {
    /// The cursor sits inside the buffer.
    pub open spec fn wf(self) -> bool {
        self.pos <= self.buffer@.len()
    }

    /// The buffered text, or nothing when the buffer is empty.
    pub fn get(&self) -> (r: Option<String>)
        ensures
            match r {
                Option::Some(s) => self.buffer@.len() > 0 && s@ == self.buffer@,
                Option::None => self.buffer@.len() == 0,
            },
    {
        if self.buffer.len() == 0 {
            return Option::None;
        }
        Option::Some(chars_to_string(&self.buffer))
    }

    /// Inserts `ch` at the cursor and steps past it, unless the cursor
    /// already sits at `max_len`.
    pub fn input(&mut self, ch: char, max_len: usize)
        requires
            old(self).wf(),
        ensures
            final(self).wf(),
            old(self).pos >= max_len ==> *final(self) == *old(self),
            old(self).pos < max_len ==> {
                &&& final(self).buffer@ == old(self).buffer@.insert(old(self).pos as int, ch)
                &&& final(self).pos == old(self).pos + 1
                &&& final(self).error == old(self).error
            },
    {
        if self.pos >= max_len {
            return ;
        }
        self.buffer.insert(self.pos, ch);
        self.pos = self.pos + 1;
    }

    /// Removes the character before the cursor, when there is one, and
    /// steps the cursor back.
    pub fn backspace(&mut self)
        requires
            old(self).wf(),
        ensures
            final(self).wf(),
            old(self).pos == 0 ==> *final(self) == *old(self),
            old(self).pos > 0 ==> {
                &&& final(self).buffer@ == old(self).buffer@.remove(old(self).pos - 1)
                &&& final(self).pos == old(self).pos - 1
                &&& final(self).error == old(self).error
            },
    {
        if self.pos == 0 {
            return ;
        }
        self.buffer.remove(self.pos - 1);
        self.pos = self.pos - 1;
    }

    /// Removes the character under the cursor, when there is one.
    pub fn delete(&mut self)
        requires
            old(self).wf(),
        ensures
            final(self).wf(),
            old(self).pos >= old(self).buffer@.len() ==> *final(self) == *old(self),
            old(self).pos < old(self).buffer@.len() ==> {
                &&& final(self).buffer@ == old(self).buffer@.remove(old(self).pos as int)
                &&& final(self).pos == old(self).pos
                &&& final(self).error == old(self).error
            },
    {
        if self.pos >= self.buffer.len() {
            return ;
        }
        self.buffer.remove(self.pos);
    }

    /// Puts the cursor at the start.
    pub fn home(&mut self)
        ensures
            *final(self) == (TextArea { pos: 0, ..*old(self) }),
    {
        self.pos = 0;
    }

    /// Puts the cursor after the last character.
    pub fn end(&mut self)
        ensures
            *final(self) == (TextArea { pos: old(self).buffer@.len() as usize, ..*old(self) }),
            final(self).wf(),
    {
        self.pos = self.buffer.len();
    }

    /// Steps the cursor one place left, stopping at the start.
    pub fn left(&mut self)
        ensures
            *final(self) == (TextArea {
                pos: if old(self).pos > 0 {
                    (old(self).pos - 1) as usize
                } else {
                    0
                },
                ..*old(self)
            }),
    {
        if self.pos > 0 {
            self.pos = self.pos - 1;
        }
    }

    /// Steps the cursor one place right, stopping past the last character.
    pub fn right(&mut self)
        requires
            old(self).wf(),
        ensures
            final(self).wf(),
            *final(self) == (TextArea {
                pos: if old(self).pos < old(self).buffer@.len() {
                    (old(self).pos + 1) as usize
                } else {
                    old(self).pos
                },
                ..*old(self)
            }),
    {
        if self.pos < self.buffer.len() {
            self.pos = self.pos + 1;
        }
    }

    /// Inserts `ch` at the cursor with no length cap, as the popup-free
    /// editors use it.
    pub fn add_char(&mut self, ch: char)
        requires
            old(self).wf(),
            old(self).buffer@.len() < usize::MAX as int,
        ensures
            final(self).wf(),
            final(self).buffer@ == old(self).buffer@.insert(old(self).pos as int, ch),
            final(self).pos == old(self).pos + 1,
            final(self).error == old(self).error,
    {
        self.buffer.insert(self.pos, ch);
        self.pos = self.pos + 1;
    }

    /// Puts the box back to its pristine state.
    pub fn reset(&mut self)
        ensures
            final(self).buffer@ == Seq::<char>::empty(),
            final(self).pos == 0,
            final(self).error is None,
            final(self).wf(),
    {
        *self = TextArea::default();
    }

    /// Empties the box and forgets any error.
    pub fn clear(&mut self)
        ensures
            final(self).buffer@ == Seq::<char>::empty(),
            final(self).pos == 0,
            final(self).error is None,
            final(self).wf(),
    {
        self.buffer = Vec::new();
        self.pos = 0;
        self.error = Option::None;
        proof {
            assert(final(self).buffer@ =~= Seq::<char>::empty());
        }
    }
}

} // verus!
