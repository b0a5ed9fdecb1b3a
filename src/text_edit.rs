use vstd::prelude::*;

use crate::geometry::{fits_i32, Vec2};
use crate::layout::{depth_after, op_ok, Style, Ui, UiError, UiOp};
use crate::text::{chars_of, text_of};

verus! {

/// A key press, as far as the library tells keys apart.
#[derive(Clone, Copy, Debug, PartialEq, Eq, Structural)]
pub enum Key {
    Char(char),
    Left,
    Right,
    Backspace,
    Delete,
    Other(i32),
}

/// Whether `c` is a printable ASCII character, space to tilde.
pub open spec fn is_printable(c: char) -> bool {
    32 <= (c as u32) <= 126
}

/// A text being edited in place, as plain values.
pub struct EditView {
    pub buffer: Seq<char>,
    pub cursor: int,
}

impl EditView {
    pub open spec fn wf(self) -> bool {
        0 <= self.cursor <= self.buffer.len()
    }

    /// The text shown under the cursor: the character there, or a blank at the end.
    pub open spec fn cursor_cell(self) -> Seq<char> {
        if self.cursor < self.buffer.len() {
            seq![self.buffer[self.cursor]]
        } else {
            seq![' ']
        }
    }
}

/// The edit that `key` makes, and the key itself when the widget leaves it
/// for the caller.
pub open spec fn edit_step(v: EditView, key: Key) -> (EditView, Option<Key>) {
    match key {
        Key::Char(c) => if is_printable(c) {
            (EditView { buffer: v.buffer.insert(v.cursor, c), cursor: v.cursor + 1 }, None)
        } else {
            (v, Some(key))
        },
        Key::Left => if v.cursor > 0 {
            (EditView { cursor: v.cursor - 1, ..v }, None)
        } else {
            (v, None)
        },
        Key::Right => if v.cursor < v.buffer.len() {
            (EditView { cursor: v.cursor + 1, ..v }, None)
        } else {
            (v, None)
        },
        Key::Backspace => if v.cursor > 0 {
            (EditView { buffer: v.buffer.remove(v.cursor - 1), cursor: v.cursor - 1 }, None)
        } else {
            (v, None)
        },
        Key::Delete => if v.cursor < v.buffer.len() {
            (EditView { buffer: v.buffer.remove(v.cursor), ..v }, None)
        } else {
            (v, None)
        },
        Key::Other(_) => (v, Some(key)),
    }
}

/// The text after each of `keys` in turn.
pub open spec fn apply_keys(v: EditView, keys: Seq<Key>) -> EditView
    decreases keys.len(),
{
    if keys.len() == 0 {
        v
    } else {
        apply_keys(edit_step(v, keys[0]).0, keys.drop_first())
    }
}

/// Whether each of `keys` types a printable character.
pub open spec fn all_printable(keys: Seq<Key>) -> bool {
    forall|i: int| 0 <= i < keys.len() ==> (#[trigger] keys[i] matches Key::Char(c) && is_printable(c))
}

/// The characters that `keys` type.
pub open spec fn typed_chars(keys: Seq<Key>) -> Seq<char> {
    Seq::new(keys.len(), |i: int| keys[i]->Char_0)
}

/// `k` presses of backspace.
pub open spec fn backspaces(k: nat) -> Seq<Key> {
    Seq::new(k, |i: int| Key::Backspace)
}

proof fn lemma_apply_keys_concat(v: EditView, a: Seq<Key>, b: Seq<Key>)
    ensures
        apply_keys(v, a + b) == apply_keys(apply_keys(v, a), b),
    decreases a.len(),
{
    if a.len() > 0 {
        assert((a + b).drop_first() =~= a.drop_first() + b);
        lemma_apply_keys_concat(edit_step(v, a[0]).0, a.drop_first(), b);
    }
}

proof fn lemma_typing(v: EditView, keys: Seq<Key>)
    requires
        v.wf(),
        all_printable(keys),
    ensures
        apply_keys(v, keys) == (EditView {
            buffer: v.buffer.subrange(0, v.cursor) + typed_chars(keys) + v.buffer.subrange(
                v.cursor,
                v.buffer.len() as int,
            ),
            cursor: v.cursor + keys.len(),
        }),
    decreases keys.len(),
{
    let pre = v.buffer.subrange(0, v.cursor);
    let post = v.buffer.subrange(v.cursor, v.buffer.len() as int);
    let s = typed_chars(keys);
    if keys.len() == 0 {
        assert(pre + s + post =~= v.buffer);
    } else {
        let c = keys[0]->Char_0;
        let next = edit_step(v, keys[0]).0;
        assert(keys[0] matches Key::Char(c) && is_printable(c));
        let rest = keys.drop_first();
        assert forall|i: int| 0 <= i < rest.len() implies (#[trigger] rest[i] matches Key::Char(c) && is_printable(c)) by {
            assert(rest[i] == keys[i + 1]);
        }
        lemma_typing(next, rest);
        assert(typed_chars(rest) =~= s.drop_first());
        assert(next.buffer.subrange(0, next.cursor) =~= pre.push(c));
        assert(next.buffer.subrange(next.cursor, next.buffer.len() as int) =~= post);
        assert(pre.push(c) + s.drop_first() + post =~= pre + s + post);
    }
}

proof fn lemma_erasing(pre: Seq<char>, s: Seq<char>, post: Seq<char>, k: nat)
    requires
        k <= s.len(),
    ensures
        apply_keys(EditView { buffer: pre + s + post, cursor: (pre.len() + s.len()) as int }, backspaces(k))
            == (EditView {
            buffer: pre + s.subrange(0, s.len() - k) + post,
            cursor: pre.len() + s.len() - k,
        }),
    decreases k,
{
    let v = EditView { buffer: pre + s + post, cursor: (pre.len() + s.len()) as int };
    if k == 0 {
        assert(s.subrange(0, s.len() as int) =~= s);
    } else {
        let next = edit_step(v, Key::Backspace).0;
        let shorter = s.drop_last();
        assert(next.buffer =~= pre + shorter + post);
        assert(backspaces(k).drop_first() =~= backspaces((k - 1) as nat));
        lemma_erasing(pre, shorter, post, (k - 1) as nat);
        assert(shorter.subrange(0, shorter.len() - (k - 1)) =~= s.subrange(0, s.len() - k));
    }
}

/// Typing printable characters and then as many backspaces gives back the
/// text and the cursor that were there before.
pub proof fn lemma_type_then_erase(v: EditView, keys: Seq<Key>)
    requires
        v.wf(),
        all_printable(keys),
    ensures
        apply_keys(v, keys + backspaces(keys.len())) == v,
{
    let pre = v.buffer.subrange(0, v.cursor);
    let post = v.buffer.subrange(v.cursor, v.buffer.len() as int);
    let s = typed_chars(keys);
    lemma_apply_keys_concat(v, keys, backspaces(keys.len()));
    lemma_typing(v, keys);
    assert(pre.len() == v.cursor);
    lemma_erasing(pre, s, post, s.len());
    assert(s.subrange(0, 0) =~= Seq::<char>::empty());
    assert(pre + s.subrange(0, 0) + post =~= v.buffer);
}

/// A text under edit with a cursor between 0 and its length.
pub struct TextEditState {
    buffer: Vec<char>,
    cursor: usize,
}

impl View for TextEditState {
    type V = EditView;

    closed spec fn view(&self) -> EditView {
        EditView { buffer: self.buffer@, cursor: self.cursor as int }
    }
}

impl TextEditState {
    /// Starts editing `text` with the cursor at its end.
    pub fn from_text(text: &str) -> (r: TextEditState)
        ensures
            r@.buffer == text@,
            r@.cursor == text@.len(),
            r@.wf(),
    {
        let buffer = chars_of(text);
        let cursor = buffer.len();
        TextEditState { buffer, cursor }
    }

    /// Starts editing `buffer` with the cursor at `cursor`, or at the end
    /// when `cursor` lies past it.
    pub fn new(buffer: Vec<char>, cursor: usize) -> (r: TextEditState)
        ensures
            r@.buffer == buffer@,
            r@.cursor == if cursor <= buffer@.len() { cursor as int } else { buffer@.len() as int },
            r@.wf(),
    {
        let len = buffer.len();
        let cursor = if cursor <= len { cursor } else { len };
        TextEditState { buffer, cursor }
    }

    pub fn buffer(&self) -> (r: &Vec<char>)
        ensures
            r@ == self@.buffer,
    {
        &self.buffer
    }

    pub fn cursor(&self) -> (r: usize)
        ensures
            r == self@.cursor,
    {
        self.cursor
    }

    /// The text as a string.
    pub fn text(&self) -> (r: String)
        ensures
            r@ == self@.buffer,
    {
        text_of(self.buffer.as_slice())
    }

    /// The text under the cursor: the character there, or a blank at the end.
    pub fn cursor_cell(&self) -> (r: String)
        requires
            self@.wf(),
        ensures
            r@ == self@.cursor_cell(),
    {
        let cell: Vec<char> = if self.cursor < self.buffer.len() {
            vec![self.buffer[self.cursor]]
        } else {
            vec![' ']
        };
        let r = text_of(cell.as_slice());
        assert(r@ =~= self@.cursor_cell());
        r
    }

    /// Applies one key. A key the widget has no use for comes back so that
    /// the caller can act on it.
    pub fn apply_key(&mut self, key: Key) -> (r: Option<Key>)
        requires
            old(self)@.wf(),
        ensures
            (final(self)@, r) == edit_step(old(self)@, key),
            final(self)@.wf(),
    {
        match key {
            Key::Char(c) => {
                let code = c as u32;
                if 32 <= code && code <= 126 {
                    self.buffer.insert(self.cursor, c);
                    let len = self.buffer.len();
                    assert(self.cursor < len);
                    self.cursor = self.cursor + 1;
                    None
                } else {
                    Some(key)
                }
            },
            Key::Left => {
                if self.cursor > 0 {
                    self.cursor = self.cursor - 1;
                }
                None
            },
            Key::Right => {
                if self.cursor < self.buffer.len() {
                    self.cursor = self.cursor + 1;
                }
                None
            },
            Key::Backspace => {
                if self.cursor > 0 {
                    self.cursor = self.cursor - 1;
                    self.buffer.remove(self.cursor);
                }
                None
            },
            Key::Delete => {
                if self.cursor < self.buffer.len() {
                    self.buffer.remove(self.cursor);
                }
                None
            },
            Key::Other(_) => Some(key),
        }
    }
}

impl Ui {
    /// Draws the text under edit at the next free position of the current
    /// layout, reserving `width` columns, then draws the cell under the
    /// cursor highlighted.
    pub fn edit_field(&mut self, state: &TextEditState, width: i32) -> (r: Result<(), UiError>)
        requires
            width >= 0,
            state@.wf(),
            state@.cursor <= i32::MAX,
            old(self).depth() > 0 ==> {
                &&& old(self).top().avail_fits()
                &&& old(self).top().grow_fits(width as int, 1)
                &&& fits_i32(old(self).top().avail_x() + state@.cursor)
            },
        ensures
            r is Ok <==> op_ok(old(self).depth(), UiOp::Place),
            r is Ok ==> final(self).depth() == depth_after(old(self).depth(), UiOp::Place),
            r is Ok ==> final(self).stack() == old(self).stack().drop_last().push(old(self).top().grown(width as int, 1)),
            r is Ok ==> final(self).drawn() == old(self).drawn().push(
                (old(self).top().avail_x(), old(self).top().avail_y(), state@.buffer, Style::Regular),
            ).push(
                (old(self).top().avail_x() + state@.cursor, old(self).top().avail_y(), state@.cursor_cell(), Style::Highlight),
            ),
            r is Err ==> final(self).stack() == old(self).stack() && final(self).drawn() == old(self).drawn(),
    {
        let pos = match self.available_pos() {
            Ok(p) => p,
            Err(e) => return Err(e),
        };
        let text = state.text();
        let placed = self.label_fixed_width(text.as_str(), width, Style::Regular);
        let cell = state.cursor_cell();
        let at = pos.add(Vec2::new(state.cursor() as i32, 0));
        self.draw(at, cell, Style::Highlight);
        placed
    }
}

} // verus!
