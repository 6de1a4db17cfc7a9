//! One document's editable text, with a cursor kept in lock-step as an
//! absolute offset and as a (line, column) pair, and a scroll window that
//! follows the cursor.
use vstd::prelude::*;
use crate::text::{
    col_of, count_newlines, find_line_end, find_line_start, lemma_count_le_len, lemma_count_mono,
    lemma_count_step, lemma_line_bounds, lemma_line_start_at_break, lemma_line_start_prefix,
    lemma_on_line, lemma_position_in_line, line_len, line_of, line_start, locate, newline_count,
};

verus! {

/// Number of lines shown at once while editing; the cursor is kept inside.
pub const EDIT_VISIBLE_LINES: usize = 30;

/// A direction in which the cursor moves.
#[derive(Clone, Copy, Debug, PartialEq, Eq, Structural)]
pub enum CursorDirection {
    Up,
    Down,
    Left,
    Right,
}

/// What an [`EditableBuffer`] holds, as mathematical values.
pub struct BufferView {
    pub content: Seq<char>,
    pub original: Seq<char>,
    pub cursor_offset: nat,
    pub cursor_line: nat,
    pub cursor_col: nat,
    pub scroll_offset: nat,
    pub dirty: bool,
}

/// Control characters in the Unicode sense (general category Cc).
pub open spec fn is_control(c: char) -> bool {
    (c as u32) <= 0x1f || (0x7f <= (c as u32) && (c as u32) <= 0x9f)
}

/// Characters that erase the one before the cursor.
pub open spec fn is_backspace(c: char) -> bool {
    c == '\u{8}' || c == '\u{7f}'
}

/// First visible line after the least shift that brings `line` into the
/// window starting at `scroll`.
pub open spec fn autoscrolled(scroll: nat, line: nat) -> nat {
    if line < scroll {
        line
    } else if line >= scroll + EDIT_VISIBLE_LINES {
        (line + 1 - EDIT_VISIBLE_LINES) as nat
    } else {
        scroll
    }
}

impl BufferView {
    /// The cursor lies in the text, its line and column are those of its
    /// offset, and the buffer is dirty exactly when its text differs from
    /// the saved one.
    pub open spec fn is_consistent(self) -> bool {
        &&& self.cursor_offset <= self.content.len()
        &&& self.cursor_line == line_of(self.content, self.cursor_offset)
        &&& self.cursor_col == col_of(self.content, self.cursor_offset)
        &&& self.dirty == (self.content != self.original)
    }

    /// The cursor's line is inside the visible window.
    pub open spec fn cursor_visible(self) -> bool {
        self.scroll_offset <= self.cursor_line < self.scroll_offset + EDIT_VISIBLE_LINES
    }

    /// Number of lines: one more than the line breaks (an empty text has one).
    pub open spec fn line_count(self) -> nat {
        newline_count(self.content) + 1
    }

    /// The cursor put at `off` of `t`, line and column derived from the
    /// offset, the window scrolled to it; an edit recomputes the dirty flag.
    pub open spec fn placed(self, t: Seq<char>, off: nat, edit: bool) -> BufferView {
        BufferView {
            content: t,
            original: self.original,
            cursor_offset: off,
            cursor_line: line_of(t, off),
            cursor_col: col_of(t, off),
            scroll_offset: autoscrolled(self.scroll_offset, line_of(t, off)),
            dirty: if edit {
                t != self.original
            } else {
                self.dirty
            },
        }
    }

    /// Only the window moves, so that the cursor's line is visible.
    pub open spec fn followed(self) -> BufferView {
        BufferView { scroll_offset: autoscrolled(self.scroll_offset, self.cursor_line), ..self }
    }

    /// State after erasing the character before the cursor.
    pub open spec fn after_delete(self) -> BufferView {
        if self.cursor_offset == 0 {
            self.followed()
        } else {
            let off = (self.cursor_offset - 1) as nat;
            self.placed(self.content.remove(off as int), off, true)
        }
    }

    /// State after typing `c`.
    pub open spec fn after_insert(self, c: char) -> BufferView {
        if is_backspace(c) {
            self.after_delete()
        } else if c == '\n' || !is_control(c) {
            self.placed(
                self.content.insert(self.cursor_offset as int, c),
                self.cursor_offset + 1,
                true,
            )
        } else {
            self.followed()
        }
    }

    /// The cursor moved to line `l`, its column clamped to that line.
    pub open spec fn on_line(self, l: nat) -> BufferView {
        let col = if self.cursor_col <= line_len(self.content, l) {
            self.cursor_col
        } else {
            line_len(self.content, l)
        };
        BufferView {
            cursor_offset: line_start(self.content, l) + col,
            cursor_line: l,
            cursor_col: col,
            scroll_offset: autoscrolled(self.scroll_offset, l),
            ..self
        }
    }

    /// State after moving the cursor one step in `dir`; at the edges of the
    /// text the cursor stays and only the window follows it.
    pub open spec fn after_move(self, dir: CursorDirection) -> BufferView {
        let stay = self.followed();
        match dir {
            CursorDirection::Up => if self.cursor_line > 0 {
                self.on_line((self.cursor_line - 1) as nat)
            } else {
                stay
            },
            CursorDirection::Down => if self.cursor_line < newline_count(self.content) {
                self.on_line(self.cursor_line + 1)
            } else {
                stay
            },
            CursorDirection::Left => if self.cursor_offset > 0 {
                self.placed(self.content, (self.cursor_offset - 1) as nat, false)
            } else {
                stay
            },
            CursorDirection::Right => if self.cursor_offset < self.content.len() {
                self.placed(self.content, self.cursor_offset + 1, false)
            } else {
                stay
            },
        }
    }

    /// State after discarding every edit since the last load or save.
    pub open spec fn reverted(self) -> BufferView {
        BufferView {
            content: self.original,
            original: self.original,
            cursor_offset: 0,
            cursor_line: 0,
            cursor_col: 0,
            scroll_offset: 0,
            dirty: false,
        }
    }

    /// State after the text was persisted: it becomes the saved text.
    pub open spec fn committed(self) -> BufferView {
        BufferView { original: self.content, dirty: false, ..self }
    }
}

/// Whether `c` is a control character.
pub fn char_is_control(c: char) -> (r: bool)
    ensures
        r == is_control(c),
{
    let u = c as u32;
    u <= 0x1f || (0x7f <= u && u <= 0x9f)
}

fn autoscroll(scroll: usize, line: usize) -> (r: usize)
    ensures
        r == autoscrolled(scroll as nat, line as nat),
{
    if line < scroll {
        line
    } else if line - scroll >= EDIT_VISIBLE_LINES {
        line - (EDIT_VISIBLE_LINES - 1)
    } else {
        scroll
    }
}

/// Whether two character sequences are equal.
pub fn same_chars(a: &Vec<char>, b: &Vec<char>) -> (r: bool)
    ensures
        r == (a@ == b@),
{
    if a.len() != b.len() {
        return false;
    }
    let mut i: usize = 0;
    while i < a.len()
        invariant
            a@.len() == b@.len(),
            i <= a@.len(),
            forall|k: int| 0 <= k < i ==> a@[k] == b@[k],
        decreases a@.len() - i,
    {
        if a[i] != b[i] {
            return false;
        }
        i = i + 1;
    }
    proof {
        assert(a@ =~= b@);
    }
    true
}

/// The text of one open document, its last saved text, a cursor and a
/// scroll window.
pub struct EditableBuffer {
    content: Vec<char>,
    original: Vec<char>,
    cursor_offset: usize,
    cursor_line: usize,
    cursor_col: usize,
    scroll_offset: usize,
    dirty: bool,
}

impl View for EditableBuffer {
    type V = BufferView;

    closed spec fn view(&self) -> BufferView {
        BufferView {
            content: self.content@,
            original: self.original@,
            cursor_offset: self.cursor_offset as nat,
            cursor_line: self.cursor_line as nat,
            cursor_col: self.cursor_col as nat,
            scroll_offset: self.scroll_offset as nat,
            dirty: self.dirty,
        }
    }
}

impl EditableBuffer {
    #[verifier::type_invariant]
    spec fn consistent(self) -> bool {
        self@.is_consistent()
    }

    /// A buffer over `text`, taken as the saved text, with the cursor at its
    /// start.
    pub fn new(text: &str) -> (r: EditableBuffer)
        ensures
            r@.content == text@,
            r@.original == text@,
            r@.cursor_offset == 0,
            r@.cursor_line == 0,
            r@.cursor_col == 0,
            r@.scroll_offset == 0,
            !r@.dirty,
    {
        let content = chars_of(text);
        let original = chars_of(text);
        proof {
            assert(content@.take(0) =~= Seq::<char>::empty());
        }
        EditableBuffer {
            content,
            original,
            cursor_offset: 0,
            cursor_line: 0,
            cursor_col: 0,
            scroll_offset: 0,
            dirty: false,
        }
    }

    /// Moves the whole state out, leaving an empty buffer behind.
    fn take(&mut self) -> (r: EditableBuffer)
        ensures
            r@ == old(self)@,
    {
        let mut empty = EditableBuffer {
            content: Vec::new(),
            original: Vec::new(),
            cursor_offset: 0,
            cursor_line: 0,
            cursor_col: 0,
            scroll_offset: 0,
            dirty: false,
        };
        proof {
            assert(empty.content@.take(0) =~= Seq::<char>::empty());
            assert(empty.content@ =~= empty.original@);
        }
        std::mem::swap(self, &mut empty);
        empty
    }

    /// Puts the cursor at `off`, in the edited text `edited` if there is
    /// one, else in the present text; line and column follow from the offset.
    fn place(&mut self, edited: Option<Vec<char>>, off: usize)
        requires
            off <= match edited {
                Some(t) => t@.len(),
                None => old(self)@.content.len(),
            },
        ensures
            final(self)@ == match edited {
                Some(t) => old(self)@.placed(t@, off as nat, true),
                None => old(self)@.placed(old(self)@.content, off as nat, false),
            },
    {
        let prior = self.take();
        proof {
            use_type_invariant(&prior);
        }
        let EditableBuffer { content, original, scroll_offset, dirty, .. } = prior;
        let (t, dirty) = match edited {
            Some(t) => {
                let changed = !same_chars(&t, &original);
                (t, changed)
            },
            None => (content, dirty),
        };
        let (line, col) = locate(&t, off);
        let scroll_offset = autoscroll(scroll_offset, line);
        *self = EditableBuffer {
            content: t,
            original,
            cursor_offset: off,
            cursor_line: line,
            cursor_col: col,
            scroll_offset,
            dirty,
        };
    }

    /// Erases the character before the cursor (backspace); does nothing at
    /// the start of the text.
    pub fn delete_before_cursor(&mut self)
        ensures
            final(self)@ == old(self)@.after_delete(),
            final(self)@.is_consistent(),
            final(self)@.dirty == (final(self)@.content != final(self)@.original),
            final(self)@.original == old(self)@.original,
            final(self)@.cursor_visible(),
            old(self)@.cursor_offset > 0 ==> final(self)@.cursor_offset == old(self)@.cursor_offset
                - 1,
            old(self)@.cursor_offset > 0 && old(self)@.content[old(self)@.cursor_offset - 1]
                == '\n' ==> final(self)@.cursor_line == old(self)@.cursor_line - 1
                && final(self)@.cursor_col == line_len(
                old(self)@.content,
                (old(self)@.cursor_line - 1) as nat,
            ),
            old(self)@.cursor_offset > 0 && old(self)@.content[old(self)@.cursor_offset - 1]
                != '\n' ==> final(self)@.cursor_line == old(self)@.cursor_line
                && final(self)@.cursor_col == old(self)@.cursor_col - 1,
    {
        proof {
            use_type_invariant(&*self);
            lemma_delete_lockstep(self@);
        }
        if self.cursor_offset == 0 {
            self.follow_cursor();
            return;
        }
        let off = self.cursor_offset - 1;
        let mut t = self.content.clone();
        proof {
            assert(t@ =~= self.content@);
        }
        t.remove(off);
        self.place(Some(t), off);
        proof {
            use_type_invariant(&*self);
        }
    }

    /// Types `c` at the cursor: a line break splits the line, a backspace
    /// erases, other control characters are ignored.
    pub fn insert_char(&mut self, c: char)
        ensures
            final(self)@ == old(self)@.after_insert(c),
            final(self)@.is_consistent(),
            final(self)@.dirty == (final(self)@.content != final(self)@.original),
            final(self)@.original == old(self)@.original,
            final(self)@.cursor_visible(),
            c == '\n' ==> final(self)@.cursor_offset == old(self)@.cursor_offset + 1
                && final(self)@.cursor_line == old(self)@.cursor_line + 1
                && final(self)@.cursor_col == 0,
            !is_control(c) ==> final(self)@.cursor_offset == old(self)@.cursor_offset + 1
                && final(self)@.cursor_line == old(self)@.cursor_line
                && final(self)@.cursor_col == old(self)@.cursor_col + 1,
    {
        proof {
            use_type_invariant(&*self);
            lemma_insert_lockstep(self@, c);
        }
        if c == '\u{8}' || c == '\u{7f}' {
            self.delete_before_cursor();
            return;
        }
        if c != '\n' && char_is_control(c) {
            self.follow_cursor();
            return;
        }
        let off = self.cursor_offset;
        let mut t = self.content.clone();
        proof {
            assert(t@ =~= self.content@);
        }
        t.insert(off, c);
        proof {
            assert(t@.len() == t.len());
        }
        self.place(Some(t), off + 1);
        proof {
            use_type_invariant(&*self);
        }
    }

    /// Scrolls the window, if needed, so that the cursor's line is visible.
    fn follow_cursor(&mut self)
        ensures
            final(self)@ == old(self)@.followed(),
    {
        proof {
            use_type_invariant(&*self);
        }
        self.scroll_offset = autoscroll(self.scroll_offset, self.cursor_line);
    }

    /// Moves the cursor to line `l`, keeping its column where that line is
    /// long enough.
    fn go_to_line(&mut self, l: usize)
        requires
            l <= newline_count(old(self)@.content),
        ensures
            final(self)@ == old(self)@.on_line(l as nat),
    {
        proof {
            use_type_invariant(&*self);
        }
        let start = find_line_start(&self.content, l);
        let end = find_line_end(&self.content, l);
        proof {
            lemma_line_bounds(self@.content, l as nat);
        }
        let len = end - start;
        let col = if self.cursor_col <= len {
            self.cursor_col
        } else {
            len
        };
        proof {
            lemma_on_line(self@.content, l as nat, (start + col) as nat);
        }
        self.place(None, start + col);
    }

    /// Moves the cursor one step: up and down keep the column where the line
    /// allows, left and right cross line ends; the window follows.
    pub fn move_cursor(&mut self, direction: CursorDirection)
        ensures
            final(self)@ == old(self)@.after_move(direction),
            final(self)@.is_consistent(),
            final(self)@.cursor_visible(),
    {
        proof {
            use_type_invariant(&*self);
        }
        match direction {
            CursorDirection::Up => {
                if self.cursor_line > 0 {
                    proof {
                        lemma_position_in_line(self@.content, self@.cursor_offset);
                    }
                    self.go_to_line(self.cursor_line - 1);
                } else {
                    self.follow_cursor();
                }
            },
            CursorDirection::Down => {
                let last = count_newlines(&self.content);
                if self.cursor_line < last {
                    self.go_to_line(self.cursor_line + 1);
                } else {
                    self.follow_cursor();
                }
            },
            CursorDirection::Left => {
                if self.cursor_offset > 0 {
                    self.place(None, self.cursor_offset - 1);
                } else {
                    self.follow_cursor();
                }
            },
            CursorDirection::Right => {
                if self.cursor_offset < self.content.len() {
                    self.place(None, self.cursor_offset + 1);
                } else {
                    self.follow_cursor();
                }
            },
        }
        proof {
            use_type_invariant(&*self);
        }
    }

    /// Discards every edit: the text goes back to the saved one, the cursor
    /// and the window to the start.
    pub fn revert(&mut self)
        ensures
            final(self)@ == old(self)@.reverted(),
            final(self)@.content == old(self)@.original,
            !final(self)@.dirty,
    {
        let prior = self.take();
        let EditableBuffer { original, .. } = prior;
        let content = original.clone();
        proof {
            assert(content@ =~= original@);
            assert(content@.take(0) =~= Seq::<char>::empty());
        }
        *self = EditableBuffer {
            content,
            original,
            cursor_offset: 0,
            cursor_line: 0,
            cursor_col: 0,
            scroll_offset: 0,
            dirty: false,
        };
    }

    /// Records that the present text has been persisted: it becomes the
    /// saved text and the buffer is clean.
    pub fn commit_save(&mut self)
        ensures
            final(self)@ == old(self)@.committed(),
    {
        proof {
            use_type_invariant(&*self);
        }
        let prior = self.take();
        proof {
            use_type_invariant(&prior);
        }
        let EditableBuffer { content, cursor_offset, cursor_line, cursor_col, scroll_offset, .. } =
            prior;
        let original = content.clone();
        proof {
            assert(original@ =~= content@);
        }
        *self = EditableBuffer {
            content,
            original,
            cursor_offset,
            cursor_line,
            cursor_col,
            scroll_offset,
            dirty: false,
        };
    }

    /// Brings the dirty flag in line with the text: it is set exactly when
    /// the text differs from the saved one. Every edit already does this, so
    /// nothing else changes.
    pub fn mark_dirty(&mut self)
        ensures
            final(self)@ == old(self)@,
            final(self)@.dirty == (final(self)@.content != final(self)@.original),
    {
        proof {
            use_type_invariant(&*self);
        }
        self.dirty = !same_chars(&self.content, &self.original);
    }

    /// Scrolls the window one line up, if it is not at the top; the cursor
    /// stays.
    pub fn scroll_up(&mut self)
        ensures
            final(self)@ == (BufferView {
                scroll_offset: if old(self)@.scroll_offset > 0 {
                    (old(self)@.scroll_offset - 1) as nat
                } else {
                    0
                },
                ..old(self)@
            }),
    {
        proof {
            use_type_invariant(&*self);
        }
        if self.scroll_offset > 0 {
            self.scroll_offset = self.scroll_offset - 1;
        }
    }

    /// Scrolls the window one line down, if the last line is not already at
    /// its top; the cursor stays.
    pub fn scroll_down(&mut self)
        ensures
            final(self)@ == (BufferView {
                scroll_offset: if old(self)@.scroll_offset + 1 < old(self)@.line_count() {
                    old(self)@.scroll_offset + 1
                } else {
                    old(self)@.scroll_offset
                },
                ..old(self)@
            }),
    {
        proof {
            use_type_invariant(&*self);
        }
        let last = count_newlines(&self.content);
        if self.scroll_offset < last {
            self.scroll_offset = self.scroll_offset + 1;
        }
    }

    /// The present text.
    pub fn content(&self) -> (r: String)
        ensures
            r@ == self@.content,
    {
        string_of(&self.content)
    }

    /// The text as last loaded or saved.
    pub fn original(&self) -> (r: String)
        ensures
            r@ == self@.original,
    {
        string_of(&self.original)
    }

    pub fn cursor_offset(&self) -> (r: usize)
        ensures
            r == self@.cursor_offset,
    {
        self.cursor_offset
    }

    pub fn cursor_line(&self) -> (r: usize)
        ensures
            r == self@.cursor_line,
    {
        self.cursor_line
    }

    pub fn cursor_col(&self) -> (r: usize)
        ensures
            r == self@.cursor_col,
    {
        self.cursor_col
    }

    pub fn scroll_offset(&self) -> (r: usize)
        ensures
            r == self@.scroll_offset,
    {
        self.scroll_offset
    }

    /// Whether the buffer holds unsaved changes.
    pub fn is_dirty(&self) -> (r: bool)
        ensures
            r == self@.dirty,
    {
        self.dirty
    }

    /// Index of the last line: the number of line breaks.
    pub fn last_line(&self) -> (r: usize)
        ensures
            r + 1 == self@.line_count(),
    {
        count_newlines(&self.content)
    }
}

/// Typing a line break splits the line at the cursor: the cursor moves to
/// the start of the next line; any other printable character advances the
/// cursor by one column.
pub proof fn lemma_insert_lockstep(v: BufferView, c: char)
    requires
        v.is_consistent(),
    ensures
        c == '\n' ==> v.after_insert(c).cursor_line == v.cursor_line + 1
            && v.after_insert(c).cursor_col == 0,
        !is_control(c) ==> v.after_insert(c).cursor_line == v.cursor_line
            && v.after_insert(c).cursor_col == v.cursor_col + 1,
{
    if c == '\n' || !is_control(c) {
        let t = v.content;
        let off = v.cursor_offset;
        let u = t.insert(off as int, c);
        assert(u.take((off + 1) as int).drop_last() =~= t.take(off as int));
        assert(u.take((off + 1) as int).last() == c);
        assert(u.take(off as int) =~= t.take(off as int));
        if c == '\n' {
            lemma_line_start_at_break(u, off + 1);
        } else {
            let m = v.cursor_line;
            assert(newline_count(u.take((off + 1) as int)) == m);
            lemma_line_start_prefix(u, off, m);
            lemma_line_start_prefix(t, off, m);
            lemma_position_in_line(t, off);
        }
    }
}

/// Erasing a line break joins two lines: the cursor lands on the previous
/// line at what was its end; erasing any other character moves the cursor
/// back one column.
pub proof fn lemma_delete_lockstep(v: BufferView)
    requires
        v.is_consistent(),
    ensures
        v.cursor_offset > 0 && v.content[v.cursor_offset - 1] == '\n' ==> v.after_delete().cursor_line
            == v.cursor_line - 1 && v.after_delete().cursor_col == line_len(
            v.content,
            (v.cursor_line - 1) as nat,
        ),
        v.cursor_offset > 0 && v.content[v.cursor_offset - 1] != '\n' ==> v.after_delete().cursor_line
            == v.cursor_line && v.after_delete().cursor_col == v.cursor_col - 1,
{
    if v.cursor_offset > 0 {
        let t = v.content;
        let off = v.cursor_offset;
        let p = (off - 1) as nat;
        let u = t.remove(p as int);
        assert(u.take(p as int) =~= t.take(p as int));
        lemma_count_step(t, p);
        let m = line_of(u, p);
        lemma_line_start_prefix(u, p, m);
        lemma_line_start_prefix(t, p, m);
        lemma_position_in_line(t, off);
        lemma_position_in_line(u, p);
        if t[p as int] == '\n' {
            lemma_line_start_at_break(t, off);
            assert(t.take(t.len() as int) =~= t);
            lemma_count_mono(t, off, t.len());
        }
    }
}

/// In a consistent state the cursor's line exists and its column lies
/// within that line.
pub proof fn lemma_cursor_within_line(v: BufferView)
    requires
        v.is_consistent(),
    ensures
        v.cursor_line < v.line_count(),
        v.cursor_col <= line_len(v.content, v.cursor_line),
{
    lemma_position_in_line(v.content, v.cursor_offset);
}

/// Typing a line break and erasing it at once gives back the text and the
/// cursor as they were.
pub proof fn lemma_newline_round_trip(v: BufferView)
    requires
        v.is_consistent(),
    ensures
        v.after_insert('\n').after_delete().content == v.content,
        v.after_insert('\n').after_delete().cursor_offset == v.cursor_offset,
        v.after_insert('\n').after_delete().cursor_line == v.cursor_line,
        v.after_insert('\n').after_delete().cursor_col == v.cursor_col,
{
    assert(v.content.insert(v.cursor_offset as int, '\n').remove(v.cursor_offset as int)
        =~= v.content);
}

/// The characters of `s`, in order.
///
/// Relies on `str::chars` and `Iterator::collect`: collecting a string's
/// characters yields them one by one.
#[verifier::external_body]
pub(crate) fn chars_of(s: &str) -> (r: Vec<char>)
    ensures
        r@ == s@,
{
    s.chars().collect()
}

/// The string made of the characters of `v`.
///
/// Relies on `String: FromIterator<&char>`, which appends each character.
#[verifier::external_body]
pub(crate) fn string_of(v: &Vec<char>) -> (r: String)
    ensures
        r@ == v@,
{
    v.iter().collect()
}

} // verus!
