//! Open documents as tabs: one tab per file, an active tab, and a close
//! request that waits for confirmation while the tab has unsaved changes.
use vstd::prelude::*;
use crate::buffer::{chars_of, string_of, BufferView, EditableBuffer};
use crate::text::{decimal, push_decimal};

verus! {

/// Why a tab operation was refused.
#[derive(Clone, Copy, Debug, PartialEq, Eq, Structural)]
pub enum TabError {
    /// No tab has the given index.
    OutOfRange,
    /// The tab has unsaved changes: closing it now waits for confirmation.
    UnsavedChanges,
    /// The operation needs an active tab and no tab is open.
    NoActiveTab,
}

impl TabError {
    /// A sentence that describes the refusal.
    pub fn message(&self) -> (r: String)
        ensures
            r@ == match *self {
                TabError::OutOfRange => "Tab index out of bounds"@,
                TabError::UnsavedChanges => "Tab has unsaved changes"@,
                TabError::NoActiveTab => "No active tab"@,
            },
    {
        match self {
            TabError::OutOfRange => "Tab index out of bounds".to_string(),
            TabError::UnsavedChanges => "Tab has unsaved changes".to_string(),
            TabError::NoActiveTab => "No active tab".to_string(),
        }
    }
}

/// One open document: a stable identifier, the name shown for it, the file
/// it belongs to, and its text.
pub struct Tab {
    pub id: usize,
    pub name: String,
    pub path: String,
    pub buffer: EditableBuffer,
    pub file_version: i32,
}

/// The state of a buffer freshly loaded with `text`.
pub open spec fn fresh_buffer(text: Seq<char>) -> BufferView {
    BufferView {
        content: text,
        original: text,
        cursor_offset: 0,
        cursor_line: 0,
        cursor_col: 0,
        scroll_offset: 0,
        dirty: false,
    }
}

impl Tab {
    /// A clean tab over `content`, with the cursor at its start.
    pub fn new(id: usize, name: String, path: String, content: String) -> (r: Tab)
        ensures
            r.id == id,
            r.name == name,
            r.path == path,
            r.buffer@ == fresh_buffer(content@),
            r.file_version == 1,
    {
        let buffer = EditableBuffer::new(content.as_str());
        Tab { id, name, path, buffer, file_version: 1 }
    }

    /// The name, marked with a trailing `*` while there are unsaved changes.
    pub fn get_display_name(&self) -> (r: String)
        ensures
            r@ == if self.buffer@.dirty {
                self.name@.push('*')
            } else {
                self.name@
            },
    {
        let mut shown = chars_of(self.name.as_str());
        if self.buffer.is_dirty() {
            shown.push('*');
        }
        string_of(&shown)
    }

    /// Brings the unsaved-changes flag in line with the text.
    pub fn mark_dirty(&mut self)
        ensures
            final(self).buffer@ == old(self).buffer@,
            final(self).buffer@.dirty == (final(self).buffer@.content
                != final(self).buffer@.original),
            final(self).id == old(self).id,
            final(self).name == old(self).name,
            final(self).path == old(self).path,
            final(self).file_version == old(self).file_version,
    {
        self.buffer.mark_dirty();
    }

    /// Records that the text was saved: it becomes the saved text.
    pub fn mark_clean(&mut self)
        ensures
            final(self).buffer@ == old(self).buffer@.committed(),
            final(self).id == old(self).id,
            final(self).name == old(self).name,
            final(self).path == old(self).path,
            final(self).file_version == old(self).file_version,
    {
        self.buffer.commit_save();
    }

    /// Whether the tab holds unsaved changes.
    pub fn is_dirty(&self) -> (r: bool)
        ensures
            r == self.buffer@.dirty,
    {
        self.buffer.is_dirty()
    }

    /// Discards the unsaved changes and puts the cursor back at the start.
    pub fn revert_changes(&mut self)
        ensures
            final(self).buffer@ == old(self).buffer@.reverted(),
            final(self).id == old(self).id,
            final(self).name == old(self).name,
            final(self).path == old(self).path,
            final(self).file_version == old(self).file_version,
    {
        self.buffer.revert();
    }
}

/// The tabs of `s` that hold unsaved changes, in order.
pub open spec fn dirty_tabs(s: Seq<Tab>) -> Seq<Tab>
    decreases s.len(),
{
    if s.len() == 0 {
        s
    } else if s.last().buffer@.dirty {
        dirty_tabs(s.drop_last()).push(s.last())
    } else {
        dirty_tabs(s.drop_last())
    }
}

/// The active index after the tab at `removed` left, `len` tabs remaining:
/// the tab that was active stays active where it can.
pub open spec fn repaired_active(active: nat, removed: nat, len: nat) -> nat {
    if len == 0 {
        0
    } else if active >= len {
        (len - 1) as nat
    } else if removed <= active && active > 0 {
        (active - 1) as nat
    } else {
        active
    }
}

/// The pending close request after the tab at `removed` left: it follows
/// its tab, and lapses if that tab is the one that left.
pub open spec fn repaired_pending(pending: Option<usize>, removed: nat) -> Option<usize> {
    match pending {
        Some(j) => if j == removed {
            None
        } else if j > removed {
            Some((j - 1) as usize)
        } else {
            Some(j)
        },
        None => None,
    }
}

/// The open tabs in the order they were opened, the active one, and the tab
/// whose close waits for confirmation, if any.
pub struct TabManager {
    tabs: Vec<Tab>,
    active_tab: usize,
    next_id: usize,
    pending_close: Option<usize>,
}

impl TabManager {
    /// The open tabs, in order.
    pub closed spec fn tab_list(&self) -> Seq<Tab> {
        self.tabs@
    }

    /// Index of the active tab (0 when none is open).
    pub closed spec fn active(&self) -> nat {
        self.active_tab as nat
    }

    /// The identifier the next new tab gets.
    pub closed spec fn next_tab_id(&self) -> nat {
        self.next_id as nat
    }

    /// Index of the tab whose close waits for confirmation.
    pub closed spec fn pending(&self) -> Option<usize> {
        self.pending_close
    }

    /// The active index is valid, a pending close names an open tab, and
    /// identifiers and files are each held by one tab only.
    pub open spec fn wf(&self) -> bool {
        let tabs = self.tab_list();
        &&& tabs.len() == 0 ==> self.active() == 0
        &&& tabs.len() > 0 ==> self.active() < tabs.len()
        &&& self.pending() matches Some(i) ==> i < tabs.len()
        &&& forall|i: int| 0 <= i < tabs.len() ==> #[trigger] tabs[i].id < self.next_tab_id()
        &&& forall|i: int, j: int|
            0 <= i < j < tabs.len() ==> #[trigger] tabs[i].id != #[trigger] tabs[j].id
                && tabs[i].path@ != tabs[j].path@
    }

    /// Whether a tab is open for `path`.
    pub open spec fn has_path(&self, path: Seq<char>) -> bool {
        exists|i: int| 0 <= i < self.tab_list().len() && #[trigger] self.tab_list()[i].path@ == path
    }

    /// What `add_tab(name, path, content)` returning `r` does.
    pub open spec fn added(
        self,
        name: String,
        path: String,
        content: String,
        r: usize,
        after: TabManager,
    ) -> bool {
        &&& after.wf()
        &&& after.pending() == self.pending()
        &&& after.active() == r
        &&& if self.has_path(path@) {
            &&& r < self.tab_list().len()
            &&& self.tab_list()[r as int].path@ == path@
            &&& forall|j: int| 0 <= j < r ==> #[trigger] self.tab_list()[j].path@ != path@
            &&& after.tab_list() == self.tab_list()
            &&& after.next_tab_id() == self.next_tab_id()
        } else {
            &&& r == self.tab_list().len()
            &&& after.tab_list().len() == r + 1
            &&& after.tab_list().drop_last() == self.tab_list()
            &&& after.tab_list().last().id == self.next_tab_id()
            &&& after.tab_list().last().name == name
            &&& after.tab_list().last().path == path
            &&& after.tab_list().last().buffer@ == fresh_buffer(content@)
            &&& after.next_tab_id() == self.next_tab_id() + 1
        }
    }

    /// What removing the tab at `index` does.
    pub open spec fn removed(self, index: nat, after: TabManager) -> bool {
        &&& after.tab_list() == self.tab_list().remove(index as int)
        &&& after.active() == repaired_active(self.active(), index, after.tab_list().len())
        &&& after.pending() == repaired_pending(self.pending(), index)
        &&& after.next_tab_id() == self.next_tab_id()
    }

    /// No tabs, none pending; the first tab gets identifier 1.
    pub fn new() -> (r: TabManager)
        ensures
            r.wf(),
            r.tab_list().len() == 0,
            r.active() == 0,
            r.pending().is_none(),
            r.next_tab_id() == 1,
    {
        TabManager { tabs: Vec::new(), active_tab: 0, next_id: 1, pending_close: None }
    }

    /// Index of the tab open for `path`, if any.
    pub fn find_tab_by_path(&self, path: &String) -> (r: Option<usize>)
        ensures
            match r {
                Some(i) => i < self.tab_list().len() && self.tab_list()[i as int].path@ == path@
                    && forall|j: int| 0 <= j < i ==> #[trigger] self.tab_list()[j].path@ != path@,
                None => !self.has_path(path@),
            },
    {
        let mut i: usize = 0;
        while i < self.tabs.len()
            invariant
                i <= self.tabs@.len(),
                forall|j: int| 0 <= j < i ==> #[trigger] self.tabs@[j].path@ != path@,
            decreases self.tabs@.len() - i,
        {
            if self.tabs[i].path == *path {
                return Some(i);
            }
            i = i + 1;
        }
        None
    }

    /// Opens a tab for `path` and makes it active. A file that is open
    /// already is not opened twice: its tab becomes active and its index is
    /// returned.
    pub fn add_tab(&mut self, name: String, path: String, content: String) -> (r: usize)
        requires
            old(self).wf(),
            old(self).next_tab_id() < usize::MAX,
        ensures
            old(self).added(name, path, content, r, *final(self)),
    {
        match self.find_tab_by_path(&path) {
            Some(existing) => {
                self.active_tab = existing;
                existing
            },
            None => {
                let id = self.next_id;
                self.next_id = self.next_id + 1;
                let tab = Tab::new(id, name, path, content);
                self.tabs.push(tab);
                self.active_tab = self.tabs.len() - 1;
                proof {
                    assert(self.tabs@.drop_last() =~= old(self).tabs@);
                }
                self.active_tab
            },
        }
    }

    /// Removes the tab at `index`, keeping the active tab and the pending
    /// request on the tabs they named.
    fn remove_tab(&mut self, index: usize)
        requires
            old(self).wf(),
            index < old(self).tab_list().len(),
        ensures
            final(self).wf(),
            old(self).removed(index as nat, *final(self)),
    {
        self.tabs.remove(index);
        let len = self.tabs.len();
        if len == 0 {
            self.active_tab = 0;
        } else if self.active_tab >= len {
            self.active_tab = len - 1;
        } else if index <= self.active_tab && self.active_tab > 0 {
            self.active_tab = self.active_tab - 1;
        }
        self.pending_close = match self.pending_close {
            Some(j) => if j == index {
                None
            } else if j > index {
                Some(j - 1)
            } else {
                Some(j)
            },
            None => None,
        };
        proof {
            let before = old(self).tabs@;
            let after = self.tabs@;
            assert forall|i: int| 0 <= i < after.len() implies #[trigger] after[i].id
                < self.next_id by {
                if i < index {
                    assert(after[i] == before[i]);
                } else {
                    assert(after[i] == before[i + 1]);
                }
            }
            assert forall|i: int, j: int| 0 <= i < j < after.len() implies #[trigger] after[i].id
                != #[trigger] after[j].id && after[i].path@ != after[j].path@ by {
                let bi = if i < index {
                    i
                } else {
                    i + 1
                };
                let bj = if j < index {
                    j
                } else {
                    j + 1
                };
                assert(after[i] == before[bi]);
                assert(after[j] == before[bj]);
                assert(before[bi].id != before[bj].id);
            }
        }
    }

    /// Closes the tab at `index` at once if it is clean. If it has unsaved
    /// changes it stays open and its close waits for confirmation.
    pub fn close_tab(&mut self, index: usize) -> (r: Result<(), TabError>)
        requires
            old(self).wf(),
        ensures
            final(self).wf(),
            index >= old(self).tab_list().len() ==> r == Err::<(), TabError>(TabError::OutOfRange)
                && *final(self) == *old(self),
            index < old(self).tab_list().len() && old(self).tab_list()[index as int].buffer@.dirty
                ==> r == Err::<(), TabError>(TabError::UnsavedChanges) && final(self).tab_list()
                == old(self).tab_list() && final(self).active() == old(self).active()
                && final(self).pending() == Some(index) && final(self).next_tab_id()
                == old(self).next_tab_id(),
            index < old(self).tab_list().len() && !old(self).tab_list()[index as int].buffer@.dirty
                ==> r == Ok::<(), TabError>(()) && old(self).removed(index as nat, *final(self)),
    {
        if index >= self.tabs.len() {
            return Err(TabError::OutOfRange);
        }
        if self.tabs[index].is_dirty() {
            self.pending_close = Some(index);
            return Err(TabError::UnsavedChanges);
        }
        self.remove_tab(index);
        Ok(())
    }

    /// Closes the tab at `index` whether or not it has unsaved changes.
    pub fn force_close_tab(&mut self, index: usize) -> (r: Result<(), TabError>)
        requires
            old(self).wf(),
        ensures
            final(self).wf(),
            index >= old(self).tab_list().len() ==> r == Err::<(), TabError>(TabError::OutOfRange)
                && *final(self) == *old(self),
            index < old(self).tab_list().len() ==> r == Ok::<(), TabError>(()) && old(self).removed(
                index as nat,
                *final(self),
            ),
    {
        if index >= self.tabs.len() {
            return Err(TabError::OutOfRange);
        }
        self.remove_tab(index);
        Ok(())
    }

    /// Answers a pending close with yes: the tab goes, unsaved changes and
    /// all.
    pub fn confirm_close_tab(&mut self)
        requires
            old(self).wf(),
        ensures
            final(self).wf(),
            final(self).pending().is_none(),
            final(self).next_tab_id() == old(self).next_tab_id(),
            match old(self).pending() {
                Some(i) => final(self).tab_list() == old(self).tab_list().remove(i as int)
                    && final(self).tab_list().len() + 1 == old(self).tab_list().len()
                    && final(self).active() == repaired_active(
                    old(self).active(),
                    i as nat,
                    final(self).tab_list().len(),
                ),
                None => final(self).tab_list() == old(self).tab_list() && final(self).active()
                    == old(self).active(),
            },
    {
        if let Some(index) = self.pending_close {
            self.remove_tab(index);
        }
        self.pending_close = None;
    }

    /// Answers a pending close with no: every tab stays.
    pub fn cancel_close_tab(&mut self)
        requires
            old(self).wf(),
        ensures
            final(self).wf(),
            final(self).pending().is_none(),
            final(self).tab_list() == old(self).tab_list(),
            final(self).active() == old(self).active(),
            final(self).next_tab_id() == old(self).next_tab_id(),
    {
        self.pending_close = None;
    }

    /// Closes the active tab, as `close_tab` does.
    pub fn close_active_tab(&mut self) -> (r: Result<(), TabError>)
        requires
            old(self).wf(),
        ensures
            final(self).wf(),
            old(self).tab_list().len() == 0 ==> r == Err::<(), TabError>(TabError::NoActiveTab)
                && *final(self) == *old(self),
            old(self).tab_list().len() > 0 && old(self).tab_list()[old(self).active() as int].buffer@.dirty
                ==> r == Err::<(), TabError>(TabError::UnsavedChanges) && final(self).tab_list()
                == old(self).tab_list() && final(self).active() == old(self).active()
                && final(self).pending() == Some(old(self).active() as usize)
                && final(self).next_tab_id() == old(self).next_tab_id(),
            old(self).tab_list().len() > 0 && !old(self).tab_list()[old(
                self,
            ).active() as int].buffer@.dirty ==> r == Ok::<(), TabError>(()) && old(self).removed(
                old(self).active(),
                *final(self),
            ),
    {
        if self.tabs.len() == 0 {
            return Err(TabError::NoActiveTab);
        }
        self.close_tab(self.active_tab)
    }

    /// Makes the tab at `index` active.
    pub fn switch_to_tab(&mut self, index: usize) -> (r: Result<(), TabError>)
        requires
            old(self).wf(),
        ensures
            final(self).wf(),
            final(self).tab_list() == old(self).tab_list(),
            final(self).pending() == old(self).pending(),
            final(self).next_tab_id() == old(self).next_tab_id(),
            index < old(self).tab_list().len() ==> r == Ok::<(), TabError>(()) && final(self).active()
                == index,
            index >= old(self).tab_list().len() ==> r == Err::<(), TabError>(TabError::OutOfRange)
                && final(self).active() == old(self).active(),
    {
        if index >= self.tabs.len() {
            return Err(TabError::OutOfRange);
        }
        self.active_tab = index;
        Ok(())
    }

    /// Makes the next tab active, from the last back to the first.
    pub fn next_tab(&mut self)
        requires
            old(self).wf(),
        ensures
            final(self).wf(),
            final(self).tab_list() == old(self).tab_list(),
            final(self).pending() == old(self).pending(),
            final(self).next_tab_id() == old(self).next_tab_id(),
            final(self).active() == if old(self).tab_list().len() == 0 {
                old(self).active()
            } else {
                ((old(self).active() + 1) % old(self).tab_list().len()) as nat
            },
    {
        if self.tabs.len() > 0 {
            self.active_tab = (self.active_tab + 1) % self.tabs.len();
        }
    }

    /// Makes the previous tab active, from the first round to the last.
    pub fn previous_tab(&mut self)
        requires
            old(self).wf(),
        ensures
            final(self).wf(),
            final(self).tab_list() == old(self).tab_list(),
            final(self).pending() == old(self).pending(),
            final(self).next_tab_id() == old(self).next_tab_id(),
            final(self).active() == if old(self).tab_list().len() == 0 {
                old(self).active()
            } else if old(self).active() == 0 {
                (old(self).tab_list().len() - 1) as nat
            } else {
                (old(self).active() - 1) as nat
            },
    {
        if self.tabs.len() > 0 {
            self.active_tab = if self.active_tab == 0 {
                self.tabs.len() - 1
            } else {
                self.active_tab - 1
            };
        }
    }

    /// The active tab, if any tab is open.
    pub fn get_active_tab(&self) -> (r: Option<&Tab>)
        requires
            self.wf(),
        ensures
            r == if self.tab_list().len() > 0 {
                Some(&self.tab_list()[self.active() as int])
            } else {
                None::<&Tab>
            },
    {
        if self.active_tab < self.tabs.len() {
            Some(&self.tabs[self.active_tab])
        } else {
            None
        }
    }

    /// The tab at `index`, if there is one.
    pub fn get_tab(&self, index: usize) -> (r: Option<&Tab>)
        ensures
            r == if index < self.tab_list().len() {
                Some(&self.tab_list()[index as int])
            } else {
                None::<&Tab>
            },
    {
        if index < self.tabs.len() {
            Some(&self.tabs[index])
        } else {
            None
        }
    }

    /// Whether any tab is open.
    pub fn has_tabs(&self) -> (r: bool)
        ensures
            r == (self.tab_list().len() > 0),
    {
        self.tabs.len() > 0
    }

    /// Number of open tabs.
    pub fn tab_count(&self) -> (r: usize)
        ensures
            r == self.tab_list().len(),
    {
        self.tabs.len()
    }

    /// Index of the tab whose close waits for confirmation, if any.
    pub fn pending_close(&self) -> (r: Option<usize>)
        ensures
            r == self.pending(),
    {
        self.pending_close
    }

    /// Whether a close waits for confirmation, so that the prompt is shown.
    pub fn is_confirming_close(&self) -> (r: bool)
        ensures
            r == self.pending().is_some(),
    {
        self.pending_close.is_some()
    }

    /// Index of the active tab.
    pub fn get_active_tab_index(&self) -> (r: usize)
        ensures
            r == self.active(),
    {
        self.active_tab
    }

    /// The text of the tab at `index`, to edit in place; the tab keeps its
    /// identifier, name and file.
    pub fn get_tab_mut(&mut self, index: usize) -> (r: Option<&mut EditableBuffer>)
        requires
            old(self).wf(),
        ensures
            final(self).wf(),
            final(self).active() == old(self).active(),
            final(self).pending() == old(self).pending(),
            final(self).next_tab_id() == old(self).next_tab_id(),
            index >= old(self).tab_list().len() ==> r.is_none() && final(self).tab_list() == old(
                self,
            ).tab_list(),
            index < old(self).tab_list().len() ==> r.is_some() && *r.unwrap() == old(
                self,
            ).tab_list()[index as int].buffer && final(self).tab_list() == old(
                self,
            ).tab_list().update(
                index as int,
                Tab { buffer: *final(r.unwrap()), ..old(self).tab_list()[index as int] },
            ),
    {
        if index < self.tabs.len() {
            Some(&mut self.tabs[index].buffer)
        } else {
            None
        }
    }

    /// The text of the active tab, to edit in place.
    pub fn get_active_tab_mut(&mut self) -> (r: Option<&mut EditableBuffer>)
        requires
            old(self).wf(),
        ensures
            final(self).wf(),
            final(self).active() == old(self).active(),
            final(self).pending() == old(self).pending(),
            final(self).next_tab_id() == old(self).next_tab_id(),
            old(self).tab_list().len() == 0 ==> r.is_none() && final(self).tab_list() == old(
                self,
            ).tab_list(),
            old(self).tab_list().len() > 0 ==> r.is_some() && *r.unwrap() == old(
                self,
            ).tab_list()[old(self).active() as int].buffer && final(self).tab_list() == old(
                self,
            ).tab_list().update(
                old(self).active() as int,
                Tab {
                    buffer: *final(r.unwrap()),
                    ..old(self).tab_list()[old(self).active() as int]
                },
            ),
    {
        let index = self.active_tab;
        self.get_tab_mut(index)
    }

    /// Whether any open tab has unsaved changes.
    pub fn has_unsaved_changes(&self) -> (r: bool)
        ensures
            r == exists|i: int|
                0 <= i < self.tab_list().len() && #[trigger] self.tab_list()[i].buffer@.dirty,
    {
        let mut i: usize = 0;
        while i < self.tabs.len()
            invariant
                i <= self.tabs@.len(),
                forall|j: int| 0 <= j < i ==> !#[trigger] self.tabs@[j].buffer@.dirty,
            decreases self.tabs@.len() - i,
        {
            if self.tabs[i].is_dirty() {
                proof {
                    assert(self.tab_list()[i as int].buffer@.dirty);
                }
                return true;
            }
            i = i + 1;
        }
        false
    }

    /// The tabs with unsaved changes, in order.
    pub fn get_unsaved_tabs(&self) -> (r: Vec<&Tab>)
        ensures
            r@.len() == dirty_tabs(self.tab_list()).len(),
            forall|k: int| 0 <= k < r@.len() ==> *#[trigger] r@[k] == dirty_tabs(self.tab_list())[k],
    {
        let mut r: Vec<&Tab> = Vec::new();
        let mut i: usize = 0;
        while i < self.tabs.len()
            invariant
                i <= self.tabs@.len(),
                r@.len() == dirty_tabs(self.tabs@.take(i as int)).len(),
                forall|k: int|
                    0 <= k < r@.len() ==> *#[trigger] r@[k] == dirty_tabs(self.tabs@.take(i as int))[k],
            decreases self.tabs@.len() - i,
        {
            proof {
                assert(self.tabs@.take(i + 1).drop_last() =~= self.tabs@.take(i as int));
            }
            if self.tabs[i].is_dirty() {
                r.push(&self.tabs[i]);
            }
            i = i + 1;
        }
        proof {
            assert(self.tabs@.take(i as int) =~= self.tabs@);
        }
        r
    }

    /// Marks the active tab saved and returns its text, for the caller to
    /// persist.
    pub fn save_active_tab(&mut self) -> (r: Result<String, TabError>)
        requires
            old(self).wf(),
        ensures
            final(self).wf(),
            final(self).active() == old(self).active(),
            final(self).pending() == old(self).pending(),
            final(self).next_tab_id() == old(self).next_tab_id(),
            old(self).tab_list().len() == 0 ==> r == Err::<String, TabError>(TabError::NoActiveTab)
                && final(self).tab_list() == old(self).tab_list(),
            old(self).tab_list().len() > 0 ==> {
                let a = old(self).active() as int;
                let before = old(self).tab_list()[a];
                let after = final(self).tab_list()[a];
                &&& r is Ok
                &&& r.unwrap()@ == before.buffer@.content
                &&& final(self).tab_list().len() == old(self).tab_list().len()
                &&& after.buffer@ == before.buffer@.committed()
                &&& after.id == before.id && after.name == before.name && after.path == before.path
                    && after.file_version == before.file_version
                &&& forall|j: int|
                    0 <= j < old(self).tab_list().len() && j != a
                        ==> #[trigger] final(self).tab_list()[j] == old(self).tab_list()[j]
            },
    {
        if self.tabs.len() == 0 {
            return Err(TabError::NoActiveTab);
        }
        let a = self.active_tab;
        self.tabs[a].mark_clean();
        proof {
            assert forall|i: int, j: int| 0 <= i < j < self.tabs@.len() implies #[trigger] self.tabs@[i].id
                != #[trigger] self.tabs@[j].id && self.tabs@[i].path@ != self.tabs@[j].path@ by {
                assert(old(self).tabs@[i].id != old(self).tabs@[j].id);
            }
            assert forall|i: int| 0 <= i < self.tabs@.len() implies #[trigger] self.tabs@[i].id
                < self.next_id by {
                assert(old(self).tabs@[i].id < self.next_id);
            }
        }
        Ok(self.tabs[a].buffer.content())
    }

    /// Marks every tab with unsaved changes saved, and returns the file and
    /// text of each, in order, for the caller to persist.
    pub fn save_all_tabs(&mut self) -> (r: Vec<(String, String)>)
        requires
            old(self).wf(),
        ensures
            final(self).wf(),
            final(self).active() == old(self).active(),
            final(self).pending() == old(self).pending(),
            final(self).next_tab_id() == old(self).next_tab_id(),
            r@.len() == dirty_tabs(old(self).tab_list()).len(),
            forall|k: int|
                0 <= k < r@.len() ==> (#[trigger] r@[k]).0@ == dirty_tabs(old(self).tab_list())[k].path@
                    && r@[k].1@ == dirty_tabs(old(self).tab_list())[k].buffer@.content,
            final(self).tab_list().len() == old(self).tab_list().len(),
            forall|j: int|
                0 <= j < old(self).tab_list().len() ==> {
                    let before = old(self).tab_list()[j];
                    let after = #[trigger] final(self).tab_list()[j];
                    &&& after.buffer@ == if before.buffer@.dirty {
                        before.buffer@.committed()
                    } else {
                        before.buffer@
                    }
                    &&& after.id == before.id && after.name == before.name && after.path
                        == before.path && after.file_version == before.file_version
                },
    {
        let mut saved: Vec<(String, String)> = Vec::new();
        let mut i: usize = 0;
        while i < self.tabs.len()
            invariant
                i <= self.tabs@.len(),
                self.tabs@.len() == old(self).tabs@.len(),
                self.active_tab == old(self).active_tab,
                self.pending_close == old(self).pending_close,
                self.next_id == old(self).next_id,
                forall|j: int| i <= j < self.tabs@.len() ==> #[trigger] self.tabs@[j] == old(self).tabs@[j],
                forall|j: int|
                    0 <= j < i ==> {
                        let before = old(self).tabs@[j];
                        let after = #[trigger] self.tabs@[j];
                        &&& after.buffer@ == if before.buffer@.dirty {
                            before.buffer@.committed()
                        } else {
                            before.buffer@
                        }
                        &&& after.id == before.id && after.name == before.name && after.path
                            == before.path && after.file_version == before.file_version
                    },
                saved@.len() == dirty_tabs(old(self).tabs@.take(i as int)).len(),
                forall|k: int|
                    0 <= k < saved@.len() ==> (#[trigger] saved@[k]).0@ == dirty_tabs(
                        old(self).tabs@.take(i as int),
                    )[k].path@ && saved@[k].1@ == dirty_tabs(
                        old(self).tabs@.take(i as int),
                    )[k].buffer@.content,
            decreases self.tabs@.len() - i,
        {
            proof {
                assert(old(self).tabs@.take(i + 1).drop_last() =~= old(self).tabs@.take(i as int));
            }
            if self.tabs[i].is_dirty() {
                self.tabs[i].mark_clean();
                let path = self.tabs[i].path.clone();
                let content = self.tabs[i].buffer.content();
                saved.push((path, content));
            }
            i = i + 1;
        }
        proof {
            assert(old(self).tabs@.take(i as int) =~= old(self).tabs@);
            assert forall|a: int, b: int| 0 <= a < b < self.tabs@.len() implies #[trigger] self.tabs@[a].id
                != #[trigger] self.tabs@[b].id && self.tabs@[a].path@ != self.tabs@[b].path@ by {
                assert(old(self).tabs@[a].id != old(self).tabs@[b].id);
            }
            assert forall|a: int| 0 <= a < self.tabs@.len() implies #[trigger] self.tabs@[a].id
                < self.next_id by {
                assert(old(self).tabs@[a].id < self.next_id);
            }
        }
        saved
    }

    /// A one-line summary: how many tabs are open and how many of them have
    /// unsaved changes.
    pub fn get_tabs_info(&self) -> (r: String)
        ensures
            r@ == tabs_info(self.tab_list().len(), dirty_tabs(self.tab_list()).len()),
    {
        if self.tabs.len() == 0 {
            return "No tabs open".to_string();
        }
        let mut unsaved: usize = 0;
        let mut i: usize = 0;
        while i < self.tabs.len()
            invariant
                i <= self.tabs@.len(),
                unsaved == dirty_tabs(self.tabs@.take(i as int)).len(),
                unsaved <= i,
            decreases self.tabs@.len() - i,
        {
            proof {
                assert(self.tabs@.take(i + 1).drop_last() =~= self.tabs@.take(i as int));
            }
            if self.tabs[i].is_dirty() {
                unsaved = unsaved + 1;
            }
            i = i + 1;
        }
        proof {
            assert(self.tabs@.take(i as int) =~= self.tabs@);
        }
        let mut out: Vec<char> = Vec::new();
        push_decimal(&mut out, self.tabs.len());
        if unsaved > 0 {
            let mut middle = chars_of(" tabs (");
            out.append(&mut middle);
            push_decimal(&mut out, unsaved);
            let mut tail = chars_of(" unsaved)");
            out.append(&mut tail);
        } else {
            let mut tail = chars_of(" tabs");
            out.append(&mut tail);
        }
        proof {
            assert(Seq::<char>::empty() + decimal(self.tabs@.len()) =~= decimal(self.tabs@.len()));
        }
        string_of(&out)
    }
}

/// The summary of `n` open tabs, `unsaved` of them with unsaved changes.
pub open spec fn tabs_info(n: nat, unsaved: nat) -> Seq<char> {
    if n == 0 {
        "No tabs open"@
    } else if unsaved > 0 {
        decimal(n) + " tabs ("@ + decimal(unsaved) + " unsaved)"@
    } else {
        decimal(n) + " tabs"@
    }
}

/// Opening a file that tab `i` already holds opens nothing new: the call
/// returns `i`, makes it active, and leaves every tab as it was, whatever
/// name and text it was given.
pub proof fn lemma_reopen_focuses(
    m0: TabManager,
    m1: TabManager,
    i: usize,
    name: String,
    path: String,
    content: String,
    r: usize,
)
    requires
        m0.wf(),
        i < m0.tab_list().len(),
        m0.tab_list()[i as int].path@ == path@,
        m0.added(name, path, content, r, m1),
    ensures
        r == i,
        m1.active() == i,
        m1.tab_list() == m0.tab_list(),
        m1.tab_list().len() == m0.tab_list().len(),
        m1.next_tab_id() == m0.next_tab_id(),
{
    let t = m0.tab_list();
    assert(m0.has_path(path@));
    if r < i {
        assert(t[r as int].id != t[i as int].id);
    } else if i < r {
        assert(t[i as int].id != t[r as int].id);
    }
}

/// Opening the same file twice gives the same tab both times, and the
/// second opening adds no tab.
pub proof fn lemma_reopen_same_tab(
    m0: TabManager,
    m1: TabManager,
    m2: TabManager,
    path: String,
    name1: String,
    content1: String,
    r1: usize,
    name2: String,
    content2: String,
    r2: usize,
)
    requires
        m0.wf(),
        m0.added(name1, path, content1, r1, m1),
        m1.added(name2, path, content2, r2, m2),
    ensures
        r1 == r2,
        m2.tab_list().len() == m1.tab_list().len(),
        m2.tab_list() == m1.tab_list(),
{
    let t = m1.tab_list();
    assert(t[r1 as int].path@ == path@);
    assert(m1.has_path(path@));
    if r1 < r2 {
        assert(t[r1 as int].id != t[r2 as int].id);
    } else if r2 < r1 {
        assert(t[r2 as int].id != t[r1 as int].id);
    }
}

} // verus!
