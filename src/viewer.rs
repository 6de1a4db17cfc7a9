//! The single-file view: a document opened from the listing, read or
//! edited in place, whose close waits for an answer while it has unsaved
//! changes.
use vstd::prelude::*;
use crate::buffer::{BufferView, EditableBuffer};
use crate::tabs::fresh_buffer;

verus! {

/// A document shown over the listing, if one is open, whether keys edit it,
/// and whether the unsaved-changes alert is up.
pub struct FileViewer {
    document: Option<EditableBuffer>,
    editing: bool,
    unsaved_alert: bool,
}

/// What the viewer holds, as mathematical values.
pub struct ViewerView {
    pub document: Option<BufferView>,
    pub editing: bool,
    pub unsaved_alert: bool,
}

/// A viewer with nothing open.
pub open spec fn closed_viewer() -> ViewerView {
    ViewerView { document: None, editing: false, unsaved_alert: false }
}

impl View for FileViewer {
    type V = ViewerView;

    closed spec fn view(&self) -> ViewerView {
        ViewerView {
            document: match self.document {
                Some(b) => Some(b@),
                None => None,
            },
            editing: self.editing,
            unsaved_alert: self.unsaved_alert,
        }
    }
}

impl FileViewer {
    pub fn new() -> (r: FileViewer)
        ensures
            r@ == closed_viewer(),
    {
        FileViewer { document: None, editing: false, unsaved_alert: false }
    }

    /// Shows `text`, read from a file, for reading.
    pub fn open(&mut self, text: &str)
        ensures
            final(self)@ == (ViewerView {
                document: Some(fresh_buffer(text@)),
                editing: false,
                unsaved_alert: false,
            }),
    {
        self.document = Some(EditableBuffer::new(text));
        self.editing = false;
        self.unsaved_alert = false;
    }

    /// Whether a document is shown.
    pub fn is_open(&self) -> (r: bool)
        ensures
            r == self@.document.is_some(),
    {
        self.document.is_some()
    }

    /// Whether keys edit the document.
    pub fn is_editing(&self) -> (r: bool)
        ensures
            r == self@.editing,
    {
        self.editing
    }

    /// Whether the unsaved-changes alert is up.
    pub fn shows_unsaved_alert(&self) -> (r: bool)
        ensures
            r == self@.unsaved_alert,
    {
        self.unsaved_alert
    }

    /// Whether the document has unsaved changes.
    pub fn has_unsaved_changes(&self) -> (r: bool)
        ensures
            r == (self@.document matches Some(b) && b.dirty),
    {
        match &self.document {
            Some(b) => b.is_dirty(),
            None => false,
        }
    }

    /// The document, if one is shown.
    pub fn document(&self) -> (r: Option<&EditableBuffer>)
        ensures
            match r {
                Some(b) => self@.document == Some(b@),
                None => self@.document.is_none(),
            },
    {
        match &self.document {
            Some(b) => Some(b),
            None => None,
        }
    }

    /// The document, to edit or scroll in place.
    pub fn document_mut(&mut self) -> (r: Option<&mut EditableBuffer>)
        ensures
            final(self)@.editing == old(self)@.editing,
            final(self)@.unsaved_alert == old(self)@.unsaved_alert,
            match r {
                Some(b) => old(self)@.document == Some(b@) && final(self)@.document == Some(
                    final(b)@,
                ),
                None => old(self)@.document.is_none() && final(self)@.document.is_none(),
            },
    {
        match &mut self.document {
            Some(b) => Some(b),
            None => None,
        }
    }

    /// Switches between reading and editing.
    pub fn toggle_edit_mode(&mut self)
        ensures
            final(self)@ == (ViewerView { editing: !old(self)@.editing, ..old(self)@ }),
    {
        self.editing = !self.editing;
    }

    /// Closes the document, unsaved changes and all.
    pub fn actually_close_file(&mut self)
        ensures
            final(self)@ == closed_viewer(),
    {
        self.document = None;
        self.editing = false;
        self.unsaved_alert = false;
    }

    /// Closes the document if it is clean; with unsaved changes it stays
    /// and the alert asks what to do.
    pub fn close_file(&mut self)
        ensures
            (old(self)@.document matches Some(b) && b.dirty) ==> final(self)@ == (ViewerView {
                unsaved_alert: true,
                ..old(self)@
            }),
            !(old(self)@.document matches Some(b) && b.dirty) ==> final(self)@ == closed_viewer(),
    {
        if self.has_unsaved_changes() {
            self.unsaved_alert = true;
        } else {
            self.actually_close_file();
        }
    }

    /// Answers the alert with "cancel": the document stays as it is.
    pub fn dismiss_alert(&mut self)
        ensures
            final(self)@ == (ViewerView { unsaved_alert: false, ..old(self)@ }),
    {
        self.unsaved_alert = false;
    }

    /// Answers the alert with "discard": the changes are dropped and the
    /// document closes.
    pub fn discard_changes(&mut self)
        ensures
            final(self)@ == closed_viewer(),
    {
        self.actually_close_file();
    }

    /// The text to persist, if the document has unsaved changes.
    pub fn text_to_save(&self) -> (r: Option<String>)
        ensures
            match r {
                Some(s) => self@.document matches Some(b) && b.dirty && s@ == b.content,
                None => !(self@.document matches Some(b) && b.dirty),
            },
    {
        match &self.document {
            Some(b) => if b.is_dirty() {
                Some(b.content())
            } else {
                None
            },
            None => None,
        }
    }

    /// Records that the text was persisted: it becomes the saved text.
    pub fn commit_save(&mut self)
        ensures
            final(self)@ == (ViewerView {
                document: match old(self)@.document {
                    Some(b) => Some(b.committed()),
                    None => None,
                },
                ..old(self)@
            }),
    {
        match &mut self.document {
            Some(b) => b.commit_save(),
            None => {},
        }
    }
}

} // verus!
