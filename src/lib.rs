//! Core of a terminal file browser: an editable text buffer with a
//! line-aware cursor, a tab manager that guards unsaved work, the
//! bookkeeping of an embedded shell session, the directory listing, the
//! single-file viewer, and the key map that routes keys among them.

pub mod text;
pub mod buffer;
pub mod tabs;
pub mod terminal;
pub mod listing;
pub mod viewer;
pub mod keys;
pub mod demo;
