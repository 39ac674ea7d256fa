//! A terminal editor for a linear stream of boxes: a cursor along a
//! horizontal track, a modal add-menu popup, and the key dispatch and
//! frame rendering that keep them consistent.
pub mod popup;
pub mod stream;
pub mod terminal;
