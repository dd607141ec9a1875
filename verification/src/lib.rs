//! Core of a terminal directory navigator: the ordered-listing model, the
//! per-pane cursor and selection state machine, the batch-mark-and-delete
//! workflow, and the preview-dispatch pipeline.
//!
//! Paths are modelled as plain strings; reading directories, deleting files
//! and drawing on the terminal are left to the surrounding binary, which
//! hands the results back as plain values.

pub mod app;
pub mod args;
pub mod deletion;
pub mod dir;
pub mod file_picker;
pub mod lister;
pub mod metadata;
pub mod paths;
pub mod popup;
pub mod preview_pane;
pub mod selection;
