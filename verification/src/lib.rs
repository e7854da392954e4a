//! Core of a terminal reader for a paged news feed.
//!
//! The crate holds the application's logic: the paginated flat list view,
//! the collapsible comment tree, the key-to-command translation, and the
//! effect-driven state machine that correlates asynchronous fetch results
//! back into the state.  Rendering, networking and file handling live
//! outside, behind the `Effect`/`Event` vocabulary.

use vstd::prelude::*;

pub mod bookmark;
pub mod category;
pub mod comment;
pub mod comment_view;
pub mod effect;
pub mod entry;
pub mod help_view;
pub mod keys;
pub mod list_view;
pub mod mode;
pub mod sanitize;
pub mod search_input;
pub mod state;
pub mod text;
pub mod transient_message;

verus! {

/// Number of entries requested per page; a full page signals more data.
pub const INITIAL_BATCH_SIZE: usize = 30;

/// The status line shown over the flat list.
pub const LIST_STATUS: &'static str = "\u{2191}/k up \u{2022} \u{2193}/j down \u{2022} enter comments \u{2022} o open link \u{2022} b bookmark \u{2022} q/esc quit \u{2022} ? help";

/// The status line shown over a discussion tree.
pub const COMMENTS_STATUS: &'static str = "\u{2191}/k up \u{2022} \u{2193}/j down \u{2022} \u{2190}/h collapse \u{2022} \u{2192}/l expand \u{2022} enter toggle \u{2022} o open comment \u{2022} b bookmark \u{2022} esc back";

/// The help overlay's window title.
pub const HELP_TITLE: &'static str = "Help";

/// The status line shown while the help overlay is up.
pub const HELP_STATUS: &'static str = "Press ? or esc to close help";

/// The status line shown while a page of entries loads.
pub const LOADING_ENTRIES_STATUS: &'static str = "Loading more entries...";

/// The status line shown while a discussion loads.
pub const LOADING_COMMENTS_STATUS: &'static str = "Loading comments...";

/// The status line shown while a search runs.
pub const LOADING_SEARCH_STATUS: &'static str = "Searching...";

} // verus!
