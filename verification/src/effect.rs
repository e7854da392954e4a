//! The effect and event vocabulary: work the core asks for, and the
//! tagged results that come back.

use vstd::prelude::*;
use crate::category::Category;
use crate::comment::CommentThread;
use crate::entry::ListEntry;

verus! {

/// Side-effecting work the dispatcher emits but never runs itself.
pub enum Effect {
    FetchComments { item_id: u64, request_id: u64 },
    FetchSearchResults { query: String, request_id: u64 },
    FetchTabItems { tab_index: usize, category: Category, offset: usize },
    OpenUrl { url: String },
    SaveBookmarks { entries: Vec<ListEntry> },
}

/// The tagged result of a previously emitted fetch effect.  Errors carry
/// the fetch layer's message.
pub enum Event {
    Comments { request_id: u64, result: Result<CommentThread, String> },
    SearchResults { request_id: u64, result: Result<(Vec<ListEntry>, bool), String> },
    TabItems { tab_index: usize, result: Result<Vec<ListEntry>, String> },
}

/// The correlation token for an in-flight comment fetch.
pub struct PendingComment {
    pub comment_link: String,
    pub request_id: u64,
}

/// The correlation token for an in-flight search.
pub struct PendingSearch {
    pub query: String,
    pub request_id: u64,
    pub tab_index: usize,
}

/// One tab of the feed: its partition and whether more pages may exist.
pub struct Tab {
    pub category: Category,
    pub has_more: bool,
    pub label: &'static str,
}

/// What one command dispatch produced: the effects to run and whether
/// the program should exit.
pub struct CommandDispatch {
    pub effects: Vec<Effect>,
    pub should_exit: bool,
}

} // verus!
