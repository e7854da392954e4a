//! The application state and its dispatcher: every tab's view model, the
//! active mode, the pending-request bookkeeping, and the command and
//! event transition functions.

use vstd::prelude::*;
use vstd::string::StringExecFns;
use crate::bookmark::Bookmarks;
use crate::category::{Category, CategoryKind};
use crate::comment_view::CommentView;
use crate::effect::{CommandDispatch, Effect, Event, PendingComment, PendingSearch, Tab};
use crate::entry::ListEntry;
use crate::help_view::HelpView;
use crate::keys::{Command, KeyCode, KeyEvent};
use crate::list_view::ListView;
use crate::mode::Mode;
use crate::search_input::SearchInput;
use crate::text::{spec_truncate, truncate, u64_to_string, parse_u64};
use crate::transient_message::TransientMessage;
use crate::{COMMENTS_STATUS, INITIAL_BATCH_SIZE, LIST_STATUS, LOADING_COMMENTS_STATUS,
    LOADING_ENTRIES_STATUS};

verus! {

/// All per-session state: one slot per tab, the active mode, and the
/// correlation bookkeeping for in-flight requests.
pub struct State {
    pub active_tab: usize,
    pub bookmarks: Bookmarks,
    pub bookmarks_tab_index: Option<usize>,
    pub clock_ms: u64,
    pub help: HelpView,
    pub list_height: usize,
    pub message: String,
    pub mode: Mode,
    pub next_request_id: u64,
    pub pending_comment: Option<PendingComment>,
    pub pending_effects: Vec<Effect>,
    pub pending_search: Option<PendingSearch>,
    pub pending_selections: Vec<Option<usize>>,
    pub search_input: Option<SearchInput>,
    pub search_tab_index: Option<usize>,
    pub tab_loading: Vec<bool>,
    pub tab_views: Vec<Option<ListView<ListEntry>>>,
    pub tabs: Vec<Tab>,
    pub transient_message: Option<TransientMessage>,
}

fn slot_mut(v: &mut Vec<Option<ListView<ListEntry>>>, i: usize) -> (e: &mut Option<
    ListView<ListEntry>,
>)
    requires
        i < old(v)@.len(),
    ensures
        *e == old(v)@[i as int],
        final(v)@ == old(v)@.update(i as int, *final(e)),
{
    &mut v[i]
}

impl State {
    /// The state's invariant: the four per-tab vectors stay in step, and
    /// every view, active or stored, keeps its own invariant.
    pub open spec fn wf(&self) -> bool {
        &&& self.tabs@.len() == self.tab_views@.len()
        &&& self.tabs@.len() == self.tab_loading@.len()
        &&& self.tabs@.len() == self.pending_selections@.len()
        &&& self.mode.wf()
        &&& (forall|i: int|
            0 <= i < self.tab_views@.len() ==> (#[trigger] self.tab_views@[i] matches Some(v)
                ==> v.wf()))
        &&& (self.search_tab_index matches Some(i) ==> i < self.tabs@.len())
        &&& (self.bookmarks_tab_index matches Some(i) ==> i < self.tabs@.len())
    }

    /// The list view shown for a tab: the active mode's view when that
    /// tab is active and in list mode, else the stored slot.
    pub open spec fn spec_list_view(&self, index: int) -> Option<ListView<ListEntry>> {
        if index < 0 || index >= self.tabs@.len() {
            None
        } else if self.mode is List && index == self.active_tab {
            Some(self.mode->List_0)
        } else {
            self.tab_views@[index]
        }
    }

    /// The tab the interface treats as active: the stored index clamped
    /// into the current tab count.
    pub open spec fn spec_resolved_active_tab(&self) -> Option<usize> {
        if self.tabs@.len() == 0 {
            None
        } else if self.active_tab < self.tabs@.len() {
            Some(self.active_tab)
        } else {
            Some((self.tabs@.len() - 1) as usize)
        }
    }

    /// The list view shown for a tab.
    pub fn list_view(&self, index: usize) -> (r: Option<&ListView<ListEntry>>)
        requires
            self.wf(),
        ensures
            r is Some <==> self.spec_list_view(index as int) is Some,
            r matches Some(v) ==> *v == self.spec_list_view(index as int)->Some_0,
    {
        if index >= self.tabs.len() {
            return None;
        }
        match &self.mode {
            Mode::List(view) => {
                if index == self.active_tab {
                    Some(view)
                } else {
                    match &self.tab_views[index] {
                        Some(v) => Some(v),
                        None => None,
                    }
                }
            },
            _ => {
                match &self.tab_views[index] {
                    Some(v) => Some(v),
                    None => None,
                }
            },
        }
    }

    /// The clamped active tab index, when any tab exists.
    pub fn resolved_active_tab(&self) -> (r: Option<usize>)
        ensures
            r == self.spec_resolved_active_tab(),
    {
        if self.tabs.len() == 0 {
            None
        } else if self.active_tab < self.tabs.len() {
            Some(self.active_tab)
        } else {
            Some(self.tabs.len() - 1)
        }
    }

    /// The row the user is on in the active tab's list.
    pub fn current_entry(&self) -> (r: Option<&ListEntry>)
        requires
            self.wf(),
        ensures
            r matches Some(e) ==> (self.spec_list_view(self.active_tab as int) matches Some(v)
                && v.items@.len() > 0 && *e == v.items@[v.spec_selected_index()->Some_0 as int]),
            r is None ==> (self.spec_list_view(self.active_tab as int) is None
                || self.spec_list_view(self.active_tab as int)->Some_0.items@.len() == 0),
    {
        match self.list_view(self.active_tab) {
            Some(view) => view.selected_item(),
            None => None,
        }
    }

    /// The help overlay.
    pub fn help(&self) -> (r: &HelpView)
        ensures
            r == &self.help,
    {
        &self.help
    }

    /// Whether the help overlay is up.
    pub fn help_is_visible(&self) -> (r: bool)
        ensures
            r == self.help.visible,
    {
        self.help.is_visible()
    }

    /// The last list height the renderer reported.
    pub fn list_height(&self) -> (r: usize)
        ensures
            r == self.list_height,
    {
        self.list_height
    }

    /// The current status line.
    pub fn message(&self) -> (r: &str)
        ensures
            r@ == self.message@,
    {
        self.message.as_str()
    }

    /// The active mode, for rendering and key handling.
    pub fn mode_mut(&mut self) -> (r: &mut Mode)
        ensures
            *r == old(self).mode,
            final(self).mode == *final(r),
            final(self).active_tab == old(self).active_tab,
            final(self).bookmarks == old(self).bookmarks,
            final(self).bookmarks_tab_index == old(self).bookmarks_tab_index,
            final(self).clock_ms == old(self).clock_ms,
            final(self).help == old(self).help,
            final(self).list_height == old(self).list_height,
            final(self).message == old(self).message,
            final(self).next_request_id == old(self).next_request_id,
            final(self).pending_comment == old(self).pending_comment,
            final(self).pending_effects == old(self).pending_effects,
            final(self).pending_search == old(self).pending_search,
            final(self).pending_selections == old(self).pending_selections,
            final(self).search_input == old(self).search_input,
            final(self).search_tab_index == old(self).search_tab_index,
            final(self).tab_loading == old(self).tab_loading,
            final(self).tab_views == old(self).tab_views,
            final(self).tabs == old(self).tabs,
            final(self).transient_message == old(self).transient_message,
    {
        &mut self.mode
    }

    /// The effects queued by the current dispatch.
    pub fn pending_effects(&self) -> (r: &Vec<Effect>)
        ensures
            r == &self.pending_effects,
    {
        &self.pending_effects
    }

    /// Drops any queued effects.
    pub fn clear_pending_effects(&mut self)
        ensures
            *final(self) == (State { pending_effects: final(self).pending_effects, ..*old(self) }),
            final(self).pending_effects@.len() == 0,
    {
        self.pending_effects = Vec::new();
    }

    /// Records the list height the renderer laid out.
    pub fn set_list_height(&mut self, height: usize)
        ensures
            *final(self) == (State { list_height: height, ..*old(self) }),
    {
        self.list_height = height;
    }

    /// Advances the state's clock; transient messages lapse against it.
    pub fn set_clock(&mut self, now_ms: u64)
        ensures
            *final(self) == (State { clock_ms: now_ms, ..*old(self) }),
    {
        self.clock_ms = now_ms;
    }

    /// One tab's metadata.
    pub fn tab(&self, index: usize) -> (r: Option<&Tab>)
        ensures
            index < self.tabs@.len() ==> (r matches Some(t) && *t == self.tabs@[index as int]),
            index >= self.tabs@.len() ==> r is None,
    {
        if index < self.tabs.len() {
            Some(&self.tabs[index])
        } else {
            None
        }
    }

    /// Which tabs have a fetch in flight.
    pub fn tab_loading(&self) -> (r: &Vec<bool>)
        ensures
            r == &self.tab_loading,
    {
        &self.tab_loading
    }

    /// All tabs' metadata.
    pub fn tabs(&self) -> (r: &Vec<Tab>)
        ensures
            r == &self.tabs,
    {
        &self.tabs
    }

    /// Stashes the active list view into its tab slot; in tree mode, or
    /// with no slot for the active tab, nothing moves.
    fn store_active_list_view(&mut self)
        requires
            old(self).wf(),
        ensures
            final(self).wf(),
            *final(self) == (State {
                mode: final(self).mode,
                tab_views: final(self).tab_views,
                ..*old(self)
            }),
            (old(self).mode is List && old(self).active_tab < old(self).tabs@.len()) ==> {
                &&& final(self).mode is List
                &&& final(self).mode->List_0.items@.len() == 0
                &&& final(self).tab_views@ == old(self).tab_views@.update(
                    old(self).active_tab as int,
                    Some(old(self).mode->List_0),
                )
            },
            !(old(self).mode is List && old(self).active_tab < old(self).tabs@.len()) ==> (final(self).mode == old(self).mode && final(self).tab_views == old(self).tab_views),
    {
        if self.active_tab >= self.tabs.len() {
            return;
        }
        let is_list = match &self.mode {
            Mode::List(_) => true,
            _ => false,
        };
        if !is_list {
            return;
        }
        let mut taken = Mode::List(ListView::new(Vec::new()));
        core::mem::swap(&mut taken, &mut self.mode);
        match taken {
            Mode::List(view) => {
                let slot = slot_mut(&mut self.tab_views, self.active_tab);
                *slot = Some(view);
            },
            Mode::Comments(view) => {
                self.mode = Mode::Comments(view);
                proof {
                    assert(false);
                }
            },
        }
    }

    /// Brings the active tab's stored view into list mode; an empty slot
    /// yields an empty list view.
    fn restore_active_list_view(&mut self)
        requires
            old(self).wf(),
        ensures
            final(self).wf(),
            *final(self) == (State {
                mode: final(self).mode,
                tab_views: final(self).tab_views,
                ..*old(self)
            }),
            final(self).mode is List,
            old(self).active_tab < old(self).tabs@.len() ==> {
                &&& (old(self).tab_views@[old(self).active_tab as int] matches Some(v) ==> final(self).mode->List_0 == v && final(self).tab_views@ == old(self).tab_views@.update(
                    old(self).active_tab as int,
                    Option::<ListView<ListEntry>>::None,
                ))
                &&& (old(self).tab_views@[old(self).active_tab as int] is None ==> final(self).tab_views == old(self).tab_views && (old(self).mode is List ==> final(self).mode
                    == old(self).mode) && (!(old(self).mode is List) ==> final(self).mode->List_0.items@.len() == 0))
            },
            old(self).active_tab >= old(self).tabs@.len() ==> (final(self).tab_views == old(self).tab_views && (old(self).mode is List ==> final(self).mode == old(self).mode) && (!(
            old(self).mode is List) ==> final(self).mode->List_0.items@.len() == 0)),
    {
        if self.active_tab < self.tab_views.len() {
            let occupied = match &self.tab_views[self.active_tab] {
                Some(_) => true,
                None => false,
            };
            if occupied {
                let slot = slot_mut(&mut self.tab_views, self.active_tab);
                match slot.take() {
                    Some(view) => {
                        self.mode = Mode::List(view);
                        return;
                    },
                    None => {
                        proof {
                            assert(false);
                        }
                    },
                }
            }
        }
        let is_list = match &self.mode {
            Mode::List(_) => true,
            _ => false,
        };
        if !is_list {
            self.mode = Mode::List(ListView::new(Vec::new()));
        }
    }


    /// Creates the bookmarks tab on first use, or finds the existing one.
    fn ensure_bookmarks_tab(&mut self) -> (r: usize)
        requires
            old(self).wf(),
        ensures
            final(self).wf(),
            old(self).bookmarks_tab_index matches Some(i) ==> *final(self) == *old(self) && r == i,
            old(self).bookmarks_tab_index is None ==> {
                &&& r == old(self).tabs@.len()
                &&& final(self).tabs@.len() == old(self).tabs@.len() + 1
                &&& final(self).tabs@.take(r as int) == old(self).tabs@
                &&& final(self).tabs@[r as int].category.kind is Bookmarks
                &&& final(self).tabs@[r as int].label@ == "bookmarks"@
                &&& !final(self).tabs@[r as int].has_more
                &&& final(self).tab_views@.take(r as int) == old(self).tab_views@
                &&& (final(self).tab_views@[r as int] matches Some(v) && v.items@.len() == old(self).bookmarks.rows().len() && v.selected == 0 && v.offset == 0)
                &&& final(self).tab_loading@ == old(self).tab_loading@.push(false)
                &&& final(self).pending_selections@ == old(self).pending_selections@.push(
                    Option::<usize>::None,
                )
                &&& final(self).bookmarks_tab_index == Some(r)
                &&& *final(self) == (State {
                    tabs: final(self).tabs,
                    tab_views: final(self).tab_views,
                    tab_loading: final(self).tab_loading,
                    pending_selections: final(self).pending_selections,
                    bookmarks_tab_index: final(self).bookmarks_tab_index,
                    ..*old(self)
                })
            },
    {
        match self.bookmarks_tab_index {
            Some(index) => index,
            None => {
                let entries = self.bookmarks.entries_vec();
                let tab_index = self.tabs.len();
                let category = Category { label: "bookmarks", kind: CategoryKind::Bookmarks };
                self.tabs.push(Tab { category, has_more: false, label: "bookmarks" });
                self.tab_views.push(Some(ListView::new(entries)));
                self.tab_loading.push(false);
                self.pending_selections.push(None);
                self.bookmarks_tab_index = Some(tab_index);
                proof {
                    assert(self.tabs@.take(tab_index as int) =~= old(self).tabs@);
                    assert(self.tab_views@.take(tab_index as int) =~= old(self).tab_views@);
                }
                tab_index
            },
        }
    }

    /// Creates the search tab on first use, or finds the existing one.
    fn ensure_search_tab(&mut self) -> (r: usize)
        requires
            old(self).wf(),
        ensures
            final(self).wf(),
            old(self).search_tab_index matches Some(i) ==> *final(self) == *old(self) && r == i,
            old(self).search_tab_index is None ==> {
                &&& r == old(self).tabs@.len()
                &&& final(self).tabs@.len() == old(self).tabs@.len() + 1
                &&& final(self).tabs@.take(r as int) == old(self).tabs@
                &&& final(self).tabs@[r as int].category.kind is Search
                &&& final(self).tabs@[r as int].label@ == "search"@
                &&& !final(self).tabs@[r as int].has_more
                &&& final(self).tab_views@.take(r as int) == old(self).tab_views@
                &&& (final(self).tab_views@[r as int] matches Some(v) && v.items@.len() == 0
                    && v.selected == 0 && v.offset == 0)
                &&& final(self).tab_loading@ == old(self).tab_loading@.push(false)
                &&& final(self).pending_selections@ == old(self).pending_selections@.push(
                    Option::<usize>::None,
                )
                &&& final(self).search_tab_index == Some(r)
                &&& *final(self) == (State {
                    tabs: final(self).tabs,
                    tab_views: final(self).tab_views,
                    tab_loading: final(self).tab_loading,
                    pending_selections: final(self).pending_selections,
                    search_tab_index: final(self).search_tab_index,
                    ..*old(self)
                })
            },
    {
        match self.search_tab_index {
            Some(index) => index,
            None => {
                let tab_index = self.tabs.len();
                self.tabs.push(
                    Tab {
                        category: Category { label: "search", kind: CategoryKind::Search },
                        has_more: false,
                        label: "search",
                    },
                );
                self.tab_views.push(Some(ListView::new(Vec::new())));
                self.tab_loading.push(false);
                self.pending_selections.push(None);
                self.search_tab_index = Some(tab_index);
                proof {
                    assert(self.tabs@.take(tab_index as int) =~= old(self).tabs@);
                    assert(self.tab_views@.take(tab_index as int) =~= old(self).tab_views@);
                }
                tab_index
            },
        }
    }

    /// Replaces the view a tab shows, in the mode or in its slot.
    fn put_view_at(&mut self, index: usize, view: ListView<ListEntry>)
        requires
            old(self).wf(),
            index < old(self).tabs@.len(),
            view.wf(),
        ensures
            final(self).wf(),
            final(self).spec_list_view(index as int) == Some(view),
            forall|j: int|
                0 <= j < old(self).tabs@.len() && j != index ==> final(self).spec_list_view(j)
                    == old(self).spec_list_view(j),
            *final(self) == (State {
                mode: final(self).mode,
                tab_views: final(self).tab_views,
                ..*old(self)
            }),
            (old(self).mode is List && index == old(self).active_tab) ==> (final(self).mode
                == Mode::List(view) && final(self).tab_views == old(self).tab_views),
            !(old(self).mode is List && index == old(self).active_tab) ==> (final(self).mode
                == old(self).mode && final(self).tab_views@ == old(self).tab_views@.update(
                index as int,
                Some(view),
            )),
    {
        let in_mode = match &self.mode {
            Mode::List(_) => index == self.active_tab,
            _ => false,
        };
        if in_mode {
            self.mode = Mode::List(view);
        } else {
            let slot = slot_mut(&mut self.tab_views, index);
            *slot = Some(view);
        }
    }

    /// Rebuilds the bookmarks tab's view from the saved entries, keeping
    /// the selection and offset as far as the new length allows.
    fn refresh_bookmarks_view(&mut self, tab_index: usize)
        requires
            old(self).wf(),
        ensures
            final(self).wf(),
            tab_index >= old(self).tabs@.len() ==> *final(self) == *old(self),
            tab_index < old(self).tabs@.len() ==> {
                &&& *final(self) == (State {
                    mode: final(self).mode,
                    tab_views: final(self).tab_views,
                    ..*old(self)
                })
                &&& (old(self).mode is List ==> final(self).mode is List)
                &&& (!(tab_index == old(self).active_tab && old(self).mode is List) ==> final(self).mode == old(self).mode)
                &&& (final(self).spec_list_view(tab_index as int) matches Some(v) && {
                    let sel0 = match old(self).spec_list_view(tab_index as int) {
                        Some(p) => match p.spec_selected_index() {
                            Some(s) => s as int,
                            None => 0,
                        },
                        None => 0,
                    };
                    let off0 = match old(self).spec_list_view(tab_index as int) {
                        Some(p) => p.spec_offset() as int,
                        None => 0,
                    };
                    let n = old(self).bookmarks.rows().len() as int;
                    &&& v.items@ == old(self).bookmarks.rows()
                    &&& v.selected == (if n == 0 {
                        0int
                    } else if sel0 < n {
                        sel0
                    } else {
                        n - 1
                    })
                    &&& v.offset == (if n == 0 {
                        0int
                    } else if off0 < n {
                        off0
                    } else {
                        n - 1
                    })
                })
                &&& (forall|j: int|
                    0 <= j < old(self).tabs@.len() && j != tab_index ==> final(self).spec_list_view(j) == old(self).spec_list_view(j))
            },
    {
        if tab_index >= self.tabs.len() {
            return;
        }
        let entries = self.bookmarks.entries_vec();
        let mut view = ListView::new(entries);
        let (sel0, off0): (usize, usize) = match self.list_view(tab_index) {
            Some(prev) => {
                let s = match prev.selected_index() {
                    Some(s) => s,
                    None => 0,
                };
                (s, prev.offset())
            },
            None => (0, 0),
        };
        view.set_selected(sel0);
        view.set_offset(off0);
        self.put_view_at(tab_index, view);
    }

    /// Shows a transient status message, remembering what to restore.
    pub fn set_transient_message(&mut self, message: String)
        ensures
            *final(self) == (State {
                message: final(self).message,
                transient_message: final(self).transient_message,
                ..*old(self)
            }),
            final(self).message == message,
            final(self).transient_message matches Some(t) && t.current == message && t.original@
                == (match old(self).transient_message {
                Some(prev) => prev.original@,
                None => old(self).message@,
            }),
    {
        let original: String = match &self.transient_message {
            Some(t) => t.original().to_owned(),
            None => self.message.clone(),
        };
        self.transient_message = Some(
            TransientMessage::new(message.clone(), original, self.clock_ms),
        );
        self.message = message;
    }

    /// Reverts a lapsed transient message, or forgets one that something
    /// else already overwrote.
    pub fn update_transient_message(&mut self)
        ensures
            *final(self) == (State {
                message: final(self).message,
                transient_message: final(self).transient_message,
                ..*old(self)
            }),
            old(self).transient_message is None ==> *final(self) == *old(self),
            old(self).transient_message matches Some(t) ==> {
                if old(self).message@ != t.current@ {
                    final(self).message == old(self).message && final(self).transient_message
                        is None
                } else if old(self).clock_ms >= t.expires_at {
                    final(self).message@ == t.original@ && final(self).transient_message is None
                } else {
                    *final(self) == *old(self)
                }
            },
    {
        let lapsed: Option<(bool, bool)> = match &self.transient_message {
            Some(t) => Some(
                (
                    !crate::text::str_eq(self.message.as_str(), t.current()),
                    self.clock_ms >= t.expires_at,
                ),
            ),
            None => None,
        };
        match lapsed {
            Some((overwritten, expired)) => {
                if overwritten {
                    self.transient_message = None;
                } else if expired {
                    let original: String = match &self.transient_message {
                        Some(t) => t.original().to_owned(),
                        None => String::new(),
                    };
                    self.message = original;
                    self.transient_message = None;
                }
            },
            None => {},
        }
    }

    /// Puts the prompt into the status line while a search is typed.
    fn update_search_message(&mut self)
        ensures
            *final(self) == (State { message: final(self).message, ..*old(self) }),
            old(self).search_input matches Some(input) ==> final(self).message@ == spec_truncate(
                "Search: "@ + input.buffer@,
                80,
            ),
            old(self).search_input is None ==> final(self).message == old(self).message,
    {
        let prompt: Option<String> = match &self.search_input {
            Some(input) => Some(input.prompt()),
            None => None,
        };
        match prompt {
            Some(p) => {
                self.message = truncate(p.as_str(), 80);
            },
            None => {},
        }
    }

    /// Opens the search prompt, backing the status line up; a second
    /// start changes nothing.
    fn start_search(&mut self)
        ensures
            State::rel_start_search(*old(self), *final(self)),

    {
        if self.search_input.is_some() {
            return;
        }
        let backup = self.message.clone();
        self.search_input = Some(SearchInput::new(backup));
        self.update_search_message();
        proof {
            assert("Search: "@ + Seq::<char>::empty() =~= "Search: "@);
        }
    }

    /// Closes the search prompt and restores the status line.
    fn cancel_search(&mut self)
        ensures
            State::rel_cancel_search(*old(self), *final(self)),

    {
        match self.search_input.take() {
            Some(input) => {
                self.message = input.message_backup;
            },
            None => {},
        }
    }

    /// One key while the search prompt is open: escape cancels, enter
    /// submits, and characters without modifiers edit the query.
    pub fn handle_search_key(&mut self, key: KeyEvent) -> (r: Command)
        ensures
            old(self).search_input is None ==> *final(self) == *old(self) && r == Command::Noop,
            old(self).search_input matches Some(input) ==> {
                &&& *final(self) == (State {
                    message: final(self).message,
                    search_input: final(self).search_input,
                    ..*old(self)
                })
                &&& (match key.code {
                    KeyCode::Esc => r == Command::CancelSearch && *final(self) == *old(self),
                    KeyCode::Enter => r == Command::SubmitSearch && *final(self) == *old(self),
                    KeyCode::Backspace => r == Command::Noop && (final(self).search_input matches Some(i2) && i2.message_backup == input.message_backup
                        && i2.buffer@ == (if input.buffer@.len() > 0 {
                        input.buffer@.drop_last()
                    } else {
                        input.buffer@
                    }) && final(self).message@ == spec_truncate("Search: "@ + i2.buffer@, 80)),
                    KeyCode::Char(c) => r == Command::Noop && (if key.ctrl || key.alt || key.sup {
                        *final(self) == *old(self)
                    } else {
                        final(self).search_input matches Some(i2) && i2.message_backup
                            == input.message_backup && i2.buffer@ == input.buffer@.push(c)
                            && final(self).message@ == spec_truncate("Search: "@ + i2.buffer@, 80)
                    }),
                    _ => r == Command::Noop && *final(self) == *old(self),
                })
            },
    {
        if self.search_input.is_none() {
            return Command::Noop;
        }
        match key.code {
            KeyCode::Esc => Command::CancelSearch,
            KeyCode::Enter => Command::SubmitSearch,
            KeyCode::Backspace => {
                match &mut self.search_input {
                    Some(input) => {
                        crate::text::pop_char(&mut input.buffer);
                    },
                    None => {},
                }
                self.update_search_message();
                Command::Noop
            },
            KeyCode::Char(c) => {
                if key.ctrl || key.alt || key.sup {
                    return Command::Noop;
                }
                match &mut self.search_input {
                    Some(input) => {
                        crate::text::push_char(&mut input.buffer, c);
                    },
                    None => {},
                }
                self.update_search_message();
                Command::Noop
            },
            _ => Command::Noop,
        }
    }

    /// Routes a key to the search prompt when it is open.
    pub fn search_input_command(&mut self, key: KeyEvent) -> (r: Option<Command>)
        ensures
            old(self).search_input is None ==> *final(self) == *old(self) && r is None,
            old(self).search_input is Some ==> r is Some,
            *final(self) == (State {
                message: final(self).message,
                search_input: final(self).search_input,
                ..*old(self)
            }),
    {
        if self.search_input.is_some() {
            Some(self.handle_search_key(key))
        } else {
            None
        }
    }


    /// How many rows a tab's list currently holds.
    pub open spec fn spec_view_len(&self, t: int) -> int {
        match self.spec_list_view(t) {
            Some(v) => v.items@.len() as int,
            None => 0,
        }
    }

    /// Whether asking for `target` in tab `t` must record a pending
    /// selection and possibly fetch: the row is past the loaded rows and
    /// the tab still has more pages.
    pub open spec fn spec_should_fetch(&self, t: int, target: int) -> bool {
        &&& 0 <= t < self.tabs@.len()
        &&& target >= self.spec_view_len(t)
        &&& self.tabs@[t].has_more
    }

    /// What selecting a row leaves behind: the selection clamped into the
    /// loaded rows, a pending selection and at most one fetch effect when
    /// the row is not loaded yet, and nothing at all once a tab is
    /// exhausted.
    pub open spec fn rel_select(pre: State, post: State, target: int) -> bool {
        if pre.tabs@.len() == 0 {
            post == pre
        } else {
            let t = pre.spec_resolved_active_tab()->Some_0 as int;
            let fetches = pre.spec_should_fetch(t, target) && !pre.tab_loading@[t];
            &&& post == (State {
                mode: post.mode,
                tab_views: post.tab_views,
                tab_loading: post.tab_loading,
                pending_selections: post.pending_selections,
                pending_effects: post.pending_effects,
                message: post.message,
                ..pre
            })
            &&& post.pending_selections@ == (if pre.spec_should_fetch(t, target) {
                pre.pending_selections@.update(t, Some(target as usize))
            } else {
                pre.pending_selections@
            })
            &&& post.tab_loading@ == (if fetches {
                pre.tab_loading@.update(t, true)
            } else {
                pre.tab_loading@
            })
            &&& post.pending_effects@ == (if fetches {
                pre.pending_effects@.push(
                    Effect::FetchTabItems {
                        tab_index: t as usize,
                        category: pre.tabs@[t].category,
                        offset: pre.spec_view_len(t) as usize,
                    },
                )
            } else {
                pre.pending_effects@
            })
            &&& post.message@ == (if fetches && !pre.help.visible {
                LOADING_ENTRIES_STATUS@
            } else {
                pre.message@
            })
            &&& (match pre.spec_list_view(t) {
                Some(v) => {
                    if target < v.items@.len() {
                        post.spec_list_view(t) == Some(
                            ListView { selected: target as usize, ..v },
                        ) && (forall|j: int|
                            0 <= j < pre.tabs@.len() && j != t ==> post.spec_list_view(j)
                                == pre.spec_list_view(j))
                    } else {
                        post.mode == pre.mode && post.tab_views == pre.tab_views
                    }
                },
                None => post.mode == pre.mode && post.tab_views == pre.tab_views,
            })
        }
    }

    /// Once a tab is exhausted, selecting past its loaded rows emits no
    /// further fetch effect.
    pub proof fn lemma_exhausted_tab_never_fetches(pre: State, post: State, target: int)
        requires
            State::rel_select(pre, post, target),
            pre.tabs@.len() > 0,
            !pre.tabs@[pre.spec_resolved_active_tab()->Some_0 as int].has_more,
        ensures
            post.pending_effects@ == pre.pending_effects@,
            post.tab_loading@ == pre.tab_loading@,
    {
    }

    /// Starts a page fetch for a tab unless it is exhausted or already
    /// loading; an exhausted tab never emits another fetch.
    fn start_load_for_tab(&mut self, tab_index: usize)
        requires
            old(self).wf(),
        ensures
            final(self).wf(),
            (tab_index >= old(self).tabs@.len() || !old(self).tabs@[tab_index as int].has_more
                || old(self).tab_loading@[tab_index as int]) ==> *final(self) == *old(self),
            (tab_index < old(self).tabs@.len() && old(self).tabs@[tab_index as int].has_more
                && !old(self).tab_loading@[tab_index as int]) ==> {
                &&& *final(self) == (State {
                    tab_loading: final(self).tab_loading,
                    message: final(self).message,
                    pending_effects: final(self).pending_effects,
                    ..*old(self)
                })
                &&& final(self).tab_loading@ == old(self).tab_loading@.update(
                    tab_index as int,
                    true,
                )
                &&& final(self).pending_effects@ == old(self).pending_effects@.push(
                    Effect::FetchTabItems {
                        tab_index,
                        category: old(self).tabs@[tab_index as int].category,
                        offset: old(self).spec_view_len(tab_index as int) as usize,
                    },
                )
                &&& final(self).message@ == (if old(self).help.visible {
                    old(self).message@
                } else {
                    LOADING_ENTRIES_STATUS@
                })
            },
    {
        if tab_index >= self.tabs.len() {
            return;
        }
        if !self.tabs[tab_index].has_more {
            return;
        }
        let offset: usize = match self.list_view(tab_index) {
            Some(view) => view.len(),
            None => 0,
        };
        let category = self.tabs[tab_index].category;
        if self.tab_loading[tab_index] {
            return;
        }
        self.tab_loading.set(tab_index, true);
        if !self.help.is_visible() {
            self.message = LOADING_ENTRIES_STATUS.to_owned();
        }
        self.pending_effects.push(Effect::FetchTabItems { tab_index, category, offset });
    }

    /// Records a selection past the loaded rows and starts the fetch that
    /// will satisfy it; rows already loaded, and exhausted tabs, change
    /// nothing.
    fn ensure_item(&mut self, tab_index: usize, target_index: usize)
        requires
            old(self).wf(),
        ensures
            final(self).wf(),
            !old(self).spec_should_fetch(tab_index as int, target_index as int) ==> *final(self)
                == *old(self),
            old(self).spec_should_fetch(tab_index as int, target_index as int) ==> {
                &&& *final(self) == (State {
                    pending_selections: final(self).pending_selections,
                    tab_loading: final(self).tab_loading,
                    message: final(self).message,
                    pending_effects: final(self).pending_effects,
                    ..*old(self)
                })
                &&& final(self).pending_selections@ == old(self).pending_selections@.update(
                    tab_index as int,
                    Some(target_index),
                )
                &&& (old(self).tab_loading@[tab_index as int] ==> final(self).tab_loading == old(self).tab_loading && final(self).pending_effects == old(self).pending_effects && final(self).message == old(self).message)
                &&& (!old(self).tab_loading@[tab_index as int] ==> final(self).tab_loading@ == old(self).tab_loading@.update(tab_index as int, true) && final(self).pending_effects@
                    == old(self).pending_effects@.push(
                    Effect::FetchTabItems {
                        tab_index,
                        category: old(self).tabs@[tab_index as int].category,
                        offset: old(self).spec_view_len(tab_index as int) as usize,
                    },
                ) && final(self).message@ == (if old(self).help.visible {
                    old(self).message@
                } else {
                    LOADING_ENTRIES_STATUS@
                }))
            },
    {
        let current_len: usize = match self.list_view(tab_index) {
            Some(view) => view.len(),
            None => 0,
        };
        if target_index < current_len {
            return;
        }
        if tab_index >= self.tabs.len() {
            return;
        }
        if !self.tabs[tab_index].has_more {
            return;
        }
        self.pending_selections.set(tab_index, Some(target_index));
        let is_loading = self.tab_loading[tab_index];
        if !is_loading {
            self.start_load_for_tab(tab_index);
        }
    }

    /// Selects a row in the active tab, fetching another page first when
    /// the row is past what is loaded.
    fn select_index(&mut self, target: usize)
        requires
            old(self).wf(),
        ensures
            final(self).wf(),
            State::rel_select(*old(self), *final(self), target as int),
    {
        if self.tabs.len() == 0 {
            return;
        }
        let tab_index = if self.active_tab < self.tabs.len() - 1 {
            self.active_tab
        } else {
            self.tabs.len() - 1
        };
        proof {
            assert(tab_index == self.spec_resolved_active_tab()->Some_0);
        }
        self.ensure_item(tab_index, target);
        let in_bounds = match self.list_view(tab_index) {
            Some(view) => target < view.len(),
            None => false,
        };
        if in_bounds {
            self.set_view_selected(tab_index, target);
        }
    }

    /// Moves the selection of one tab's view.
    fn set_view_selected(&mut self, index: usize, target: usize)
        requires
            old(self).wf(),
            index < old(self).tabs@.len(),
            old(self).spec_list_view(index as int) matches Some(v) && target < v.items@.len(),
        ensures
            final(self).wf(),
            *final(self) == (State {
                mode: final(self).mode,
                tab_views: final(self).tab_views,
                ..*old(self)
            }),
            final(self).spec_list_view(index as int) == Some(
                ListView {
                    selected: target,
                    ..old(self).spec_list_view(index as int)->Some_0
                },
            ),
            forall|j: int|
                0 <= j < old(self).tabs@.len() && j != index ==> final(self).spec_list_view(j)
                    == old(self).spec_list_view(j),
    {
        let in_mode = match &self.mode {
            Mode::List(_) => index == self.active_tab,
            _ => false,
        };
        if in_mode {
            match &mut self.mode {
                Mode::List(view) => {
                    view.set_selected(target);
                },
                _ => {},
            }
        } else {
            let slot = slot_mut(&mut self.tab_views, index);
            match slot {
                Some(view) => {
                    view.set_selected(target);
                },
                None => {
                    proof {
                        assert(false);
                    }
                },
            }
        }
    }

    /// The distance a paging movement covers: one screen minus one row.
    pub open spec fn spec_page_jump(&self) -> int {
        if self.list_height > 1 {
            self.list_height - 1
        } else {
            1
        }
    }

    fn page_jump(&self) -> (r: usize)
        ensures
            r == self.spec_page_jump(),
    {
        if self.list_height > 1 {
            self.list_height - 1
        } else {
            1
        }
    }

    /// The stored selection of the active tab's view, zero without one.
    pub open spec fn spec_current_raw(&self) -> int {
        match self.spec_resolved_active_tab() {
            Some(t) => match self.spec_list_view(t as int) {
                Some(v) => v.selected as int,
                None => 0,
            },
            None => 0,
        }
    }

    fn current_raw(&self) -> (r: usize)
        requires
            self.wf(),
            self.tabs@.len() > 0,
        ensures
            r == self.spec_current_raw(),
    {
        let tab_index = if self.active_tab < self.tabs.len() - 1 {
            self.active_tab
        } else {
            self.tabs.len() - 1
        };
        proof {
            assert(tab_index == self.spec_resolved_active_tab()->Some_0);
        }
        match self.list_view(tab_index) {
            Some(view) => view.selected_raw(),
            None => 0,
        }
    }

    /// Moves the selection one row down, fetching more when past the end.
    pub fn select_next(&mut self)
        requires
            old(self).wf(),
        ensures
            final(self).wf(),
            old(self).tabs@.len() == 0 ==> *final(self) == *old(self),
            old(self).tabs@.len() > 0 ==> State::rel_select(
                *old(self),
                *final(self),
                if old(self).spec_current_raw() + 1 <= usize::MAX {
                    old(self).spec_current_raw() + 1
                } else {
                    usize::MAX as int
                },
            ),
    {
        if self.tabs.len() == 0 {
            return;
        }
        let current = self.current_raw();
        let target = if current < usize::MAX {
            current + 1
        } else {
            usize::MAX
        };
        self.select_index(target);
    }

    /// Moves the selection one row up.
    pub fn select_previous(&mut self)
        requires
            old(self).wf(),
        ensures
            final(self).wf(),
            old(self).tabs@.len() == 0 ==> *final(self) == *old(self),
            old(self).tabs@.len() > 0 ==> State::rel_select(
                *old(self),
                *final(self),
                if old(self).spec_current_raw() >= 1 {
                    old(self).spec_current_raw() - 1
                } else {
                    0int
                },
            ),
    {
        if self.tabs.len() == 0 {
            return;
        }
        let current = self.current_raw();
        let target = if current >= 1 {
            current - 1
        } else {
            0
        };
        self.select_index(target);
    }

    /// Pages the selection down, fetching more when past the end.
    pub fn page_down(&mut self)
        requires
            old(self).wf(),
        ensures
            final(self).wf(),
            old(self).tabs@.len() == 0 ==> *final(self) == *old(self),
            old(self).tabs@.len() > 0 ==> State::rel_select(
                *old(self),
                *final(self),
                if old(self).spec_current_raw() + old(self).spec_page_jump() <= usize::MAX {
                    old(self).spec_current_raw() + old(self).spec_page_jump()
                } else {
                    usize::MAX as int
                },
            ),
    {
        if self.tabs.len() == 0 {
            return;
        }
        let current = self.current_raw();
        let jump = self.page_jump();
        let target = if current <= usize::MAX - jump {
            current + jump
        } else {
            usize::MAX
        };
        self.select_index(target);
    }

    /// Pages the selection up.
    pub fn page_up(&mut self)
        requires
            old(self).wf(),
        ensures
            final(self).wf(),
            old(self).tabs@.len() == 0 ==> *final(self) == *old(self),
            old(self).tabs@.len() > 0 ==> State::rel_select(
                *old(self),
                *final(self),
                if old(self).spec_current_raw() >= old(self).spec_page_jump() {
                    old(self).spec_current_raw() - old(self).spec_page_jump()
                } else {
                    0int
                },
            ),
    {
        if self.tabs.len() == 0 {
            return;
        }
        let current = self.current_raw();
        let jump = self.page_jump();
        let target = if current >= jump {
            current - jump
        } else {
            0
        };
        self.select_index(target);
    }


    /// The wrapped successor of a request id.
    pub open spec fn spec_next_id(id: u64) -> u64 {
        if id == u64::MAX {
            0u64
        } else {
            (id + 1) as u64
        }
    }

    /// The selected row of the active tab's list, if any.
    pub open spec fn spec_current_entry(&self) -> Option<ListEntry> {
        match self.spec_list_view(self.active_tab as int) {
            Some(v) => {
                if v.items@.len() > 0 {
                    Some(v.items@[v.spec_selected_index()->Some_0 as int])
                } else {
                    None
                }
            },
            None => None,
        }
    }

    /// Opens the selected entry's discussion: parses its id, remembers
    /// the correlation token, and emits the fetch; a non-numeric id only
    /// leaves a transient message.
    pub fn open_comments(&mut self)
        requires
            old(self).wf(),
        ensures
            final(self).wf(),
            State::rel_open_comments(*old(self), *final(self)),

    {
        let entry_id: String = match self.current_entry() {
            Some(entry) => entry.id.clone(),
            None => {
                return;
            },
        };
        let id: u64 = match parse_u64(entry_id.as_str()) {
            Ok(id) => id,
            Err(error) => {
                let text = "Could not load comments: ".to_owned().concat(
                    error.message().as_str(),
                );
                self.set_transient_message(text);
                return;
            },
        };
        if !self.help.is_visible() {
            self.message = LOADING_COMMENTS_STATUS.to_owned();
        }
        let comment_link = "https://news.ycombinator.com/item?id=".to_owned().concat(
            entry_id.as_str(),
        );
        let request_id = self.next_request_id;
        self.next_request_id = if request_id == u64::MAX {
            0
        } else {
            request_id + 1
        };
        self.pending_comment = Some(PendingComment { comment_link, request_id });
        self.pending_effects.push(Effect::FetchComments { item_id: id, request_id });
    }

    /// Emits an effect opening the selected comment's page, or the
    /// discussion's own link; outside tree mode nothing happens.
    pub fn open_comment_link(&mut self)
        requires
            old(self).wf(),
        ensures
            final(self).wf(),
            State::rel_open_comment_link(*old(self), *final(self)),

    {
        let url: Option<String> = match &self.mode {
            Mode::Comments(view) => {
                match view.selected_comment_link() {
                    Some(u) => Some(u),
                    None => Some(view.link().to_owned()),
                }
            },
            _ => None,
        };
        match url {
            Some(u) => {
                self.pending_effects.push(Effect::OpenUrl { url: u });
                proof {
                    assert(self.pending_effects@.take(old(self).pending_effects@.len() as int)
                        =~= old(self).pending_effects@);
                }
            },
            None => {},
        }
    }

    /// Emits an effect opening the selected entry's link in the browser.
    pub fn open_current_in_browser(&mut self)
        requires
            old(self).wf(),
        ensures
            final(self).wf(),
            State::rel_open_in_browser(*old(self), *final(self)),

    {
        let url: Option<String> = match self.current_entry() {
            Some(entry) => Some(entry.resolved_url()),
            None => None,
        };
        match url {
            Some(u) => {
                self.pending_effects.push(Effect::OpenUrl { url: u });
                proof {
                    assert(self.pending_effects@.take(old(self).pending_effects@.len() as int)
                        =~= old(self).pending_effects@);
                }
            },
            None => {},
        }
    }

    /// Leaves tree mode, bringing the active tab's list back.
    pub fn close_comments(&mut self)
        requires
            old(self).wf(),
        ensures
            final(self).wf(),
            State::rel_close_comments(*old(self), *final(self)),

    {
        self.restore_active_list_view();
        if !self.help.is_visible() {
            self.message = LIST_STATUS.to_owned();
        }
    }

    /// Submits the typed query: swaps to a cleared search tab, remembers
    /// the correlation token and emits the search; a blank query only
    /// restores the status line.
    pub fn submit_search(&mut self)
        requires
            old(self).wf(),
        ensures
            final(self).wf(),
            State::rel_submit_search(*old(self), *final(self)),

    {
        let input = match self.search_input.take() {
            Some(input) => input,
            None => {
                return;
            },
        };
        let buffer_chars = crate::text::chars_of(input.buffer.as_str());
        let trimmed = crate::text::trim_ws(&buffer_chars);
        if trimmed.len() == 0 {
            self.message = input.message_backup;
            return;
        }
        let query = crate::text::string_of(&trimmed);
        let in_comments = match &self.mode {
            Mode::Comments(_) => true,
            _ => false,
        };
        if in_comments {
            self.restore_active_list_view();
        }
        let tab_index = self.ensure_search_tab();
        self.store_active_list_view();
        self.active_tab = tab_index;
        self.restore_active_list_view();
        self.put_view_at(tab_index, ListView::new(Vec::new()));
        let mut tab = Tab {
            category: self.tabs[tab_index].category,
            has_more: false,
            label: self.tabs[tab_index].label,
        };
        self.tabs.set(tab_index, tab);
        let request_id = self.next_request_id;
        self.next_request_id = if request_id == u64::MAX {
            0
        } else {
            request_id + 1
        };
        self.tab_loading.set(tab_index, true);
        self.pending_search = Some(
            PendingSearch { query: query.clone(), request_id, tab_index },
        );
        self.message = "Searching for \"".to_owned().concat(
            truncate(query.as_str(), 40).as_str(),
        ).concat("\"...");
        self.pending_effects.push(Effect::FetchSearchResults { query, request_id });
    }


    /// Drops the bookmarks tab once the last bookmark is gone, shifting
    /// the stored indices and the active tab down past it.
    fn remove_bookmarks_tab(&mut self)
        requires
            old(self).wf(),
        ensures
            final(self).wf(),
            old(self).bookmarks_tab_index is None ==> *final(self) == *old(self),
            old(self).bookmarks_tab_index matches Some(idx) ==> {
                &&& *final(self) == (State {
                    mode: final(self).mode,
                    tab_views: final(self).tab_views,
                    tabs: final(self).tabs,
                    tab_loading: final(self).tab_loading,
                    pending_selections: final(self).pending_selections,
                    active_tab: final(self).active_tab,
                    bookmarks_tab_index: final(self).bookmarks_tab_index,
                    search_tab_index: final(self).search_tab_index,
                    ..*old(self)
                })
                &&& final(self).bookmarks_tab_index is None
                &&& final(self).tabs@ == old(self).tabs@.remove(idx as int)
                &&& final(self).tab_loading@ == old(self).tab_loading@.remove(idx as int)
                &&& final(self).pending_selections@ == old(self).pending_selections@.remove(
                    idx as int,
                )
                &&& final(self).search_tab_index == (match old(self).search_tab_index {
                    Some(si) => if si == idx {
                        Option::<usize>::None
                    } else if si > idx {
                        Some((si - 1) as usize)
                    } else {
                        Some(si)
                    },
                    None => Option::<usize>::None,
                })
                &&& ({
                    let n0 = old(self).tabs@.len() as int;
                    let newlen = n0 - 1;
                    let a0 = old(self).active_tab as int;
                    let a_mid = if a0 > idx {
                        a0 - 1
                    } else {
                        a0
                    };
                    &&& final(self).active_tab as int == (if newlen == 0 {
                        a_mid
                    } else if a_mid < newlen {
                        a_mid
                    } else {
                        newlen - 1
                    })
                    &&& (newlen > 0 ==> final(self).mode is List && final(self).spec_list_view(
                        final(self).active_tab as int,
                    ) is Some)
                    &&& (forall|j: int|
                        0 <= j < newlen && j != final(self).active_tab as int ==> final(self).spec_list_view(j) == old(self).spec_list_view(
                            if j < idx {
                                j
                            } else {
                                j + 1
                            },
                        ))
                    &&& ((newlen > 0 && a0 == idx) ==> ({
                        let jo = if final(self).active_tab < idx {
                            final(self).active_tab as int
                        } else {
                            final(self).active_tab + 1
                        };
                        match old(self).tab_views@[jo] {
                            Some(v) => final(self).spec_list_view(
                                final(self).active_tab as int,
                            ) == Some(v),
                            None => final(self).spec_list_view(
                                final(self).active_tab as int,
                            )->Some_0.items@.len() == 0,
                        }
                    }))
                    &&& ((newlen > 0 && a0 != idx && a0 < n0) ==> ({
                        &&& final(self).active_tab as int == a_mid
                        &&& ((old(self).mode is List && old(self).tab_views@[a0] is None)
                            ==> final(self).spec_list_view(a_mid) == Some(
                            old(self).mode->List_0,
                        ))
                        &&& ((old(self).mode is List && old(self).tab_views@[a0] is Some)
                            ==> final(self).spec_list_view(a_mid) == old(self).tab_views@[a0])
                        &&& (!(old(self).mode is List) ==> (match old(self).tab_views@[a0] {
                            Some(v) => final(self).spec_list_view(a_mid) == Some(v),
                            None => final(self).spec_list_view(a_mid)->Some_0.items@.len()
                                == 0,
                        }))
                    }))
                })
            },
    {
        let idx = match self.bookmarks_tab_index.take() {
            Some(idx) => idx,
            None => {
                return;
            },
        };
        if self.active_tab == idx {
            self.mode = Mode::List(ListView::new(Vec::new()));
        } else if self.active_tab > idx {
            self.active_tab = self.active_tab - 1;
        }
        match self.search_tab_index {
            Some(search_index) => {
                if search_index == idx {
                    self.search_tab_index = None;
                } else if search_index > idx {
                    self.search_tab_index = Some(search_index - 1);
                }
            },
            None => {},
        }
        self.tabs.remove(idx);
        self.tab_views.remove(idx);
        self.tab_loading.remove(idx);
        self.pending_selections.remove(idx);
        proof {
            assert(self.tabs@ =~= old(self).tabs@.remove(idx as int));
            assert(self.tab_views@ =~= old(self).tab_views@.remove(idx as int));
            assert(self.tab_loading@ =~= old(self).tab_loading@.remove(idx as int));
            assert(self.pending_selections@ =~= old(self).pending_selections@.remove(idx as int));
        }
        let ghost n0 = old(self).tabs@.len() as int;
        let ghost newlen = n0 - 1;
        let ghost a0 = old(self).active_tab as int;
        let ghost a_mid: int = if a0 > idx {
            a0 - 1
        } else {
            a0
        };
        if self.tabs.len() > 0 {
            if self.active_tab >= self.tabs.len() {
                self.active_tab = self.tabs.len() - 1;
            }
            let ghost s_cl = *self;
            self.restore_active_list_view();
            proof {
                assert forall|j: int|
                    0 <= j < newlen && j != self.active_tab as int implies self.spec_list_view(j)
                    == old(self).spec_list_view(
                    if j < idx {
                        j
                    } else {
                        j + 1
                    },
                ) by {
                    let jo: int = if j < idx {
                        j
                    } else {
                        j + 1
                    };
                    assert(s_cl.tab_views@[j] == old(self).tab_views@.remove(idx as int)[j]);
                    assert(old(self).tab_views@.remove(idx as int)[j] == old(self).tab_views@[jo]);
                    assert(self.tab_views@[j] == s_cl.tab_views@[j]);
                    if old(self).mode is List && jo == a0 && a0 < n0 {
                        assert(j == a_mid);
                        assert(false);
                    }
                }
                if a0 == idx {
                    let jo: int = if (self.active_tab as int) < idx as int {
                        self.active_tab as int
                    } else {
                        self.active_tab + 1
                    };
                    assert(s_cl.tab_views@[self.active_tab as int] == old(self).tab_views@[jo]);
                    match old(self).tab_views@[jo] {
                        Some(v) => {
                            assert(self.spec_list_view(self.active_tab as int) == Some(v));
                        },
                        None => {
                            assert(self.spec_list_view(
                                self.active_tab as int,
                            )->Some_0.items@.len() == 0);
                        },
                    }
                } else if a0 < n0 {
                    assert(self.active_tab as int == a_mid);
                    assert(s_cl.tab_views@[a_mid] == old(self).tab_views@[a0]);
                    if old(self).mode is List {
                        assert(s_cl.mode == old(self).mode);
                        match old(self).tab_views@[a0] {
                            Some(v) => {
                                assert(self.spec_list_view(a_mid) == Some(v));
                            },
                            None => {
                                assert(self.spec_list_view(a_mid) == Some(
                                    old(self).mode->List_0,
                                ));
                            },
                        }
                    } else {
                        match old(self).tab_views@[a0] {
                            Some(v) => {
                                assert(self.spec_list_view(a_mid) == Some(v));
                            },
                            None => {
                                assert(self.spec_list_view(a_mid)->Some_0.items@.len() == 0);
                            },
                        }
                    }
                }
            }
        }
    }

    /// Keeps the bookmarks tab in step with the saved entries: created
    /// and refreshed while any exist, removed when none are left.
    fn sync_bookmarks_tab(&mut self)
        requires
            old(self).wf(),
        ensures
            final(self).wf(),
            old(self).bookmarks.rows().len() == 0 ==> final(self).bookmarks_tab_index is None,
            old(self).bookmarks.rows().len() > 0 ==> (final(self).bookmarks_tab_index matches Some(
                i,
            ) && i < final(self).tabs@.len() && (final(self).spec_list_view(i as int) matches Some(
                v,
            ) && v.items@ == old(self).bookmarks.rows())),
            final(self).bookmarks == old(self).bookmarks,
            final(self).pending_comment == old(self).pending_comment,
            final(self).pending_search == old(self).pending_search,
            final(self).pending_effects == old(self).pending_effects,
            final(self).message == old(self).message,
            final(self).transient_message == old(self).transient_message,
            final(self).help == old(self).help,
            final(self).next_request_id == old(self).next_request_id,
            final(self).search_input == old(self).search_input,
            final(self).clock_ms == old(self).clock_ms,
            final(self).list_height == old(self).list_height,
    {
        if self.bookmarks.is_empty() {
            self.remove_bookmarks_tab();
        } else {
            let index = self.ensure_bookmarks_tab();
            self.refresh_bookmarks_view(index);
        }
    }

    /// The transient confirmation for a bookmark toggle.
    pub open spec fn spec_bookmark_message(added: bool, title: Seq<char>) -> Seq<char> {
        if added {
            "Bookmarked \""@ + spec_truncate(title, 40) + "\""@
        } else {
            "Removed bookmark for \""@ + spec_truncate(title, 40) + "\""@
        }
    }

    fn announce_bookmark(&mut self, added: bool, title: &String)
        ensures
            *final(self) == (State {
                message: final(self).message,
                transient_message: final(self).transient_message,
                ..*old(self)
            }),
            old(self).help.visible ==> *final(self) == *old(self),
            !old(self).help.visible ==> final(self).message@ == State::spec_bookmark_message(
                added,
                title@,
            ) && final(self).transient_message is Some,
    {
        if !self.help.is_visible() {
            let t = truncate(title.as_str(), 40);
            let text: String = if added {
                "Bookmarked \"".to_owned().concat(t.as_str()).concat("\"")
            } else {
                "Removed bookmark for \"".to_owned().concat(t.as_str()).concat("\"")
            };
            self.set_transient_message(text);
        }
    }

    /// Toggles a bookmark for whatever is selected in the active mode.
    pub fn toggle_bookmark(&mut self)
        requires
            old(self).wf(),
        ensures
            final(self).wf(),
            old(self).mode is List ==> State::rel_toggle_list_bookmark(*old(self), *final(self)),
            old(self).mode is Comments ==> State::rel_toggle_comment_bookmark(
                *old(self),
                *final(self),
            ),
    {
        let in_list = match &self.mode {
            Mode::List(_) => true,
            _ => false,
        };
        if in_list {
            self.toggle_list_bookmark();
        } else {
            self.toggle_comment_bookmark();
        }
    }

    /// What toggling a bookmark does to the saved rows, the bookmarks
    /// tab, the status line and the save effect.
    pub open spec fn rel_bookmark_applied(pre: State, post: State, entry: ListEntry) -> bool {
        let added = !crate::bookmark::spec_has_id(pre.bookmarks.rows(), entry.id@);
        &&& (added ==> post.bookmarks.rows() == seq![entry] + pre.bookmarks.rows())
        &&& (!added ==> post.bookmarks.rows().len() + 1 == pre.bookmarks.rows().len())
        &&& (post.bookmarks.rows().len() == 0 ==> post.bookmarks_tab_index is None)
        &&& (post.bookmarks.rows().len() > 0 ==> post.bookmarks_tab_index is Some)
        &&& post.pending_effects@.len() == pre.pending_effects@.len() + 1
        &&& (post.pending_effects@.last() matches Effect::SaveBookmarks { entries } && entries@
            == post.bookmarks.rows())
        &&& post.pending_effects@.take(pre.pending_effects@.len() as int) == pre.pending_effects@
        &&& (pre.help.visible ==> post.message == pre.message)
        &&& (!pre.help.visible ==> post.message@ == State::spec_bookmark_message(
            added,
            entry.title@,
        ))
        &&& post.pending_comment == pre.pending_comment
        &&& post.pending_search == pre.pending_search
        &&& post.next_request_id == pre.next_request_id
        &&& post.search_input == pre.search_input
        &&& post.help == pre.help
    }

    /// Toggling from list mode works on the selected list row.
    pub open spec fn rel_toggle_list_bookmark(pre: State, post: State) -> bool {
        match pre.spec_current_entry() {
            Some(e) => State::rel_bookmark_applied(pre, post, e),
            None => post == pre,
        }
    }

    /// Toggling from tree mode works on the selected comment, normalised
    /// into a bookmarkable row.
    pub open spec fn rel_toggle_comment_bookmark(pre: State, post: State) -> bool {
        match pre.mode {
            Mode::Comments(view) => match view.selected {
                Some(s) => (exists|e: ListEntry|
                    e.id@ == crate::text::spec_decimal(view.entries@[s as int].id as int)
                        && e.title@ == "Comment by "@ + (match view.entries@[s as int].author {
                        Some(a) => a@,
                        None => "unknown"@,
                    }) && #[trigger] State::rel_bookmark_applied(pre, post, e)),
                None => post == pre,
            },
            _ => post == pre,
        }
    }

    fn apply_bookmark_toggle(&mut self, entry: &ListEntry)
        requires
            old(self).wf(),
        ensures
            final(self).wf(),
            State::rel_bookmark_applied(*old(self), *final(self), *entry),
    {
        let added = self.bookmarks.toggle(entry);
        self.sync_bookmarks_tab();
        let saved = self.bookmarks.entries_vec();
        self.pending_effects.push(Effect::SaveBookmarks { entries: saved });
        proof {
            assert(self.pending_effects@.take(old(self).pending_effects@.len() as int) =~= old(self).pending_effects@);
        }
        self.announce_bookmark(added, &entry.title);
    }

    fn toggle_list_bookmark(&mut self)
        requires
            old(self).wf(),
        ensures
            final(self).wf(),
            State::rel_toggle_list_bookmark(*old(self), *final(self)),
    {
        let entry: ListEntry = match self.current_entry() {
            Some(entry) => entry.clone(),
            None => {
                return;
            },
        };
        proof {
            assert(entry.id@ == old(self).spec_current_entry()->Some_0.id@);
            assert(entry.title@ == old(self).spec_current_entry()->Some_0.title@);
        }
        self.apply_bookmark_toggle(&entry);
    }

    fn toggle_comment_bookmark(&mut self)
        requires
            old(self).wf(),
        ensures
            final(self).wf(),
            old(self).mode is Comments ==> State::rel_toggle_comment_bookmark(
                *old(self),
                *final(self),
            ),
            !(old(self).mode is Comments) ==> *final(self) == *old(self),
    {
        let entry: Option<ListEntry> = match &self.mode {
            Mode::Comments(view) => {
                match view.selected_entry() {
                    Some(selected) => Some(selected.to_bookmark_entry()),
                    None => None,
                }
            },
            _ => None,
        };
        match entry {
            Some(e) => {
                self.apply_bookmark_toggle(&e);
                proof {
                    let view = old(self).mode->Comments_0;
                    let s = view.selected->Some_0;
                    assert(State::rel_bookmark_applied(*old(self), *final(self), e));
                }
            },
            None => {},
        }
    }


    pub open spec fn rel_open_comments(pre: State, post: State) -> bool {
        &&& (pre.spec_current_entry() is None ==> post == pre)
        &&& (pre.spec_current_entry() matches Some(e) ==> (match crate::text::spec_parse_u64(
                e.id@,
            ) {
                Err(err) => {
                    &&& post == (State {
                        message: post.message,
                        transient_message: post.transient_message,
                        ..pre
                    })
                    &&& post.message@ == "Could not load comments: "@ + err.spec_message()
                    &&& post.transient_message is Some
                },
                Ok(id) => {
                    &&& post == (State {
                        message: post.message,
                        next_request_id: post.next_request_id,
                        pending_comment: post.pending_comment,
                        pending_effects: post.pending_effects,
                        ..pre
                    })
                    &&& post.message@ == (if pre.help.visible {
                        pre.message@
                    } else {
                        LOADING_COMMENTS_STATUS@
                    })
                    &&& post.next_request_id == State::spec_next_id(
                        pre.next_request_id,
                    )
                    &&& (post.pending_comment matches Some(p) && p.request_id == pre.next_request_id && p.comment_link@ == crate::entry::spec_item_page(e.id@))
                    &&& post.pending_effects@ == pre.pending_effects@.push(
                        Effect::FetchComments {
                            item_id: id,
                            request_id: pre.next_request_id,
                        },
                    )
                },
            }))
    }

    pub open spec fn rel_submit_search(pre: State, post: State) -> bool {
        &&& (pre.search_input is None ==> post == pre)
        &&& (pre.search_input matches Some(input) ==> ({
                let trimmed = crate::text::spec_trim_ws(input.buffer@);
                if trimmed.len() == 0 {
                    &&& post == (State {
                        message: post.message,
                        search_input: post.search_input,
                        ..pre
                    })
                    &&& post.search_input is None
                    &&& post.message == input.message_backup
                } else {
                    &&& post.search_input is None
                    &&& (post.pending_search matches Some(p) && p.query@ == trimmed
                        && p.request_id == pre.next_request_id && p.tab_index == (match pre.search_tab_index {
                        Some(i) => i as int,
                        None => pre.tabs@.len() as int,
                    }))
                    &&& post.next_request_id == State::spec_next_id(
                        pre.next_request_id,
                    )
                    &&& post.pending_effects@ == pre.pending_effects@.push(
                        Effect::FetchSearchResults {
                            query: post.pending_search->Some_0.query,
                            request_id: pre.next_request_id,
                        },
                    )
                    &&& post.message@ == "Searching for \""@ + spec_truncate(trimmed, 40)
                        + "\"..."@
                    &&& post.active_tab as int
                        == post.pending_search->Some_0.tab_index
                    &&& post.active_tab < post.tabs@.len()
                    &&& !post.tabs@[post.active_tab as int].has_more
                    &&& post.tab_loading@[post.active_tab as int]
                    &&& (post.mode is List && post.mode->List_0.items@.len() == 0)
                    &&& post.bookmarks == pre.bookmarks
                    &&& post.pending_comment == pre.pending_comment
                    &&& post.help == pre.help
                    &&& post.transient_message == pre.transient_message
                }
            }))
    }

    pub open spec fn rel_open_comment_link(pre: State, post: State) -> bool {
        &&& (!(pre.mode is Comments) ==> post == pre)
        &&& (pre.mode is Comments ==> {
                let view = pre.mode->Comments_0;
                &&& post == (State {
                    pending_effects: post.pending_effects,
                    ..pre
                })
                &&& post.pending_effects@.len() == pre.pending_effects@.len() + 1
                &&& (post.pending_effects@.last() matches Effect::OpenUrl { url } && url@
                    == (match view.selected {
                    Some(s) => crate::comment::spec_permalink(view.entries@[s as int].id),
                    None => view.link@,
                }))
                &&& post.pending_effects@.take(pre.pending_effects@.len() as int)
                    == pre.pending_effects@
            })
    }

    pub open spec fn rel_open_in_browser(pre: State, post: State) -> bool {
        &&& (pre.spec_current_entry() is None ==> post == pre)
        &&& (pre.spec_current_entry() matches Some(e) ==> {
                &&& post == (State {
                    pending_effects: post.pending_effects,
                    ..pre
                })
                &&& post.pending_effects@.len() == pre.pending_effects@.len() + 1
                &&& (post.pending_effects@.last() matches Effect::OpenUrl { url } && url@
                    == (if e.url matches Some(u) && u@.len() > 0 {
                    e.url->Some_0@
                } else {
                    crate::entry::spec_item_page(e.id@)
                }))
                &&& post.pending_effects@.take(pre.pending_effects@.len() as int)
                    == pre.pending_effects@
            })
    }

    pub open spec fn rel_close_comments(pre: State, post: State) -> bool {
        &&& (post == (State {
                mode: post.mode,
                tab_views: post.tab_views,
                message: post.message,
                ..pre
            }))
        &&& (post.mode is List)
        &&& (post.message@ == (if pre.help.visible {
                pre.message@
            } else {
                LIST_STATUS@
            }))
    }

    pub open spec fn rel_start_search(pre: State, post: State) -> bool {
        &&& (pre.search_input is Some ==> post == pre)
        &&& (pre.search_input is None ==> {
                &&& post == (State {
                    message: post.message,
                    search_input: post.search_input,
                    ..pre
                })
                &&& (post.search_input matches Some(input) && input.buffer@
                    == Seq::<char>::empty() && input.message_backup@ == pre.message@)
                &&& post.message@ == spec_truncate("Search: "@, 80)
            })
    }

    pub open spec fn rel_cancel_search(pre: State, post: State) -> bool {
        &&& (pre.search_input is None ==> post == pre)
        &&& (pre.search_input matches Some(input) ==> {
                &&& post == (State {
                    message: post.message,
                    search_input: post.search_input,
                    ..pre
                })
                &&& post.search_input is None
                &&& post.message == input.message_backup
            })
    }

    pub open spec fn rel_switch_left(pre: State, post: State) -> bool {
        &&& (post == (State {
                mode: post.mode,
                tab_views: post.tab_views,
                active_tab: post.active_tab,
                ..pre
            }))
        &&& (pre.tabs@.len() == 0 ==> post == pre)
        &&& (pre.tabs@.len() > 0 ==> (post.active_tab as int == (
            if pre.active_tab as int % (pre.tabs@.len() as int) == 0 {
                pre.tabs@.len() - 1
            } else {
                pre.active_tab as int % (pre.tabs@.len() as int) - 1
            }) && State::rel_tab_swap(pre, post, post.active_tab as int)))
    }

    pub open spec fn rel_switch_right(pre: State, post: State) -> bool {
        &&& (post == (State {
                mode: post.mode,
                tab_views: post.tab_views,
                active_tab: post.active_tab,
                ..pre
            }))
        &&& (pre.tabs@.len() == 0 ==> post == pre)
        &&& (pre.tabs@.len() > 0 ==> (post.active_tab as int == (pre.active_tab + 1) % (pre.tabs@.len() as int) && State::rel_tab_swap(pre, post, post.active_tab as int)))
    }


    /// Builds the startup state: one slot per given tab, the first tab's
    /// view active, and a bookmarks tab when any bookmarks were loaded.
    pub fn new(tabs: Vec<(Tab, ListView<ListEntry>)>, bookmarks: Bookmarks) -> (r: State)
        requires
            forall|i: int| 0 <= i < tabs@.len() ==> (#[trigger] tabs@[i].1).wf(),
        ensures
            r.wf(),
            r.active_tab == 0,
            r.message@ == LIST_STATUS@,
            !r.help.visible,
            r.pending_comment is None,
            r.pending_search is None,
            r.pending_effects@.len() == 0,
            r.search_input is None,
            r.next_request_id == 0,
            r.transient_message is None,
            r.bookmarks == bookmarks,
            r.mode is List,
            tabs@.len() > 0 ==> r.mode->List_0 == tabs@[0].1,
            (tabs@.len() == 0 && bookmarks.rows().len() == 0) ==> r.mode->List_0.items@.len()
                == 0,
            bookmarks.rows().len() == 0 ==> {
                &&& r.tabs@.len() == tabs@.len()
                &&& (forall|i: int| 0 <= i < tabs@.len() ==> r.tabs@[i] == (#[trigger] tabs@[i]).0)
                &&& r.bookmarks_tab_index is None
                &&& (forall|i: int|
                    0 <= i < tabs@.len() ==> r.spec_list_view(i) == Some((#[trigger] tabs@[i]).1))
            },
            bookmarks.rows().len() > 0 ==> {
                &&& r.tabs@.len() == tabs@.len() + 1
                &&& (forall|i: int| 0 <= i < tabs@.len() ==> r.tabs@[i] == (#[trigger] tabs@[i]).0)
                &&& r.bookmarks_tab_index == Some(tabs@.len() as usize)
                &&& (forall|i: int|
                    0 <= i < tabs@.len() ==> r.spec_list_view(i) == Some((#[trigger] tabs@[i]).1))
                &&& (r.spec_list_view(tabs@.len() as int) matches Some(v) && v.items@
                    == bookmarks.rows())
            },
            forall|i: int| 0 <= i < r.tab_loading@.len() ==> !(#[trigger] r.tab_loading@[i]),
            forall|i: int|
                0 <= i < r.pending_selections@.len() ==> (#[trigger] r.pending_selections@[i])
                    is None,
    {
        let mut rest = tabs;
        let ghost given = rest@;
        let mut tab_meta: Vec<Tab> = Vec::new();
        let mut tab_views: Vec<Option<ListView<ListEntry>>> = Vec::new();
        let mut tab_loading: Vec<bool> = Vec::new();
        let mut pending_selections: Vec<Option<usize>> = Vec::new();
        while rest.len() > 0
            invariant
                tab_meta@.len() + rest@.len() == given.len(),
                tab_views@.len() == tab_meta@.len(),
                tab_loading@.len() == tab_meta@.len(),
                pending_selections@.len() == tab_meta@.len(),
                rest@ == given.skip(tab_meta@.len() as int),
                forall|i: int| 0 <= i < given.len() ==> (#[trigger] given[i].1).wf(),
                forall|i: int|
                    0 <= i < tab_meta@.len() ==> #[trigger] tab_meta@[i] == given[i].0,
                forall|i: int|
                    0 <= i < tab_views@.len() ==> #[trigger] tab_views@[i] == Some(given[i].1),
                forall|i: int| 0 <= i < tab_loading@.len() ==> !(#[trigger] tab_loading@[i]),
                forall|i: int|
                    0 <= i < pending_selections@.len() ==> (#[trigger] pending_selections@[i])
                        is None,
            decreases rest@.len(),
        {
            let ghost m = tab_meta@.len() as int;
            let (tab, view) = rest.remove(0);
            proof {
                assert(given.skip(m)[0] == given[m]);
                assert(given.skip(m).skip(1) =~= given.skip(m + 1));
            }
            tab_meta.push(tab);
            tab_views.push(Some(view));
            tab_loading.push(false);
            pending_selections.push(None);
        }
        let initial_view: ListView<ListEntry> = if tab_views.len() > 0 {
            let slot = slot_mut(&mut tab_views, 0);
            match slot.take() {
                Some(view) => view,
                None => ListView::new(Vec::new()),
            }
        } else {
            ListView::new(Vec::new())
        };
        let has_bookmarks = !bookmarks.is_empty();
        let mut state = State {
            active_tab: 0,
            bookmarks,
            bookmarks_tab_index: None,
            clock_ms: 0,
            help: HelpView::new(),
            list_height: 0,
            message: LIST_STATUS.to_owned(),
            mode: Mode::List(initial_view),
            next_request_id: 0,
            pending_comment: None,
            pending_effects: Vec::new(),
            pending_search: None,
            pending_selections,
            search_input: None,
            search_tab_index: None,
            tab_loading,
            tab_views,
            tabs: tab_meta,
            transient_message: None,
        };
        if has_bookmarks {
            let ghost pre = state;
            let index = state.ensure_bookmarks_tab();
            let ghost mid = state;
            state.refresh_bookmarks_view(index);
            proof {
                assert(index == given.len());
                assert forall|i: int| 0 <= i < given.len() implies state.tabs@[i] == given[i].0 by {
                    assert(mid.tabs@.take(index as int)[i] == mid.tabs@[i]);
                    assert(pre.tabs@[i] == given[i].0);
                }
                assert forall|i: int|
                    0 <= i < given.len() implies state.spec_list_view(i) == Some(
                    given[i].1,
                ) by {
                    assert(mid.tab_views@.take(index as int)[i] == mid.tab_views@[i]);
                    assert(pre.spec_list_view(i) == Some(given[i].1));
                    assert(mid.spec_list_view(i) == pre.spec_list_view(i));
                    assert(state.spec_list_view(i) == mid.spec_list_view(i));
                }
            }
        }
        state
    }

    fn apply_tab_items(&mut self, t: usize, entries: Vec<ListEntry>, target: Option<usize>)
        requires
            old(self).wf(),
            t < old(self).tabs@.len(),
        ensures
            final(self).wf(),
            *final(self) == (State {
                mode: final(self).mode,
                tab_views: final(self).tab_views,
                ..*old(self)
            }),
            forall|j: int|
                0 <= j < old(self).tabs@.len() && j != t ==> final(self).spec_list_view(j) == old(self).spec_list_view(j),
            old(self).spec_list_view(t as int) is None ==> final(self).mode == old(self).mode
                && final(self).tab_views == old(self).tab_views,
            old(self).spec_list_view(t as int) matches Some(v) ==> (final(self).spec_list_view(
                t as int,
            ) matches Some(v2) && v2.items@ == v.items@ + entries@ && v2.offset == v.offset
                && v2.selected as int == ({
                let newlen = v.items@.len() + entries@.len();
                match target {
                    Some(tt) => {
                        if tt < newlen {
                            tt as int
                        } else if newlen > 0 {
                            newlen - 1
                        } else {
                            v.selected as int
                        }
                    },
                    None => v.selected as int,
                }
            })),
    {
        let present = match self.list_view(t) {
            Some(_) => true,
            None => false,
        };
        if !present {
            return;
        }
        let in_mode = match &self.mode {
            Mode::List(_) => t == self.active_tab,
            _ => false,
        };
        if in_mode {
            match &mut self.mode {
                Mode::List(view) => {
                    view.extend(entries);
                    match target {
                        Some(tt) => {
                            if tt < view.len() {
                                view.set_selected(tt);
                            } else if view.len() > 0 {
                                let last = view.len() - 1;
                                view.set_selected(last);
                            }
                        },
                        None => {},
                    }
                },
                _ => {},
            }
        } else {
            let slot = slot_mut(&mut self.tab_views, t);
            match slot {
                Some(view) => {
                    view.extend(entries);
                    match target {
                        Some(tt) => {
                            if tt < view.len() {
                                view.set_selected(tt);
                            } else if view.len() > 0 {
                                let last = view.len() - 1;
                                view.set_selected(last);
                            }
                        },
                        None => {},
                    }
                },
                None => {
                    proof {
                        assert(false);
                    }
                },
            }
        }
    }

    /// Applies one asynchronous result.  A stale or unknown correlation
    /// id leaves the state exactly as it was; a matching one consumes the
    /// pending token, so a duplicate delivery can never match twice.
    #[verifier::rlimit(100)]
    #[verifier::spinoff_prover]
    fn handle_tab_items(&mut self, tab_index: usize, result: Result<Vec<ListEntry>, String>)
        requires
            old(self).wf(),
        ensures
            final(self).wf(),
            ({

                let t = tab_index as int;
                if t >= old(self).tabs@.len() {
                    match result {
                        Ok(entries) => *final(self) == (State {
                            message: final(self).message,
                            ..*old(self)
                        }) && final(self).message@ == (if old(self).help.visible {
                            old(self).message@
                        } else {
                            LIST_STATUS@
                        }),
                        Err(e) => *final(self) == (State {
                            message: final(self).message,
                            transient_message: final(self).transient_message,
                            ..*old(self)
                        }) && (old(self).help.visible ==> *final(self) == *old(self)) && (!old(self).help.visible ==> final(self).message@ == "Could not load more entries: "@
                            + e@),
                    }
                } else {
                    &&& *final(self) == (State {
                        mode: final(self).mode,
                        tab_views: final(self).tab_views,
                        tabs: final(self).tabs,
                        tab_loading: final(self).tab_loading,
                        pending_selections: final(self).pending_selections,
                        message: final(self).message,
                        transient_message: final(self).transient_message,
                        ..*old(self)
                    })
                    &&& final(self).tab_loading@ == old(self).tab_loading@.update(t, false)
                    &&& final(self).pending_selections@ == old(self).pending_selections@.update(
                        t,
                        Option::<usize>::None,
                    )
                    &&& (match result {
                        Ok(entries) => {
                            &&& final(self).tabs@ == old(self).tabs@.update(
                                t,
                                Tab {
                                    has_more: entries@.len() >= INITIAL_BATCH_SIZE,
                                    ..old(self).tabs@[t]
                                },
                            )
                            &&& (old(self).spec_list_view(t) matches Some(v) ==> (final(self).spec_list_view(t) matches Some(v2) && v2.items@ == v.items@
                                + entries@ && v2.selected as int == ({
                                let newlen = v.items@.len() + entries@.len();
                                match old(self).pending_selections@[t] {
                                    Some(tt) => {
                                        if tt < newlen {
                                            tt as int
                                        } else if newlen > 0 {
                                            newlen - 1
                                        } else {
                                            v.selected as int
                                        }
                                    },
                                    None => v.selected as int,
                                }
                            })))
                            &&& (forall|j: int|
                                0 <= j < old(self).tabs@.len() && j != t ==> final(self).spec_list_view(j) == old(self).spec_list_view(j))
                            &&& final(self).message@ == (if old(self).help.visible {
                                old(self).message@
                            } else {
                                LIST_STATUS@
                            })
                            &&& final(self).pending_comment == old(self).pending_comment
                            &&& final(self).pending_search == old(self).pending_search
                            &&& final(self).pending_effects == old(self).pending_effects
                            &&& final(self).bookmarks == old(self).bookmarks
                        },
                        Err(e) => {
                            &&& final(self).mode == old(self).mode
                            &&& final(self).tab_views == old(self).tab_views
                            &&& final(self).tabs == old(self).tabs
                            &&& (old(self).help.visible ==> final(self).message == old(self).message && final(self).transient_message == old(self).transient_message)
                            &&& (!old(self).help.visible ==> final(self).message@
                                == "Could not load more entries: "@ + e@)
                            &&& final(self).pending_comment == old(self).pending_comment
                            &&& final(self).pending_search == old(self).pending_search
                            &&& final(self).pending_effects == old(self).pending_effects
                            &&& final(self).bookmarks == old(self).bookmarks
                        },
                    })
                }
                        }),
    {
        if tab_index < self.tab_loading.len() {
            self.tab_loading.set(tab_index, false);
        }
        let target: Option<usize> = if tab_index < self.pending_selections.len() {
            let t = self.pending_selections[tab_index];
            self.pending_selections.set(tab_index, None);
            t
        } else {
            None
        };
        match result {
            Ok(entries) => {
                if tab_index < self.tabs.len() {
                    let has_more = entries.len() >= INITIAL_BATCH_SIZE;
                    let updated = Tab {
                        category: self.tabs[tab_index].category,
                        has_more,
                        label: self.tabs[tab_index].label,
                    };
                    self.tabs.set(tab_index, updated);
                    let ghost mid = *self;
                    proof {
                        assert(mid.tabs@.len() == old(self).tabs@.len());
                        assert(mid.spec_list_view(tab_index as int) == old(self).spec_list_view(
                            tab_index as int,
                        ));
                        assert(forall|j: int|
                            0 <= j < mid.tabs@.len() ==> #[trigger] mid.spec_list_view(j) == old(self).spec_list_view(j));
                    }
                    self.apply_tab_items(tab_index, entries, target);
                    let ghost post_apply = *self;
                    if !self.help.is_visible() {
                        self.message = LIST_STATUS.to_owned();
                    }
                    proof {
                        assert forall|j: int|
                            0 <= j < old(self).tabs@.len() implies #[trigger] self.spec_list_view(
                            j,
                        ) == post_apply.spec_list_view(j) by {
                            assert(self.mode == post_apply.mode);
                            assert(self.tab_views == post_apply.tab_views);
                            assert(self.tabs == post_apply.tabs);
                            assert(self.active_tab == post_apply.active_tab);
                        }
                        assert forall|j: int|
                            0 <= j < old(self).tabs@.len() && j != tab_index
                                implies #[trigger] self.spec_list_view(j) == old(self).spec_list_view(j) by {
                            assert(post_apply.spec_list_view(j) == mid.spec_list_view(j));
                            assert(mid.spec_list_view(j) == old(self).spec_list_view(j));
                        }
                    }
                } else {
                    if !self.help.is_visible() {
                        self.message = LIST_STATUS.to_owned();
                    }
                }
            },
            Err(error) => {
                if !self.help.is_visible() {
                    let text = "Could not load more entries: ".to_owned().concat(
                        error.as_str(),
                    );
                    self.set_transient_message(text);
                }
            },
        }
    }

    #[verifier::rlimit(100)]
    #[verifier::spinoff_prover]
    pub fn handle_event(&mut self, event: Event)
        requires
            old(self).wf(),
        ensures
            final(self).wf(),
            event matches Event::TabItems { tab_index, result } ==> ({
                let t = tab_index as int;
                if t >= old(self).tabs@.len() {
                    match result {
                        Ok(entries) => *final(self) == (State {
                            message: final(self).message,
                            ..*old(self)
                        }) && final(self).message@ == (if old(self).help.visible {
                            old(self).message@
                        } else {
                            LIST_STATUS@
                        }),
                        Err(e) => *final(self) == (State {
                            message: final(self).message,
                            transient_message: final(self).transient_message,
                            ..*old(self)
                        }) && (old(self).help.visible ==> *final(self) == *old(self)) && (!old(self).help.visible ==> final(self).message@ == "Could not load more entries: "@
                            + e@),
                    }
                } else {
                    &&& *final(self) == (State {
                        mode: final(self).mode,
                        tab_views: final(self).tab_views,
                        tabs: final(self).tabs,
                        tab_loading: final(self).tab_loading,
                        pending_selections: final(self).pending_selections,
                        message: final(self).message,
                        transient_message: final(self).transient_message,
                        ..*old(self)
                    })
                    &&& final(self).tab_loading@ == old(self).tab_loading@.update(t, false)
                    &&& final(self).pending_selections@ == old(self).pending_selections@.update(
                        t,
                        Option::<usize>::None,
                    )
                    &&& (match result {
                        Ok(entries) => {
                            &&& final(self).tabs@ == old(self).tabs@.update(
                                t,
                                Tab {
                                    has_more: entries@.len() >= INITIAL_BATCH_SIZE,
                                    ..old(self).tabs@[t]
                                },
                            )
                            &&& (old(self).spec_list_view(t) matches Some(v) ==> (final(self).spec_list_view(t) matches Some(v2) && v2.items@ == v.items@
                                + entries@ && v2.selected as int == ({
                                let newlen = v.items@.len() + entries@.len();
                                match old(self).pending_selections@[t] {
                                    Some(tt) => {
                                        if tt < newlen {
                                            tt as int
                                        } else if newlen > 0 {
                                            newlen - 1
                                        } else {
                                            v.selected as int
                                        }
                                    },
                                    None => v.selected as int,
                                }
                            })))
                            &&& (forall|j: int|
                                0 <= j < old(self).tabs@.len() && j != t ==> final(self).spec_list_view(j) == old(self).spec_list_view(j))
                            &&& final(self).message@ == (if old(self).help.visible {
                                old(self).message@
                            } else {
                                LIST_STATUS@
                            })
                            &&& final(self).pending_comment == old(self).pending_comment
                            &&& final(self).pending_search == old(self).pending_search
                            &&& final(self).pending_effects == old(self).pending_effects
                            &&& final(self).bookmarks == old(self).bookmarks
                        },
                        Err(e) => {
                            &&& final(self).mode == old(self).mode
                            &&& final(self).tab_views == old(self).tab_views
                            &&& final(self).tabs == old(self).tabs
                            &&& (old(self).help.visible ==> final(self).message == old(self).message && final(self).transient_message == old(self).transient_message)
                            &&& (!old(self).help.visible ==> final(self).message@
                                == "Could not load more entries: "@ + e@)
                            &&& final(self).pending_comment == old(self).pending_comment
                            &&& final(self).pending_search == old(self).pending_search
                            &&& final(self).pending_effects == old(self).pending_effects
                            &&& final(self).bookmarks == old(self).bookmarks
                        },
                    })
                }
            }),
            event matches Event::SearchResults { request_id, result } ==> ({
                if old(self).pending_search is None || old(self).pending_search->Some_0.request_id != request_id {
                    *final(self) == *old(self)
                } else {
                    let p = old(self).pending_search->Some_0;
                    &&& final(self).pending_search is None
                    &&& *final(self) == (State {
                        mode: final(self).mode,
                        tab_views: final(self).tab_views,
                        tabs: final(self).tabs,
                        tab_loading: final(self).tab_loading,
                        message: final(self).message,
                        transient_message: final(self).transient_message,
                        pending_search: final(self).pending_search,
                        ..*old(self)
                    })
                    &&& (p.tab_index < old(self).tabs@.len() ==> final(self).tab_loading@ == old(self).tab_loading@.update(p.tab_index as int, false))
                    &&& (match result {
                        Ok(payload) => {
                            &&& (p.tab_index < old(self).tabs@.len() ==> final(self).tabs@ == old(self).tabs@.update(
                                p.tab_index as int,
                                Tab { has_more: payload.1, ..old(self).tabs@[p.tab_index as int] },
                            ))
                            &&& (p.tab_index < old(self).tabs@.len() ==> (final(self).spec_list_view(p.tab_index as int) matches Some(v2) && v2.items@
                                == payload.0@ && v2.selected == 0))
                            &&& (!old(self).help.visible ==> final(self).message@ == ({
                                let truncated = spec_truncate(p.query@, 40);
                                if payload.0@.len() == 0 {
                                    "No results for \""@ + truncated + "\""@
                                } else if payload.0@.len() == 1 {
                                    "Found 1 result for \""@ + truncated + "\""@
                                } else {
                                    "Found "@ + crate::text::spec_decimal(payload.0@.len() as int)
                                        + " results for \""@ + truncated + "\""@
                                }
                            }))
                            &&& (old(self).help.visible ==> final(self).message == old(self).message)
                            &&& final(self).pending_comment == old(self).pending_comment
                            &&& final(self).pending_effects == old(self).pending_effects
                            &&& final(self).bookmarks == old(self).bookmarks
                        },
                        Err(e) => {
                            &&& final(self).mode == old(self).mode
                            &&& final(self).tab_views == old(self).tab_views
                            &&& final(self).tabs == old(self).tabs
                            &&& (old(self).help.visible ==> final(self).message == old(self).message && final(self).transient_message == old(self).transient_message)
                            &&& (!old(self).help.visible ==> final(self).message@
                                == "Could not search: "@ + e@)
                            &&& final(self).pending_comment == old(self).pending_comment
                            &&& final(self).pending_effects == old(self).pending_effects
                            &&& final(self).bookmarks == old(self).bookmarks
                        },
                    })
                }
            }),
            event matches Event::Comments { request_id, result } ==> ({
                if old(self).pending_comment is None || old(self).pending_comment->Some_0.request_id != request_id {
                    *final(self) == *old(self)
                } else {
                    let p = old(self).pending_comment->Some_0;
                    &&& final(self).pending_comment is None
                    &&& (match result {
                        Ok(thread) => {
                            &&& *final(self) == (State {
                                mode: final(self).mode,
                                tab_views: final(self).tab_views,
                                message: final(self).message,
                                pending_comment: final(self).pending_comment,
                                ..*old(self)
                            })
                            &&& (final(self).mode matches Mode::Comments(view)
                                && crate::comment_view::built_from(thread, p.comment_link@, view))
                            &&& ((old(self).mode is List && old(self).active_tab < old(self).tabs@.len()) ==> final(self).tab_views@ == old(self).tab_views@.update(
                                old(self).active_tab as int,
                                Some(old(self).mode->List_0),
                            ))
                            &&& (!(old(self).mode is List && old(self).active_tab < old(self).tabs@.len()) ==> final(self).tab_views == old(self).tab_views)
                            &&& final(self).message@ == (if old(self).help.visible {
                                old(self).message@
                            } else {
                                COMMENTS_STATUS@
                            })
                        },
                        Err(e) => {
                            &&& *final(self) == (State {
                                message: final(self).message,
                                transient_message: final(self).transient_message,
                                pending_comment: final(self).pending_comment,
                                ..*old(self)
                            })
                            &&& (old(self).help.visible ==> final(self).message == old(self).message && final(self).transient_message == old(self).transient_message)
                            &&& (!old(self).help.visible ==> final(self).message@
                                == "Could not load comments: "@ + e@)
                        },
                    })
                }
            }),
    {
        match event {
            Event::TabItems { tab_index, result } => {
                self.handle_tab_items(tab_index, result);
            },
            Event::SearchResults { request_id, result } => {
                let matches_pending = match &self.pending_search {
                    Some(p) => p.request_id == request_id,
                    None => false,
                };
                if !matches_pending {
                    return;
                }
                let pending = match self.pending_search.take() {
                    Some(p) => p,
                    None => {
                        proof {
                            assert(false);
                        }
                        return;
                    },
                };
                if pending.tab_index < self.tab_loading.len() {
                    self.tab_loading.set(pending.tab_index, false);
                }
                match result {
                    Ok(payload) => {
                        let (entries, has_more) = payload;
                        let result_count = entries.len();
                        let view = ListView::new(entries);
                        if pending.tab_index < self.tabs.len() {
                            let updated = Tab {
                                category: self.tabs[pending.tab_index].category,
                                has_more,
                                label: self.tabs[pending.tab_index].label,
                            };
                            self.tabs.set(pending.tab_index, updated);
                            self.put_view_at(pending.tab_index, view);
                        }
                        if !self.help.is_visible() {
                            let truncated = truncate(pending.query.as_str(), 40);
                            let text: String = if result_count == 0 {
                                "No results for \"".to_owned().concat(truncated.as_str()).concat(
                                    "\"",
                                )
                            } else if result_count == 1 {
                                "Found 1 result for \"".to_owned().concat(
                                    truncated.as_str(),
                                ).concat("\"")
                            } else {
                                "Found ".to_owned().concat(
                                    u64_to_string(result_count as u64).as_str(),
                                ).concat(" results for \"").concat(truncated.as_str()).concat(
                                    "\"",
                                )
                            };
                            self.message = text;
                        }
                    },
                    Err(error) => {
                        if !self.help.is_visible() {
                            let text = "Could not search: ".to_owned().concat(error.as_str());
                            self.set_transient_message(text);
                        }
                    },
                }
            },
            Event::Comments { request_id, result } => {
                let matches_pending = match &self.pending_comment {
                    Some(p) => p.request_id == request_id,
                    None => false,
                };
                if !matches_pending {
                    return;
                }
                let pending = match self.pending_comment.take() {
                    Some(p) => p,
                    None => {
                        proof {
                            assert(false);
                        }
                        return;
                    },
                };
                match result {
                    Ok(thread) => {
                        let view = CommentView::new(thread, pending.comment_link);
                        self.store_active_list_view();
                        self.mode = Mode::Comments(view);
                        if !self.help.is_visible() {
                            self.message = COMMENTS_STATUS.to_owned();
                        }
                    },
                    Err(error) => {
                        if !self.help.is_visible() {
                            let text = "Could not load comments: ".to_owned().concat(
                                error.as_str(),
                            );
                            self.set_transient_message(text);
                        }
                    },
                }
            },
        }
    }

    /// Runs one command against the state.  A dispatch starts with no
    /// queued effects and hands back exactly the effects this command
    /// produced, together with whether the program should exit.
    pub fn dispatch_command(&mut self, command: Command) -> (r: CommandDispatch)
        requires
            old(self).wf(),
            old(self).pending_effects@.len() == 0,
        ensures
            final(self).wf(),
            final(self).pending_effects@.len() == 0,
            r.should_exit == (command is Quit),
            ({
                let mid = State { pending_effects: r.effects, ..*final(self) };
                &&& (command is Quit ==> mid == *old(self))
                &&& (command is Noop ==> mid == *old(self))
                &&& (command is ShowHelp ==> (r.effects@.len() == 0 && (if old(self).help.visible {
                    mid == *old(self)
                } else {
                    mid == (State {
                        help: mid.help,
                        message: mid.message,
                        ..*old(self)
                    }) && mid.help.visible && (mid.help.message_backup matches Some(b) && b@
                        == old(self).message@) && mid.message@ == crate::HELP_STATUS@
                })))
                &&& (command is HideHelp ==> (r.effects@.len() == 0 && (if !old(self).help.visible {
                    mid == *old(self)
                } else {
                    mid == (State {
                        help: mid.help,
                        message: mid.message,
                        ..*old(self)
                    }) && !mid.help.visible && mid.message@ == (match old(self).help.message_backup {
                        Some(b) => b@,
                        None => LIST_STATUS@,
                    })
                })))
                &&& (command is StartSearch ==> State::rel_start_search(*old(self), mid))
                &&& (command is CancelSearch ==> State::rel_cancel_search(*old(self), mid))
                &&& (command is SubmitSearch ==> State::rel_submit_search(*old(self), mid))
                &&& (command is SwitchTabLeft ==> State::rel_switch_left(*old(self), mid))
                &&& (command is SwitchTabRight ==> State::rel_switch_right(*old(self), mid))
                &&& (command is SelectNext ==> (if old(self).tabs@.len() == 0 {
                    mid == *old(self)
                } else {
                    State::rel_select(
                        *old(self),
                        mid,
                        if old(self).spec_current_raw() + 1 <= usize::MAX {
                            old(self).spec_current_raw() + 1
                        } else {
                            usize::MAX as int
                        },
                    )
                }))
                &&& (command is SelectPrevious ==> (if old(self).tabs@.len() == 0 {
                    mid == *old(self)
                } else {
                    State::rel_select(
                        *old(self),
                        mid,
                        if old(self).spec_current_raw() >= 1 {
                            old(self).spec_current_raw() - 1
                        } else {
                            0int
                        },
                    )
                }))
                &&& (command is PageDown ==> (if old(self).tabs@.len() == 0 {
                    mid == *old(self)
                } else {
                    State::rel_select(
                        *old(self),
                        mid,
                        if old(self).spec_current_raw() + old(self).spec_page_jump()
                            <= usize::MAX {
                            old(self).spec_current_raw() + old(self).spec_page_jump()
                        } else {
                            usize::MAX as int
                        },
                    )
                }))
                &&& (command is PageUp ==> (if old(self).tabs@.len() == 0 {
                    mid == *old(self)
                } else {
                    State::rel_select(
                        *old(self),
                        mid,
                        if old(self).spec_current_raw() >= old(self).spec_page_jump() {
                            old(self).spec_current_raw() - old(self).spec_page_jump()
                        } else {
                            0int
                        },
                    )
                }))
                &&& (command is SelectFirst ==> (if old(self).tabs@.len() == 0 {
                    mid == *old(self)
                } else {
                    State::rel_select(*old(self), mid, 0)
                }))
                &&& (command is OpenComments ==> State::rel_open_comments(*old(self), mid))
                &&& (command is OpenCurrentInBrowser ==> State::rel_open_in_browser(
                    *old(self),
                    mid,
                ))
                &&& (command is OpenCommentLink ==> State::rel_open_comment_link(*old(self), mid))
                &&& (command is CloseComments ==> State::rel_close_comments(*old(self), mid))
                &&& (command is ToggleBookmark ==> ((old(self).mode is List
                    ==> State::rel_toggle_list_bookmark(*old(self), mid)) && (old(self).mode is Comments ==> State::rel_toggle_comment_bookmark(*old(self), mid))))
            }),
    {
        let mut should_exit = false;
        match command {
            Command::Quit => {
                should_exit = true;
            },
            Command::ShowHelp => {
                let mut message = String::new();
                core::mem::swap(&mut message, &mut self.message);
                self.help.show(&mut message);
                core::mem::swap(&mut message, &mut self.message);
            },
            Command::HideHelp => {
                let mut message = String::new();
                core::mem::swap(&mut message, &mut self.message);
                self.help.dismiss(&mut message);
                core::mem::swap(&mut message, &mut self.message);
            },
            Command::StartSearch => self.start_search(),
            Command::CancelSearch => self.cancel_search(),
            Command::SubmitSearch => self.submit_search(),
            Command::SwitchTabLeft => self.switch_tab_left(),
            Command::SwitchTabRight => self.switch_tab_right(),
            Command::SelectNext => self.select_next(),
            Command::SelectPrevious => self.select_previous(),
            Command::PageDown => self.page_down(),
            Command::PageUp => self.page_up(),
            Command::SelectFirst => self.select_index(0),
            Command::OpenComments => self.open_comments(),
            Command::OpenCurrentInBrowser => self.open_current_in_browser(),
            Command::OpenCommentLink => self.open_comment_link(),
            Command::CloseComments => self.close_comments(),
            Command::ToggleBookmark => self.toggle_bookmark(),
            Command::Noop => {},
        }
        let mut effects: Vec<Effect> = Vec::new();
        core::mem::swap(&mut effects, &mut self.pending_effects);
        CommandDispatch { effects, should_exit }
    }

    /// What activating another tab leaves behind: the old active list
    /// view stowed in its slot, the target tab's stored view (or an empty
    /// default when it was never visited) brought into list mode, and
    /// every other tab's view untouched.
    pub open spec fn rel_tab_swap(pre: State, post: State, a1: int) -> bool {
        let n = pre.tabs@.len() as int;
        let a0 = pre.active_tab as int;
        &&& post.active_tab == a1
        &&& post.mode is List
        &&& (forall|j: int|
            0 <= j < n && j != a0 && j != a1 ==> post.spec_list_view(j) == pre.spec_list_view(j))
        &&& ((pre.mode is List && a0 < n && a0 != a1) ==> post.spec_list_view(a0) == Some(
            pre.mode->List_0,
        ))
        &&& ((pre.mode is List && a0 == a1 && a0 < n) ==> post.spec_list_view(a1) == Some(
            pre.mode->List_0,
        ))
        &&& (((a0 != a1 || !(pre.mode is List)) && 0 <= a1 < n) ==> (match pre.tab_views@[a1] {
            Some(v) => post.spec_list_view(a1) == Some(v),
            None => {
                if pre.mode is List && a0 >= n {
                    post.spec_list_view(a1) == Some(pre.mode->List_0)
                } else {
                    post.spec_list_view(a1) matches Some(v2) && v2.items@.len() == 0
                }
            },
        }))
    }

    fn activate_tab(&mut self, a1: usize)
        requires
            old(self).wf(),
            a1 < old(self).tabs@.len(),
        ensures
            final(self).wf(),
            *final(self) == (State {
                mode: final(self).mode,
                tab_views: final(self).tab_views,
                active_tab: final(self).active_tab,
                ..*old(self)
            }),
            State::rel_tab_swap(*old(self), *final(self), a1 as int),
    {
        let ghost a0 = old(self).active_tab as int;
        let ghost n = old(self).tabs@.len() as int;
        self.store_active_list_view();
        let ghost s1 = *self;
        self.active_tab = a1;
        let ghost s2 = *self;
        self.restore_active_list_view();
        proof {
            assert forall|j: int|
                0 <= j < n && j != a0 && j != a1 implies self.spec_list_view(j) == old(self).spec_list_view(j) by {
                assert(s1.spec_list_view(j) == old(self).spec_list_view(j));
                assert(s2.spec_list_view(j) == s1.spec_list_view(j));
            }
            if old(self).mode is List && a0 < n && a0 != a1 {
                assert(s1.tab_views@[a0] == Some(old(self).mode->List_0));
                assert(self.spec_list_view(a0) == Some(old(self).mode->List_0));
            }
            if old(self).mode is List && a0 == a1 && a0 < n {
                assert(s2.tab_views@[a1 as int] == Some(old(self).mode->List_0));
                assert(self.spec_list_view(a1 as int) == Some(old(self).mode->List_0));
            }
            if a0 != a1 || !(old(self).mode is List) {
                assert(s2.tab_views@[a1 as int] == old(self).tab_views@[a1 as int]);
                match old(self).tab_views@[a1 as int] {
                    Some(v) => {
                        assert(self.spec_list_view(a1 as int) == Some(v));
                    },
                    None => {
                        if old(self).mode is List && a0 >= n {
                            assert(s2.mode == old(self).mode);
                            assert(self.spec_list_view(a1 as int) == Some(old(self).mode->List_0));
                        } else {
                            assert(self.spec_list_view(a1 as int) matches Some(v2)
                                && v2.items@.len() == 0);
                        }
                    },
                }
            }
        }
    }

    /// Switches one tab to the left, wrapping at the first.
    pub fn switch_tab_left(&mut self)
        requires
            old(self).wf(),
        ensures
            final(self).wf(),
            State::rel_switch_left(*old(self), *final(self)),

    {
        let tab_count = self.tabs.len();
        if tab_count != 0 {
            let cur = self.active_tab % tab_count;
            let target = if cur == 0 {
                tab_count - 1
            } else {
                cur - 1
            };
            self.activate_tab(target);
        }
    }

    /// Switches one tab to the right, wrapping at the last.
    pub fn switch_tab_right(&mut self)
        requires
            old(self).wf(),
        ensures
            final(self).wf(),
            State::rel_switch_right(*old(self), *final(self)),

    {
        let tab_count = self.tabs.len();
        if tab_count != 0 {
            let ghost a0 = old(self).active_tab as int;
            let target = (self.active_tab % tab_count + 1) % tab_count;
            proof {
                assert((a0 % (tab_count as int) + 1) % (tab_count as int) == (a0 + 1) % (
                tab_count as int)) by (nonlinear_arith)
                    requires
                        tab_count > 0,
                        a0 >= 0,
                ;
            }
            self.activate_tab(target);
        }
    }
}

} // verus!
