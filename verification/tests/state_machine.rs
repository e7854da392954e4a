use hn::bookmark::Bookmarks;
use hn::category::{Category, CategoryKind};
use hn::comment::{Comment, CommentThread};
use hn::comment_view::CommentView;
use hn::effect::{Effect, Event, Tab};
use hn::entry::ListEntry;
use hn::keys::Command;
use hn::list_view::ListView;
use hn::mode::Mode;
use hn::state::State;
use hn::{INITIAL_BATCH_SIZE, LOADING_COMMENTS_STATUS};

fn entry(id: &str, title: &str) -> ListEntry {
    ListEntry {
        detail: None,
        id: id.to_string(),
        title: title.to_string(),
        url: Some("https://example.com".to_string()),
    }
}

fn sample_state_with_entry() -> State {
    let view = ListView::new(vec![entry("42", "Example")]);

    let tab = Tab {
        category: Category { label: "top", kind: CategoryKind::Stories("topstories") },
        has_more: false,
        label: "top",
    };

    State::new(vec![(tab, view)], Bookmarks::new(Vec::new()))
}

fn paged_state(has_more: bool, count: usize) -> State {
    let mut rows = Vec::new();
    let mut i = 0;
    while i < count {
        rows.push(entry(&format!("{i}"), &format!("Row {i}")));
        i += 1;
    }
    let tab = Tab {
        category: Category { label: "top", kind: CategoryKind::Stories("topstories") },
        has_more,
        label: "top",
    };
    State::new(vec![(tab, ListView::new(rows))], Bookmarks::new(Vec::new()))
}

#[test]
fn dispatch_open_comments_emits_fetch_effect() {
    let mut state = sample_state_with_entry();

    let dispatch = state.dispatch_command(Command::OpenComments);

    assert!(!dispatch.should_exit);

    assert_eq!(dispatch.effects.len(), 1);

    match &dispatch.effects[0] {
        Effect::FetchComments { item_id, .. } => assert_eq!(*item_id, 42),
        _ => panic!("unexpected effect variant"),
    }

    assert_eq!(state.message(), LOADING_COMMENTS_STATUS);
}

#[test]
fn open_comment_link_opens_selected_comment() {
    let mut state = sample_state_with_entry();

    let comment_view = CommentView::new(
        CommentThread {
            focus: None,
            roots: vec![Comment {
                author: Some("user".to_string()),
                children: Vec::new(),
                dead: false,
                deleted: false,
                id: 123,
                text: Some("body".to_string()),
            }],
            url: None,
        },
        "https://news.ycombinator.com/item?id=42".to_string(),
    );

    *state.mode_mut() = Mode::Comments(comment_view);

    state.open_comment_link();

    assert_eq!(state.pending_effects().len(), 1);

    match &state.pending_effects()[0] {
        Effect::OpenUrl { url } => {
            assert_eq!(url, "https://news.ycombinator.com/item?id=123")
        },
        _ => panic!("unexpected effect variant"),
    }
}

#[test]
fn start_search_sets_search_input() {
    let mut state = sample_state_with_entry();

    let dispatch = state.dispatch_command(Command::StartSearch);

    assert!(dispatch.effects.is_empty());
    assert!(!dispatch.should_exit);
    assert!(state.search_input.is_some());

    assert_eq!(state.message(), "Search: ");
}

#[test]
fn stale_comment_event_is_discarded() {
    let mut state = sample_state_with_entry();

    let first = state.dispatch_command(Command::OpenComments);
    let r1 = match &first.effects[0] {
        Effect::FetchComments { request_id, .. } => *request_id,
        _ => panic!("unexpected effect variant"),
    };
    let second = state.dispatch_command(Command::OpenComments);
    let r2 = match &second.effects[0] {
        Effect::FetchComments { request_id, .. } => *request_id,
        _ => panic!("unexpected effect variant"),
    };
    assert!(r1 < r2);

    let thread = |body: &str| CommentThread {
        focus: None,
        roots: vec![Comment {
            author: Some("user".to_string()),
            children: Vec::new(),
            dead: false,
            deleted: false,
            id: 9,
            text: Some(body.to_string()),
        }],
        url: None,
    };

    state.handle_event(Event::Comments { request_id: r2, result: Ok(thread("new")) });
    match state.mode_mut() {
        Mode::Comments(view) => assert_eq!(view.entries[0].body(), "new"),
        _ => panic!("expected comments mode"),
    }

    state.handle_event(Event::Comments { request_id: r1, result: Ok(thread("old")) });
    match state.mode_mut() {
        Mode::Comments(view) => assert_eq!(view.entries[0].body(), "new"),
        _ => panic!("expected comments mode"),
    }
}

#[test]
fn stale_search_results_never_clobber_newer_ones() {
    let mut state = sample_state_with_entry();

    state.dispatch_command(Command::StartSearch);
    for c in "rust".chars() {
        state.handle_search_key(hn::keys::KeyEvent::new(hn::keys::KeyCode::Char(c)));
    }
    let d1 = state.dispatch_command(Command::SubmitSearch);
    let r1 = match &d1.effects[0] {
        Effect::FetchSearchResults { request_id, .. } => *request_id,
        _ => panic!("unexpected effect variant"),
    };

    state.dispatch_command(Command::StartSearch);
    for c in "golang".chars() {
        state.handle_search_key(hn::keys::KeyEvent::new(hn::keys::KeyCode::Char(c)));
    }
    let d2 = state.dispatch_command(Command::SubmitSearch);
    let r2 = match &d2.effects[0] {
        Effect::FetchSearchResults { request_id, .. } => *request_id,
        _ => panic!("unexpected effect variant"),
    };

    state.handle_event(Event::SearchResults {
        request_id: r2,
        result: Ok((vec![entry("2", "golang result")], false)),
    });
    state.handle_event(Event::SearchResults {
        request_id: r1,
        result: Ok((vec![entry("1", "rust result")], false)),
    });

    match state.mode_mut() {
        Mode::List(view) => {
            assert_eq!(view.len(), 1);
            assert_eq!(view.items()[0].title, "golang result");
        },
        _ => panic!("expected list mode"),
    }
}

#[test]
fn full_page_keeps_has_more_and_short_page_ends_it() {
    let mut state = paged_state(true, 1);

    let mut full = Vec::new();
    let mut i = 0;
    while i < INITIAL_BATCH_SIZE {
        full.push(entry(&format!("f{i}"), "row"));
        i += 1;
    }
    state.handle_event(Event::TabItems { tab_index: 0, result: Ok(full) });
    assert!(state.tabs()[0].has_more);
    assert!(!state.tab_loading()[0]);

    state.handle_event(Event::TabItems {
        tab_index: 0,
        result: Ok(vec![entry("s", "short")]),
    });
    assert!(!state.tabs()[0].has_more);

    let dispatch = state.dispatch_command(Command::PageDown);
    assert!(dispatch.effects.is_empty(), "an exhausted tab must not fetch again");
}

#[test]
fn selecting_past_loaded_rows_emits_one_fetch() {
    let mut state = paged_state(true, 2);
    state.dispatch_command(Command::SelectNext);
    let dispatch = state.dispatch_command(Command::SelectNext);
    assert_eq!(dispatch.effects.len(), 1);
    match &dispatch.effects[0] {
        Effect::FetchTabItems { tab_index, offset, .. } => {
            assert_eq!(*tab_index, 0);
            assert_eq!(*offset, 2);
        },
        _ => panic!("unexpected effect variant"),
    }
    let repeat = state.dispatch_command(Command::SelectNext);
    assert!(repeat.effects.is_empty(), "a loading tab must not fetch twice");

    state.handle_event(Event::TabItems {
        tab_index: 0,
        result: Ok(vec![entry("n", "landed")]),
    });
    match state.mode_mut() {
        Mode::List(view) => assert_eq!(view.selected_index(), Some(2)),
        _ => panic!("expected list mode"),
    }
}

#[test]
fn failed_fetch_clears_loading_and_reports() {
    let mut state = paged_state(true, 1);
    state.dispatch_command(Command::PageDown);
    assert!(state.tab_loading()[0]);

    state.handle_event(Event::TabItems {
        tab_index: 0,
        result: Err("boom".to_string()),
    });
    assert!(!state.tab_loading()[0]);
    assert_eq!(state.message(), "Could not load more entries: boom");
}

#[test]
fn failed_search_and_thread_fetches_leave_state_intact() {
    let mut state = sample_state_with_entry();

    state.dispatch_command(Command::StartSearch);
    state.handle_search_key(hn::keys::KeyEvent::new(hn::keys::KeyCode::Char('q')));
    let d = state.dispatch_command(Command::SubmitSearch);
    let rid = match &d.effects[0] {
        Effect::FetchSearchResults { request_id, .. } => *request_id,
        _ => panic!("unexpected effect variant"),
    };
    state.handle_event(Event::SearchResults {
        request_id: rid,
        result: Err("offline".to_string()),
    });
    assert_eq!(state.message(), "Could not search: offline");
    assert!(!state.tab_loading()[1]);

    state.dispatch_command(Command::SwitchTabLeft);
    let d = state.dispatch_command(Command::OpenComments);
    let rid = match &d.effects[0] {
        Effect::FetchComments { request_id, .. } => *request_id,
        _ => panic!("unexpected effect variant"),
    };
    state.handle_event(Event::Comments {
        request_id: rid,
        result: Err("offline".to_string()),
    });
    assert_eq!(state.message(), "Could not load comments: offline");
    match state.mode_mut() {
        Mode::List(_) => {},
        _ => panic!("a failed thread fetch must not change the mode"),
    }
}

#[test]
fn opening_comments_with_a_bad_id_reports_and_stays() {
    let view = ListView::new(vec![entry("not-a-number", "Odd")]);
    let tab = Tab {
        category: Category { label: "top", kind: CategoryKind::Stories("topstories") },
        has_more: false,
        label: "top",
    };
    let mut state = State::new(vec![(tab, view)], Bookmarks::new(Vec::new()));

    let dispatch = state.dispatch_command(Command::OpenComments);
    assert!(dispatch.effects.is_empty());
    assert_eq!(
        state.message(),
        "Could not load comments: invalid digit found in string"
    );
}

#[test]
fn toggling_a_bookmark_saves_and_announces() {
    let mut state = sample_state_with_entry();
    let dispatch = state.dispatch_command(Command::ToggleBookmark);
    assert_eq!(dispatch.effects.len(), 1);
    match &dispatch.effects[0] {
        Effect::SaveBookmarks { entries } => assert_eq!(entries.len(), 1),
        _ => panic!("unexpected effect variant"),
    }
    assert_eq!(state.message(), "Bookmarked \"Example\"");
    assert_eq!(state.tabs().len(), 2);
    assert_eq!(state.tabs()[1].label, "bookmarks");

    let dispatch = state.dispatch_command(Command::ToggleBookmark);
    match &dispatch.effects[0] {
        Effect::SaveBookmarks { entries } => assert!(entries.is_empty()),
        _ => panic!("unexpected effect variant"),
    }
    assert_eq!(state.message(), "Removed bookmark for \"Example\"");
    assert_eq!(state.tabs().len(), 1);
}

#[test]
fn transient_message_lapses_against_the_clock() {
    let mut state = paged_state(true, 1);
    let before = state.message().to_string();
    state.set_transient_message("briefly".to_string());
    assert_eq!(state.message(), "briefly");

    state.set_clock(1000);
    state.update_transient_message();
    assert_eq!(state.message(), "briefly");

    state.set_clock(5000);
    state.update_transient_message();
    assert_eq!(state.message(), before);
}

#[test]
fn switching_tabs_round_trip_is_lossless() {
    let mut state = sample_state_with_entry();
    state.dispatch_command(Command::ToggleBookmark);
    assert_eq!(state.tabs().len(), 2);

    state.dispatch_command(Command::SwitchTabRight);
    assert_eq!(state.resolved_active_tab(), Some(1));
    match state.mode_mut() {
        Mode::List(view) => assert_eq!(view.items()[0].title, "Example"),
        _ => panic!("expected list mode"),
    }

    state.dispatch_command(Command::SwitchTabLeft);
    assert_eq!(state.resolved_active_tab(), Some(0));
    match state.mode_mut() {
        Mode::List(view) => {
            assert_eq!(view.len(), 1);
            assert_eq!(view.items()[0].id, "42");
            assert_eq!(view.selected_index(), Some(0));
        },
        _ => panic!("expected list mode"),
    }
}

#[test]
fn removing_the_last_bookmark_keeps_the_other_tabs_views() {
    let mut state = sample_state_with_entry();
    state.dispatch_command(Command::ToggleBookmark);
    state.dispatch_command(Command::SwitchTabRight);
    assert_eq!(state.tabs()[1].label, "bookmarks");

    state.dispatch_command(Command::ToggleBookmark);
    assert_eq!(state.tabs().len(), 1);
    assert_eq!(state.resolved_active_tab(), Some(0));
    match state.mode_mut() {
        Mode::List(view) => {
            assert_eq!(view.len(), 1);
            assert_eq!(view.items()[0].id, "42");
        },
        _ => panic!("expected list mode"),
    }
}

#[test]
fn quit_is_the_only_exiting_command() {
    let mut state = sample_state_with_entry();
    assert!(state.dispatch_command(Command::Quit).should_exit);
    assert!(!state.dispatch_command(Command::Noop).should_exit);
    assert!(!state.dispatch_command(Command::SelectFirst).should_exit);
}

#[test]
fn search_submission_lands_in_a_fresh_search_tab() {
    let mut state = sample_state_with_entry();
    state.dispatch_command(Command::StartSearch);
    state.handle_search_key(hn::keys::KeyEvent::new(hn::keys::KeyCode::Char('r')));
    assert_eq!(state.message(), "Search: r");
    state.handle_search_key(hn::keys::KeyEvent::new(hn::keys::KeyCode::Backspace));
    assert_eq!(state.message(), "Search: ");
    state.handle_search_key(hn::keys::KeyEvent::new(hn::keys::KeyCode::Char('z')));
    let dispatch = state.dispatch_command(Command::SubmitSearch);
    assert_eq!(dispatch.effects.len(), 1);
    assert_eq!(state.tabs().len(), 2);
    assert_eq!(state.tabs()[1].label, "search");
    assert_eq!(state.message(), "Searching for \"z\"...");

    state.handle_event(Event::SearchResults {
        request_id: 0,
        result: Ok((vec![entry("8", "hit")], true)),
    });
    assert_eq!(state.message(), "Found 1 result for \"z\"");
    assert!(state.tabs()[1].has_more);
}
