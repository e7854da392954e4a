use hn::comment::{Comment, CommentThread};
use hn::comment_view::CommentView;
use hn::help_view::HelpView;
use hn::entry::ListEntry;
use hn::keys::{Command, KeyCode, KeyEvent};
use hn::list_view::ListView;
use hn::mode::Mode;

fn sample_list_entries() -> Vec<ListEntry> {
    vec![
        ListEntry {
            detail: None,
            id: "1".to_string(),
            title: "First".to_string(),
            url: None,
        },
        ListEntry {
            detail: None,
            id: "2".to_string(),
            title: "Second".to_string(),
            url: None,
        },
    ]
}

fn make_list_mode() -> Mode {
    Mode::List(ListView::new(sample_list_entries()))
}

fn make_comments_mode() -> Mode {
    Mode::Comments(CommentView::new(
        CommentThread {
            focus: None,
            roots: vec![Comment {
                author: Some("user".to_string()),
                children: Vec::new(),
                dead: false,
                deleted: false,
                id: 1,
                text: Some("body".to_string()),
            }],
            url: None,
        },
        "fallback".to_string(),
    ))
}

fn key(code: KeyCode) -> KeyEvent {
    KeyEvent::new(code)
}

#[test]
fn quitting_from_list_mode_uses_quit_command() {
    assert_eq!(make_list_mode().handle_key(key(KeyCode::Char('q')), 0), Command::Quit);
}

#[test]
fn starting_search_from_comments_mode_returns_command() {
    assert_eq!(
        make_comments_mode().handle_key(key(KeyCode::Char('/')), 0),
        Command::StartSearch
    );
}

#[test]
fn end_key_in_list_mode_selects_last_item() {
    let mut mode = make_list_mode();

    assert_eq!(mode.handle_key(key(KeyCode::End), 0), Command::Noop);

    if let Mode::List(ref view) = mode {
        assert_eq!(view.selected_index(), Some(1));
    } else {
        panic!("expected list mode");
    }
}

#[test]
fn navigation_keys_in_list_mode_return_expected_commands() {
    let mut mode = make_list_mode();

    let next = mode.handle_key(key(KeyCode::Down), 0);
    assert_eq!(next, Command::SelectNext);

    let prev = mode.handle_key(key(KeyCode::Up), 0);
    assert_eq!(prev, Command::SelectPrevious);
}

#[test]
fn control_paging_needs_the_modifier() {
    let mut mode = make_list_mode();
    assert_eq!(mode.handle_key(KeyEvent::with_ctrl(KeyCode::Char('d')), 0), Command::PageDown);
    assert_eq!(mode.handle_key(KeyEvent::with_ctrl(KeyCode::Char('u')), 0), Command::PageUp);
    assert_eq!(mode.handle_key(key(KeyCode::Char('d')), 0), Command::Noop);
}

#[test]
fn comment_navigation_keys_move_the_selection_in_place() {
    let mut mode = make_comments_mode();
    assert_eq!(mode.handle_key(key(KeyCode::Down), 0), Command::Noop);
    assert_eq!(mode.handle_key(key(KeyCode::Esc), 0), Command::CloseComments);
    assert_eq!(mode.handle_key(key(KeyCode::Char('q')), 0), Command::Quit);
    assert_eq!(mode.handle_key(key(KeyCode::Char('o')), 0), Command::OpenCommentLink);
    assert_eq!(mode.handle_key(key(KeyCode::Char('b')), 0), Command::ToggleBookmark);
}

#[test]
fn help_keys_close_or_quit() {
    assert_eq!(HelpView::handle_key(key(KeyCode::Char('?'))), Command::HideHelp);
    assert_eq!(HelpView::handle_key(key(KeyCode::Esc)), Command::HideHelp);
    assert_eq!(HelpView::handle_key(key(KeyCode::Char('q'))), Command::Quit);
    assert_eq!(HelpView::handle_key(key(KeyCode::Char('x'))), Command::Noop);
}
