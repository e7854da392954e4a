use hn::bookmark::Bookmarks;
use hn::help_view::{HelpView, Rect};
use hn::entry::ListEntry;
use hn::search_input::SearchInput;
use hn::transient_message::TransientMessage;

fn sample_entry(id: &str) -> ListEntry {
    ListEntry {
        detail: Some("detail".to_string()),
        id: id.to_string(),
        title: format!("Entry {id}"),
        url: Some(format!("https://example.com/{id}")),
    }
}

#[test]
fn prompt_reflects_current_buffer() {
    let mut input = SearchInput::new("status".to_string());
    assert_eq!(input.prompt(), "Search: ");

    input.buffer.push_str("rust");
    assert_eq!(input.prompt(), "Search: rust");
}

#[test]
fn new_sets_fields_and_expiry_three_seconds_ahead() {
    let now: u64 = 10_000;
    let message = TransientMessage::new("current".into(), "original".into(), now);

    assert_eq!(message.current(), "current");
    assert_eq!(message.original(), "original");

    let remaining = message.expires_at - now;
    assert_eq!(remaining, 3000);
    assert!(remaining >= 3000);
}

#[test]
fn is_expired_detects_elapsed_time() {
    let message = TransientMessage::new("a".into(), "b".into(), 1_000);

    assert!(!message.is_expired(1_000));

    assert!(message.is_expired(5_000));
}

#[test]
fn toggle_adds_and_removes_entries() {
    let mut bookmarks = Bookmarks::new(Vec::new());
    assert!(bookmarks.is_empty());

    let entry = sample_entry("1");
    assert!(bookmarks.toggle(&entry));
    assert!(!bookmarks.is_empty());
    assert_eq!(bookmarks.entries()[0].id, "1");

    assert!(!bookmarks.toggle(&entry));
    assert!(bookmarks.is_empty());
}

#[test]
fn remove_deletes_only_the_named_entry() {
    let mut bookmarks = Bookmarks::new(Vec::new());
    bookmarks.toggle(&sample_entry("2"));
    bookmarks.toggle(&sample_entry("3"));

    assert!(bookmarks.remove("2"));
    assert!(!bookmarks.remove("2"));
    assert!(!bookmarks.is_empty());
    assert_eq!(bookmarks.entries()[0].id, "3");
}

#[test]
fn newest_bookmark_sits_in_front() {
    let mut bookmarks = Bookmarks::new(Vec::new());
    bookmarks.toggle(&sample_entry("a"));
    bookmarks.toggle(&sample_entry("b"));
    let ids: Vec<&str> = bookmarks.entries().iter().map(|e| e.id.as_str()).collect();
    assert_eq!(ids, vec!["b", "a"]);
}

#[test]
fn help_area_centres_and_clamps_to_the_screen() {
    let tiny = HelpView::help_area(Rect { x: 0, y: 0, width: 10, height: 5 });
    assert!(tiny.width <= 10 && tiny.height <= 5);
    assert!(tiny.width >= 1 && tiny.height >= 1);

    let wide = HelpView::help_area(Rect { x: 2, y: 1, width: 200, height: 100 });
    assert!(wide.width < 200);
    assert!(wide.x >= 2 && wide.y >= 1);
}
