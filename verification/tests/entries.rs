use hn::entry::{CommentHit, ListEntry, SearchHit, Story};

#[test]
fn from_story_uses_score_and_author_for_detail() {
    let entry = ListEntry::from_story(Story {
        by: Some("alice".to_string()),
        id: 123,
        score: Some(10),
        title: "Interesting story".to_string(),
        url: Some("https://example.com/story".to_string()),
    });

    assert_eq!(entry.title, "Interesting story");

    assert_eq!(entry.detail.as_deref(), Some("10 points by alice"));

    assert_eq!(entry.url.as_deref(), Some("https://example.com/story"));
}

#[test]
fn resolved_url_falls_back_to_hn_item_page() {
    let entry = ListEntry {
        detail: None,
        id: "456".to_string(),
        title: "Fallback".to_string(),
        url: None,
    };

    assert_eq!(entry.resolved_url(), "https://news.ycombinator.com/item?id=456");
}

#[test]
fn from_comment_hit_prefers_story_id_link_and_builds_snippet() {
    let entry = ListEntry::from_comment_hit(CommentHit {
        author: Some("bob".to_string()),
        comment_text: Some("Test detail".to_string()),
        object_id: "789".to_string(),
        story_id: Some("42".to_string()),
        story_title: Some("Comment thread".to_string()),
        story_url: None,
    });

    assert_eq!(entry.detail.as_deref(), Some("bob: Test detail"));

    assert_eq!(entry.url.as_deref(), Some("https://news.ycombinator.com/item?id=42"));

    assert_eq!(entry.title, "Comment thread");
}

#[test]
fn from_search_hit_handles_missing_title_and_author() {
    let entry = ListEntry::from_search_hit(SearchHit {
        author: None,
        object_id: "s1".to_string(),
        points: Some(5),
        title: None,
        url: Some("https://example.com/search".to_string()),
    });

    assert_eq!(entry.title, "Untitled");

    assert_eq!(entry.detail.as_deref(), Some("5 points"));

    assert_eq!(entry.url.as_deref(), Some("https://example.com/search"));
}

#[test]
fn from_comment_hit_renders_the_markup() {
    let entry = ListEntry::from_comment_hit(CommentHit {
        author: Some("bob".to_string()),
        comment_text: Some("A &amp; B".to_string()),
        object_id: "1".to_string(),
        story_id: None,
        story_title: None,
        story_url: Some("https://example.com".to_string()),
    });
    assert_eq!(entry.detail.as_deref(), Some("bob: A & B"));
    assert_eq!(entry.title, "Comment thread");
}

#[test]
fn from_story_formats_singular_point() {
    let entry = ListEntry::from_story(Story {
        by: None,
        id: 7,
        score: Some(1),
        title: "One".to_string(),
        url: None,
    });
    assert_eq!(entry.id, "7");
    assert_eq!(entry.detail.as_deref(), Some("1 point"));
}

#[test]
fn comment_entry_bookmark_row_uses_permalink_and_snippet() {
    let entry = hn::comment::CommentEntry {
        author: Some("carol".to_string()),
        body: "  a short remark  ".to_string(),
        children: Vec::new(),
        dead: false,
        deleted: false,
        depth: 0,
        expanded: true,
        id: 99,
        parent: None,
    };
    let row = entry.to_bookmark_entry();
    assert_eq!(row.id, "99");
    assert_eq!(row.title, "Comment by carol");
    assert_eq!(row.detail.as_deref(), Some("a short remark"));
    assert_eq!(row.url.as_deref(), Some("https://news.ycombinator.com/item?id=99"));
    assert_eq!(entry.permalink(), "https://news.ycombinator.com/item?id=99");
    assert!(!entry.has_children());
}
