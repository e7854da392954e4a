use hn::comment::{Comment, CommentThread};
use hn::comment_view::CommentView;

fn make_comment(id: u64, children: Vec<Comment>) -> Comment {
    Comment {
        author: Some(format!("user{id}")),
        children,
        dead: false,
        deleted: false,
        id,
        text: Some(format!("comment {id}")),
    }
}

fn make_view(focus: Option<u64>) -> CommentView {
    let child = make_comment(2, Vec::new());

    let parent = make_comment(1, vec![child]);

    CommentView::new(
        CommentThread { focus, roots: vec![parent], url: None },
        "fallback".to_string(),
    )
}

#[test]
fn new_selects_focused_comment_when_present() {
    let view = make_view(Some(2));
    assert_eq!(view.selected, Some(1));
    assert_eq!(view.link(), "fallback");
}

#[test]
fn toggle_selected_collapses_and_expands_comments() {
    let mut view = make_view(None);
    assert!(view.entries[0].expanded);

    view.toggle_selected();
    assert!(!view.entries[0].expanded);

    view.toggle_selected();
    assert!(view.entries[0].expanded);
}

#[test]
fn collapse_selected_moves_to_parent_when_child_selected() {
    let mut view = make_view(None);
    view.select_index_at(1);
    assert_eq!(view.selected, Some(1));
    view.collapse_selected();
    assert_eq!(view.selected, Some(0));
}

#[test]
fn expand_selected_moves_into_first_child() {
    let mut view = make_view(None);
    view.expand_selected();
    assert_eq!(view.selected, Some(1));
}

#[test]
fn ensure_selection_visible_promotes_hidden_selection() {
    let mut view = make_view(None);
    view.select_index_at(1);
    view.entries[0].expanded = false;
    view.ensure_selection_visible();
    assert_eq!(view.selected, Some(0));
}

#[test]
fn visible_indexes_respect_collapsed_ancestors() {
    let mut view = make_view(None);
    assert_eq!(view.visible_indexes(), vec![0, 1]);
    view.entries[0].expanded = false;
    assert_eq!(view.visible_indexes(), vec![0]);
}

#[test]
fn toggling_root_hides_child_and_keeps_selection_on_root() {
    let mut view = make_view(None);
    assert_eq!(view.selected, Some(0));

    view.toggle_selected();

    assert!(!view.is_visible(1));
    view.ensure_selection_visible();
    assert_eq!(view.selected, Some(0));
}

#[test]
fn arena_is_built_in_preorder_with_depths() {
    let grandchild = make_comment(3, Vec::new());
    let child = make_comment(2, vec![grandchild]);
    let sibling = make_comment(4, Vec::new());
    let root = make_comment(1, vec![child, sibling]);

    let view = CommentView::new(
        CommentThread { focus: None, roots: vec![root], url: Some("url".to_string()) },
        "fallback".to_string(),
    );

    let ids: Vec<u64> = view.entries.iter().map(|e| e.id).collect();
    assert_eq!(ids, vec![1, 2, 3, 4]);

    let depths: Vec<usize> = view.entries.iter().map(|e| e.depth).collect();
    assert_eq!(depths, vec![0, 1, 2, 1]);

    assert_eq!(view.entries[0].parent, None);
    assert_eq!(view.entries[1].parent, Some(0));
    assert_eq!(view.entries[2].parent, Some(1));
    assert_eq!(view.entries[3].parent, Some(0));
    assert_eq!(view.entries[0].children, vec![1, 3]);
    assert_eq!(view.link(), "url");
}

#[test]
fn deleted_and_dead_comments_show_placeholders() {
    let mut deleted = make_comment(5, Vec::new());
    deleted.deleted = true;
    let mut dead = make_comment(6, Vec::new());
    dead.dead = true;

    let view = CommentView::new(
        CommentThread { focus: None, roots: vec![deleted, dead], url: None },
        "fallback".to_string(),
    );

    assert_eq!(view.entries[0].body(), "[deleted]");
    assert_eq!(view.entries[1].body(), "[dead]");
    assert_eq!(view.entries[0].header(), "user5 (deleted)");
    assert_eq!(view.entries[1].header(), "user6 (dead)");
}

#[test]
fn move_by_walks_the_visible_order_and_clamps() {
    let mut view = make_view(None);
    view.move_by(5);
    assert_eq!(view.selected, Some(1));
    view.move_by(-10);
    assert_eq!(view.selected, Some(0));
    view.select_next();
    assert_eq!(view.selected, Some(1));
    view.select_previous();
    assert_eq!(view.selected, Some(0));
}
