//! The active view mode and its key-to-command translation.

use vstd::prelude::*;
use crate::comment_view::{
    collapse_rel, expand_rel, spec_move_target, spec_page_delta, toggle_rel, CommentView,
};
use crate::entry::ListEntry;
use crate::keys::{Command, KeyCode, KeyEvent};
use crate::list_view::ListView;

verus! {

/// What the user is looking at: the flat list or a discussion tree.
pub enum Mode {
    Comments(CommentView),
    List(ListView<ListEntry>),
}

/// The command a key means in list mode; keys the mode handles itself
/// (jump to end) and unknown keys mean `Noop`.
pub open spec fn spec_list_key_command(key: KeyEvent) -> Command {
    match key.code {
        KeyCode::Char(c) => {
            if c == 'q' || c == 'Q' {
                Command::Quit
            } else if c == '?' {
                Command::ShowHelp
            } else if c == 'h' {
                Command::SwitchTabLeft
            } else if c == 'l' {
                Command::SwitchTabRight
            } else if c == 'j' {
                Command::SelectNext
            } else if c == 'k' {
                Command::SelectPrevious
            } else if c == 'd' && key.ctrl {
                Command::PageDown
            } else if c == 'u' && key.ctrl {
                Command::PageUp
            } else if c == '/' {
                Command::StartSearch
            } else if c == 'b' || c == 'B' {
                Command::ToggleBookmark
            } else if c == 'o' || c == 'O' {
                Command::OpenCurrentInBrowser
            } else {
                Command::Noop
            }
        },
        KeyCode::Esc => Command::Quit,
        KeyCode::Left => Command::SwitchTabLeft,
        KeyCode::Right => Command::SwitchTabRight,
        KeyCode::Down => Command::SelectNext,
        KeyCode::Up => Command::SelectPrevious,
        KeyCode::PageDown => Command::PageDown,
        KeyCode::PageUp => Command::PageUp,
        KeyCode::Home => Command::SelectFirst,
        KeyCode::End => Command::Noop,
        KeyCode::Enter => Command::OpenComments,
        _ => Command::Noop,
    }
}

/// The command a key means in tree mode; navigation keys the mode applies
/// itself mean `Noop`.
pub open spec fn spec_comments_key_command(key: KeyEvent) -> Command {
    match key.code {
        KeyCode::Char(c) => {
            if c == 'q' || c == 'Q' {
                Command::Quit
            } else if c == '?' {
                Command::ShowHelp
            } else if c == 'o' || c == 'O' {
                Command::OpenCommentLink
            } else if c == '/' {
                Command::StartSearch
            } else if c == 'b' || c == 'B' {
                Command::ToggleBookmark
            } else {
                Command::Noop
            }
        },
        KeyCode::Esc => Command::CloseComments,
        _ => Command::Noop,
    }
}

impl Mode {
    /// The active view's invariant.
    pub open spec fn wf(&self) -> bool {
        match self {
            Mode::Comments(view) => view.wf(),
            Mode::List(view) => view.wf(),
        }
    }

    /// Translates one key press against the active mode, applying
    /// mode-local navigation in place and handing every other intent back
    /// as a command.
    pub fn handle_key(&mut self, key: KeyEvent, page: usize) -> (r: Command)
        requires
            old(self).wf(),
        ensures
            final(self).wf(),
            (*old(self)) is List ==> {
                &&& (*final(self)) is List
                &&& r == spec_list_key_command(key)
                &&& ({
                    let v0 = (*old(self))->List_0;
                    let v1 = (*final(self))->List_0;
                    if key.code == KeyCode::End && v0.items@.len() > 0 {
                        v1.items@ == v0.items@ && v1.offset == v0.offset && v1.selected == (
                        v0.items@.len() - 1) as usize
                    } else {
                        v1 == v0
                    }
                })
            },
            (*old(self)) is Comments ==> {
                &&& (*final(self)) is Comments
                &&& r == spec_comments_key_command(key)
                &&& ({
                    let v0 = (*old(self))->Comments_0;
                    let v1 = (*final(self))->Comments_0;
                    match key.code {
                        KeyCode::Down => v1.entries == v0.entries && v1.link == v0.link
                            && v1.offset == v0.offset && v1.selected == spec_move_target(
                            v0.entries@,
                            v0.selected,
                            1,
                        ),
                        KeyCode::Up => v1.entries == v0.entries && v1.link == v0.link && v1.offset
                            == v0.offset && v1.selected == spec_move_target(
                            v0.entries@,
                            v0.selected,
                            -1,
                        ),
                        KeyCode::PageDown => v1.entries == v0.entries && v1.link == v0.link
                            && v1.offset == v0.offset && v1.selected == spec_move_target(
                            v0.entries@,
                            v0.selected,
                            spec_page_delta(page as int),
                        ),
                        KeyCode::PageUp => v1.entries == v0.entries && v1.link == v0.link
                            && v1.offset == v0.offset && v1.selected == spec_move_target(
                            v0.entries@,
                            v0.selected,
                            -spec_page_delta(page as int),
                        ),
                        KeyCode::Left => collapse_rel(v0, v1),
                        KeyCode::Right => expand_rel(v0, v1),
                        KeyCode::Enter => toggle_rel(v0, v1),
                        KeyCode::Home => v1.entries == v0.entries && v1.link == v0.link
                            && v1.offset == v0.offset && ({
                            let vis = CommentView::spec_visible_seq(v0.entries@);
                            if vis.len() == 0 {
                                v1.selected is None
                            } else {
                                v1.selected == Some(vis[0] as usize)
                            }
                        }),
                        KeyCode::End => ({
                            let vis = CommentView::spec_visible_seq(v0.entries@);
                            if vis.len() == 0 {
                                v1 == v0
                            } else {
                                v1.entries == v0.entries && v1.link == v0.link && v1.offset
                                    == v0.offset && v1.selected == Some(
                                    vis[vis.len() - 1] as usize,
                                )
                            }
                        }),
                        KeyCode::Char(c) => {
                            if c == 'j' {
                                v1.entries == v0.entries && v1.link == v0.link && v1.offset
                                    == v0.offset && v1.selected == spec_move_target(
                                    v0.entries@,
                                    v0.selected,
                                    1,
                                )
                            } else if c == 'k' {
                                v1.entries == v0.entries && v1.link == v0.link && v1.offset
                                    == v0.offset && v1.selected == spec_move_target(
                                    v0.entries@,
                                    v0.selected,
                                    -1,
                                )
                            } else if c == 'd' && key.ctrl {
                                v1.entries == v0.entries && v1.link == v0.link && v1.offset
                                    == v0.offset && v1.selected == spec_move_target(
                                    v0.entries@,
                                    v0.selected,
                                    spec_page_delta(page as int),
                                )
                            } else if c == 'u' && key.ctrl {
                                v1.entries == v0.entries && v1.link == v0.link && v1.offset
                                    == v0.offset && v1.selected == spec_move_target(
                                    v0.entries@,
                                    v0.selected,
                                    -spec_page_delta(page as int),
                                )
                            } else if c == 'h' {
                                collapse_rel(v0, v1)
                            } else if c == 'l' {
                                expand_rel(v0, v1)
                            } else if c == ' ' {
                                toggle_rel(v0, v1)
                            } else {
                                v1 == v0
                            }
                        },
                        _ => v1 == v0,
                    }
                })
            },
    {
        match self {
            Mode::List(view) => {
                match key.code {
                    KeyCode::Char(c) => {
                        if c == 'q' || c == 'Q' {
                            Command::Quit
                        } else if c == '?' {
                            Command::ShowHelp
                        } else if c == 'h' {
                            Command::SwitchTabLeft
                        } else if c == 'l' {
                            Command::SwitchTabRight
                        } else if c == 'j' {
                            Command::SelectNext
                        } else if c == 'k' {
                            Command::SelectPrevious
                        } else if c == 'd' && key.ctrl {
                            Command::PageDown
                        } else if c == 'u' && key.ctrl {
                            Command::PageUp
                        } else if c == '/' {
                            Command::StartSearch
                        } else if c == 'b' || c == 'B' {
                            Command::ToggleBookmark
                        } else if c == 'o' || c == 'O' {
                            Command::OpenCurrentInBrowser
                        } else {
                            Command::Noop
                        }
                    },
                    KeyCode::Esc => Command::Quit,
                    KeyCode::Left => Command::SwitchTabLeft,
                    KeyCode::Right => Command::SwitchTabRight,
                    KeyCode::Down => Command::SelectNext,
                    KeyCode::Up => Command::SelectPrevious,
                    KeyCode::PageDown => Command::PageDown,
                    KeyCode::PageUp => Command::PageUp,
                    KeyCode::Home => Command::SelectFirst,
                    KeyCode::End => {
                        if !view.is_empty() {
                            let last = view.len() - 1;
                            view.set_selected(last);
                        }
                        Command::Noop
                    },
                    KeyCode::Enter => Command::OpenComments,
                    _ => Command::Noop,
                }
            },
            Mode::Comments(view) => {
                match key.code {
                    KeyCode::Char(c) => {
                        if c == 'q' || c == 'Q' {
                            Command::Quit
                        } else if c == '?' {
                            Command::ShowHelp
                        } else if c == 'o' || c == 'O' {
                            Command::OpenCommentLink
                        } else if c == '/' {
                            Command::StartSearch
                        } else if c == 'b' || c == 'B' {
                            Command::ToggleBookmark
                        } else if c == 'j' {
                            view.select_next();
                            Command::Noop
                        } else if c == 'k' {
                            view.select_previous();
                            Command::Noop
                        } else if c == 'd' && key.ctrl {
                            view.page_down(page);
                            Command::Noop
                        } else if c == 'u' && key.ctrl {
                            view.page_up(page);
                            Command::Noop
                        } else if c == 'h' {
                            view.collapse_selected();
                            Command::Noop
                        } else if c == 'l' {
                            view.expand_selected();
                            Command::Noop
                        } else if c == ' ' {
                            view.toggle_selected();
                            Command::Noop
                        } else {
                            Command::Noop
                        }
                    },
                    KeyCode::Esc => Command::CloseComments,
                    KeyCode::Down => {
                        view.select_next();
                        Command::Noop
                    },
                    KeyCode::Up => {
                        view.select_previous();
                        Command::Noop
                    },
                    KeyCode::PageDown => {
                        view.page_down(page);
                        Command::Noop
                    },
                    KeyCode::PageUp => {
                        view.page_up(page);
                        Command::Noop
                    },
                    KeyCode::Left => {
                        view.collapse_selected();
                        Command::Noop
                    },
                    KeyCode::Right => {
                        view.expand_selected();
                        Command::Noop
                    },
                    KeyCode::Enter => {
                        view.toggle_selected();
                        Command::Noop
                    },
                    KeyCode::Home => {
                        view.select_index_at(0);
                        Command::Noop
                    },
                    KeyCode::End => {
                        let (visible, _) = view.visible_with_selection();
                        if visible.len() > 0 {
                            view.select_index_at(visible.len() - 1);
                        }
                        Command::Noop
                    },
                    _ => Command::Noop,
                }
            },
        }
    }

    /// Hands the renderer's scroll offset back to the active view.
    pub fn set_offset(&mut self, offset: usize)
        requires
            old(self).wf(),
        ensures
            final(self).wf(),
            (*old(self)) is List ==> ((*final(self)) is List && {
                let v0 = (*old(self))->List_0;
                let v1 = (*final(self))->List_0;
                v1.items@ == v0.items@ && v1.selected == v0.selected && v1.offset == (
                if v0.items@.len() == 0 {
                    0usize
                } else if offset < v0.items@.len() {
                    offset
                } else {
                    (v0.items@.len() - 1) as usize
                })
            }),
            (*old(self)) is Comments ==> ((*final(self)) is Comments && {
                let v0 = (*old(self))->Comments_0;
                let v1 = (*final(self))->Comments_0;
                v1.entries == v0.entries && v1.link == v0.link && v1.selected == v0.selected
                    && v1.offset == offset
            }),
    {
        match self {
            Mode::List(view) => {
                view.set_offset(offset);
            },
            Mode::Comments(view) => {
                view.offset = offset;
            },
        }
    }
}

} // verus!
