//! The help overlay: its visibility, status-line handling, key handling
//! and the geometry of its centred window.

use vstd::prelude::*;
use crate::keys::{Command, KeyCode, KeyEvent};
use crate::text::{chars_of, spec_split_lines, split_lines};
use crate::{HELP_STATUS, LIST_STATUS};

verus! {

/// The help overlay's text.
pub const HELP_TEXT: &'static str = "Navigation:\n  \u{2190} / h   previous tab\n  \u{2192} / l   next tab\n  \u{2191} / k   move selection up\n  \u{2193} / j   move selection down\n  pg\u{2193}     page down\n  pg\u{2191}     page up\n  ctrl+d  page down\n  ctrl+u  page up\n  home    jump to first item\n  end     jump to last item\n\nActions:\n  enter   view comments for the selected item\n  o       open the selected item in your browser\n  b       toggle a bookmark for the selected item\n  /       start a search (type to edit, enter to submit)\n  q       quit hn\n  esc     close help or quit from the list\n  scroll  keep going past the end to load more stories\n  ?       toggle this help\n\nComments:\n  \u{2191} / k   move selection up\n  \u{2193} / j   move selection down\n  pg\u{2193}     page down\n  pg\u{2191}     page up\n  \u{2190} / h   collapse or go to parent\n  \u{2192} / l   expand or go to first child\n  enter   toggle collapse or expand\n  o       open the selected comment in your browser\n  b       toggle a bookmark for the selected comment\n  esc     return to the story list\n";

/// A rectangle on the terminal grid.
#[derive(Clone, Copy, Debug, PartialEq, Eq, Structural)]
pub struct Rect {
    pub x: u16,
    pub y: u16,
    pub width: u16,
    pub height: u16,
}

/// The lines of a text as a line iterator yields them: cut at every line
/// break, one trailing empty piece dropped.
pub open spec fn spec_lines(t: Seq<char>) -> Seq<Seq<char>> {
    if t.len() == 0 {
        Seq::empty()
    } else if t.last() == '\n' {
        spec_split_lines(t).drop_last()
    } else {
        spec_split_lines(t)
    }
}

/// The widest line's character count.
pub open spec fn spec_max_width(ls: Seq<Seq<char>>) -> int
    decreases ls.len(),
{
    if ls.len() == 0 {
        0
    } else if ls.last().len() > spec_max_width(ls.drop_last()) {
        ls.last().len() as int
    } else {
        spec_max_width(ls.drop_last())
    }
}

/// A value cut to the terminal coordinate range.
pub open spec fn spec_sat16(v: int) -> int {
    if v > 65535 {
        65535
    } else {
        v
    }
}

/// The smaller of two values.
pub open spec fn spec_min(a: int, b: int) -> int {
    if a < b {
        a
    } else {
        b
    }
}

/// The larger of two values.
pub open spec fn spec_max(a: int, b: int) -> int {
    if a > b {
        a
    } else {
        b
    }
}

/// Where the help window sits: sized to its text plus a border, clamped
/// into the given area and centred there.
pub open spec fn spec_help_area(area: Rect) -> Rect {
    let ls = spec_lines(HELP_TEXT@);
    let desired_width = spec_max(spec_sat16(spec_max_width(ls) + 2), 1);
    let desired_height = spec_max(spec_sat16(ls.len() as int + 2), 1);
    let available_width = spec_max(area.width - 2, 1);
    let available_height = spec_max(area.height - 2, 1);
    let width = spec_min(spec_min(available_width, desired_width), area.width as int);
    let height = spec_min(spec_min(available_height, desired_height), area.height as int);
    Rect {
        x: (area.x + (area.width - width) / 2) as u16,
        y: (area.y + (area.height - height) / 2) as u16,
        width: width as u16,
        height: height as u16,
    }
}

/// The help overlay: whether it is up, and the status line it replaced.
pub struct HelpView {
    pub message_backup: Option<String>,
    pub visible: bool,
}

impl HelpView {
    /// A hidden overlay.
    pub fn new() -> (r: HelpView)
        ensures
            r.message_backup is None,
            !r.visible,
    {
        HelpView { message_backup: None, visible: false }
    }

    /// Whether the overlay is up.
    pub fn is_visible(&self) -> (r: bool)
        ensures
            r == self.visible,
    {
        self.visible
    }

    /// Keys while the overlay is up: it closes on the help key or escape,
    /// quits on the quit key, and swallows everything else.
    pub fn handle_key(key: KeyEvent) -> (r: Command)
        ensures
            r == spec_help_key_command(key),
    {
        match key.code {
            KeyCode::Char(c) => {
                if c == '?' {
                    Command::HideHelp
                } else if c == 'q' || c == 'Q' {
                    Command::Quit
                } else {
                    Command::Noop
                }
            },
            KeyCode::Esc => Command::HideHelp,
            _ => Command::Noop,
        }
    }

    /// Shows the overlay, backing the status line up and replacing it; a
    /// second show changes nothing.
    pub fn show(&mut self, message: &mut String)
        ensures
            old(self).visible ==> *final(self) == *old(self) && *final(message) == *old(message),
            !old(self).visible ==> final(self).visible && (final(self).message_backup matches Some(
                b,
            ) && b@ == old(message)@) && final(message)@ == HELP_STATUS@,
    {
        if self.visible {
            return;
        }
        self.message_backup = Some(message.clone());
        *message = HELP_STATUS.to_owned();
        self.visible = true;
    }

    /// Dismisses the overlay, restoring the backed-up status line or the
    /// list status; dismissing a hidden overlay changes nothing.
    pub fn dismiss(&mut self, message: &mut String)
        ensures
            !old(self).visible ==> *final(self) == *old(self) && *final(message) == *old(message),
            old(self).visible ==> !final(self).visible && final(self).message_backup is None
                && final(message)@ == (match old(self).message_backup {
                Some(b) => b@,
                None => LIST_STATUS@,
            }),
    {
        if !self.visible {
            return;
        }
        let backup = self.message_backup.take();
        *message = match backup {
            Some(b) => b,
            None => LIST_STATUS.to_owned(),
        };
        self.visible = false;
    }

    /// Computes the help window's rectangle inside the drawing area.
    pub fn help_area(area: Rect) -> (r: Rect)
        requires
            area.x + area.width <= u16::MAX,
            area.y + area.height <= u16::MAX,
        ensures
            r == spec_help_area(area),
    {
        let cs = chars_of(HELP_TEXT);
        let mut pieces = split_lines(&cs);
        let ghost t = HELP_TEXT@;
        if cs.len() == 0 {
            pieces = Vec::new();
            proof {
                assert(pieces.deep_view() =~~= spec_lines(t));
            }
        } else if cs[cs.len() - 1] == '\n' {
            proof {
                assert(cs@.last() == '\n');
            }
            pieces.pop();
            proof {
                assert(pieces.deep_view() =~~= spec_lines(t));
            }
        } else {
            proof {
                assert(pieces.deep_view() =~~= spec_lines(t));
            }
        }
        let ghost ls = spec_lines(t);
        let n = pieces.len();
        let mut maxw: usize = 0;
        let mut i: usize = 0;
        proof {
            assert(ls.take(0) =~~= Seq::<Seq<char>>::empty());
        }
        while i < n
            invariant
                i <= n,
                n == pieces@.len(),
                pieces.deep_view() == ls,
                maxw == spec_max_width(ls.take(i as int)),
            decreases n - i,
        {
            let w = pieces[i].len();
            proof {
                assert(ls.take(i + 1).drop_last() =~~= ls.take(i as int));
                assert(ls.take(i + 1).last() == ls[i as int]);
                assert(ls[i as int] == pieces@[i as int]@);
            }
            if w > maxw {
                maxw = w;
            }
            i = i + 1;
        }
        proof {
            assert(ls.take(n as int) =~~= ls);
        }
        let desired_width: u16 = if maxw >= 65534 {
            65535
        } else {
            (maxw + 2) as u16
        };
        let desired_height: u16 = if n >= 65534 {
            65535
        } else {
            (n + 2) as u16
        };
        let available_width: u16 = if area.width > 2 {
            area.width - 2
        } else {
            1
        };
        let available_height: u16 = if area.height > 2 {
            area.height - 2
        } else {
            1
        };
        let mut width: u16 = if available_width < desired_width {
            available_width
        } else {
            desired_width
        };
        if width > area.width {
            width = area.width;
        }
        let mut height: u16 = if available_height < desired_height {
            available_height
        } else {
            desired_height
        };
        if height > area.height {
            height = area.height;
        }
        let x: u16 = area.x + (area.width - width) / 2;
        let y: u16 = area.y + (area.height - height) / 2;
        Rect { x, y, width, height }
    }
}

/// What a key means while the help overlay is up.
pub open spec fn spec_help_key_command(key: KeyEvent) -> Command {
    match key.code {
        KeyCode::Char(c) => {
            if c == '?' {
                Command::HideHelp
            } else if c == 'q' || c == 'Q' {
                Command::Quit
            } else {
                Command::Noop
            }
        },
        KeyCode::Esc => Command::HideHelp,
        _ => Command::Noop,
    }
}

} // verus!
