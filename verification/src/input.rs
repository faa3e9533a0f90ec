//! The input dispatcher: one logical key action is translated into exactly
//! one state transition.  While the confirmation overlay is up, every input
//! goes to the confirmation handler and all other mutators are refused —
//! the guard sits here, once, not in each mutator.  Filter edits report
//! `true` in the second component: the caller must then re-query the data
//! source and call `refresh_data`.

use vstd::prelude::*;

use crate::launch::{confirm_key_transition, confirm_transition};
use crate::model::{same_but_cursor_and_scroll, same_but_filter, Action, App, Key};
use crate::nav::{cycle_transition, toggle_session_transition};
use crate::text::{pop_char, push_char};

verus! {

/// The cursor's line after one step up: one less, clamped at the top.
pub open spec fn line_up(pre: App) -> nat {
    if pre.cursor_line() > 0 {
        (pre.cursor_line() - 1) as nat
    } else {
        0nat
    }
}

/// The cursor's line after one step down: one more, clamped at the last
/// visible line.
pub open spec fn line_down(pre: App) -> nat {
    if pre.cursor_line() + 1 < pre.total_lines() {
        pre.cursor_line() + 1
    } else {
        pre.cursor_line()
    }
}

/// The scroll window contains the cursor's line (whenever there is a
/// window at all).
pub open spec fn viewport_ok(a: App) -> bool {
    a.viewport_height >= 1 ==> a.scroll_offset <= a.sel_line_or_zero() < a.scroll_offset
        + a.viewport_height
}

impl App {
    /// Dispatch one logical key action.  Returns the action to take and
    /// whether the filter changed, in which case the caller re-queries the
    /// data source and refreshes the tree.
    pub fn handle_key(&mut self, key: Key) -> (r: (Action, bool))
        requires
            old(self).wf(),
            old(self).total_lines() <= usize::MAX,
        ensures
            final(self).wf(),
            old(self).confirm_dialog is Some ==> {
                &&& r.1 == false
                &&& confirm_key_transition(*old(self), *final(self), key, r.0)
            },
            old(self).confirm_dialog is None ==> {
                &&& (key == Key::Up || key == Key::Down) ==> {
                    &&& r == (Action::Continue, false)
                    &&& same_but_cursor_and_scroll(*old(self), *final(self))
                    &&& old(self).repos@.len() == 0 ==> final(self).cursor() == old(
                        self,
                    ).cursor()
                    &&& old(self).repos@.len() > 0 ==> final(self).cursor_line() == (
                    if key == Key::Up {
                        line_up(*old(self))
                    } else {
                        line_down(*old(self))
                    })
                    &&& viewport_ok(*final(self))
                }
                &&& key == Key::Left ==> r == (Action::Continue, false) && cycle_transition(
                    *old(self),
                    *final(self),
                    -1i32,
                )
                &&& key == Key::Right ==> r == (Action::Continue, false) && cycle_transition(
                    *old(self),
                    *final(self),
                    1i32,
                )
                &&& key == Key::Enter ==> r.1 == false && confirm_transition(
                    *old(self),
                    *final(self),
                    r.0,
                )
                &&& key == Key::Esc ==> {
                    if old(self).filter@.len() > 0 {
                        &&& r == (Action::Continue, true)
                        &&& same_but_filter(*old(self), *final(self))
                        &&& final(self).filter@.len() == 0
                    } else {
                        &&& r == (Action::Continue, false)
                        &&& *final(self) == *old(self)
                    }
                }
                &&& key == Key::Backspace ==> {
                    &&& r == (Action::Continue, true)
                    &&& same_but_filter(*old(self), *final(self))
                    &&& final(self).filter@ == (if old(self).filter@.len() > 0 {
                        old(self).filter@.drop_last()
                    } else {
                        old(self).filter@
                    })
                }
                &&& (forall|c: char| key == Key::Char(c) ==> {
                    if c == ' ' && old(self).filter@.len() == 0 {
                        &&& r == (Action::Continue, false)
                        &&& toggle_session_transition(*old(self), *final(self))
                    } else {
                        &&& r == (Action::Continue, true)
                        &&& same_but_filter(*old(self), *final(self))
                        &&& final(self).filter@ == old(self).filter@.push(c)
                    }
                })
                &&& key == Key::Other ==> r == (Action::Continue, false) && *final(self) == *old(
                    self,
                )
            },
    {
        if self.confirm_dialog.is_some() {
            let a = self.handle_confirm_key(key);
            return (a, false);
        }
        match key {
            Key::Up => {
                self.move_up();
                self.ensure_selection_visible();
                (Action::Continue, false)
            },
            Key::Down => {
                self.move_down();
                self.ensure_selection_visible();
                (Action::Continue, false)
            },
            Key::Left => {
                self.cycle_worktree(-1);
                (Action::Continue, false)
            },
            Key::Right => {
                self.cycle_worktree(1);
                (Action::Continue, false)
            },
            Key::Enter => {
                let a = self.confirm_selection();
                (a, false)
            },
            Key::Esc => {
                if !self.filter.as_str().is_empty() {
                    self.filter = String::new();
                    (Action::Continue, true)
                } else {
                    (Action::Continue, false)
                }
            },
            Key::Backspace => {
                let _popped = pop_char(&mut self.filter);
                (Action::Continue, true)
            },
            Key::Char(c) => {
                if c == ' ' && self.filter.as_str().is_empty() {
                    self.toggle_session();
                    (Action::Continue, false)
                } else {
                    push_char(&mut self.filter, c);
                    (Action::Continue, true)
                }
            },
            Key::Other => (Action::Continue, false),
        }
    }
}

} // verus!
