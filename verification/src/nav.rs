//! The navigation model: a single logical cursor over the visible tree and
//! the mutators that move it.  `move_down` and `move_up` walk the flattened
//! visible line sequence one step at a time — their contracts say exactly
//! that: the cursor's line index moves by one, clamped at the ends, and
//! nothing else changes.

use vstd::prelude::*;

use crate::flatten::{
    branch_line_count, branch_lines_before, lemma_cursor_line_lt_total, lemma_repo_lines_before_mono,
    repo_line_count, repo_lines_before,
};
use crate::model::{
    bd_has_uuid, branch_eq_except_sel, branch_eq_except_wt, cursor_collapsed, is_default_wt_idx,
    rebuilt_repo, repo_eq_except_branch, repos_eq_except, same_but_cursor, same_but_repos,
    toggled, wt_matches, App, BranchData, BranchNode, PendingLaunch, RepoData, RepoNode,
    SelectedItem, WorktreeInfo, WorktreeState,
};
use vstd::arithmetic::div_mod::{
    lemma_add_mod_noop_right, lemma_mod_add_multiples_vanish, lemma_mod_sub_multiples_vanish,
    lemma_small_mod, lemma_sub_mod_noop_right,
};

verus! {

impl App {
    /// A fresh state over an empty tree, with the given initial filter.
    pub fn new(filter: String) -> (r: App)
        ensures
            r.wf(),
            r.filter == filter,
            r.repos@.len() == 0,
            r.confirm_dialog is None,
            r.pending_launch.pre_commands@.len() == 0,
            r.scroll_offset == 0,
            r.viewport_height == 0,
    {
        App {
            filter,
            repos: Vec::new(),
            selected_repo_idx: 0,
            selected_branch_idx: 0,
            selected_item: SelectedItem::Repo,
            confirm_dialog: None,
            pending_launch: PendingLaunch { pre_commands: Vec::new() },
            scroll_offset: 0,
            viewport_height: 0,
        }
    }

    /// Move the cursor one line down in the visible tree; at the last
    /// visible line (or on an empty tree) nothing changes.
    pub fn move_down(&mut self)
        requires
            old(self).wf(),
        ensures
            same_but_cursor(*old(self), *final(self)),
            final(self).wf(),
            old(self).repos@.len() == 0 ==> final(self).cursor() == old(self).cursor(),
            old(self).repos@.len() > 0 ==> final(self).cursor_line() == (
            if old(self).cursor_line() + 1 < old(self).total_lines() {
                old(self).cursor_line() + 1
            } else {
                old(self).cursor_line()
            }),
    {
        if self.repos.len() == 0 {
            return ;
        }
        let ghost rs = self.repos@;
        let ghost old_line = self.cursor_line();
        let r = self.selected_repo_idx;
        let n_repos = self.repos.len();
        match self.selected_item {
            SelectedItem::Repo => {
                let descend = self.repos[r].expanded && self.repos[r].branches.len() > 0;
                if descend {
                    self.selected_branch_idx = 0;
                    self.selected_item = SelectedItem::Branch;
                    proof {
                        lemma_cursor_line_lt_total(*self);
                    }
                } else if r + 1 < n_repos {
                    self.selected_repo_idx = r + 1;
                    self.selected_branch_idx = 0;
                    proof {
                        assert(repo_line_count(rs[r as int]) == 1);
                        lemma_cursor_line_lt_total(*self);
                    }
                } else {
                    proof {
                        assert(repo_line_count(rs[r as int]) == 1);
                        assert(self.total_lines() == old_line + 1);
                    }
                }
            },
            SelectedItem::Branch => {
                let b = self.selected_branch_idx;
                let repo = &self.repos[r];
                let nb = repo.branches.len();
                let descend = repo.branches[b].expanded && repo.data.branches[b].sessions.len()
                    > 0;
                if descend {
                    self.selected_item = SelectedItem::Session(0);
                    proof {
                        lemma_cursor_line_lt_total(*self);
                    }
                } else if b + 1 < nb {
                    self.selected_branch_idx = b + 1;
                    proof {
                        assert(branch_line_count(rs[r as int], b as int) == 1);
                        lemma_cursor_line_lt_total(*self);
                    }
                } else if r + 1 < n_repos {
                    self.selected_repo_idx = r + 1;
                    self.selected_branch_idx = 0;
                    self.selected_item = SelectedItem::Repo;
                    proof {
                        assert(branch_line_count(rs[r as int], b as int) == 1);
                        assert(branch_lines_before(rs[r as int], nb as int) == branch_lines_before(
                            rs[r as int],
                            b as int,
                        ) + 1);
                        lemma_cursor_line_lt_total(*self);
                    }
                } else {
                    proof {
                        assert(branch_line_count(rs[r as int], b as int) == 1);
                        assert(branch_lines_before(rs[r as int], nb as int) == branch_lines_before(
                            rs[r as int],
                            b as int,
                        ) + 1);
                        assert(self.total_lines() == old_line + 1);
                    }
                }
            },
            SelectedItem::Session(k) => {
                let b = self.selected_branch_idx;
                let repo = &self.repos[r];
                let nb = repo.branches.len();
                let slen = repo.data.branches[b].sessions.len();
                if k + 1 < slen {
                    self.selected_item = SelectedItem::Session(k + 1);
                    proof {
                        lemma_cursor_line_lt_total(*self);
                    }
                } else if b + 1 < nb {
                    self.selected_branch_idx = b + 1;
                    self.selected_item = SelectedItem::Branch;
                    proof {
                        assert(branch_line_count(rs[r as int], b as int) == 1 + slen);
                        lemma_cursor_line_lt_total(*self);
                    }
                } else if r + 1 < n_repos {
                    self.selected_repo_idx = r + 1;
                    self.selected_branch_idx = 0;
                    self.selected_item = SelectedItem::Repo;
                    proof {
                        assert(branch_line_count(rs[r as int], b as int) == 1 + slen);
                        assert(branch_lines_before(rs[r as int], nb as int) == branch_lines_before(
                            rs[r as int],
                            b as int,
                        ) + 1 + slen);
                        lemma_cursor_line_lt_total(*self);
                    }
                } else {
                    proof {
                        assert(branch_line_count(rs[r as int], b as int) == 1 + slen);
                        assert(branch_lines_before(rs[r as int], nb as int) == branch_lines_before(
                            rs[r as int],
                            b as int,
                        ) + 1 + slen);
                        assert(self.total_lines() == old_line + 1);
                    }
                }
            },
        }
    }

    /// Move the cursor one line up in the visible tree; at the first line
    /// (or on an empty tree) nothing changes.
    pub fn move_up(&mut self)
        requires
            old(self).wf(),
        ensures
            same_but_cursor(*old(self), *final(self)),
            final(self).wf(),
            old(self).repos@.len() == 0 ==> final(self).cursor() == old(self).cursor(),
            old(self).repos@.len() > 0 ==> final(self).cursor_line() == (
            if old(self).cursor_line() > 0 {
                (old(self).cursor_line() - 1) as nat
            } else {
                0nat
            }),
    {
        if self.repos.len() == 0 {
            return ;
        }
        let ghost rs = self.repos@;
        let ghost old_line = self.cursor_line();
        let r = self.selected_repo_idx;
        match self.selected_item {
            SelectedItem::Repo => {
                if r > 0 {
                    proof {
                        lemma_repo_lines_before_mono(rs, 0, r as int);
                    }
                    self.selected_repo_idx = r - 1;
                    self.selected_branch_idx = 0;
                    let prev = &self.repos[r - 1];
                    let nb = prev.branches.len();
                    if prev.expanded && nb > 0 {
                        let last = nb - 1;
                        self.selected_branch_idx = last;
                        let slen = prev.data.branches[last].sessions.len();
                        if prev.branches[last].expanded && slen > 0 {
                            self.selected_item = SelectedItem::Session(slen - 1);
                            proof {
                                assert(branch_line_count(rs[r - 1], last as int) == 1 + slen);
                                assert(branch_lines_before(rs[r - 1], nb as int)
                                    == branch_lines_before(rs[r - 1], last as int) + 1 + slen);
                            }
                        } else {
                            self.selected_item = SelectedItem::Branch;
                            proof {
                                assert(branch_line_count(rs[r - 1], last as int) == 1);
                                assert(branch_lines_before(rs[r - 1], nb as int)
                                    == branch_lines_before(rs[r - 1], last as int) + 1);
                            }
                        }
                    } else {
                        proof {
                            assert(repo_line_count(rs[r - 1]) == 1);
                        }
                    }
                }
            },
            SelectedItem::Branch => {
                let b = self.selected_branch_idx;
                if b > 0 {
                    self.selected_branch_idx = b - 1;
                    let repo = &self.repos[r];
                    let slen = repo.data.branches[b - 1].sessions.len();
                    if repo.branches[b - 1].expanded && slen > 0 {
                        self.selected_item = SelectedItem::Session(slen - 1);
                        proof {
                            assert(branch_line_count(rs[r as int], b - 1) == 1 + slen);
                            assert(branch_lines_before(rs[r as int], b as int)
                                == branch_lines_before(rs[r as int], b - 1) + 1 + slen);
                        }
                    } else {
                        proof {
                            assert(branch_line_count(rs[r as int], b - 1) == 1);
                            assert(branch_lines_before(rs[r as int], b as int)
                                == branch_lines_before(rs[r as int], b - 1) + 1);
                        }
                    }
                } else {
                    self.selected_item = SelectedItem::Repo;
                }
            },
            SelectedItem::Session(k) => {
                if k > 0 {
                    self.selected_item = SelectedItem::Session(k - 1);
                } else {
                    self.selected_item = SelectedItem::Branch;
                }
            },
        }
    }

    /// Whether `cycle_worktree` has a branch and a worktree to act on.
    pub open spec fn can_cycle(self) -> bool {
        &&& self.repos@.len() > 0
        &&& self.cur_repo().data.worktrees@.len() > 0
        &&& self.selected_branch_idx < self.cur_repo().branches@.len()
    }

    /// Rotate the current branch's bound worktree index by `delta`, wrapping
    /// with proper (Euclidean) modulo in both directions; a no-op when there
    /// is no branch or no worktree to bind.
    pub fn cycle_worktree(&mut self, delta: i32)
        requires
            old(self).wf(),
        ensures
            final(self).wf(),
            cycle_transition(*old(self), *final(self), delta),
    {
        if self.repos.len() == 0 {
            return ;
        }
        let r = self.selected_repo_idx;
        let count = self.repos[r].data.worktrees.len();
        if count == 0 {
            return ;
        }
        let b = self.selected_branch_idx;
        if b >= self.repos[r].branches.len() {
            return ;
        }
        let cur = self.repos[r].branches[b].selected_worktree_idx;
        let ghost n = count as int;
        let ghost c = cur as int;
        let ghost target = (c + delta as int) % n;
        proof {
            assert(self.repos@[r as int].wf());
            assert(cur < count);
        }
        let new_idx: usize = if delta >= 0 {
            let step = (delta as usize) % count;
            proof {
                lemma_add_mod_noop_right(c, delta as int, n);
                if cur >= count - step {
                    lemma_mod_sub_multiples_vanish(c + step, n);
                    lemma_small_mod((c + step - n) as nat, n as nat);
                } else {
                    lemma_small_mod((c + step) as nat, n as nat);
                }
            }
            if cur >= count - step {
                cur - (count - step)
            } else {
                cur + step
            }
        } else {
            let mag = (-(delta as i64)) as usize;
            let step = mag % count;
            proof {
                lemma_sub_mod_noop_right(c, mag as int, n);
                if step <= cur {
                    lemma_small_mod((c - step) as nat, n as nat);
                } else {
                    lemma_mod_add_multiples_vanish(c - step, n);
                    lemma_small_mod((c + n - step) as nat, n as nat);
                }
            }
            if step <= cur {
                cur - step
            } else {
                cur + (count - step)
            }
        };
        proof {
            assert(new_idx as int == target);
            assert(new_idx < count);
        }
        self.set_branch_worktree_idx(r, b, new_idx);
        proof {
            let a = *old(self);
            let orep = a.repos@[r as int];
            let nrep = self.repos@[r as int];
            assert(orep.wf());
            lemma_wf_in_same_sessions(
                orep.branches@[b as int],
                nrep.branches@[b as int],
                orep.data.branches@[b as int],
                orep.data.worktrees@.len(),
            );
            lemma_repo_wf_after_branch_update(orep, nrep, b as int);
            lemma_all_wf_after_repo_update(a.repos@, self.repos@, r as int);
        }
    }

    /// Replace the bound worktree index of branch `b` of repository `r`,
    /// leaving everything else as it was.
    fn set_branch_worktree_idx(&mut self, r: usize, b: usize, new_idx: usize)
        requires
            r < old(self).repos@.len(),
            b < old(self).repos@[r as int].branches@.len(),
        ensures
            same_but_repos(*old(self), *final(self)),
            repos_eq_except(old(self).repos@, final(self).repos@, r as int),
            repo_eq_except_branch(
                old(self).repos@[r as int],
                final(self).repos@[r as int],
                b as int,
            ),
            branch_eq_except_wt(
                old(self).repos@[r as int].branches@[b as int],
                final(self).repos@[r as int].branches@[b as int],
            ),
            final(self).repos@[r as int].branches@[b as int].selected_worktree_idx == new_idx,
            final(self).repos@.len() == old(self).repos@.len(),
            final(self).repos@[r as int].branches@.len() == old(self).repos@[r as int].branches@.len(),
    {
        let mut repo = self.repos.remove(r);
        let mut branch = repo.branches.remove(b);
        branch.selected_worktree_idx = new_idx;
        repo.branches.insert(b, branch);
        self.repos.insert(r, repo);
        proof {
            assert(final(self).repos@[r as int].branches@ =~= old(self).repos@[r as int].branches@.update(
                b as int,
                final(self).repos@[r as int].branches@[b as int],
            ));
            assert(final(self).repos@ =~= old(self).repos@.update(
                r as int,
                final(self).repos@[r as int],
            ));
        }
    }

    /// Flip the expand flag of the repository or branch under the cursor; a
    /// no-op on a session or an empty tree.
    pub fn toggle_expand(&mut self)
        requires
            old(self).wf(),
        ensures
            final(self).wf(),
            same_but_repos(*old(self), *final(self)),
            old(self).repos@.len() == 0 ==> final(self).repos == old(self).repos,
            old(self).repos@.len() > 0 ==> {
                let r = old(self).selected_repo_idx as int;
                let b = old(self).selected_branch_idx as int;
                match old(self).selected_item {
                    SelectedItem::Repo => {
                        &&& repos_eq_except(old(self).repos@, final(self).repos@, r)
                        &&& final(self).repos@[r] == (RepoNode {
                            expanded: !old(self).repos@[r].expanded,
                            ..old(self).repos@[r]
                        })
                    },
                    SelectedItem::Branch => {
                        &&& repos_eq_except(old(self).repos@, final(self).repos@, r)
                        &&& repo_eq_except_branch(old(self).repos@[r], final(self).repos@[r], b)
                        &&& final(self).repos@[r].branches@[b] == (BranchNode {
                            expanded: !old(self).repos@[r].branches@[b].expanded,
                            ..old(self).repos@[r].branches@[b]
                        })
                    },
                    SelectedItem::Session(_) => final(self).repos == old(self).repos,
                }
            },
    {
        if self.repos.len() == 0 {
            return ;
        }
        let r = self.selected_repo_idx;
        match self.selected_item {
            SelectedItem::Repo => {
                let mut repo = self.repos.remove(r);
                repo.expanded = !repo.expanded;
                self.repos.insert(r, repo);
                proof {
                    assert(self.repos@ =~= old(self).repos@.update(
                        r as int,
                        self.repos@[r as int],
                    ));
                    assert(old(self).repos@[r as int].wf());
                    assert(self.repos@[r as int].wf());
                    lemma_all_wf_after_repo_update(old(self).repos@, self.repos@, r as int);
                }
            },
            SelectedItem::Branch => {
                let b = self.selected_branch_idx;
                let mut repo = self.repos.remove(r);
                let mut branch = repo.branches.remove(b);
                branch.expanded = !branch.expanded;
                repo.branches.insert(b, branch);
                self.repos.insert(r, repo);
                proof {
                    assert(self.repos@[r as int].branches@ =~= old(self).repos@[r as int].branches@.update(
                        b as int,
                        self.repos@[r as int].branches@[b as int],
                    ));
                    assert(self.repos@ =~= old(self).repos@.update(
                        r as int,
                        self.repos@[r as int],
                    ));
                    let orep = old(self).repos@[r as int];
                    let nrep = self.repos@[r as int];
                    assert(orep.wf());
                    lemma_wf_in_same_sessions(
                        orep.branches@[b as int],
                        nrep.branches@[b as int],
                        orep.data.branches@[b as int],
                        orep.data.worktrees@.len(),
                    );
                    lemma_repo_wf_after_branch_update(orep, nrep, b as int);
                    lemma_all_wf_after_repo_update(old(self).repos@, self.repos@, r as int);
                }
            },
            SelectedItem::Session(_) => {
            },
        }
    }

    /// Insert the session under the cursor into the branch's selection set,
    /// or remove it when already selected; a no-op unless the cursor is on a
    /// session.
    pub fn toggle_session(&mut self)
        requires
            old(self).wf(),
        ensures
            final(self).wf(),
            toggle_session_transition(*old(self), *final(self)),
    {
        let k: usize = match self.selected_item {
            SelectedItem::Session(k) => k,
            _ => { return ; },
        };
        let r = self.selected_repo_idx;
        let b = self.selected_branch_idx;
        let uuid = self.repos[r].data.branches[b].sessions[k].uuid.clone();
        let ghost id = uuid@;
        let ghost old_branch = self.cur_branch_node();
        let mut repo = self.repos.remove(r);
        let mut branch = repo.branches.remove(b);
        let n = branch.selected_sessions.len();
        let mut i: usize = 0;
        let mut found: bool = false;
        while i < n && !found
            invariant
                n == branch.selected_sessions@.len(),
                i <= n,
                !found ==> forall|m: int|
                    0 <= m < i ==> (#[trigger] branch.selected_sessions@[m])@ != id,
                found ==> i < n && branch.selected_sessions@[i as int]@ == id,
                id == uuid@,
            decreases n - i + (if found { 0int } else { 1int }),
        {
            if branch.selected_sessions[i] == uuid {
                found = true;
            } else {
                i = i + 1;
            }
        }
        if found {
            branch.selected_sessions.remove(i);
            proof {
                lemma_remove_unique_toggles(old_branch, branch, i as int, id);
            }
        } else {
            let ghost u = uuid;
            branch.selected_sessions.push(uuid);
            proof {
                assert(branch.sel_unique()) by {
                    assert(forall|m: int|
                        0 <= m < old_branch.selected_sessions@.len()
                            ==> (#[trigger] branch.selected_sessions@[m])
                            == old_branch.selected_sessions@[m]);
                }
                assert(!old_branch.sel_contains(id));
                assert(branch.sel_contains(id)) by {
                    assert(branch.selected_sessions@[n as int]@ == id);
                }
                assert forall|x: Seq<char>| #[trigger]
                    branch.sel_contains(x) == old_branch.selected_set().insert(id).contains(
                        x,
                    ) by {
                    if x == id {
                    } else {
                        lemma_push_keeps_others(old_branch, branch, u, x);
                    }
                }
                assert(branch.selected_set() =~= toggled(old_branch.selected_set(), id));
            }
        }
        repo.branches.insert(b, branch);
        self.repos.insert(r, repo);
        proof {
            assert(self.repos@[r as int].branches@ =~= old(self).repos@[r as int].branches@.update(
                b as int,
                self.repos@[r as int].branches@[b as int],
            ));
            assert(self.repos@ =~= old(self).repos@.update(r as int, self.repos@[r as int]));
            let orep = old(self).repos@[r as int];
            let nrep = self.repos@[r as int];
            let obr = orep.branches@[b as int];
            let nbr = nrep.branches@[b as int];
            let bd = orep.data.branches@[b as int];
            assert(orep.wf());
            assert(obr.wf_in(bd, orep.data.worktrees@.len()));
            assert forall|ii: int| 0 <= ii < nbr.selected_sessions@.len() implies bd_has_uuid(
                bd,
                (#[trigger] nbr.selected_sessions@[ii])@,
            ) by {
                if found {
                    if ii < i {
                        assert(nbr.selected_sessions@[ii] == obr.selected_sessions@[ii]);
                        assert(bd_has_uuid(bd, obr.selected_sessions@[ii]@));
                    } else {
                        assert(nbr.selected_sessions@[ii] == obr.selected_sessions@[ii + 1]);
                        assert(bd_has_uuid(bd, obr.selected_sessions@[ii + 1]@));
                    }
                } else {
                    if ii < obr.selected_sessions@.len() {
                        assert(nbr.selected_sessions@[ii] == obr.selected_sessions@[ii]);
                        assert(bd_has_uuid(bd, obr.selected_sessions@[ii]@));
                    } else {
                        assert(nbr.selected_sessions@[ii]@ == id);
                        assert(bd.sessions@[k as int].uuid@ == id);
                        assert(bd_has_uuid(bd, id));
                    }
                }
            }
            assert(nbr.wf_in(bd, orep.data.worktrees@.len()));
            lemma_repo_wf_after_branch_update(orep, nrep, b as int);
            lemma_all_wf_after_repo_update(old(self).repos@, self.repos@, r as int);
        }
    }

    /// Move the cursor up by `lines` lines (stopping at the top) and keep
    /// it visible.
    pub fn scroll_up(&mut self, lines: usize)
        requires
            old(self).wf(),
            old(self).total_lines() <= usize::MAX,
        ensures
            final(self).wf(),
            crate::model::same_but_cursor_and_scroll(*old(self), *final(self)),
            old(self).repos@.len() == 0 ==> final(self).cursor() == old(self).cursor(),
            old(self).repos@.len() > 0 ==> final(self).cursor_line() == (
            if old(self).cursor_line() >= lines as nat {
                (old(self).cursor_line() - lines) as nat
            } else {
                0nat
            }),
            old(self).viewport_height >= 1 ==> final(self).scroll_offset <= final(self).sel_line_or_zero() < final(self).scroll_offset + old(self).viewport_height,
    {
        let mut i: usize = 0;
        while i < lines
            invariant
                self.wf(),
                same_but_cursor(*old(self), *self),
                i <= lines,
                old(self).repos@.len() == 0 ==> self.cursor() == old(self).cursor(),
                old(self).repos@.len() > 0 ==> self.cursor_line() == (
                if old(self).cursor_line() >= i as nat {
                    (old(self).cursor_line() - i) as nat
                } else {
                    0nat
                }),
            decreases lines - i,
        {
            self.move_up();
            i = i + 1;
        }
        self.ensure_selection_visible();
    }

    /// Move the cursor down by `lines` lines (stopping at the last visible
    /// line) and keep it visible.
    pub fn scroll_down(&mut self, lines: usize)
        requires
            old(self).wf(),
            old(self).total_lines() <= usize::MAX,
        ensures
            final(self).wf(),
            crate::model::same_but_cursor_and_scroll(*old(self), *final(self)),
            old(self).repos@.len() == 0 ==> final(self).cursor() == old(self).cursor(),
            old(self).repos@.len() > 0 ==> final(self).cursor_line() == (
            if old(self).cursor_line() + lines < old(self).total_lines() {
                (old(self).cursor_line() + lines) as nat
            } else {
                (old(self).total_lines() - 1) as nat
            }),
            old(self).viewport_height >= 1 ==> final(self).scroll_offset <= final(self).sel_line_or_zero() < final(self).scroll_offset + old(self).viewport_height,
    {
        proof {
            if self.repos@.len() > 0 {
                lemma_cursor_line_lt_total(*self);
            }
        }
        let mut i: usize = 0;
        while i < lines
            invariant
                self.wf(),
                same_but_cursor(*old(self), *self),
                i <= lines,
                old(self).repos@.len() == 0 ==> self.cursor() == old(self).cursor(),
                old(self).repos@.len() > 0 ==> self.cursor_line() == (
                if old(self).cursor_line() + i < old(self).total_lines() {
                    (old(self).cursor_line() + i) as nat
                } else {
                    (old(self).total_lines() - 1) as nat
                }),
            decreases lines - i,
        {
            self.move_down();
            i = i + 1;
        }
        self.ensure_selection_visible();
    }

    /// Jump to the first line and reset the scroll window to the top.
    pub fn scroll_to_top(&mut self)
        requires
            old(self).wf(),
        ensures
            final(self).wf(),
            crate::model::same_but_cursor_and_scroll(*old(self), *final(self)),
            final(self).selected_repo_idx == 0,
            final(self).selected_branch_idx == 0,
            final(self).selected_item == SelectedItem::Repo,
            final(self).scroll_offset == 0,
            final(self).cursor_line() == 0,
    {
        self.selected_repo_idx = 0;
        self.selected_branch_idx = 0;
        self.selected_item = SelectedItem::Repo;
        self.scroll_offset = 0;
    }

    /// Jump to the last visible line and keep it inside the viewport; a
    /// no-op on an empty tree.
    pub fn scroll_to_bottom(&mut self)
        requires
            old(self).wf(),
            old(self).total_lines() <= usize::MAX,
        ensures
            final(self).wf(),
            crate::model::same_but_cursor_and_scroll(*old(self), *final(self)),
            old(self).repos@.len() == 0 ==> *final(self) == *old(self),
            old(self).repos@.len() > 0 ==> final(self).cursor_line() == (old(self).total_lines() - 1) as nat,
            old(self).repos@.len() > 0 && old(self).viewport_height >= 1 ==> final(self).scroll_offset <= final(self).cursor_line() < final(self).scroll_offset + old(self).viewport_height,
    {
        if self.repos.len() == 0 {
            return ;
        }
        let total = self.visible_line_count();
        let mut line = self.selected_line_index();
        proof {
            lemma_cursor_line_lt_total(*self);
        }
        while line + 1 < total
            invariant
                self.wf(),
                same_but_cursor(*old(self), *self),
                self.repos@.len() > 0,
                total == self.total_lines(),
                total <= usize::MAX,
                line == self.cursor_line(),
                line < total,
            decreases total - line,
        {
            self.move_down();
            line = self.selected_line_index();
            proof {
                lemma_cursor_line_lt_total(*self);
            }
        }
        proof {
            lemma_cursor_line_lt_total(*self);
        }
        self.ensure_selection_visible();
    }

    /// Rebuild the tree wholesale from a fresh query result (`data`) and
    /// the probed runtime state of every worktree (`states`, aligned by
    /// index with each repository's worktree list).  Every node comes back
    /// expanded with no sessions selected and each branch bound to its
    /// default worktree; the cursor collapses to the nearest valid
    /// position and any confirmation overlay is discarded.
    pub fn refresh_data(&mut self, data: Vec<RepoData>, states: Vec<Vec<WorktreeState>>)
        requires
            old(self).wf(),
            states@.len() == data@.len(),
            forall|i: int|
                0 <= i < data@.len() ==> (#[trigger] states@[i])@.len()
                    == data@[i].worktrees@.len(),
        ensures
            final(self).wf(),
            final(self).filter == old(self).filter,
            final(self).pending_launch == old(self).pending_launch,
            final(self).scroll_offset == old(self).scroll_offset,
            final(self).viewport_height == old(self).viewport_height,
            final(self).confirm_dialog is None,
            final(self).repos@.len() == data@.len(),
            forall|i: int|
                0 <= i < data@.len() ==> rebuilt_repo(
                    #[trigger] final(self).repos@[i],
                    data@[i],
                    states@[i],
                ),
            cursor_collapsed(*old(self), *final(self)),
    {
        let ghost d0 = data@;
        let ghost s0 = states@;
        let mut data = data;
        let mut states = states;
        let mut nodes: Vec<RepoNode> = Vec::new();
        while data.len() > 0
            invariant
                data@.len() == states@.len(),
                nodes@.len() + data@.len() == d0.len(),
                s0.len() == d0.len(),
                data@ =~= d0.subrange(nodes@.len() as int, d0.len() as int),
                states@ =~= s0.subrange(nodes@.len() as int, s0.len() as int),
                forall|i: int|
                    0 <= i < d0.len() ==> (#[trigger] s0[i])@.len() == d0[i].worktrees@.len(),
                forall|m: int|
                    0 <= m < nodes@.len() ==> rebuilt_repo(#[trigger] nodes@[m], d0[m], s0[m]),
            decreases data@.len(),
        {
            let ghost done = nodes@.len() as int;
            let d = data.remove(0);
            let st = states.remove(0);
            proof {
                assert(d == d0[done]);
                assert(st == s0[done]);
            }
            let mut bvec: Vec<BranchNode> = Vec::new();
            let nbr = d.branches.len();
            let mut j: usize = 0;
            while j < nbr
                invariant
                    nbr == d.branches@.len(),
                    j <= nbr,
                    bvec@.len() == j,
                    forall|m: int|
                        0 <= m < j ==> {
                            let bn = #[trigger] bvec@[m];
                            &&& bn.expanded
                            &&& bn.selected_sessions@.len() == 0
                            &&& is_default_wt_idx(
                                d.worktrees@,
                                d.branches@[m].branch@,
                                bn.selected_worktree_idx as int,
                            )
                        },
                decreases nbr - j,
            {
                let idx = default_worktree_idx(&d.worktrees, &d.branches[j].branch);
                bvec.push(
                    BranchNode {
                        selected_worktree_idx: idx,
                        selected_sessions: Vec::new(),
                        expanded: true,
                    },
                );
                j = j + 1;
            }
            let node = RepoNode { data: d, branches: bvec, worktree_states: st, expanded: true };
            nodes.push(node);
        }
        self.repos = nodes;
        self.confirm_dialog = None;
        if self.selected_repo_idx >= self.repos.len() {
            self.selected_repo_idx = 0;
        }
        if self.repos.len() == 0 {
            self.selected_branch_idx = 0;
            self.selected_item = SelectedItem::Repo;
        } else {
            let r = self.selected_repo_idx;
            let nb = self.repos[r].branches.len();
            if self.selected_branch_idx >= nb {
                self.selected_branch_idx = 0;
            }
            match self.selected_item {
                SelectedItem::Repo => {
                    self.selected_branch_idx = 0;
                },
                SelectedItem::Branch => {
                    if nb == 0 {
                        self.selected_branch_idx = 0;
                        self.selected_item = SelectedItem::Repo;
                    }
                },
                SelectedItem::Session(k) => {
                    if nb == 0 {
                        self.selected_branch_idx = 0;
                        self.selected_item = SelectedItem::Repo;
                    } else {
                        let bi = self.selected_branch_idx;
                        if k >= self.repos[r].data.branches[bi].sessions.len() {
                            self.selected_item = SelectedItem::Branch;
                        }
                    }
                },
            }
        }
        proof {
            assert forall|i: int| 0 <= i < self.repos@.len() implies (
            #[trigger] self.repos@[i]).wf() by {
                assert(rebuilt_repo(self.repos@[i], d0[i], s0[i]));
            }
        }
    }
}

/// The first worktree in the list with this branch checked out, or 0 when
/// no worktree has it.
fn default_worktree_idx(wts: &Vec<WorktreeInfo>, branch: &String) -> (r: usize)
    ensures
        is_default_wt_idx(wts@, branch@, r as int),
{
    let n = wts.len();
    let mut i: usize = 0;
    while i < n
        invariant
            n == wts@.len(),
            i <= n,
            forall|j: int| 0 <= j < i ==> !wt_matches(#[trigger] wts@[j], branch@),
        decreases n - i,
    {
        let here = match &wts[i].checked_out_branch {
            Some(b) => *b == *branch,
            None => false,
        };
        if here {
            return i;
        }
        i = i + 1;
    }
    0
}

/// What `cycle_worktree(delta)` does: when there is a branch and at least
/// one worktree, the current branch's bound worktree index rotates by
/// `delta` modulo the worktree count (Euclidean, so negative deltas wrap
/// properly), and nothing else changes.
pub open spec fn cycle_transition(pre: App, post: App, delta: i32) -> bool {
    &&& same_but_repos(pre, post)
    &&& !pre.can_cycle() ==> post.repos == pre.repos
    &&& pre.can_cycle() ==> {
        let r = pre.selected_repo_idx as int;
        let b = pre.selected_branch_idx as int;
        let n = pre.cur_repo().data.worktrees@.len() as int;
        &&& repos_eq_except(pre.repos@, post.repos@, r)
        &&& repo_eq_except_branch(pre.repos@[r], post.repos@[r], b)
        &&& branch_eq_except_wt(pre.cur_branch_node(), post.cur_branch_node())
        &&& post.cur_branch_node().selected_worktree_idx == (
        pre.cur_branch_node().selected_worktree_idx + delta as int) % n
    }
}

/// What `toggle_session` does: with the cursor on a session, that
/// session's identifier is toggled in the branch's selection set — removed
/// when present, inserted when absent — and nothing else changes; on any
/// other cursor nothing happens.
pub open spec fn toggle_session_transition(pre: App, post: App) -> bool {
    &&& same_but_repos(pre, post)
    &&& match pre.selected_item {
        SelectedItem::Session(k) => {
            let r = pre.selected_repo_idx as int;
            let b = pre.selected_branch_idx as int;
            let id = pre.cur_branch_data().sessions@[k as int].uuid@;
            &&& repos_eq_except(pre.repos@, post.repos@, r)
            &&& repo_eq_except_branch(pre.repos@[r], post.repos@[r], b)
            &&& branch_eq_except_sel(pre.cur_branch_node(), post.cur_branch_node())
            &&& post.cur_branch_node().selected_set() == toggled(
                pre.cur_branch_node().selected_set(),
                id,
            )
        },
        _ => post.repos == pre.repos,
    }
}

/// Replacing one repository node with a well-formed one keeps the whole

/// Replacing one repository node with a well-formed one keeps the whole

/// Replacing one repository node with a well-formed one keeps the whole
/// sequence well-formed.
proof fn lemma_all_wf_after_repo_update(a: Seq<RepoNode>, b: Seq<RepoNode>, r: int)
    requires
        forall|i: int| 0 <= i < a.len() ==> (#[trigger] a[i]).wf(),
        repos_eq_except(a, b, r),
        0 <= r < b.len(),
        b[r].wf(),
    ensures
        forall|i: int| 0 <= i < b.len() ==> (#[trigger] b[i]).wf(),
{
}

/// A repository stays well-formed when one of its branch nodes is replaced
/// by a node that is well-formed for the same branch data.
proof fn lemma_repo_wf_after_branch_update(x: RepoNode, y: RepoNode, j: int)
    requires
        x.wf(),
        repo_eq_except_branch(x, y, j),
        0 <= j < y.branches@.len(),
        y.branches@[j].wf_in(y.data.branches@[j], y.data.worktrees@.len()),
    ensures
        y.wf(),
{
    assert forall|m: int| 0 <= m < y.branches@.len() implies (#[trigger] y.branches@[m]).wf_in(
        y.data.branches@[m],
        y.data.worktrees@.len(),
    ) by {
        if m != j {
            assert(y.branches@[m] == x.branches@[m]);
            assert(x.branches@[m].wf_in(x.data.branches@[m], x.data.worktrees@.len()));
        }
    }
}

/// Well-formedness of a branch node carries over to a node with the same
/// selection list, provided its bound worktree index is in range.
proof fn lemma_wf_in_same_sessions(x: BranchNode, y: BranchNode, bd: BranchData, n: nat)
    requires
        x.wf_in(bd, n),
        y.selected_sessions == x.selected_sessions,
        if n > 0 {
            y.selected_worktree_idx < n
        } else {
            y.selected_worktree_idx == 0
        },
    ensures
        y.wf_in(bd, n),
{
    assert(y.selected_sessions@ == x.selected_sessions@);
    assert forall|i2: int, j2: int| 0 <= i2 < j2 < y.selected_sessions@.len() implies (
    #[trigger] y.selected_sessions@[i2])@ != (#[trigger] y.selected_sessions@[j2])@ by {
        assert(y.selected_sessions@[i2] == x.selected_sessions@[i2]);
        assert(y.selected_sessions@[j2] == x.selected_sessions@[j2]);
    }
    assert forall|i2: int| 0 <= i2 < y.selected_sessions@.len() implies bd_has_uuid(
        bd,
        (#[trigger] y.selected_sessions@[i2])@,
    ) by {
        assert(y.selected_sessions@[i2] == x.selected_sessions@[i2]);
        assert(bd_has_uuid(bd, x.selected_sessions@[i2]@));
    }
}

/// Removing the (unique) occurrence of `id` at index `i` from a selection
/// list turns its selection set into the set with `id` removed.
proof fn lemma_remove_unique_toggles(before: BranchNode, after: BranchNode, i: int, id: Seq<char>)
    requires
        before.sel_unique(),
        0 <= i < before.selected_sessions@.len(),
        before.selected_sessions@[i]@ == id,
        after.selected_sessions@ == before.selected_sessions@.remove(i),
    ensures
        after.sel_unique(),
        after.selected_set() == toggled(before.selected_set(), id),
{
    let bs = before.selected_sessions@;
    let as_ = after.selected_sessions@;
    assert(before.sel_contains(id));
    assert forall|m: int, p: int| 0 <= m < p < as_.len() implies (#[trigger] as_[m])@
        != (#[trigger] as_[p])@ by {
        if p < i {
            assert(as_[m] == bs[m] && as_[p] == bs[p]);
        } else if m < i {
            assert(as_[m] == bs[m] && as_[p] == bs[p + 1]);
        } else {
            assert(as_[m] == bs[m + 1] && as_[p] == bs[p + 1]);
        }
    }
    assert forall|x: Seq<char>| #[trigger] after.sel_contains(x) implies before.selected_set(
    ).remove(id).contains(x) by {
        let m = choose|m: int| 0 <= m < as_.len() && (#[trigger] as_[m])@ == x;
        if m < i {
            assert(bs[m]@ == x);
        } else {
            assert(bs[m + 1]@ == x);
        }
        assert(before.sel_contains(x));
        if x == id {
            if m < i {
                assert(bs[m]@ == bs[i]@);
                assert(false);
            } else {
                assert(bs[m + 1]@ == bs[i]@);
                assert(false);
            }
        }
    }
    assert forall|x: Seq<char>| before.selected_set().remove(id).contains(x) implies #[trigger]
        after.sel_contains(x) by {
        let m = choose|m: int| 0 <= m < bs.len() && (#[trigger] bs[m])@ == x;
        if m < i {
            assert(as_[m]@ == x);
        } else if m > i {
            assert(as_[m - 1]@ == x);
        } else {
            assert(x == id);
        }
    }
    assert(after.selected_set() =~= before.selected_set().remove(id));
}

/// Pushing a new identifier keeps every other identifier's membership.
proof fn lemma_push_keeps_others(before: BranchNode, after: BranchNode, u: String, x: Seq<char>)
    requires
        after.selected_sessions@ == before.selected_sessions@.push(u),
        x != u@,
    ensures
        after.sel_contains(x) == before.sel_contains(x),
{
    let bs = before.selected_sessions@;
    let as_ = after.selected_sessions@;
    if before.sel_contains(x) {
        let m = choose|m: int| 0 <= m < bs.len() && (#[trigger] bs[m])@ == x;
        assert(as_[m]@ == x);
        assert(after.sel_contains(x));
    }
    if after.sel_contains(x) {
        let m = choose|m: int| 0 <= m < as_.len() && (#[trigger] as_[m])@ == x;
        assert(m < bs.len()) by {
            if m == bs.len() {
                assert(as_[m] == u);
            }
        }
        assert(bs[m]@ == x);
        assert(before.sel_contains(x));
    }
}

} // verus!
