//! The launch pipeline: confirming the current selection resolves pending
//! worktree-state remediation (undo a paused-work marker, check the branch
//! out, or ask before snapshotting uncommitted changes) and either reports
//! ready-to-launch or opens a confirmation overlay.  The resulting queue of
//! remediation commands and the per-session launch descriptors are computed
//! here; running them is the surrounding application's job.

use vstd::prelude::*;
use vstd::string::*;

use crate::model::{
    bd_has_uuid, repos_eq_except, wt_matches, Action, App, BranchData, ConfirmDialog, Key,
    PendingLaunch, RepoNode, SelectedItem, SessionData,
};
use crate::text::{truncate, truncated};

verus! {

/// The queued remediation commands, as character sequences.
pub open spec fn cmds_view(p: PendingLaunch) -> Seq<Seq<char>> {
    p.pre_commands@.map_values(|s: String| s@)
}

/// The command that undoes a paused-work marker commit.
pub open spec fn undo_wip_cmd() -> Seq<char> {
    "git reset --soft HEAD~1"@
}

/// The command that checks the given branch out.
pub open spec fn checkout_cmd(branch: Seq<char>) -> Seq<char> {
    "git checkout "@ + branch
}

/// The command that snapshots uncommitted changes as a paused-work marker.
pub open spec fn create_wip_cmd() -> Seq<char> {
    "git add -A && git commit -m 'WIP: paused work'"@
}

/// The confirmation prompt shown for a dirty worktree.
pub open spec fn dirty_prompt(name: Seq<char>) -> Seq<char> {
    "Worktree '"@ + name + "' has uncommitted changes.\nCreate WIP commit?"@
}

/// The remediation queue that confirming a selection builds before any
/// dirtiness check: undo a paused-work marker first (the latest recorded
/// intent was "paused"), then switch branches when the bound worktree has a
/// different branch checked out.
pub open spec fn remediation_cmds(
    has_wip: bool,
    checked_out: Option<String>,
    branch: Seq<char>,
) -> Seq<Seq<char>> {
    let base: Seq<Seq<char>> = if has_wip {
        seq![undo_wip_cmd()]
    } else {
        Seq::empty()
    };
    if checked_out matches Some(b) && b@ == branch {
        base
    } else {
        base.push(checkout_cmd(branch))
    }
}

impl App {
    /// There is a worktree to launch into: a non-empty tree whose current
    /// repository has at least one worktree.
    pub open spec fn launch_target_ok(self) -> bool {
        &&& self.repos@.len() > 0
        &&& self.cur_repo().data.worktrees@.len() > 0
    }
}

/// What confirming the current selection does.  On a repository cursor it
/// is expand/collapse.  On a branch or session cursor it rebuilds the
/// remediation queue from the bound worktree's probed state and either
/// reports `Launch` (ready) or, when the worktree is dirty, opens the
/// confirmation overlay and continues.
pub open spec fn confirm_transition(pre: App, post: App, action: Action) -> bool {
    &&& post.filter == pre.filter
    &&& post.scroll_offset == pre.scroll_offset
    &&& post.viewport_height == pre.viewport_height
    &&& post.selected_repo_idx == pre.selected_repo_idx
    &&& post.selected_branch_idx == pre.selected_branch_idx
    &&& post.selected_item == pre.selected_item
    &&& match pre.selected_item {
        SelectedItem::Repo => {
            &&& action == Action::Continue
            &&& post.confirm_dialog == pre.confirm_dialog
            &&& post.pending_launch == pre.pending_launch
            &&& if pre.repos@.len() == 0 {
                post.repos == pre.repos
            } else {
                &&& repos_eq_except(pre.repos@, post.repos@, pre.selected_repo_idx as int)
                &&& post.repos@[pre.selected_repo_idx as int] == (RepoNode {
                    expanded: !pre.cur_repo().expanded,
                    ..pre.cur_repo()
                })
            }
        },
        _ => {
            &&& post.repos == pre.repos
            &&& if !pre.launch_target_ok() {
                &&& post.confirm_dialog == pre.confirm_dialog
                &&& post.pending_launch == pre.pending_launch
                &&& action == Action::Continue
            } else {
                let wt_idx = pre.cur_branch_node().selected_worktree_idx as int;
                let st = pre.cur_repo().worktree_states@[wt_idx];
                let wt = pre.cur_repo().data.worktrees@[wt_idx];
                let bname = pre.cur_branch_data().branch@;
                &&& cmds_view(post.pending_launch) == remediation_cmds(
                    st.has_wip,
                    wt.checked_out_branch,
                    bname,
                )
                &&& if st.is_dirty {
                    &&& action == Action::Continue
                    &&& post.confirm_dialog matches Some(d) && d.message@ == dirty_prompt(
                        wt.name@,
                    )
                } else {
                    &&& action == Action::Launch
                    &&& post.confirm_dialog == pre.confirm_dialog
                }
            }
        },
    }
}

/// What a key does while the confirmation overlay is up: `y` queues the
/// paused-work snapshot command and launches, `n` or escape discards the
/// overlay, and everything else — cursor movement included — is refused.
pub open spec fn confirm_key_transition(pre: App, post: App, key: Key, action: Action) -> bool {
    &&& post.filter == pre.filter
    &&& post.repos == pre.repos
    &&& post.selected_repo_idx == pre.selected_repo_idx
    &&& post.selected_branch_idx == pre.selected_branch_idx
    &&& post.selected_item == pre.selected_item
    &&& post.scroll_offset == pre.scroll_offset
    &&& post.viewport_height == pre.viewport_height
    &&& if key == Key::Char('y') || key == Key::Char('Y') {
        &&& action == Action::Launch
        &&& post.confirm_dialog is None
        &&& cmds_view(post.pending_launch) == cmds_view(pre.pending_launch).push(
            create_wip_cmd(),
        )
    } else if key == Key::Char('n') || key == Key::Char('N') || key == Key::Esc {
        &&& action == Action::Continue
        &&& post.confirm_dialog is None
        &&& post.pending_launch == pre.pending_launch
    } else {
        &&& action == Action::Continue
        &&& post.confirm_dialog == pre.confirm_dialog
        &&& post.pending_launch == pre.pending_launch
    }
}

impl App {
    /// Confirm the current selection: expand/collapse on a repository,
    /// otherwise evaluate remediation for the bound worktree and either
    /// become ready to launch or open the confirmation overlay.
    pub fn confirm_selection(&mut self) -> (action: Action)
        requires
            old(self).wf(),
        ensures
            final(self).wf(),
            confirm_transition(*old(self), *final(self), action),
    {
        match self.selected_item {
            SelectedItem::Repo => {
                self.toggle_expand();
                Action::Continue
            },
            _ => {
                if self.repos.len() == 0 {
                    return Action::Continue;
                }
                let r = self.selected_repo_idx;
                if self.repos[r].data.worktrees.len() == 0 {
                    return Action::Continue;
                }
                let b = self.selected_branch_idx;
                let wt_idx = self.repos[r].branches[b].selected_worktree_idx;
                let has_wip = self.repos[r].worktree_states[wt_idx].has_wip;
                let is_dirty = self.repos[r].worktree_states[wt_idx].is_dirty;
                let mut cmds: Vec<String> = Vec::new();
                if has_wip {
                    cmds.push(String::from_str("git reset --soft HEAD~1"));
                }
                let branch_matches = match &self.repos[r].data.worktrees[wt_idx]
                    .checked_out_branch {
                    Some(cb) => *cb == self.repos[r].data.branches[b].branch,
                    None => false,
                };
                if !branch_matches {
                    let mut cmd = String::from_str("git checkout ");
                    cmd.append(self.repos[r].data.branches[b].branch.as_str());
                    cmds.push(cmd);
                }
                let ghost expected = remediation_cmds(
                    has_wip,
                    self.repos@[r as int].data.worktrees@[wt_idx as int].checked_out_branch,
                    self.repos@[r as int].data.branches@[b as int].branch@,
                );
                proof {
                    assert(cmds@.map_values(|s: String| s@) =~= expected);
                }
                self.pending_launch = PendingLaunch { pre_commands: cmds };
                if is_dirty {
                    let mut msg = String::from_str("Worktree '");
                    msg.append(self.repos[r].data.worktrees[wt_idx].name.as_str());
                    msg.append("' has uncommitted changes.\nCreate WIP commit?");
                    self.confirm_dialog = Some(ConfirmDialog { message: msg });
                    return Action::Continue;
                }
                Action::Launch
            },
        }
    }

    /// Handle a key while the confirmation overlay is up.
    pub fn handle_confirm_key(&mut self, key: Key) -> (action: Action)
        requires
            old(self).wf(),
        ensures
            final(self).wf(),
            confirm_key_transition(*old(self), *final(self), key, action),
    {
        match key {
            Key::Char(c) => {
                if c == 'y' || c == 'Y' {
                    self.pending_launch.pre_commands.push(
                        String::from_str("git add -A && git commit -m 'WIP: paused work'"),
                    );
                    self.confirm_dialog = None;
                    proof {
                        assert(cmds_view(self.pending_launch) =~= cmds_view(
                            old(self).pending_launch,
                        ).push(create_wip_cmd()));
                    }
                    Action::Launch
                } else if c == 'n' || c == 'N' {
                    self.confirm_dialog = None;
                    Action::Continue
                } else {
                    Action::Continue
                }
            },
            Key::Esc => {
                self.confirm_dialog = None;
                Action::Continue
            },
            _ => Action::Continue,
        }
    }
}

/// One launch descriptor for a selected session: which session to resume,
/// the title to show, where its transcript lives now, and whether the
/// transcript must be relocated to the target worktree first.
#[derive(Debug, Clone)]
pub struct SessionLaunch {
    pub uuid: String,
    pub title: String,
    pub source_path: String,
    pub needs_migration: bool,
}

/// Everything a confirmed launch emits: the target worktree (with the
/// remediation commands to run first) and one descriptor per selected
/// session, in selection order.
#[derive(Debug, Clone)]
pub struct LaunchPlan {
    pub worktree_path: String,
    pub pre_commands: Vec<String>,
    pub sessions: Vec<SessionLaunch>,
}

/// A session descriptor's display title: the summary, falling back to the
/// first prompt, falling back to a generic placeholder, cut for display.
pub open spec fn session_title(s: SessionData) -> Seq<char> {
    match s.summary {
        Some(t) => truncated(t@, 30),
        None => match s.first_prompt {
            Some(p) => truncated(p@, 30),
            None => "Assistant session"@,
        },
    }
}

/// `k` is the position of the first session with this identifier.
pub open spec fn first_match_at(bd: BranchData, id: Seq<char>, k: int) -> bool {
    &&& 0 <= k < bd.sessions@.len()
    &&& bd.sessions@[k].uuid@ == id
    &&& forall|j: int| 0 <= j < k ==> (#[trigger] bd.sessions@[j]).uuid@ != id
}

/// The descriptor for one selected identifier: it names that session, its
/// title and source location come from the first session with that
/// identifier, and relocation is requested exactly when the source differs
/// from the target worktree.
pub open spec fn session_launch_ok(
    sl: SessionLaunch,
    bd: BranchData,
    id: Seq<char>,
    wt_path: Seq<char>,
) -> bool {
    &&& sl.uuid@ == id
    &&& exists|k: int|
        first_match_at(bd, id, k) && sl.title@ == session_title(#[trigger] bd.sessions@[k])
            && sl.source_path@ == bd.sessions@[k].project_path@
    &&& sl.needs_migration == (sl.source_path@ != wt_path)
}

impl App {
    /// There is something to launch: a current repository with a worktree
    /// and a current branch.
    pub open spec fn plan_available(self) -> bool {
        &&& self.repos@.len() > 0
        &&& self.cur_repo().data.worktrees@.len() > 0
        &&& self.selected_branch_idx < self.cur_repo().branches@.len()
    }

    /// Compute the descriptors a confirmed launch emits: the bound
    /// worktree with the queued remediation commands, plus one descriptor
    /// per selected session, in selection order.  Returns nothing when the
    /// tree has no repository, the repository no worktree, or the
    /// repository no branch.
    pub fn launch_plan(&self) -> (r: Option<LaunchPlan>)
        requires
            self.wf(),
        ensures
            (r is Some) == self.plan_available(),
            r matches Some(plan) ==> {
                let wt_idx = self.cur_branch_node().selected_worktree_idx as int;
                let wt = self.cur_repo().data.worktrees@[wt_idx];
                let bd = self.cur_branch_data();
                let sel = self.cur_branch_node().selected_sessions@;
                &&& plan.worktree_path@ == wt.path@
                &&& plan.pre_commands@ == self.pending_launch.pre_commands@
                &&& plan.sessions@.len() == sel.len()
                &&& forall|i: int|
                    0 <= i < sel.len() ==> session_launch_ok(
                        #[trigger] plan.sessions@[i],
                        bd,
                        sel[i]@,
                        wt.path@,
                    )
            },
    {
        if self.repos.len() == 0 {
            return None;
        }
        let rr = self.selected_repo_idx;
        if self.repos[rr].data.worktrees.len() == 0 {
            return None;
        }
        let b = self.selected_branch_idx;
        if b >= self.repos[rr].branches.len() {
            return None;
        }
        let repo = &self.repos[rr];
        let branch = &repo.branches[b];
        let bd = &repo.data.branches[b];
        let ghost wt_idx = branch.selected_worktree_idx as int;
        let wt_path = repo.data.worktrees[branch.selected_worktree_idx].path.clone();
        let n_sel = branch.selected_sessions.len();
        let mut sessions: Vec<SessionLaunch> = Vec::new();
        let mut i: usize = 0;
        while i < n_sel
            invariant
                self.wf(),
                rr == self.selected_repo_idx,
                b == self.selected_branch_idx,
                rr < self.repos@.len(),
                b < self.repos@[rr as int].branches@.len(),
                b < self.repos@[rr as int].data.branches@.len(),
                repo == self.repos@[rr as int],
                branch == repo.branches@[b as int],
                bd == repo.data.branches@[b as int],
                wt_idx == branch.selected_worktree_idx as int,
                0 <= wt_idx < repo.data.worktrees@.len(),
                wt_path@ == repo.data.worktrees@[wt_idx].path@,
                n_sel == branch.selected_sessions@.len(),
                i <= n_sel,
                sessions@.len() == i,
                forall|m: int|
                    0 <= m < i ==> session_launch_ok(
                        #[trigger] sessions@[m],
                        *bd,
                        branch.selected_sessions@[m]@,
                        wt_path@,
                    ),
            decreases n_sel - i,
        {
            let uuid = &branch.selected_sessions[i];
            proof {
                assert(branch.wf_in(*bd, repo.data.worktrees@.len()));
                assert(bd_has_uuid(*bd, uuid@));
            }
            let n_sess = bd.sessions.len();
            let mut ki: usize = 0;
            while ki < n_sess && !(bd.sessions[ki].uuid == *uuid)
                invariant
                    n_sess == bd.sessions@.len(),
                    ki <= n_sess,
                    forall|j: int| 0 <= j < ki ==> (#[trigger] bd.sessions@[j]).uuid@ != uuid@,
                    ki < n_sess ==> true,
                decreases n_sess - ki,
            {
                ki = ki + 1;
            }
            proof {
                if ki == n_sess {
                    let kw = choose|k: int|
                        0 <= k < bd.sessions@.len() && (#[trigger] bd.sessions@[k].uuid)@
                            == uuid@;
                    assert(bd.sessions@[kw].uuid@ != uuid@);
                }
            }
            let s = &bd.sessions[ki];
            let title = match (&s.summary, &s.first_prompt) {
                (Some(t), _) => truncate(t.as_str(), 30),
                (None, Some(p)) => truncate(p.as_str(), 30),
                (None, None) => String::from_str("Assistant session"),
            };
            let needs_migration = !(s.project_path == wt_path);
            sessions.push(
                SessionLaunch {
                    uuid: (*uuid).clone(),
                    title,
                    source_path: s.project_path.clone(),
                    needs_migration,
                },
            );
            proof {
                assert(first_match_at(*bd, uuid@, ki as int));
                assert(session_launch_ok(sessions@[i as int], *bd, uuid@, wt_path@));
            }
            i = i + 1;
        }
        let pre_commands = clone_strings(&self.pending_launch.pre_commands);
        Some(LaunchPlan { worktree_path: wt_path, pre_commands, sessions })
    }
}

/// A copy of a list of strings, character for character.
fn clone_strings(v: &Vec<String>) -> (r: Vec<String>)
    ensures
        r@ == v@,
{
    let n = v.len();
    let mut out: Vec<String> = Vec::new();
    let mut i: usize = 0;
    while i < n
        invariant
            n == v@.len(),
            i <= n,
            out@.len() == i,
            forall|j: int| 0 <= j < i ==> out@[j] == v@[j],
        decreases n - i,
    {
        out.push(v[i].clone());
        i = i + 1;
    }
    proof {
        assert(out@ =~= v@);
    }
    out
}

} // verus!
