//! Shared data model: the realized tree (repositories, branches, worktrees,
//! sessions), the cursor, and the well-formedness invariants that every
//! state-transition function preserves.

use vstd::prelude::*;

verus! {

/// Identifies which AI assistant a session belongs to.
#[derive(Debug, Clone, Copy, PartialEq, Eq, Structural)]
pub enum SessionProvider {
    Assistant,
    Codex,
}

impl SessionProvider {
    pub fn as_str(&self) -> (r: &'static str)
        ensures
            *self == SessionProvider::Assistant ==> r@ == "assistant"@,
            *self == SessionProvider::Codex ==> r@ == "codex"@,
    {
        match self {
            SessionProvider::Assistant => "assistant",
            SessionProvider::Codex => "codex",
        }
    }
}

/// A saved assistant conversation, as discovered on disk.
#[derive(Debug, Clone)]
pub struct Session {
    pub uuid: String,
    pub project_path: String,
    pub git_branch: Option<String>,
    pub summary: Option<String>,
    pub first_prompt: Option<String>,
    /// Last-modified time, milliseconds since the epoch.
    pub modified: i64,
    pub message_count: Option<i64>,
    pub provider: SessionProvider,
}

/// A repository found by the scanner, with its checked-out worktrees.
#[derive(Debug, Clone)]
pub struct Repo {
    pub path: String,
    pub name: String,
    pub worktrees: Vec<Worktree>,
}

/// One checked-out working copy of a repository.
#[derive(Debug, Clone)]
pub struct Worktree {
    pub path: String,
    /// Branch checked out there, or none when the head is detached.
    pub branch: Option<String>,
}

/// A session as stored for one branch of the tree view: identifier,
/// display texts, last-modified time, message count, originating provider
/// and the project location the transcript was created in (used to decide
/// whether the transcript must be relocated at launch time).
#[derive(Debug, Clone)]
pub struct SessionData {
    pub uuid: String,
    pub summary: Option<String>,
    pub first_prompt: Option<String>,
    pub modified: i64,
    pub message_count: Option<i64>,
    pub provider: SessionProvider,
    pub project_path: String,
}

/// One branch of a repository together with its saved sessions.
#[derive(Debug, Clone)]
pub struct BranchData {
    pub branch: String,
    pub sessions: Vec<SessionData>,
}

/// A worktree as presented in the tree view.
#[derive(Debug, Clone)]
pub struct WorktreeInfo {
    pub path: String,
    /// Folder name, for display.
    pub name: String,
    /// Which branch is checked out there, if any.
    pub checked_out_branch: Option<String>,
}

/// Everything the data source reports about one repository.
#[derive(Debug, Clone)]
pub struct RepoData {
    pub name: String,
    pub worktrees: Vec<WorktreeInfo>,
    pub branches: Vec<BranchData>,
}

/// Probed runtime state of one worktree, aligned by index with the
/// repository's worktree list.
#[derive(Debug, Clone, Copy, PartialEq, Eq, Structural)]
pub struct WorktreeState {
    pub is_dirty: bool,
    pub has_wip: bool,
}

/// Per-branch interactive state: which worktree the branch is bound to for
/// launching, which sessions are multi-selected, and the expand flag.
#[derive(Debug, Clone)]
pub struct BranchNode {
    /// Index into the repository's worktree list.
    pub selected_worktree_idx: usize,
    /// Identifiers of the selected sessions, in selection order, no
    /// identifier listed twice.
    pub selected_sessions: Vec<String>,
    pub expanded: bool,
}

impl BranchNode {
    /// No session identifier occurs twice in the selection list.
    pub open spec fn sel_unique(self) -> bool {
        forall|i: int, j: int|
            0 <= i < j < self.selected_sessions@.len() ==> (#[trigger] self.selected_sessions@[i])@
                != (#[trigger] self.selected_sessions@[j])@
    }

    /// The selection list holds this identifier.
    pub open spec fn sel_contains(self, id: Seq<char>) -> bool {
        exists|i: int|
            0 <= i < self.selected_sessions@.len() && (#[trigger] self.selected_sessions@[i])@
                == id
    }

    /// The selection as a set of identifiers; order is irrelevant to it.
    pub open spec fn selected_set(self) -> Set<Seq<char>> {
        Set::new(|id: Seq<char>| self.sel_contains(id))
    }

    /// Well-formed relative to the branch's data and the repository's
    /// worktree count: the bound worktree index resolves (or is pinned to 0
    /// when there is nothing to bind), and every selected identifier names
    /// one of the branch's sessions, each at most once.
    pub open spec fn wf_in(self, bd: BranchData, n_worktrees: nat) -> bool {
        &&& if n_worktrees > 0 {
            self.selected_worktree_idx < n_worktrees
        } else {
            self.selected_worktree_idx == 0
        }
        &&& self.sel_unique()
        &&& forall|i: int|
            0 <= i < self.selected_sessions@.len() ==> bd_has_uuid(
                bd,
                (#[trigger] self.selected_sessions@[i])@,
            )
    }
}

/// The branch's session list holds a session with this identifier.
pub open spec fn bd_has_uuid(bd: BranchData, id: Seq<char>) -> bool {
    exists|k: int| 0 <= k < bd.sessions@.len() && (#[trigger] bd.sessions@[k].uuid)@ == id
}

/// The worktree has this branch checked out.
pub open spec fn wt_matches(w: WorktreeInfo, branch: Seq<char>) -> bool {
    w.checked_out_branch matches Some(b) && b@ == branch
}

/// `r` is the default worktree binding for a branch: the first worktree
/// with that branch checked out, or 0 when no worktree has it.
pub open spec fn is_default_wt_idx(wts: Seq<WorktreeInfo>, branch: Seq<char>, r: int) -> bool {
    &&& 0 <= r
    &&& (wts.len() > 0 ==> r < wts.len())
    &&& (wts.len() == 0 ==> r == 0)
    &&& if exists|i: int| 0 <= i < wts.len() && wt_matches(#[trigger] wts[i], branch) {
        &&& wt_matches(wts[r], branch)
        &&& forall|j: int| 0 <= j < r ==> !wt_matches(#[trigger] wts[j], branch)
    } else {
        r == 0
    }
}

/// A freshly rebuilt repository node: the given data, everything expanded,
/// the probed worktree states stored alongside, no sessions selected, and
/// every branch bound to its default worktree.
pub open spec fn rebuilt_repo(node: RepoNode, d: RepoData, st: Vec<WorktreeState>) -> bool {
    &&& node.data == d
    &&& node.expanded
    &&& node.worktree_states == st
    &&& node.branches@.len() == d.branches@.len()
    &&& forall|j: int|
        0 <= j < d.branches@.len() ==> {
            let bn = #[trigger] node.branches@[j];
            &&& bn.expanded
            &&& bn.selected_sessions@.len() == 0
            &&& is_default_wt_idx(
                d.worktrees@,
                d.branches@[j].branch@,
                bn.selected_worktree_idx as int,
            )
        }
}

/// How a tree refresh collapses an out-of-range cursor: keep each cursor
/// component that still resolves in the new tree `b`, and fall back to the
/// nearest enclosing valid position otherwise.
pub open spec fn cursor_collapsed(a: App, b: App) -> bool {
    if b.repos@.len() == 0 {
        &&& b.selected_repo_idx == 0
        &&& b.selected_branch_idx == 0
        &&& b.selected_item == SelectedItem::Repo
    } else {
        let r = if a.selected_repo_idx < b.repos@.len() {
            a.selected_repo_idx as int
        } else {
            0
        };
        let nb = b.repos@[r].branches@.len() as int;
        let bi = if a.selected_branch_idx < nb {
            a.selected_branch_idx as int
        } else {
            0
        };
        &&& b.selected_repo_idx == r
        &&& match a.selected_item {
            SelectedItem::Repo => b.selected_branch_idx == 0 && b.selected_item
                == SelectedItem::Repo,
            SelectedItem::Branch => {
                if nb == 0 {
                    b.selected_branch_idx == 0 && b.selected_item == SelectedItem::Repo
                } else {
                    b.selected_branch_idx == bi && b.selected_item == SelectedItem::Branch
                }
            },
            SelectedItem::Session(k) => {
                if nb == 0 {
                    b.selected_branch_idx == 0 && b.selected_item == SelectedItem::Repo
                } else if (k as int) < b.repos@[r].data.branches@[bi].sessions@.len() {
                    b.selected_branch_idx == bi && b.selected_item == SelectedItem::Session(k)
                } else {
                    b.selected_branch_idx == bi && b.selected_item == SelectedItem::Branch
                }
            },
        }
    }
}

/// One repository in the realized tree: its data, the per-branch interactive
/// state (aligned by index with `data.branches`), the probed worktree states
/// (aligned by index with `data.worktrees`), and the expand flag.
#[derive(Debug, Clone)]
pub struct RepoNode {
    pub data: RepoData,
    pub branches: Vec<BranchNode>,
    pub worktree_states: Vec<WorktreeState>,
    pub expanded: bool,
}

impl RepoNode {
    pub open spec fn wf(self) -> bool {
        &&& self.worktree_states@.len() == self.data.worktrees@.len()
        &&& self.branches@.len() == self.data.branches@.len()
        &&& forall|j: int|
            0 <= j < self.branches@.len() ==> (#[trigger] self.branches@[j]).wf_in(
                self.data.branches@[j],
                self.data.worktrees@.len(),
            )
    }
}

/// Which level of the tree the cursor is on.
#[derive(Debug, Clone, Copy, PartialEq, Eq, Structural)]
pub enum SelectedItem {
    Repo,
    Branch,
    /// A session, by its index within the current branch's session list.
    Session(usize),
}

/// The confirmation overlay: while present, every input is redirected to the
/// confirmation handler and all other mutators are refused.
#[derive(Debug, Clone)]
pub struct ConfirmDialog {
    pub message: String,
}

/// Remediation commands queued to run before a launch opens the worktree.
#[derive(Debug, Clone)]
pub struct PendingLaunch {
    pub pre_commands: Vec<String>,
}

impl Default for PendingLaunch {
    fn default() -> (r: Self)
        ensures
            r.pre_commands@.len() == 0,
    {
        PendingLaunch { pre_commands: Vec::new() }
    }
}

/// Whether the event loop keeps running or proceeds to launch.
#[derive(Debug, Clone, Copy, PartialEq, Eq, Structural)]
pub enum Action {
    Continue,
    Launch,
}

/// A logical key action, as the input surface of the navigation model.  The
/// surrounding application translates real key codes into these.
#[derive(Debug, Clone, Copy, PartialEq, Eq, Structural)]
pub enum Key {
    Up,
    Down,
    Left,
    Right,
    Enter,
    Esc,
    Backspace,
    Char(char),
    Other,
}

/// The whole interactive state: filter text, realized tree, cursor,
/// confirmation overlay, queued remediation and the scroll window.
#[derive(Debug, Clone)]
pub struct App {
    pub filter: String,
    pub repos: Vec<RepoNode>,
    pub selected_repo_idx: usize,
    pub selected_branch_idx: usize,
    pub selected_item: SelectedItem,
    pub confirm_dialog: Option<ConfirmDialog>,
    pub pending_launch: PendingLaunch,
    pub scroll_offset: usize,
    pub viewport_height: usize,
}

impl App {
    pub open spec fn cur_repo(self) -> RepoNode {
        self.repos@[self.selected_repo_idx as int]
    }

    pub open spec fn cur_branch_node(self) -> BranchNode {
        self.cur_repo().branches@[self.selected_branch_idx as int]
    }

    pub open spec fn cur_branch_data(self) -> BranchData {
        self.cur_repo().data.branches@[self.selected_branch_idx as int]
    }

    /// The cursor resolves to an existing, visible node.  On an empty tree
    /// the cursor sits at the well-defined empty-state value.
    pub open spec fn cursor_wf(self) -> bool {
        if self.repos@.len() == 0 {
            &&& self.selected_repo_idx == 0
            &&& self.selected_branch_idx == 0
            &&& self.selected_item == SelectedItem::Repo
        } else {
            &&& self.selected_repo_idx < self.repos@.len()
            &&& match self.selected_item {
                SelectedItem::Repo => self.selected_branch_idx == 0,
                SelectedItem::Branch => {
                    &&& self.cur_repo().expanded
                    &&& self.selected_branch_idx < self.cur_repo().branches@.len()
                },
                SelectedItem::Session(k) => {
                    &&& self.cur_repo().expanded
                    &&& self.selected_branch_idx < self.cur_repo().branches@.len()
                    &&& self.cur_branch_node().expanded
                    &&& k < self.cur_branch_data().sessions@.len()
                },
            }
        }
    }

    pub open spec fn wf(self) -> bool {
        &&& forall|i: int| 0 <= i < self.repos@.len() ==> (#[trigger] self.repos@[i]).wf()
        &&& self.cursor_wf()
    }

    /// The cursor as the triple it denotes.
    pub open spec fn cursor(self) -> (usize, usize, SelectedItem) {
        (self.selected_repo_idx, self.selected_branch_idx, self.selected_item)
    }
}

/// Toggling an identifier in a selection set: remove it when present,
/// insert it when absent.
pub open spec fn toggled(s: Set<Seq<char>>, id: Seq<char>) -> Set<Seq<char>> {
    if s.contains(id) {
        s.remove(id)
    } else {
        s.insert(id)
    }
}

/// The two repository sequences agree everywhere but at index `r`.
pub open spec fn repos_eq_except(a: Seq<RepoNode>, b: Seq<RepoNode>, r: int) -> bool {
    &&& a.len() == b.len()
    &&& forall|i: int| 0 <= i < a.len() && i != r ==> a[i] == b[i]
}

/// The two repository nodes agree on everything but branch `j`.
pub open spec fn repo_eq_except_branch(x: RepoNode, y: RepoNode, j: int) -> bool {
    &&& x.data == y.data
    &&& x.expanded == y.expanded
    &&& x.worktree_states == y.worktree_states
    &&& x.branches@.len() == y.branches@.len()
    &&& forall|m: int| 0 <= m < x.branches@.len() && m != j ==> x.branches@[m] == y.branches@[m]
}

/// The two branch nodes agree on everything but the bound worktree index.
pub open spec fn branch_eq_except_wt(x: BranchNode, y: BranchNode) -> bool {
    &&& x.selected_sessions == y.selected_sessions
    &&& x.expanded == y.expanded
}

/// The two branch nodes agree on everything but the session selection.
pub open spec fn branch_eq_except_sel(x: BranchNode, y: BranchNode) -> bool {
    &&& x.selected_worktree_idx == y.selected_worktree_idx
    &&& x.expanded == y.expanded
}

/// The two states agree on everything but the filter text.
pub open spec fn same_but_filter(a: App, b: App) -> bool {
    &&& a.repos == b.repos
    &&& a.selected_repo_idx == b.selected_repo_idx
    &&& a.selected_branch_idx == b.selected_branch_idx
    &&& a.selected_item == b.selected_item
    &&& a.confirm_dialog == b.confirm_dialog
    &&& a.pending_launch == b.pending_launch
    &&& a.scroll_offset == b.scroll_offset
    &&& a.viewport_height == b.viewport_height
}

/// The two states agree on everything but the repository tree.
pub open spec fn same_but_repos(a: App, b: App) -> bool {
    &&& a.filter == b.filter
    &&& a.selected_repo_idx == b.selected_repo_idx
    &&& a.selected_branch_idx == b.selected_branch_idx
    &&& a.selected_item == b.selected_item
    &&& a.confirm_dialog == b.confirm_dialog
    &&& a.pending_launch == b.pending_launch
    &&& a.scroll_offset == b.scroll_offset
    &&& a.viewport_height == b.viewport_height
}

/// The two states agree on everything but the cursor triple: same tree, same
/// filter, same overlay and launch state, same scroll window.
pub open spec fn same_but_cursor(a: App, b: App) -> bool {
    &&& a.filter == b.filter
    &&& a.repos == b.repos
    &&& a.confirm_dialog == b.confirm_dialog
    &&& a.pending_launch == b.pending_launch
    &&& a.scroll_offset == b.scroll_offset
    &&& a.viewport_height == b.viewport_height
}

/// The two states agree on everything but the scroll offset.
pub open spec fn same_but_scroll(a: App, b: App) -> bool {
    &&& a.filter == b.filter
    &&& a.repos == b.repos
    &&& a.selected_repo_idx == b.selected_repo_idx
    &&& a.selected_branch_idx == b.selected_branch_idx
    &&& a.selected_item == b.selected_item
    &&& a.confirm_dialog == b.confirm_dialog
    &&& a.pending_launch == b.pending_launch
    &&& a.viewport_height == b.viewport_height
}

/// The two states agree on everything but the cursor and the scroll offset.
pub open spec fn same_but_cursor_and_scroll(a: App, b: App) -> bool {
    &&& a.filter == b.filter
    &&& a.repos == b.repos
    &&& a.confirm_dialog == b.confirm_dialog
    &&& a.pending_launch == b.pending_launch
    &&& a.viewport_height == b.viewport_height
}

} // verus!
