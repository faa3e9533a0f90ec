//! The viewport mapper: the visibility-respecting flattening of the tree
//! into a line-indexed sequence.  A repository occupies one line, followed —
//! only while it is expanded — by one line per branch, each followed — only
//! while that branch is expanded — by one line per session.  The cursor's
//! position in that sequence, the sequence's length, and the scroll window
//! that keeps the cursor visible are all defined here.

use vstd::prelude::*;

use crate::model::{App, RepoNode, SelectedItem};

verus! {

/// Lines contributed by branch `j` of the repository: its own line plus its
/// sessions while it is expanded.
pub open spec fn branch_line_count(r: RepoNode, j: int) -> nat {
    1 + if r.branches@[j].expanded {
        r.data.branches@[j].sessions@.len()
    } else {
        0nat
    }
}

/// Lines contributed by branches `0 .. j` of the repository.
pub open spec fn branch_lines_before(r: RepoNode, j: int) -> nat
    decreases j,
{
    if j <= 0 {
        0
    } else {
        branch_lines_before(r, j - 1) + branch_line_count(r, j - 1)
    }
}

/// Lines contributed by the repository: its own line plus all of its
/// branches' lines while it is expanded.
pub open spec fn repo_line_count(r: RepoNode) -> nat {
    1 + if r.expanded {
        branch_lines_before(r, r.branches@.len() as int)
    } else {
        0nat
    }
}

/// Lines contributed by repositories `0 .. i`.
pub open spec fn repo_lines_before(rs: Seq<RepoNode>, i: int) -> nat
    decreases i,
{
    if i <= 0 {
        0
    } else {
        repo_lines_before(rs, i - 1) + repo_line_count(rs[i - 1])
    }
}

impl App {
    /// Length of the flattened visible line sequence.
    pub open spec fn total_lines(self) -> nat {
        repo_lines_before(self.repos@, self.repos@.len() as int)
    }

    /// The cursor's line position counted from its repository's own line.
    pub open spec fn cursor_offset_in_repo(self) -> nat {
        match self.selected_item {
            SelectedItem::Repo => 0,
            SelectedItem::Branch => 1 + branch_lines_before(
                self.cur_repo(),
                self.selected_branch_idx as int,
            ),
            SelectedItem::Session(k) => 2 + branch_lines_before(
                self.cur_repo(),
                self.selected_branch_idx as int,
            ) + k as nat,
        }
    }

    /// The cursor's 0-based position within the flattened line sequence.
    pub open spec fn cursor_line(self) -> nat {
        repo_lines_before(self.repos@, self.selected_repo_idx as int)
            + self.cursor_offset_in_repo()
    }
}

/// Prefix sums over branches grow by at least one line per branch.
pub proof fn lemma_branch_lines_before_mono(r: RepoNode, j1: int, j2: int)
    requires
        0 <= j1 <= j2,
    ensures
        branch_lines_before(r, j1) + (j2 - j1) <= branch_lines_before(r, j2),
    decreases j2 - j1,
{
    if j1 < j2 {
        lemma_branch_lines_before_mono(r, j1, j2 - 1);
    }
}

/// Prefix sums over repositories grow by at least one line per repository.
pub proof fn lemma_repo_lines_before_mono(rs: Seq<RepoNode>, i1: int, i2: int)
    requires
        0 <= i1 <= i2,
    ensures
        repo_lines_before(rs, i1) + (i2 - i1) <= repo_lines_before(rs, i2),
    decreases i2 - i1,
{
    if i1 < i2 {
        lemma_repo_lines_before_mono(rs, i1, i2 - 1);
    }
}

/// A valid cursor sits strictly inside its repository's block of lines.
pub proof fn lemma_cursor_offset_lt(app: App)
    requires
        app.wf(),
        app.repos@.len() > 0,
    ensures
        app.cursor_offset_in_repo() < repo_line_count(app.cur_repo()),
{
    let r = app.cur_repo();
    let b = app.selected_branch_idx as int;
    let nb = r.branches@.len() as int;
    match app.selected_item {
        SelectedItem::Repo => {
        },
        SelectedItem::Branch => {
            assert(branch_lines_before(r, b) + branch_line_count(r, b) == branch_lines_before(
                r,
                b + 1,
            ));
            lemma_branch_lines_before_mono(r, b + 1, nb);
        },
        SelectedItem::Session(k) => {
            assert(branch_lines_before(r, b) + branch_line_count(r, b) == branch_lines_before(
                r,
                b + 1,
            ));
            lemma_branch_lines_before_mono(r, b + 1, nb);
        },
    }
}

/// A valid cursor's line lies inside the flattened sequence.
pub proof fn lemma_cursor_line_lt_total(app: App)
    requires
        app.wf(),
        app.repos@.len() > 0,
    ensures
        app.cursor_line() < app.total_lines(),
{
    let rs = app.repos@;
    let i = app.selected_repo_idx as int;
    lemma_cursor_offset_lt(app);
    assert(repo_lines_before(rs, i) + repo_line_count(rs[i]) == repo_lines_before(rs, i + 1));
    lemma_repo_lines_before_mono(rs, i + 1, rs.len() as int);
}

/// Over a fixed tree, the flattened line position determines the cursor:
/// two well-formed states with the same repositories and the same cursor
/// line point at the same (repository, branch, item) triple.  This is what
/// makes moving down and then immediately up return the cursor to its
/// original node: both movements are exact steps in the line sequence.
pub proof fn lemma_cursor_line_determines_cursor(a: App, b: App)
    requires
        a.wf(),
        b.wf(),
        a.repos == b.repos,
        a.repos@.len() > 0,
        a.cursor_line() == b.cursor_line(),
    ensures
        a.cursor() == b.cursor(),
{
    let rs = a.repos@;
    let ra = a.selected_repo_idx as int;
    let rb = b.selected_repo_idx as int;
    lemma_cursor_offset_lt(a);
    lemma_cursor_offset_lt(b);
    if ra < rb {
        assert(repo_lines_before(rs, ra) + repo_line_count(rs[ra]) == repo_lines_before(
            rs,
            ra + 1,
        ));
        lemma_repo_lines_before_mono(rs, ra + 1, rb);
        assert(false);
    }
    if rb < ra {
        assert(repo_lines_before(rs, rb) + repo_line_count(rs[rb]) == repo_lines_before(
            rs,
            rb + 1,
        ));
        lemma_repo_lines_before_mono(rs, rb + 1, ra);
        assert(false);
    }
    assert(ra == rb);
    assert(a.cursor_offset_in_repo() == b.cursor_offset_in_repo());
    let r = a.cur_repo();
    lemma_cursor_items_agree(r, a, b);
}

/// Within one repository, equal cursor offsets mean equal branch and item.
proof fn lemma_cursor_items_agree(r: RepoNode, a: App, b: App)
    requires
        a.wf(),
        b.wf(),
        a.repos == b.repos,
        a.repos@.len() > 0,
        a.selected_repo_idx == b.selected_repo_idx,
        r == a.cur_repo(),
        a.cursor_offset_in_repo() == b.cursor_offset_in_repo(),
    ensures
        a.selected_branch_idx == b.selected_branch_idx,
        a.selected_item == b.selected_item,
{
    let ba = a.selected_branch_idx as int;
    let bb = b.selected_branch_idx as int;
    match (a.selected_item, b.selected_item) {
        (SelectedItem::Repo, SelectedItem::Repo) => {
        },
        (SelectedItem::Repo, _) => {
            assert(false);
        },
        (_, SelectedItem::Repo) => {
            assert(false);
        },
        (SelectedItem::Branch, SelectedItem::Branch) => {
            lemma_branch_offsets_distinct(r, ba, bb);
            lemma_branch_offsets_distinct(r, bb, ba);
        },
        (SelectedItem::Branch, SelectedItem::Session(k)) => {
            lemma_branch_vs_session_offset(r, ba, bb, k as int);
        },
        (SelectedItem::Session(k), SelectedItem::Branch) => {
            lemma_branch_vs_session_offset(r, bb, ba, k as int);
        },
        (SelectedItem::Session(ka), SelectedItem::Session(kb)) => {
            lemma_session_offsets_agree(r, ba, ka as int, bb, kb as int);
        },
    }
}

/// Distinct branches flatten to distinct branch-line offsets.
proof fn lemma_branch_offsets_distinct(r: RepoNode, b1: int, b2: int)
    requires
        0 <= b1,
        0 <= b2,
        branch_lines_before(r, b1) == branch_lines_before(r, b2),
    ensures
        b1 >= b2,
{
    if b1 < b2 {
        lemma_branch_lines_before_mono(r, b1, b2);
    }
}

/// A branch line never coincides with a session line.  The session's branch
/// must be expanded and the session index in range.
proof fn lemma_branch_vs_session_offset(r: RepoNode, b1: int, b2: int, k: int)
    requires
        0 <= b1,
        0 <= b2,
        0 <= k,
        r.branches@[b2].expanded,
        k < r.data.branches@[b2].sessions@.len(),
    ensures
        1 + branch_lines_before(r, b1) != 2 + branch_lines_before(r, b2) + k,
{
    if b1 <= b2 {
        lemma_branch_lines_before_mono(r, b1, b2);
    } else {
        assert(branch_lines_before(r, b2) + branch_line_count(r, b2) == branch_lines_before(
            r,
            b2 + 1,
        ));
        lemma_branch_lines_before_mono(r, b2 + 1, b1);
    }
}

impl App {
    /// The cursor's line, or zero on an empty tree.
    pub open spec fn sel_line_or_zero(self) -> nat {
        if self.repos@.len() > 0 {
            self.cursor_line()
        } else {
            0
        }
    }

    /// Compute the line index of the current selection within the rendered
    /// tree, by the same depth-first, expand-aware walk the movement
    /// functions follow.
    pub fn selected_line_index(&self) -> (r: usize)
        requires
            self.wf(),
            self.total_lines() <= usize::MAX,
        ensures
            r == self.sel_line_or_zero(),
    {
        let ghost rs = self.repos@;
        let ghost total = self.total_lines();
        let mut line: usize = 0;
        let mut i: usize = 0;
        while i < self.repos.len()
            invariant
                self.wf(),
                total == self.total_lines(),
                total <= usize::MAX,
                rs == self.repos@,
                i <= rs.len(),
                line == repo_lines_before(rs, i as int),
                self.selected_repo_idx >= i,
            decreases rs.len() - i,
        {
            proof {
                lemma_repo_lines_before_mono(rs, i as int, rs.len() as int);
                assert(repo_lines_before(rs, i as int) + repo_line_count(rs[i as int])
                    == repo_lines_before(rs, i as int + 1));
            }
            let repo = &self.repos[i];
            if i == self.selected_repo_idx && self.selected_item == SelectedItem::Repo {
                return line;
            }
            line = line + 1;
            if repo.expanded {
                let ghost nb = repo.branches@.len() as int;
                let mut j: usize = 0;
                while j < repo.branches.len()
                    invariant
                        self.wf(),
                        total == self.total_lines(),
                        total <= usize::MAX,
                        rs == self.repos@,
                        i < rs.len(),
                        repo == rs[i as int],
                        repo.wf(),
                        repo.expanded,
                        nb == repo.branches@.len() as int,
                        j <= nb,
                        line == repo_lines_before(rs, i as int) + 1 + branch_lines_before(
                            *repo,
                            j as int,
                        ),
                        self.selected_repo_idx >= i,
                        self.selected_repo_idx == i && self.selected_item != SelectedItem::Repo
                            ==> self.selected_branch_idx >= j,
                    decreases nb - j,
                {
                    proof {
                        lemma_branch_lines_before_mono(*repo, j as int, nb);
                        lemma_repo_lines_before_mono(rs, i as int + 1, rs.len() as int);
                        assert(branch_lines_before(*repo, j as int) + branch_line_count(
                            *repo,
                            j as int,
                        ) == branch_lines_before(*repo, j as int + 1));
                    }
                    let is_sel_branch = i == self.selected_repo_idx && j
                        == self.selected_branch_idx;
                    if is_sel_branch && self.selected_item == SelectedItem::Branch {
                        return line;
                    }
                    line = line + 1;
                    if repo.branches[j].expanded {
                        let sess_len = repo.data.branches[j].sessions.len();
                        let mut m: usize = 0;
                        while m < sess_len
                            invariant
                                self.wf(),
                                total == self.total_lines(),
                                total <= usize::MAX,
                                rs == self.repos@,
                                i < rs.len(),
                                repo == rs[i as int],
                                repo.wf(),
                                repo.expanded,
                                nb == repo.branches@.len() as int,
                                j < nb,
                                repo.branches@[j as int].expanded,
                                sess_len == repo.data.branches@[j as int].sessions@.len(),
                                m <= sess_len,
                                line == repo_lines_before(rs, i as int) + 2
                                    + branch_lines_before(*repo, j as int) + m,
                                self.selected_repo_idx >= i,
                                self.selected_repo_idx == i && self.selected_item
                                    != SelectedItem::Repo ==> self.selected_branch_idx >= j,
                                is_sel_branch == (self.selected_repo_idx == i
                                    && self.selected_branch_idx == j),
                                is_sel_branch ==> match self.selected_item {
                                    SelectedItem::Session(k) => k >= m,
                                    _ => true,
                                },
                            decreases sess_len - m,
                        {
                            proof {
                                lemma_branch_lines_before_mono(*repo, j as int + 1, nb);
                                lemma_repo_lines_before_mono(rs, i as int + 1, rs.len() as int);
                                assert(branch_lines_before(*repo, j as int) + branch_line_count(
                                    *repo,
                                    j as int,
                                ) == branch_lines_before(*repo, j as int + 1));
                            }
                            if is_sel_branch && self.selected_item == SelectedItem::Session(m) {
                                return line;
                            }
                            line = line + 1;
                            m = m + 1;
                        }
                    }
                    proof {
                        if i == self.selected_repo_idx && j == self.selected_branch_idx {
                            match self.selected_item {
                                SelectedItem::Session(k) => {
                                    assert(self.cur_repo() == rs[i as int]);
                                    assert(self.cur_branch_node() == repo.branches@[j as int]);
                                    assert(self.cur_branch_data()
                                        == repo.data.branches@[j as int]);
                                },
                                _ => {},
                            }
                        }
                    }
                    j = j + 1;
                }
            }
            i = i + 1;
        }
        line
    }

    /// The number of lines the flattened visible tree occupies.
    pub fn visible_line_count(&self) -> (r: usize)
        requires
            self.wf(),
            self.total_lines() <= usize::MAX,
        ensures
            r == self.total_lines(),
    {
        let ghost rs = self.repos@;
        let ghost total = self.total_lines();
        let mut line: usize = 0;
        let mut i: usize = 0;
        while i < self.repos.len()
            invariant
                self.wf(),
                total == self.total_lines(),
                total <= usize::MAX,
                rs == self.repos@,
                i <= rs.len(),
                line == repo_lines_before(rs, i as int),
            decreases rs.len() - i,
        {
            proof {
                lemma_repo_lines_before_mono(rs, i as int, rs.len() as int);
                assert(repo_lines_before(rs, i as int) + repo_line_count(rs[i as int])
                    == repo_lines_before(rs, i as int + 1));
            }
            let repo = &self.repos[i];
            line = line + 1;
            if repo.expanded {
                let ghost nb = repo.branches@.len() as int;
                let mut j: usize = 0;
                while j < repo.branches.len()
                    invariant
                        self.wf(),
                        total == self.total_lines(),
                        total <= usize::MAX,
                        rs == self.repos@,
                        i < rs.len(),
                        repo == rs[i as int],
                        repo.wf(),
                        repo.expanded,
                        nb == repo.branches@.len() as int,
                        j <= nb,
                        line == repo_lines_before(rs, i as int) + 1 + branch_lines_before(
                            *repo,
                            j as int,
                        ),
                    decreases nb - j,
                {
                    proof {
                        lemma_branch_lines_before_mono(*repo, j as int + 1, nb);
                        lemma_repo_lines_before_mono(rs, i as int + 1, rs.len() as int);
                        assert(branch_lines_before(*repo, j as int) + branch_line_count(
                            *repo,
                            j as int,
                        ) == branch_lines_before(*repo, j as int + 1));
                    }
                    line = line + 1;
                    if repo.branches[j].expanded {
                        line = line + repo.data.branches[j].sessions.len();
                    }
                    j = j + 1;
                }
            }
            i = i + 1;
        }
        line
    }

    /// Adjust the scroll offset so the cursor's line lies inside the
    /// viewport: move the window up to the line when the cursor is above it,
    /// down to end at the line when below it, and not at all when the line
    /// is already visible.
    pub fn ensure_selection_visible(&mut self)
        requires
            old(self).wf(),
            old(self).total_lines() <= usize::MAX,
        ensures
            crate::model::same_but_scroll(*old(self), *final(self)),
            final(self).wf(),
            old(self).viewport_height == 0 ==> final(self).scroll_offset == old(self).scroll_offset,
            old(self).viewport_height >= 1 ==> {
                let line = old(self).sel_line_or_zero();
                let h = old(self).viewport_height;
                let before = old(self).scroll_offset;
                let after = final(self).scroll_offset;
                &&& after <= line
                &&& line < after + h
                &&& (before <= line && line < before + h) ==> after == before
                &&& line < before ==> after == line
                &&& line >= before + h ==> after == line + 1 - h
            },
    {
        let selected_line = self.selected_line_index();
        let h = self.viewport_height;
        if h == 0 {
            return ;
        }
        if selected_line < self.scroll_offset {
            self.scroll_offset = selected_line;
        } else if selected_line - self.scroll_offset >= h {
            self.scroll_offset = selected_line - h + 1;
        }
    }
}

/// Equal session-line offsets mean the same branch and the same session.
proof fn lemma_session_offsets_agree(r: RepoNode, b1: int, k1: int, b2: int, k2: int)
    requires
        0 <= b1,
        0 <= b2,
        0 <= k1,
        0 <= k2,
        r.branches@[b1].expanded,
        k1 < r.data.branches@[b1].sessions@.len(),
        r.branches@[b2].expanded,
        k2 < r.data.branches@[b2].sessions@.len(),
        2 + branch_lines_before(r, b1) + k1 == 2 + branch_lines_before(r, b2) + k2,
    ensures
        b1 == b2,
        k1 == k2,
{
    if b1 < b2 {
        assert(branch_lines_before(r, b1) + branch_line_count(r, b1) == branch_lines_before(
            r,
            b1 + 1,
        ));
        lemma_branch_lines_before_mono(r, b1 + 1, b2);
    }
    if b2 < b1 {
        assert(branch_lines_before(r, b2) + branch_line_count(r, b2) == branch_lines_before(
            r,
            b2 + 1,
        ));
        lemma_branch_lines_before_mono(r, b2 + 1, b1);
    }
}

} // verus!
