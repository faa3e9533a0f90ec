//! Laws of the navigation model, stated and proved over the same spec
//! functions the functions' own contracts use: the down/up round trip, the
//! group behaviour of worktree cycling, the involution of session
//! toggling, and what collapsing a node does to the visible line count.

use vstd::prelude::*;

use crate::flatten::{
    branch_line_count, branch_lines_before, lemma_cursor_line_determines_cursor, repo_line_count,
    repo_lines_before,
};
use crate::model::{
    repo_eq_except_branch, repos_eq_except, toggled, App, BranchNode, RepoNode,
};
use vstd::arithmetic::div_mod::{
    lemma_add_mod_noop_right, lemma_mod_add_multiples_vanish, lemma_mod_multiples_vanish,
    lemma_small_mod,
};

verus! {

/// Moving down one line and then immediately up one line returns the
/// cursor to its original (repository, branch, item) triple.  The
/// hypotheses are exactly what `move_down` and `move_up` ensure on a
/// non-empty tree whose cursor is not already on the last visible line.
pub proof fn lemma_down_then_up_roundtrip(a: App, m: App, z: App)
    requires
        a.wf(),
        m.wf(),
        z.wf(),
        m.repos == a.repos,
        z.repos == m.repos,
        a.repos@.len() > 0,
        a.cursor_line() + 1 < a.total_lines(),
        m.cursor_line() == a.cursor_line() + 1,
        z.cursor_line() == (if m.cursor_line() > 0 {
            (m.cursor_line() - 1) as nat
        } else {
            0nat
        }),
    ensures
        z.cursor() == a.cursor(),
{
    lemma_cursor_line_determines_cursor(a, z);
}

/// One application of `cycle_worktree`'s index arithmetic.
pub open spec fn cycle_idx(idx: int, delta: int, n: int) -> int {
    (idx + delta) % n
}

/// `k` applications of `cycle_worktree` with the same delta.
pub open spec fn iter_cycle(idx: int, delta: int, n: int, k: nat) -> int
    decreases k,
{
    if k == 0 {
        idx
    } else {
        cycle_idx(iter_cycle(idx, delta, n, (k - 1) as nat), delta, n)
    }
}

/// Iterated cycling is modular addition: `k` steps by `delta` land on
/// `(idx + k * delta) mod n`.
pub proof fn lemma_iter_cycle_formula(idx: int, delta: int, n: int, k: nat)
    requires
        n > 0,
        0 <= idx < n,
    ensures
        iter_cycle(idx, delta, n, k) == (idx + k * delta) % n,
    decreases k,
{
    if k == 0 {
        assert(k * delta == 0) by (nonlinear_arith)
            requires
                k == 0,
        ;
        lemma_small_mod(idx as nat, n as nat);
    } else {
        let k1 = (k - 1) as nat;
        lemma_iter_cycle_formula(idx, delta, n, k1);
        assert(k1 * delta + delta == k * delta) by (nonlinear_arith)
            requires
                k1 == k - 1,
        ;
        lemma_add_mod_noop_right(delta, idx + k1 * delta, n);
        assert((delta + (idx + k1 * delta) % n) % n == (delta + (idx + k1 * delta)) % n);
    }
}

/// Cycling is a group action: applying `cycle_worktree` `n` times, where
/// `n` is the worktree count, returns the bound index to where it began,
/// whatever the delta.
pub proof fn lemma_cycle_full_rotation(idx: int, delta: int, n: int)
    requires
        n > 0,
        0 <= idx < n,
    ensures
        iter_cycle(idx, delta, n, n as nat) == idx,
{
    lemma_iter_cycle_formula(idx, delta, n, n as nat);
    assert((n as nat) * delta == n * delta) by (nonlinear_arith)
        requires
            n > 0,
    ;
    lemma_mod_multiples_vanish(delta, idx, n);
    lemma_small_mod(idx as nat, n as nat);
}

/// With delta 1 or -1, cycling visits all `n` indices before repeating:
/// no two of the first `n` iterates coincide.
pub proof fn lemma_cycle_unit_all_distinct(idx: int, delta: int, n: int, j: nat, k: nat)
    requires
        n > 0,
        0 <= idx < n,
        delta == 1 || delta == -1,
        j < k < n,
    ensures
        iter_cycle(idx, delta, n, j) != iter_cycle(idx, delta, n, k),
{
    lemma_iter_cycle_formula(idx, delta, n, j);
    lemma_iter_cycle_formula(idx, delta, n, k);
    assert(j * delta == if delta == 1 {
        j as int
    } else {
        -(j as int)
    }) by (nonlinear_arith)
        requires
            delta == 1 || delta == -1,
    ;
    assert(k * delta == if delta == 1 {
        k as int
    } else {
        -(k as int)
    }) by (nonlinear_arith)
        requires
            delta == 1 || delta == -1,
    ;
    let x = idx + j * delta;
    let y = idx + k * delta;
    // x and y differ by less than n, so equal remainders would force x == y.
    lemma_mod_add_multiples_vanish(x - n, n);
    lemma_mod_add_multiples_vanish(y - n, n);
    if 0 <= x < n {
        lemma_small_mod(x as nat, n as nat);
    } else if n <= x < 2 * n {
        lemma_small_mod((x - n) as nat, n as nat);
    } else {
        lemma_small_mod((x + n) as nat, n as nat);
        lemma_mod_add_multiples_vanish(x, n);
    }
    if 0 <= y < n {
        lemma_small_mod(y as nat, n as nat);
    } else if n <= y < 2 * n {
        lemma_small_mod((y - n) as nat, n as nat);
    } else {
        lemma_small_mod((y + n) as nat, n as nat);
        lemma_mod_add_multiples_vanish(y, n);
    }
}

/// Toggling the same identifier twice leaves the selection set unchanged.
pub proof fn lemma_toggle_twice_identity(s: Set<Seq<char>>, id: Seq<char>)
    ensures
        toggled(toggled(s, id), id) == s,
{
    if s.contains(id) {
        assert(toggled(toggled(s, id), id) =~= s);
    } else {
        assert(toggled(toggled(s, id), id) =~= s);
    }
}

/// Prefix sums over repositories only read the entries before the cut.
proof fn lemma_repo_prefix_congruent(a: Seq<RepoNode>, b: Seq<RepoNode>, j: int)
    requires
        0 <= j <= a.len(),
        a.len() == b.len(),
        forall|m: int| 0 <= m < j ==> a[m] == b[m],
    ensures
        repo_lines_before(a, j) == repo_lines_before(b, j),
    decreases j,
{
    if j > 0 {
        lemma_repo_prefix_congruent(a, b, j - 1);
    }
}

/// Replacing one repository changes a covering prefix sum by exactly the
/// difference of the two nodes' line counts.
proof fn lemma_repo_prefix_update(a: Seq<RepoNode>, b: Seq<RepoNode>, i: int, j: int)
    requires
        0 <= i < a.len(),
        i < j <= a.len(),
        repos_eq_except(a, b, i),
    ensures
        repo_lines_before(b, j) + repo_line_count(a[i]) == repo_lines_before(a, j)
            + repo_line_count(b[i]),
    decreases j,
{
    if j == i + 1 {
        lemma_repo_prefix_congruent(a, b, i);
    } else {
        lemma_repo_prefix_update(a, b, i, j - 1);
    }
}

/// Branch prefix sums only read the branch list and the branch data.
proof fn lemma_branch_prefix_same_fields(x: RepoNode, y: RepoNode, j: int)
    requires
        0 <= j,
        x.branches == y.branches,
        x.data == y.data,
    ensures
        branch_lines_before(x, j) == branch_lines_before(y, j),
    decreases j,
{
    if j > 0 {
        lemma_branch_prefix_same_fields(x, y, j - 1);
    }
}

/// Branch prefix sums agree below a replaced branch and shift by the two
/// branches' count difference above it.
proof fn lemma_branch_prefix_update(x: RepoNode, y: RepoNode, j: int, m: int)
    requires
        repo_eq_except_branch(x, y, j),
        0 <= j < x.branches@.len(),
        0 <= m <= x.branches@.len(),
    ensures
        m <= j ==> branch_lines_before(x, m) == branch_lines_before(y, m),
        m > j ==> branch_lines_before(y, m) + branch_line_count(x, j) == branch_lines_before(
            x,
            m,
        ) + branch_line_count(y, j),
    decreases m,
{
    if m > 0 {
        lemma_branch_prefix_update(x, y, j, m - 1);
    }
}

/// Collapsing an expanded repository removes exactly its descendants —
/// the visible lines of its branches and their sessions — from the
/// flattened line count, and re-expanding a collapsed one adds exactly
/// that number back.  The hypotheses are what `toggle_expand` ensures on
/// a repository cursor.
pub proof fn lemma_repo_flip_line_count(a: Seq<RepoNode>, b: Seq<RepoNode>, i: int)
    requires
        0 <= i < a.len(),
        repos_eq_except(a, b, i),
        b[i] == (RepoNode { expanded: !a[i].expanded, ..a[i] }),
    ensures
        ({
            let descendants = branch_lines_before(a[i], a[i].branches@.len() as int);
            &&& a[i].expanded ==> repo_lines_before(b, b.len() as int) + descendants
                == repo_lines_before(a, a.len() as int)
            &&& !a[i].expanded ==> repo_lines_before(b, b.len() as int) == repo_lines_before(
                a,
                a.len() as int,
            ) + descendants
        }),
{
    lemma_repo_prefix_update(a, b, i, a.len() as int);
    lemma_branch_prefix_same_fields(a[i], b[i], a[i].branches@.len() as int);
}

/// Collapsing an expanded branch removes exactly its visible sessions
/// from the flattened line count (nothing, when its repository is itself
/// collapsed), and re-expanding adds them back.  The hypotheses are what
/// `toggle_expand` ensures on a branch cursor.
pub proof fn lemma_branch_flip_line_count(a: Seq<RepoNode>, b: Seq<RepoNode>, i: int, j: int)
    requires
        0 <= i < a.len(),
        repos_eq_except(a, b, i),
        repo_eq_except_branch(a[i], b[i], j),
        0 <= j < a[i].branches@.len(),
        b[i].branches@[j] == (BranchNode {
            expanded: !a[i].branches@[j].expanded,
            ..a[i].branches@[j]
        }),
    ensures
        ({
            let descendants: nat = if a[i].expanded {
                a[i].data.branches@[j].sessions@.len()
            } else {
                0nat
            };
            &&& a[i].branches@[j].expanded ==> repo_lines_before(b, b.len() as int) + descendants
                == repo_lines_before(a, a.len() as int)
            &&& !a[i].branches@[j].expanded ==> repo_lines_before(b, b.len() as int)
                == repo_lines_before(a, a.len() as int) + descendants
        }),
{
    lemma_repo_prefix_update(a, b, i, a.len() as int);
    lemma_branch_prefix_update(a[i], b[i], j, a[i].branches@.len() as int);
}

} // verus!
