use ws::model::{
    App, BranchData, RepoData, SelectedItem, SessionData, SessionProvider, WorktreeInfo,
    WorktreeState,
};

fn nav_session(uuid: &str) -> SessionData {
    SessionData {
        uuid: uuid.to_string(),
        summary: None,
        first_prompt: None,
        modified: 0,
        message_count: None,
        provider: SessionProvider::Assistant,
        project_path: "/src".to_string(),
    }
}

fn nav_wt(path: &str, branch: Option<&str>) -> WorktreeInfo {
    WorktreeInfo {
        path: path.to_string(),
        name: path.rsplit('/').next().unwrap_or(path).to_string(),
        checked_out_branch: branch.map(|b| b.to_string()),
    }
}

fn clean() -> WorktreeState {
    WorktreeState { is_dirty: false, has_wip: false }
}

/// Two repos: the first has two branches (two sessions on the first
/// branch, one on the second), the second has one branch with one session.
fn nav_tree() -> (Vec<RepoData>, Vec<Vec<WorktreeState>>) {
    let r1 = RepoData {
        name: "alpha".to_string(),
        worktrees: vec![nav_wt("/a/main", Some("main")), nav_wt("/a/dev", Some("dev"))],
        branches: vec![
            BranchData {
                branch: "main".to_string(),
                sessions: vec![nav_session("s1"), nav_session("s2")],
            },
            BranchData { branch: "dev".to_string(), sessions: vec![nav_session("s3")] },
        ],
    };
    let r2 = RepoData {
        name: "beta".to_string(),
        worktrees: vec![nav_wt("/b/main", Some("main"))],
        branches: vec![BranchData {
            branch: "main".to_string(),
            sessions: vec![nav_session("s4")],
        }],
    };
    (vec![r1, r2], vec![vec![clean(), clean()], vec![clean()]])
}

fn nav_app() -> App {
    let (data, states) = nav_tree();
    let mut app = App::new(String::new());
    app.refresh_data(data, states);
    app
}

#[test]
fn refresh_builds_expanded_tree_with_default_bindings() {
    let app = nav_app();
    assert_eq!(app.repos.len(), 2);
    assert!(app.repos[0].expanded);
    assert!(app.repos[0].branches[0].expanded);
    // "main" is checked out in worktree 0, "dev" in worktree 1.
    assert_eq!(app.repos[0].branches[0].selected_worktree_idx, 0);
    assert_eq!(app.repos[0].branches[1].selected_worktree_idx, 1);
    assert!(app.repos[0].branches[0].selected_sessions.is_empty());
    assert_eq!(app.selected_repo_idx, 0);
    assert_eq!(app.selected_item, SelectedItem::Repo);
}

#[test]
fn visible_line_count_counts_every_expanded_node() {
    let app = nav_app();
    // repo1 + 2 branches + 3 sessions + repo2 + 1 branch + 1 session = 9
    assert_eq!(app.visible_line_count(), 9);
}

#[test]
fn move_down_walks_the_flattened_tree_in_order() {
    let mut app = nav_app();
    let expected = [
        (0, 0, SelectedItem::Repo),
        (0, 0, SelectedItem::Branch),
        (0, 0, SelectedItem::Session(0)),
        (0, 0, SelectedItem::Session(1)),
        (0, 1, SelectedItem::Branch),
        (0, 1, SelectedItem::Session(0)),
        (1, 0, SelectedItem::Repo),
        (1, 0, SelectedItem::Branch),
        (1, 0, SelectedItem::Session(0)),
    ];
    for (line, want) in expected.iter().enumerate() {
        assert_eq!(app.selected_line_index(), line);
        assert_eq!(
            (app.selected_repo_idx, app.selected_branch_idx, app.selected_item),
            *want
        );
        app.move_down();
    }
    // At the last line, moving down stays put.
    assert_eq!(app.selected_line_index(), 8);
}

#[test]
fn move_down_then_up_returns_to_the_same_node() {
    // The round trip holds from every line but the last.
    let total = nav_app().visible_line_count();
    for start in 0..total - 1 {
        let mut app = nav_app();
        for _ in 0..start {
            app.move_down();
        }
        let before = (app.selected_repo_idx, app.selected_branch_idx, app.selected_item);
        app.move_down();
        app.move_up();
        let after = (app.selected_repo_idx, app.selected_branch_idx, app.selected_item);
        assert_eq!(before, after);
    }
}

#[test]
fn move_up_at_top_and_down_at_bottom_are_no_ops() {
    let mut app = nav_app();
    app.move_up();
    assert_eq!(app.selected_line_index(), 0);
    app.scroll_to_bottom();
    let last = app.selected_line_index();
    app.move_down();
    assert_eq!(app.selected_line_index(), last);
}

#[test]
fn move_skips_collapsed_descendants() {
    let mut app = nav_app();
    // Collapse the first repository and move down: straight to repo 2.
    app.toggle_expand();
    assert_eq!(app.visible_line_count(), 4);
    app.move_down();
    assert_eq!(app.selected_repo_idx, 1);
    assert_eq!(app.selected_item, SelectedItem::Repo);
}

#[test]
fn collapse_removes_exactly_the_descendants_and_expand_restores() {
    let mut app = nav_app();
    let before = app.visible_line_count();
    // Repo 1 has 2 branches + 3 sessions = 5 descendants.
    app.toggle_expand();
    assert_eq!(app.visible_line_count(), before - 5);
    app.toggle_expand();
    assert_eq!(app.visible_line_count(), before);
    // Branch 1 of repo 1 has 2 sessions.
    app.move_down();
    app.toggle_expand();
    assert_eq!(app.visible_line_count(), before - 2);
    app.toggle_expand();
    assert_eq!(app.visible_line_count(), before);
}

#[test]
fn cycle_worktree_full_rotation_returns_to_start() {
    let mut app = nav_app();
    app.move_down(); // branch "main" of repo 1, bound to worktree 0
    for delta in [1, -1, 3, -5] {
        let start = app.repos[0].branches[0].selected_worktree_idx;
        let n = app.repos[0].data.worktrees.len();
        for _ in 0..n {
            app.cycle_worktree(delta);
        }
        assert_eq!(app.repos[0].branches[0].selected_worktree_idx, start);
    }
}

#[test]
fn cycle_worktree_by_one_visits_every_index() {
    let mut app = nav_app();
    app.move_down();
    let n = app.repos[0].data.worktrees.len();
    let mut seen = vec![false; n];
    for _ in 0..n {
        let idx = app.repos[0].branches[0].selected_worktree_idx;
        assert!(!seen[idx]);
        seen[idx] = true;
        app.cycle_worktree(1);
    }
    assert!(seen.iter().all(|s| *s));
}

#[test]
fn cycle_worktree_wraps_negative_deltas_with_proper_modulo() {
    let mut app = nav_app();
    app.move_down();
    assert_eq!(app.repos[0].branches[0].selected_worktree_idx, 0);
    app.cycle_worktree(-1);
    assert_eq!(app.repos[0].branches[0].selected_worktree_idx, 1);
    app.cycle_worktree(-3);
    assert_eq!(app.repos[0].branches[0].selected_worktree_idx, 0);
}

#[test]
fn toggle_session_twice_restores_the_selection_set() {
    let mut app = nav_app();
    app.move_down();
    app.move_down(); // session s1
    assert_eq!(app.selected_item, SelectedItem::Session(0));
    assert!(app.repos[0].branches[0].selected_sessions.is_empty());
    app.toggle_session();
    assert_eq!(app.repos[0].branches[0].selected_sessions, vec!["s1".to_string()]);
    app.toggle_session();
    assert!(app.repos[0].branches[0].selected_sessions.is_empty());
}

#[test]
fn toggle_session_keeps_other_selections() {
    let mut app = nav_app();
    app.move_down();
    app.move_down(); // s1
    app.toggle_session();
    app.move_down(); // s2
    app.toggle_session();
    app.move_up(); // back on s1
    app.toggle_session();
    assert_eq!(app.repos[0].branches[0].selected_sessions, vec!["s2".to_string()]);
}

#[test]
fn toggle_session_ignores_non_session_cursor() {
    let mut app = nav_app();
    app.toggle_session();
    assert!(app.repos[0].branches[0].selected_sessions.is_empty());
    app.move_down();
    app.toggle_session();
    assert!(app.repos[0].branches[0].selected_sessions.is_empty());
}

#[test]
fn ensure_selection_visible_keeps_cursor_inside_window() {
    for height in 1..5 {
        for prior in [0usize, 3, 7, 20] {
            for steps in 0..9 {
                let mut app = nav_app();
                app.viewport_height = height;
                app.scroll_offset = prior;
                for _ in 0..steps {
                    app.move_down();
                }
                app.ensure_selection_visible();
                let line = app.selected_line_index();
                assert!(app.scroll_offset <= line);
                assert!(line < app.scroll_offset + height);
            }
        }
    }
}

#[test]
fn ensure_selection_visible_leaves_offset_when_already_inside() {
    let mut app = nav_app();
    app.viewport_height = 4;
    app.scroll_offset = 1;
    app.move_down();
    app.move_down(); // line 2: inside [1, 5)
    app.ensure_selection_visible();
    assert_eq!(app.scroll_offset, 1);
}

#[test]
fn scroll_functions_move_by_lines_and_clamp() {
    let mut app = nav_app();
    app.viewport_height = 3;
    app.scroll_down(4);
    assert_eq!(app.selected_line_index(), 4);
    app.scroll_up(2);
    assert_eq!(app.selected_line_index(), 2);
    app.scroll_up(10);
    assert_eq!(app.selected_line_index(), 0);
    app.scroll_down(100);
    assert_eq!(app.selected_line_index(), 8);
    app.scroll_to_top();
    assert_eq!(app.selected_line_index(), 0);
    assert_eq!(app.scroll_offset, 0);
    app.scroll_to_bottom();
    assert_eq!(app.selected_line_index(), 8);
}

#[test]
fn refresh_to_empty_tree_gives_the_empty_state_cursor() {
    let mut app = nav_app();
    // Walk somewhere deep first.
    app.scroll_to_bottom();
    app.refresh_data(Vec::new(), Vec::new());
    assert_eq!(app.repos.len(), 0);
    assert_eq!(app.selected_repo_idx, 0);
    assert_eq!(app.selected_branch_idx, 0);
    assert_eq!(app.selected_item, SelectedItem::Repo);
    // All movement operations no-op without error.
    app.move_down();
    app.move_up();
    app.cycle_worktree(1);
    app.toggle_session();
    app.toggle_expand();
    app.scroll_to_bottom();
    assert_eq!(app.selected_line_index(), 0);
    assert_eq!(app.visible_line_count(), 0);
    assert_eq!(app.selected_item, SelectedItem::Repo);
}

#[test]
fn refresh_collapses_out_of_range_cursor() {
    let mut app = nav_app();
    app.scroll_to_bottom(); // repo 1, session 0
    // New tree with a single repo and no sessions under its branch.
    let data = vec![RepoData {
        name: "gamma".to_string(),
        worktrees: vec![nav_wt("/g/main", Some("main"))],
        branches: vec![BranchData { branch: "main".to_string(), sessions: Vec::new() }],
    }];
    app.refresh_data(data, vec![vec![clean()]]);
    assert_eq!(app.selected_repo_idx, 0);
    assert_eq!(app.selected_branch_idx, 0);
    // The session cursor cannot resolve any more: it falls back to the
    // enclosing branch.
    assert_eq!(app.selected_item, SelectedItem::Branch);
}
