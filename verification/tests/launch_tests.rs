use ws::model::{
    Action, App, BranchData, Key, RepoData, SelectedItem, SessionData, SessionProvider,
    WorktreeInfo, WorktreeState,
};

fn lp_session(uuid: &str, summary: Option<&str>, prompt: Option<&str>, src: &str) -> SessionData {
    SessionData {
        uuid: uuid.to_string(),
        summary: summary.map(|s| s.to_string()),
        first_prompt: prompt.map(|s| s.to_string()),
        modified: 0,
        message_count: None,
        provider: SessionProvider::Assistant,
        project_path: src.to_string(),
    }
}

fn lp_wt(path: &str, branch: Option<&str>) -> WorktreeInfo {
    WorktreeInfo {
        path: path.to_string(),
        name: path.rsplit('/').next().unwrap_or(path).to_string(),
        checked_out_branch: branch.map(|b| b.to_string()),
    }
}

/// One repo, two worktrees (the first dirty, the second clean), one
/// branch checked out in the first worktree, two sessions: one created in
/// the bound worktree, one elsewhere.
fn lp_app(dirty: bool, has_wip: bool) -> App {
    let data = vec![RepoData {
        name: "alpha".to_string(),
        worktrees: vec![lp_wt("/a/main", Some("main")), lp_wt("/a/spare", None)],
        branches: vec![BranchData {
            branch: "main".to_string(),
            sessions: vec![
                lp_session("s-here", Some("summary one"), None, "/a/main"),
                lp_session("s-away", None, Some("a first prompt"), "/elsewhere"),
            ],
        }],
    }];
    let states = vec![vec![
        WorktreeState { is_dirty: dirty, has_wip },
        WorktreeState { is_dirty: false, has_wip: false },
    ]];
    let mut app = App::new(String::new());
    app.refresh_data(data, states);
    app
}

#[test]
fn confirm_on_repo_cursor_toggles_expansion() {
    let mut app = lp_app(false, false);
    assert!(app.repos[0].expanded);
    let action = app.confirm_selection();
    assert_eq!(action, Action::Continue);
    assert!(!app.repos[0].expanded);
    assert!(app.confirm_dialog.is_none());
}

#[test]
fn confirm_on_dirty_worktree_opens_dialog_not_ready() {
    let mut app = lp_app(true, false);
    app.move_down(); // branch cursor, bound to the dirty worktree
    let action = app.confirm_selection();
    assert_eq!(action, Action::Continue);
    let dialog = app.confirm_dialog.as_ref().expect("dialog must open");
    assert_eq!(
        dialog.message,
        "Worktree 'main' has uncommitted changes.\nCreate WIP commit?"
    );
    // Nothing queued besides remediation computed so far: clean of wip.
    assert!(app.pending_launch.pre_commands.is_empty());
}

#[test]
fn confirm_on_clean_worktree_with_wip_marker_is_ready_with_undo_queued() {
    let mut app = lp_app(false, true);
    app.move_down();
    let action = app.confirm_selection();
    assert_eq!(action, Action::Launch);
    assert!(app.confirm_dialog.is_none());
    assert_eq!(
        app.pending_launch.pre_commands,
        vec!["git reset --soft HEAD~1".to_string()]
    );
}

#[test]
fn confirm_queues_checkout_when_bound_worktree_has_another_branch() {
    let mut app = lp_app(false, false);
    app.move_down();
    // Bind the branch to the spare worktree, which has nothing checked out.
    app.cycle_worktree(1);
    let action = app.confirm_selection();
    assert_eq!(action, Action::Launch);
    assert_eq!(app.pending_launch.pre_commands, vec!["git checkout main".to_string()]);
}

#[test]
fn confirm_queues_undo_then_checkout_in_order() {
    // The spare worktree carries a paused-work marker, is otherwise clean,
    // and has no branch checked out: undo first, then the checkout.
    let data = vec![RepoData {
        name: "alpha".to_string(),
        worktrees: vec![lp_wt("/a/main", Some("main")), lp_wt("/a/spare", None)],
        branches: vec![BranchData { branch: "main".to_string(), sessions: Vec::new() }],
    }];
    let states = vec![vec![
        WorktreeState { is_dirty: false, has_wip: false },
        WorktreeState { is_dirty: false, has_wip: true },
    ]];
    let mut app = App::new(String::new());
    app.refresh_data(data, states);
    app.move_down();
    app.cycle_worktree(1);
    let action = app.confirm_selection();
    assert_eq!(action, Action::Launch);
    assert_eq!(
        app.pending_launch.pre_commands,
        vec!["git reset --soft HEAD~1".to_string(), "git checkout main".to_string()]
    );
}

#[test]
fn dialog_yes_queues_snapshot_and_launches() {
    let mut app = lp_app(true, true);
    app.move_down();
    assert_eq!(app.confirm_selection(), Action::Continue);
    assert!(app.confirm_dialog.is_some());
    // While the dialog is up, movement is refused.
    let before = (app.selected_repo_idx, app.selected_branch_idx, app.selected_item);
    let (action, refresh) = app.handle_key(Key::Down);
    assert_eq!(action, Action::Continue);
    assert!(!refresh);
    assert_eq!(
        (app.selected_repo_idx, app.selected_branch_idx, app.selected_item),
        before
    );
    assert!(app.confirm_dialog.is_some());
    // 'y' appends the snapshot command and proceeds.
    let (action, _) = app.handle_key(Key::Char('y'));
    assert_eq!(action, Action::Launch);
    assert!(app.confirm_dialog.is_none());
    assert_eq!(
        app.pending_launch.pre_commands,
        vec![
            "git reset --soft HEAD~1".to_string(),
            "git add -A && git commit -m 'WIP: paused work'".to_string(),
        ]
    );
}

#[test]
fn dialog_no_and_escape_discard_without_launching() {
    for key in [Key::Char('n'), Key::Char('N'), Key::Esc] {
        let mut app = lp_app(true, false);
        app.move_down();
        app.confirm_selection();
        assert!(app.confirm_dialog.is_some());
        let (action, refresh) = app.handle_key(key);
        assert_eq!(action, Action::Continue);
        assert!(!refresh);
        assert!(app.confirm_dialog.is_none());
        assert!(app.pending_launch.pre_commands.is_empty());
    }
}

#[test]
fn launch_plan_emits_one_descriptor_per_selected_session_plus_editor() {
    let mut app = lp_app(false, false);
    app.move_down(); // branch
    app.move_down(); // session s-here
    app.toggle_session();
    app.move_down(); // session s-away
    app.toggle_session();
    app.move_up();
    assert_eq!(app.confirm_selection(), Action::Launch);
    let plan = app.launch_plan().expect("plan must exist");
    // One editor target plus two session descriptors: 3 launches in all.
    assert_eq!(1 + plan.sessions.len(), 3);
    assert_eq!(plan.worktree_path, "/a/main");
    assert!(plan.pre_commands.is_empty());
    // Selection order is preserved.
    assert_eq!(plan.sessions[0].uuid, "s-here");
    assert_eq!(plan.sessions[1].uuid, "s-away");
    // Relocation is requested exactly for the session created elsewhere.
    assert!(!plan.sessions[0].needs_migration);
    assert_eq!(plan.sessions[0].source_path, "/a/main");
    assert!(plan.sessions[1].needs_migration);
    assert_eq!(plan.sessions[1].source_path, "/elsewhere");
}

#[test]
fn launch_plan_titles_fall_back_from_summary_to_prompt_to_placeholder() {
    let data = vec![RepoData {
        name: "alpha".to_string(),
        worktrees: vec![lp_wt("/a/main", Some("main"))],
        branches: vec![BranchData {
            branch: "main".to_string(),
            sessions: vec![
                lp_session("s1", Some("short summary"), Some("ignored"), "/a/main"),
                lp_session("s2", None, Some("prompt text"), "/a/main"),
                lp_session("s3", None, None, "/a/main"),
                lp_session(
                    "s4",
                    Some("a very long summary that goes on and on and on"),
                    None,
                    "/a/main",
                ),
            ],
        }],
    }];
    let states = vec![vec![WorktreeState { is_dirty: false, has_wip: false }]];
    let mut app = App::new(String::new());
    app.refresh_data(data, states);
    app.move_down();
    for _ in 0..4 {
        app.move_down();
        app.toggle_session();
    }
    let plan = app.launch_plan().expect("plan must exist");
    assert_eq!(plan.sessions[0].title, "short summary");
    assert_eq!(plan.sessions[1].title, "prompt text");
    assert_eq!(plan.sessions[2].title, "Assistant session");
    // 30 characters in all: the first 27 plus the ellipsis marker.
    assert_eq!(plan.sessions[3].title, "a very long summary that go...");
    assert_eq!(plan.sessions[3].title.chars().count(), 30);
}

#[test]
fn launch_plan_is_none_without_a_target() {
    let app = App::new(String::new());
    assert!(app.launch_plan().is_none());
    // A repository without worktrees cannot launch either.
    let data = vec![RepoData {
        name: "alpha".to_string(),
        worktrees: Vec::new(),
        branches: vec![BranchData { branch: "main".to_string(), sessions: Vec::new() }],
    }];
    let mut app = App::new(String::new());
    app.refresh_data(data, vec![Vec::new()]);
    assert!(app.launch_plan().is_none());
    let mut app2 = app.clone();
    app2.move_down();
    assert_eq!(app2.confirm_selection(), Action::Continue);
    assert!(app2.confirm_dialog.is_none());
}

#[test]
fn filter_keys_edit_the_filter_and_request_refresh() {
    let mut app = lp_app(false, false);
    let (a, refresh) = app.handle_key(Key::Char('a'));
    assert_eq!(a, Action::Continue);
    assert!(refresh);
    let (_, refresh) = app.handle_key(Key::Char('b'));
    assert!(refresh);
    assert_eq!(app.filter, "ab");
    let (_, refresh) = app.handle_key(Key::Backspace);
    assert!(refresh);
    assert_eq!(app.filter, "a");
    let (_, refresh) = app.handle_key(Key::Esc);
    assert!(refresh);
    assert_eq!(app.filter, "");
    // Escape with an empty filter does nothing.
    let (a, refresh) = app.handle_key(Key::Esc);
    assert_eq!(a, Action::Continue);
    assert!(!refresh);
}

#[test]
fn space_toggles_selection_only_while_the_filter_is_empty() {
    let mut app = lp_app(false, false);
    app.handle_key(Key::Down);
    app.handle_key(Key::Down); // session s-here
    assert_eq!(app.selected_item, SelectedItem::Session(0));
    let (_, refresh) = app.handle_key(Key::Char(' '));
    assert!(!refresh);
    assert_eq!(
        app.repos[0].branches[0].selected_sessions,
        vec!["s-here".to_string()]
    );
    // With a non-empty filter, space goes into the filter instead.
    app.handle_key(Key::Char('x'));
    let (_, refresh) = app.handle_key(Key::Char(' '));
    assert!(refresh);
    assert_eq!(app.filter, "x ");
    assert_eq!(
        app.repos[0].branches[0].selected_sessions,
        vec!["s-here".to_string()]
    );
}

#[test]
fn arrow_keys_move_and_cycle_through_the_dispatcher() {
    let mut app = lp_app(false, false);
    app.viewport_height = 10;
    let (a, refresh) = app.handle_key(Key::Down);
    assert_eq!(a, Action::Continue);
    assert!(!refresh);
    assert_eq!(app.selected_item, SelectedItem::Branch);
    app.handle_key(Key::Right);
    assert_eq!(app.repos[0].branches[0].selected_worktree_idx, 1);
    app.handle_key(Key::Left);
    assert_eq!(app.repos[0].branches[0].selected_worktree_idx, 0);
    let (a, _) = app.handle_key(Key::Up);
    assert_eq!(a, Action::Continue);
    assert_eq!(app.selected_item, SelectedItem::Repo);
    let (a, refresh) = app.handle_key(Key::Other);
    assert_eq!(a, Action::Continue);
    assert!(!refresh);
}

#[test]
fn enter_through_the_dispatcher_reaches_the_pipeline() {
    let mut app = lp_app(true, false);
    app.handle_key(Key::Down);
    let (action, refresh) = app.handle_key(Key::Enter);
    assert_eq!(action, Action::Continue);
    assert!(!refresh);
    assert!(app.confirm_dialog.is_some());
}
