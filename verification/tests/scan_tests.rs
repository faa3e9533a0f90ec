use ws::config::{expand_path_with, Config};
use ws::migrate::{migrate_index, path_to_project_dir, sessions_from_index_entries,
    SessionIndexEntry};
use ws::model::SessionProvider;
use ws::scan::{
    codex_session, first_prompt_for, is_wip_marker, parse_worktree_list, session_from_lines,
    split_into_lines, stale_keys, trim_blanks, LineFacts,
};
use ws::text::{relative_time_label, truncate};

fn entry(id: &str, modified: &str) -> SessionIndexEntry {
    SessionIndexEntry {
        session_id: id.to_string(),
        full_path: format!("/assistant/{}.jsonl", id),
        project_path: "/home/user/proj".to_string(),
        git_branch: Some("main".to_string()),
        summary: Some("sum".to_string()),
        first_prompt: Some("hi".to_string()),
        modified: modified.to_string(),
        message_count: Some(4),
    }
}

#[test]
fn truncate_keeps_short_and_cuts_long_titles() {
    assert_eq!(truncate("short", 30), "short");
    assert_eq!(truncate("exactly-ten", 11), "exactly-ten");
    assert_eq!(truncate("abcdefghij", 8), "abcde...");
    assert_eq!(truncate("abc", 3), "abc");
    assert_eq!(truncate("abcd", 3), "...");
}

#[test]
fn path_to_project_dir_replaces_separators() {
    assert_eq!(
        path_to_project_dir("/Users/sam/Documents/worktree"),
        "-Users-sam-Documents-worktree"
    );
    assert_eq!(path_to_project_dir("nodash"), "nodash");
    assert_eq!(path_to_project_dir(""), "");
}

#[test]
fn expand_path_with_substitutes_the_home_prefix() {
    let home = Some("/home/sam".to_string());
    assert_eq!(expand_path_with(&home, "~/Documents"), "/home/sam/Documents");
    assert_eq!(expand_path_with(&home, "/abs/path"), "/abs/path");
    assert_eq!(expand_path_with(&home, "~"), "~");
    assert_eq!(expand_path_with(&None, "~/Documents"), "~/Documents");
}

#[test]
fn config_defaults_match_the_built_ins() {
    let c = Config::default();
    assert_eq!(c.scan_dirs, vec!["~/Documents".to_string()]);
    assert_eq!(c.editor, "code");
    assert!(c.scan_on_open);
    // One expansion per configured directory.
    assert_eq!(c.expanded_scan_dirs().len(), 1);
}

#[test]
fn expand_path_keeps_plain_paths() {
    assert_eq!(Config::expand_path("/opt/src"), "/opt/src");
}

#[test]
fn wip_marker_is_recognised_up_to_surrounding_blanks() {
    assert!(is_wip_marker("WIP: paused work"));
    assert!(is_wip_marker("WIP: paused work\n"));
    assert!(is_wip_marker("  WIP: paused work \r\n"));
    assert!(!is_wip_marker("WIP: paused"));
    assert!(!is_wip_marker("fix: something"));
    assert!(!is_wip_marker(""));
}

#[test]
fn trim_blanks_strips_both_ends_only() {
    assert_eq!(trim_blanks("  a b \t\n"), "a b");
    assert_eq!(trim_blanks("x"), "x");
    assert_eq!(trim_blanks(" \t\r\n"), "");
    assert_eq!(trim_blanks(""), "");
}

#[test]
fn split_into_lines_matches_line_terminator_rules() {
    assert_eq!(split_into_lines("a\nb"), vec!["a", "b"]);
    assert_eq!(split_into_lines("a\nb\n"), vec!["a", "b"]);
    assert_eq!(split_into_lines("a\r\nb\r\n"), vec!["a", "b"]);
    assert_eq!(split_into_lines("\n"), vec![""]);
    assert_eq!(split_into_lines(""), Vec::<String>::new());
    assert_eq!(split_into_lines("tail\r"), vec!["tail\r"]);
}

#[test]
fn parse_worktree_list_reads_porcelain_output() {
    let output = "worktree /repo/main\nHEAD 1234\nbranch refs/heads/main\n\nworktree /repo/fix\nHEAD 5678\nbranch refs/heads/fix/bug-1\n\nworktree /repo/spare\nHEAD 9abc\ndetached\n";
    let wts = parse_worktree_list(output);
    assert_eq!(wts.len(), 3);
    assert_eq!(wts[0].path, "/repo/main");
    assert_eq!(wts[0].branch, Some("main".to_string()));
    assert_eq!(wts[1].path, "/repo/fix");
    assert_eq!(wts[1].branch, Some("fix/bug-1".to_string()));
    assert_eq!(wts[2].path, "/repo/spare");
    assert_eq!(wts[2].branch, None);
}

#[test]
fn parse_worktree_list_handles_missing_trailing_newline_and_bare_refs() {
    let output = "worktree /w\nbranch topic";
    let wts = parse_worktree_list(output);
    assert_eq!(wts.len(), 1);
    assert_eq!(wts[0].path, "/w");
    assert_eq!(wts[0].branch, Some("topic".to_string()));
    assert!(parse_worktree_list("").is_empty());
}

#[test]
fn session_fold_takes_first_mentions_and_counts_user_lines() {
    let lines = vec![
        LineFacts {
            cwd: None,
            git_branch: None,
            is_user: false,
            user_content: None,
            summary: None,
        },
        LineFacts {
            cwd: Some("/proj".to_string()),
            git_branch: Some("main".to_string()),
            is_user: true,
            user_content: None,
            summary: None,
        },
        LineFacts {
            cwd: Some("/other".to_string()),
            git_branch: Some("dev".to_string()),
            is_user: true,
            user_content: Some("first words".to_string()),
            summary: Some("early summary".to_string()),
        },
        LineFacts {
            cwd: None,
            git_branch: None,
            is_user: false,
            user_content: None,
            summary: Some("late summary".to_string()),
        },
    ];
    let s = session_from_lines("u-1".to_string(), 7, &lines);
    assert_eq!(s.uuid, "u-1");
    assert_eq!(s.modified, 7);
    assert_eq!(s.project_path, "/proj");
    assert_eq!(s.git_branch, Some("main".to_string()));
    assert_eq!(s.first_prompt, Some("first words".to_string()));
    assert_eq!(s.summary, Some("late summary".to_string()));
    assert_eq!(s.message_count, Some(2));
    assert_eq!(s.provider, SessionProvider::Assistant);
}

#[test]
fn session_fold_of_nothing_is_empty() {
    let s = session_from_lines("u-2".to_string(), 0, &Vec::new());
    assert_eq!(s.project_path, "");
    assert_eq!(s.git_branch, None);
    assert_eq!(s.first_prompt, None);
    assert_eq!(s.summary, None);
    assert_eq!(s.message_count, Some(0));
}

#[test]
fn history_lookup_keeps_the_first_entry_per_session() {
    let history = vec![
        ("a".to_string(), "first a".to_string()),
        ("b".to_string(), "first b".to_string()),
        ("a".to_string(), "second a".to_string()),
    ];
    assert_eq!(
        first_prompt_for(&history, &"a".to_string()),
        Some("first a".to_string())
    );
    assert_eq!(
        first_prompt_for(&history, &"b".to_string()),
        Some("first b".to_string())
    );
    assert_eq!(first_prompt_for(&history, &"c".to_string()), None);
}

#[test]
fn codex_session_fills_from_history_and_tags_the_provider() {
    let history = vec![("id-9".to_string(), "hello there".to_string())];
    let s = codex_session(
        "id-9".to_string(),
        Some("/proj".to_string()),
        Some("main".to_string()),
        42,
        &history,
    );
    assert_eq!(s.uuid, "id-9");
    assert_eq!(s.project_path, "/proj");
    assert_eq!(s.first_prompt, Some("hello there".to_string()));
    assert_eq!(s.summary, None);
    assert_eq!(s.message_count, None);
    assert_eq!(s.provider, SessionProvider::Codex);
    let s2 = codex_session("other".to_string(), None, None, 0, &history);
    assert_eq!(s2.project_path, "");
    assert_eq!(s2.first_prompt, None);
}

#[test]
fn stale_keys_are_exactly_those_no_longer_reported() {
    let all = vec!["a".to_string(), "b".to_string(), "c".to_string()];
    let current = vec!["b".to_string()];
    let stale = stale_keys(&all, &current);
    assert_eq!(stale, vec!["a".to_string(), "c".to_string()]);
    assert!(stale_keys(&all, &all).is_empty());
    assert_eq!(stale_keys(&all, &Vec::new()), all);
}

#[test]
fn migrate_index_moves_and_repoints_the_entry() {
    let mut source = vec![entry("keep", "2024-01-01T00:00:00Z"), entry("move", "2024-01-01T00:00:00Z")];
    let mut target = vec![entry("existing", "2024-01-01T00:00:00Z")];
    let found = migrate_index(
        &mut source,
        &mut target,
        &"move".to_string(),
        "/new/proj".to_string(),
        "/assistant/new/move.jsonl".to_string(),
    );
    assert!(found);
    assert_eq!(source.len(), 1);
    assert_eq!(source[0].session_id, "keep");
    assert_eq!(target.len(), 2);
    assert_eq!(target[1].session_id, "move");
    assert_eq!(target[1].project_path, "/new/proj");
    assert_eq!(target[1].full_path, "/assistant/new/move.jsonl");
    // The other fields of the moved entry are preserved.
    assert_eq!(target[1].summary, Some("sum".to_string()));
}

#[test]
fn migrate_index_without_a_match_changes_nothing() {
    let mut source = vec![entry("a", "2024-01-01T00:00:00Z")];
    let mut target = Vec::new();
    let found = migrate_index(
        &mut source,
        &mut target,
        &"missing".to_string(),
        "/x".to_string(),
        "/y".to_string(),
    );
    assert!(!found);
    assert_eq!(source.len(), 1);
    assert!(target.is_empty());
}

#[test]
fn index_entries_become_sessions_with_parsed_timestamps() {
    let entries = vec![entry("s1", "2024-01-15T10:30:00Z"), entry("s2", "not a date")];
    let sessions = sessions_from_index_entries(entries);
    assert_eq!(sessions.len(), 2);
    assert_eq!(sessions[0].uuid, "s1");
    assert_eq!(sessions[0].modified, 1_705_314_600_000);
    assert_eq!(sessions[0].git_branch, Some("main".to_string()));
    assert_eq!(sessions[0].provider, SessionProvider::Assistant);
    // An unparseable timestamp becomes 0 rather than a failure.
    assert_eq!(sessions[1].modified, 0);
}

#[test]
fn relative_time_labels_pick_the_largest_whole_unit() {
    let now = 1_700_000_000_000i64;
    assert_eq!(relative_time_label(now, now), "just now");
    assert_eq!(relative_time_label(now, now + 5_000), "just now");
    assert_eq!(relative_time_label(now, now - 59_000), "just now");
    assert_eq!(relative_time_label(now, now - 60_000), "1 min ago");
    assert_eq!(relative_time_label(now, now - 59 * 60_000), "59 min ago");
    assert_eq!(relative_time_label(now, now - 2 * 3_600_000), "2 hours ago");
    assert_eq!(relative_time_label(now, now - 3 * 86_400_000), "3 days ago");
    assert_eq!(relative_time_label(now, now - 15 * 86_400_000), "2 weeks ago");
    assert_eq!(relative_time_label(now, now - 123 * 86_400_000), "17 weeks ago");
}
