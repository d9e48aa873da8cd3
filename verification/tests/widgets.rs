use warp_context::foreground_process::ForegroundProcess;
use warp_context::git_state::GitState;
use warp_context::widgets::{
    count_newlines, derive_cached, display_path, encode_path, process_lines, project_markers,
    project_type_hint, relative_time, same_path, scan_session_files, turn_count_allowed,
    ClaudeCodeWidget, ForegroundProcessWidget, GitWidget, SessionFile, SessionsSummary,
    WorkingDirectoryWidget,
};

const SEC: u128 = 1_000_000_000;

fn names(v: &[&str]) -> Vec<String> {
    v.iter().map(|s| s.to_string()).collect()
}

#[test]
fn git_card_follows_focus_and_ignores_stale_results() {
    let mut w = GitWidget::new(Some("/a".to_string()));
    assert!(w.loading);
    assert_eq!(w.body_lines(), vec!["Loading…"]);
    assert_eq!(w.handle_focused_repo_changed(Some("/a".to_string())), None);
    assert_eq!(w.handle_focused_repo_changed(Some("/b".to_string())).as_deref(), Some("/b"));
    // The result for `/a` comes back late: it is not kept.
    assert!(!w.accept_fetch_result(GitState::empty("/a".to_string())));
    assert!(w.state.is_none());
    assert!(w.accept_fetch_result(GitState::empty("/b".to_string())));
    assert!(!w.loading);
    assert_eq!(w.body_lines(), vec!["Working tree clean"]);
    assert_eq!(w.handle_focused_repo_changed(None), None);
    assert_eq!(w.body_lines(), vec!["(not a git repository)"]);
}

#[test]
fn git_card_lines_for_a_full_state() {
    let mut w = GitWidget::new(Some("/r".to_string()));
    let st = GitState {
        repo_path: "/r".to_string(),
        branch: Some("main".to_string()),
        ahead: 1,
        behind: 2,
        modified: 3,
        untracked: 0,
        stashes: 2,
        last_commit: Some("abc fix".to_string()),
        remote_url: Some("git@github.com:o/r.git".to_string()),
    };
    assert!(w.accept_fetch_result(st));
    assert_eq!(
        w.body_lines(),
        vec![
            "main • 1↑ 2↓",
            "o/r",
            "3 modified, 0 untracked",
            "2 stash entries",
            "git push to send 1 commit",
            "Last: abc fix",
        ]
    );
}

#[test]
fn git_card_plural_forms() {
    let mut w = GitWidget::new(Some("/r".to_string()));
    let st = GitState { repo_path: "/r".to_string(), ahead: 5, stashes: 1, ..Default::default() };
    assert!(w.accept_fetch_result(st));
    assert_eq!(
        w.body_lines(),
        vec!["Working tree clean", "1 stash entry", "git push to send 5 commits"]
    );
}

#[test]
fn git_card_without_data() {
    let w = GitWidget { repo: Some("/r".to_string()), state: None, loading: false };
    assert_eq!(w.body_lines(), vec!["(no git data)"]);
}

#[test]
fn sampling_card_keeps_only_current_generation() {
    let mut w = ForegroundProcessWidget::new(Some("/a".to_string()));
    assert_eq!(w.fetch_request(), Some(("/a".to_string(), 0)));
    assert_eq!(w.message_line().as_deref(), Some("Sampling…"));
    assert!(w.handle_focused_repo_changed(Some("/b".to_string())));
    assert_eq!(w.poll_generation, 1);
    assert!(!w.accept_fetch_result(0, None));
    assert!(!w.sampled);
    assert!(w.accept_fetch_result(1, None));
    assert_eq!(w.message_line().as_deref(), Some("(idle)"));
    assert!(!w.handle_focused_repo_changed(Some("/b".to_string())));
    assert!(!w.handle_detected_repo(Some("/c".to_string()), false));
    assert!(w.handle_detected_repo(Some("/c".to_string()), true));
    assert_eq!(w.poll_generation, 2);
    assert!(!w.handle_detected_repo(Some("/c".to_string()), true));
    assert!(w.handle_focused_repo_changed(None));
    assert_eq!(w.fetch_request(), None);
    assert_eq!(w.message_line().as_deref(), Some("(no active terminal)"));
}

#[test]
fn sampling_generation_wraps_around() {
    let mut w = ForegroundProcessWidget { cwd: None, process: None, sampled: false, poll_generation: u64::MAX };
    assert!(w.handle_focused_repo_changed(Some("/x".to_string())));
    assert_eq!(w.poll_generation, 0);
}

#[test]
fn process_card_lines() {
    let p = ForegroundProcess {
        pid: 77,
        name: "cargo".into(),
        command_line: "cargo test".into(),
        cpu_percent: "12.6".into(),
        elapsed: 125,
    };
    assert_eq!(process_lines(&p, "13"), vec!["cargo test", "2m5s • 13% CPU • PID 77"]);
    let mut w = ForegroundProcessWidget::new(Some("/a".to_string()));
    assert!(w.accept_fetch_result(0, Some(p)));
    assert_eq!(w.message_line(), None);
}

#[test]
fn encodes_paths_like_claude_code() {
    assert_eq!(encode_path("/Users/me/proj"), "-Users-me-proj");
    assert_eq!(encode_path("//srv//x/"), "-srv--x-");
    assert_eq!(encode_path("rel/dir"), "-rel-dir");
    assert_eq!(encode_path(""), "-");
    assert!(!encode_path("/a/b//c/").contains('/'));
}

#[test]
fn relative_time_units() {
    let now = 1_000_000 * SEC;
    assert_eq!(relative_time(None, now), "");
    assert_eq!(relative_time(Some(now - 5 * SEC), now), " • last 5s ago");
    assert_eq!(relative_time(Some(now - 5 * SEC - 1), now), " • last 5s ago");
    assert_eq!(relative_time(Some(now - 59 * SEC), now), " • last 59s ago");
    assert_eq!(relative_time(Some(now - 60 * SEC), now), " • last 1m ago");
    assert_eq!(relative_time(Some(now - 3599 * SEC), now), " • last 59m ago");
    assert_eq!(relative_time(Some(now - 7200 * SEC), now), " • last 2h ago");
    assert_eq!(relative_time(Some(now - 3 * 86_400 * SEC), now), " • last 3d ago");
    // A stamp in the future counts as now.
    assert_eq!(relative_time(Some(now + SEC), now), " • last 0s ago");
}

#[test]
fn session_scan_counts_jsonl_and_finds_newest() {
    let files = vec![
        SessionFile { path: "/d/a.jsonl".to_string(), modified: Some(5) },
        SessionFile { path: "/d/notes.txt".to_string(), modified: Some(100) },
        SessionFile { path: "/d/b.jsonl".to_string(), modified: Some(9) },
        SessionFile { path: "/d/c.jsonl".to_string(), modified: None },
        SessionFile { path: "/d/d.jsonl".to_string(), modified: Some(9) },
        SessionFile { path: "/d/.jsonl".to_string(), modified: Some(50) },
    ];
    assert_eq!(scan_session_files(&files), (4, Some(4)));
    assert_eq!(scan_session_files(&Vec::new()), (0, None));
}

#[test]
fn turn_counting_limits() {
    assert!(turn_count_allowed(true, 4 * 1024 * 1024));
    assert!(!turn_count_allowed(true, 4 * 1024 * 1024 + 1));
    assert!(!turn_count_allowed(false, 10));
    assert_eq!(count_newlines(b"a\nb\n\nc"), 3);
    assert_eq!(count_newlines(b""), 0);
}

#[test]
fn claude_card_lines() {
    let now = 100 * SEC;
    let mut w = ClaudeCodeWidget { cwd: None, summary: SessionsSummary::empty() };
    assert_eq!(w.body_lines(now), vec!["(no active terminal)"]);
    assert!(w.handle_focused_repo_changed(Some("/p".to_string())));
    assert!(!w.handle_focused_repo_changed(Some("/p".to_string())));
    assert_eq!(w.body_lines(now), vec!["No active sessions"]);
    w.summary = SessionsSummary { count: 3, last_modified: Some(40 * SEC), last_turn_count: Some(1) };
    assert_eq!(w.body_lines(now), vec!["3 session(s) • last 1m ago", "Latest: ~1 turn"]);
    w.summary.last_turn_count = Some(0);
    assert_eq!(w.body_lines(now), vec!["3 session(s) • last 1m ago"]);
    w.summary.last_turn_count = Some(12);
    w.summary.last_modified = None;
    assert_eq!(w.body_lines(now), vec!["3 session(s)", "Latest: ~12 turns"]);
}

#[test]
fn home_is_abbreviated() {
    assert_eq!(display_path("/home/u/proj/x", Some("/home/u")), "~/proj/x");
    assert_eq!(display_path("/home/u", Some("/home/u")), "~");
    assert_eq!(display_path("/home/u", Some("/home/u/")), "~");
    assert_eq!(display_path("/home/user2", Some("/home/u")), "/home/user2");
    assert_eq!(display_path("/srv", None), "/srv");
}

#[test]
fn project_hint_prefers_most_specific_manifest() {
    assert_eq!(project_type_hint(&names(&["package.json", "Cargo.toml"])), Some("Rust project"));
    assert_eq!(project_type_hint(&names(&["setup.py"])), Some("Python project"));
    assert_eq!(project_type_hint(&names(&["build.gradle.kts", ".git"])), Some("JVM project"));
    assert_eq!(project_type_hint(&names(&["Dockerfile"])), Some("Docker project"));
    assert_eq!(project_type_hint(&names(&[".git"])), Some("Git repository"));
    assert_eq!(project_type_hint(&names(&["README.md"])), None);
    assert_eq!(project_markers().len(), 15);
    assert_eq!(project_markers()[0], "Cargo.toml");
    assert_eq!(project_markers()[14], ".git");
}

#[test]
fn cached_working_directory_lines() {
    let (d, t) = derive_cached(Some("/home/u/w"), Some("/home/u"), &names(&["go.mod"]));
    assert_eq!(d, "~/w");
    assert_eq!(t, Some("Go project"));
    let (d, t) = derive_cached(None, Some("/home/u"), &names(&["go.mod"]));
    assert_eq!(d, "(no active terminal)");
    assert_eq!(t, None);
}

#[test]
fn working_directory_card_moves_on_navigation_only() {
    let mut w = WorkingDirectoryWidget::new(Some("/p".to_string()), None, &names(&["mix.exs"]));
    assert_eq!(w.body_lines(), vec!["/p", "Elixir project"]);
    assert_eq!(w.detected_cwd(Some("/q".to_string()), false), None);
    assert_eq!(w.detected_cwd(Some("/p".to_string()), true), None);
    assert_eq!(w.detected_cwd(Some("/q".to_string()), true), Some(Some("/q".to_string())));
    assert_eq!(
        WorkingDirectoryWidget::focused_cwd(None, Some("/any".to_string())),
        Some("/any".to_string())
    );
    assert_eq!(
        WorkingDirectoryWidget::focused_cwd(Some("/f".to_string()), Some("/any".to_string())),
        Some("/f".to_string())
    );
    w.set_cwd(None, None, &Vec::new());
    assert_eq!(w.body_lines(), vec!["(no active terminal)"]);
}

#[test]
fn same_path_compares_components() {
    assert!(same_path(&None, &None));
    assert!(same_path(&Some("/a".to_string()), &Some("/a".to_string())));
    assert!(same_path(&Some("/a".to_string()), &Some("/a/".to_string())));
    assert!(same_path(&Some("/a//b".to_string()), &Some("/a/b".to_string())));
    assert!(!same_path(&Some("/a".to_string()), &Some("/b".to_string())));
    assert!(!same_path(&Some("/a".to_string()), &None));
}

#[test]
fn a_trailing_separator_is_not_a_new_directory() {
    let mut w = ForegroundProcessWidget::new(Some("/a/b".to_string()));
    assert!(!w.handle_focused_repo_changed(Some("/a/b/".to_string())));
    assert_eq!(w.poll_generation, 0);
    let mut g = GitWidget::new(Some("/r".to_string()));
    assert_eq!(g.handle_focused_repo_changed(Some("/r/".to_string())), None);
    assert!(g.accept_fetch_result(GitState::empty("/r/".to_string())));
}

#[test]
fn session_files_are_recognised_by_extension() {
    let f = |p: &str| SessionFile { path: p.to_string(), modified: Some(1) };
    let files = vec![f("/d/a.b.jsonl"), f("/d/x.jsonl.bak"), f("/d/.jsonl"), f("/d/jsonl"), f("/d/y.JSONL")];
    assert_eq!(scan_session_files(&files), (1, Some(0)));
}
