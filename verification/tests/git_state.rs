use warp_context::git_state::{porcelain_counts, stash_count, strip_dot_git, GitProbeOutputs, GitState};

fn no_probes() -> GitProbeOutputs {
    GitProbeOutputs {
        branch: None,
        ahead: None,
        behind: None,
        status: None,
        last_commit: None,
        stash_list: None,
        remote_url: None,
    }
}

#[test]
fn pretty_remote_handles_github_https() {
    let s = GitState {
        remote_url: Some("https://github.com/foo/bar.git".to_string()),
        ..Default::default()
    };
    assert_eq!(s.pretty_remote().as_deref(), Some("foo/bar"));
}

#[test]
fn pretty_remote_handles_github_ssh() {
    let s = GitState {
        remote_url: Some("git@github.com:foo/bar.git".to_string()),
        ..Default::default()
    };
    assert_eq!(s.pretty_remote().as_deref(), Some("foo/bar"));
}

#[test]
fn pretty_remote_handles_unknown() {
    let s = GitState {
        remote_url: Some("file:///tmp/repo".to_string()),
        ..Default::default()
    };
    assert_eq!(s.pretty_remote().as_deref(), Some("file:///tmp/repo"));
}

#[test]
fn pretty_remote_more_shapes() {
    let with = |url: &str| GitState { remote_url: Some(url.to_string()), ..Default::default() };
    assert_eq!(with("http://host/a/b/c").pretty_remote().as_deref(), Some("a/b/c"));
    assert_eq!(with("https://github.com").pretty_remote().as_deref(), Some("https://github.com"));
    assert_eq!(with("git@host:repo").pretty_remote().as_deref(), Some("repo"));
    // A colon without the `git@` user is not an ssh remote.
    assert_eq!(with("ssh:host").pretty_remote().as_deref(), Some("ssh:host"));
    assert_eq!(GitState::default().pretty_remote(), None);
}

#[test]
fn strips_one_trailing_dot_git() {
    assert_eq!(strip_dot_git("repo.git"), "repo");
    assert_eq!(strip_dot_git("repo.git.git"), "repo.git");
    assert_eq!(strip_dot_git("repo"), "repo");
    assert_eq!(strip_dot_git(".git"), "");
}

#[test]
fn porcelain_lines_are_counted() {
    let status = " M src/a.rs\n?? new.txt\nA  added.rs\n   \n?? other\n";
    assert_eq!(porcelain_counts(status), (2, 2));
    assert_eq!(porcelain_counts(""), (0, 0));
}

#[test]
fn stash_entries_are_non_blank_lines() {
    assert_eq!(stash_count("stash@{0}: WIP\n\nstash@{1}: x\n"), 2);
    assert_eq!(stash_count(""), 0);
}

#[test]
fn empty_state_knows_only_its_path() {
    let s = GitState::empty("/repo".to_string());
    assert_eq!(s.repo_path, "/repo");
    assert_eq!(s.branch, None);
    assert_eq!((s.ahead, s.behind, s.modified, s.untracked, s.stashes), (0, 0, 0, 0, 0));
    assert_eq!(s.last_commit, None);
    assert_eq!(s.remote_url, None);
}

#[test]
fn probe_outputs_fill_the_state() {
    let probes = GitProbeOutputs {
        branch: Some("main\n".to_string()),
        ahead: Some(" 3\n".to_string()),
        behind: Some("x".to_string()),
        status: Some("?? a\n M b\n".to_string()),
        last_commit: Some("abc123 Fix it\n".to_string()),
        stash_list: Some("stash@{0}: one\n".to_string()),
        remote_url: Some("   \n".to_string()),
    };
    let s = GitState::from_probe_outputs("/r".to_string(), &probes);
    assert_eq!(s.branch.as_deref(), Some("main"));
    assert_eq!(s.ahead, 3);
    assert_eq!(s.behind, 0);
    assert_eq!((s.modified, s.untracked), (1, 1));
    assert_eq!(s.last_commit.as_deref(), Some("abc123 Fix it"));
    assert_eq!(s.stashes, 1);
    assert_eq!(s.remote_url, None);
}

#[test]
fn failed_probes_leave_the_empty_state() {
    let s = GitState::from_probe_outputs("/r".to_string(), &no_probes());
    assert_eq!(s.branch, None);
    assert_eq!((s.ahead, s.behind, s.modified, s.untracked, s.stashes), (0, 0, 0, 0, 0));
}
