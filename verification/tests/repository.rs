use warp_context::repository::{
    merge_repository_updates, BufferState, Repository, RepositoryUpdate, RepositoryWatchMode,
    Subscriptions,
};

fn paths(v: &[&str]) -> Vec<String> {
    v.iter().map(|s| s.to_string()).collect()
}

fn update(added: &[&str], modified: &[&str], deleted: &[&str], moved: &[(&str, &str)]) -> RepositoryUpdate {
    let mut u = RepositoryUpdate::new();
    u.added = paths(added);
    u.modified = paths(modified);
    u.deleted = paths(deleted);
    u.moved = moved.iter().map(|(t, f)| (t.to_string(), f.to_string())).collect();
    u
}

fn sorted(mut v: Vec<String>) -> Vec<String> {
    v.sort();
    v
}

#[test]
fn added_then_deleted_cancels_out() {
    let mut acc = update(&["a"], &[], &[], &[]);
    merge_repository_updates(&mut acc, &update(&[], &[], &["a"], &[]));
    assert!(acc.is_empty());
}

#[test]
fn merging_an_empty_batch_changes_nothing() {
    let mut acc = update(&["a"], &["b"], &["c"], &[("d", "e")]);
    merge_repository_updates(&mut acc, &RepositoryUpdate::new());
    assert_eq!(acc.added, paths(&["a"]));
    assert_eq!(acc.modified, paths(&["b"]));
    assert_eq!(acc.deleted, paths(&["c"]));
    assert_eq!(acc.moved, vec![("d".to_string(), "e".to_string())]);
    assert!(!acc.commit_updated && !acc.index_lock_detected);
}

#[test]
fn move_of_an_added_file_renames_the_addition_and_merge_goes_on() {
    let mut acc = update(&["a"], &[], &[], &[]);
    let mut inc = update(&["z"], &[], &[], &[("b", "a"), ("y", "x")]);
    inc.commit_updated = true;
    merge_repository_updates(&mut acc, &inc);
    assert_eq!(sorted(acc.added.clone()), paths(&["b", "z"]));
    assert_eq!(acc.moved, vec![("y".to_string(), "x".to_string())]);
    assert!(acc.commit_updated);
    assert!(!acc.index_lock_detected);
}

#[test]
fn move_of_a_modified_file_keeps_the_flags_of_the_batch() {
    let mut acc = update(&[], &["m"], &[], &[]);
    let mut inc = update(&[], &[], &["gone"], &[("n", "m")]);
    inc.index_lock_detected = true;
    merge_repository_updates(&mut acc, &inc);
    assert_eq!(acc.modified, paths(&["n"]));
    assert_eq!(acc.deleted, paths(&["gone"]));
    assert!(acc.index_lock_detected);
}

#[test]
fn move_chain_keeps_original_source() {
    let mut acc = update(&[], &[], &[], &[("b", "a")]);
    merge_repository_updates(&mut acc, &update(&[], &[], &[], &[("c", "b")]));
    assert_eq!(acc.moved, vec![("c".to_string(), "a".to_string())]);
}

#[test]
fn deleting_a_move_target_deletes_its_source() {
    let mut acc = update(&[], &[], &[], &[("b", "a")]);
    merge_repository_updates(&mut acc, &update(&[], &[], &["b"], &[]));
    assert!(acc.moved.is_empty());
    assert_eq!(acc.deleted, paths(&["a"]));
    // Deleting the source of a recorded move is redundant.
    let mut acc = update(&[], &[], &[], &[("b", "a")]);
    merge_repository_updates(&mut acc, &update(&[], &[], &["a"], &[]));
    assert!(acc.deleted.is_empty());
    assert_eq!(acc.moved.len(), 1);
}

#[test]
fn additions_clear_other_records_and_modifications_of_additions_are_dropped() {
    let mut acc = update(&[], &["m"], &["d"], &[("t", "s")]);
    let mut inc = update(&["m", "d", "t"], &["m", "n"], &[], &[]);
    inc.commit_updated = true;
    merge_repository_updates(&mut acc, &inc);
    assert_eq!(sorted(acc.added.clone()), paths(&["d", "m", "t"]));
    assert_eq!(acc.modified, paths(&["n"]));
    assert!(acc.deleted.is_empty());
    assert!(acc.moved.is_empty());
    assert!(acc.commit_updated);
    assert!(!acc.index_lock_detected);
}

#[test]
fn subscriptions_plan_watching() {
    let mut s = Subscriptions::new();
    let p1 = s.start_watching_with_mode(RepositoryWatchMode::FilesystemOnly);
    assert_eq!(p1.subscriber_id, 0);
    assert!(p1.start_filesystem_watching && !p1.start_git_watching);
    let p2 = s.start_watching_with_mode(RepositoryWatchMode::GitRepository);
    assert_eq!(p2.subscriber_id, 1);
    assert!(!p2.start_filesystem_watching && p2.start_git_watching);
    let p3 = s.start_watching_with_mode(RepositoryWatchMode::GitRepository);
    assert!(!p3.start_filesystem_watching && !p3.start_git_watching);
    assert_eq!(s.watcher_count(), 3);
    assert!(s.has_git_repository_subscribers());
    let q = s.stop_watching(1).unwrap();
    assert!(!q.stop_filesystem_watching && !q.stop_git_watching);
    let q = s.stop_watching(2).unwrap();
    assert!(!q.stop_filesystem_watching && q.stop_git_watching);
    assert!(s.stop_watching(2).is_none());
    let q = s.stop_watching(0).unwrap();
    assert!(q.stop_filesystem_watching && !q.stop_git_watching);
    assert_eq!(s.watcher_count(), 0);
}

#[test]
fn worktree_repository_finds_its_common_git_dir() {
    let r = Repository::new("/wt".to_string(), Some("/repo/.git/worktrees/foo".to_string()));
    assert_eq!(r.common_git_directory.as_deref(), Some("/repo/.git"));
    assert_eq!(r.git_dir(), "/repo/.git/worktrees/foo");
    assert_eq!(r.common_git_dir(), "/repo/.git");
    assert_eq!(r.refs_heads_dir().as_deref(), Some("/repo/.git/refs/heads"));
    assert_eq!(
        r.git_watch_paths(Some("/canon/refs/heads".to_string())),
        paths(&["/repo/.git/worktrees/foo", "/canon/refs/heads"])
    );
}

#[test]
fn main_worktree_uses_root_git_dir() {
    let r = Repository::new("/repo".to_string(), None);
    assert_eq!(r.common_git_directory, None);
    assert_eq!(r.git_dir(), "/repo/.git");
    assert_eq!(r.common_git_dir(), "/repo/.git");
    assert_eq!(r.refs_heads_dir(), None);
    assert!(r.git_watch_paths(None).is_empty());
    // An external git dir that is itself the `.git` root records no common dir.
    let r = Repository::new("/wt".to_string(), Some("/repo/.git".to_string()));
    assert_eq!(r.common_git_directory, None);
    assert_eq!(Repository::derive_common_git_dir("/a/b/c"), None);
    assert_eq!(Repository::derive_common_git_dir("/x/.git/y/.git/z").as_deref(), Some("/x/.git/y/.git"));
}

#[test]
fn repository_start_and_stop_name_directories() {
    let mut r = Repository::new("/wt".to_string(), Some("/repo/.git/worktrees/foo".to_string()));
    let (id0, dirs) = r.start_watching_with_mode(RepositoryWatchMode::FilesystemOnly, None);
    assert_eq!(id0, 0);
    assert_eq!(dirs, paths(&["/wt"]));
    let (id1, dirs) = r.start_watching_with_mode(RepositoryWatchMode::GitRepository, Some("/c".to_string()));
    assert_eq!(id1, 1);
    assert_eq!(dirs, paths(&["/repo/.git/worktrees/foo", "/c"]));
    assert_eq!(r.watcher_count(), 2);
    let (stop_root, git) = r.stop_watching(1, Some("/c".to_string())).unwrap();
    assert!(!stop_root);
    assert_eq!(git, paths(&["/repo/.git/worktrees/foo", "/c"]));
    let (stop_root, git) = r.stop_watching(0, None).unwrap();
    assert!(stop_root);
    assert!(git.is_empty());
    assert!(r.stop_watching(0, None).is_none());
}

#[test]
fn buffered_updates_flush_after_a_quiet_wait() {
    let mut b = BufferState::new();
    assert!(b.record_update(&update(&["a"], &[], &[], &[])));
    let v = b.version();
    // Another update arrives during the wait: no flush yet.
    assert!(!b.record_update(&update(&["b"], &[], &[], &[])));
    assert!(b.finish_wait(v).is_none());
    let v = b.version();
    let flushed = b.finish_wait(v).unwrap();
    assert_eq!(sorted(flushed.added), paths(&["a", "b"]));
    // The flusher ended; the next update starts a new one.
    assert!(b.record_update(&update(&[], &["c"], &[], &[])));
    assert!(b.unsubscribe());
    assert!(!b.unsubscribe());
}

#[test]
fn filesystem_subscribers_do_not_see_git_flags() {
    let mut r = Repository::new("/r".to_string(), None);
    let (fs_id, _) = r.start_watching_with_mode(RepositoryWatchMode::FilesystemOnly, None);
    let (git_id, _) = r.start_watching_with_mode(RepositoryWatchMode::GitRepository, None);
    let mut flags_only = RepositoryUpdate::new();
    flags_only.commit_updated = true;
    let ups = r.subscriber_updates(&flags_only);
    assert_eq!(ups.len(), 1);
    assert_eq!(ups[0].0, git_id);
    assert!(ups[0].1.commit_updated);
    let files = update(&["a"], &[], &[], &[]);
    let mut with_lock = files;
    with_lock.index_lock_detected = true;
    let ups = r.subscriber_updates(&with_lock);
    assert_eq!(ups.len(), 2);
    for (id, u) in &ups {
        assert_eq!(u.added, paths(&["a"]));
        assert_eq!(u.index_lock_detected, *id == git_id);
        assert!(*id == fs_id || *id == git_id);
    }
    assert!(r.subscriber_updates(&RepositoryUpdate::new()).is_empty());
}

#[test]
fn plain_start_watching_is_git_aware() {
    let mut r = Repository::new("/r".to_string(), Some("/x/.git/worktrees/w".to_string()));
    let (id, dirs) = r.start_watching(None);
    assert_eq!(id, 0);
    assert_eq!(dirs, paths(&["/r", "/x/.git/worktrees/w"]));
    assert!(r.has_git_repository_subscribers());
}

#[test]
fn a_burst_is_delivered_once_merged() {
    let mut b = BufferState::new();
    assert!(b.record_update(&update(&["a"], &[], &[], &[])));
    let v1 = b.version();
    let mut second = update(&[], &["m"], &[], &[]);
    second.commit_updated = true;
    assert!(!b.record_update(&second));
    let v2 = b.version();
    assert!(!b.record_update(&update(&[], &[], &["a"], &[])));
    assert!(b.finish_wait(v1).is_none());
    assert!(b.finish_wait(v2).is_none());
    let v3 = b.version();
    let out = b.finish_wait(v3).unwrap();
    assert!(out.added.is_empty());
    assert_eq!(out.modified, paths(&["m"]));
    assert!(out.deleted.is_empty());
    assert!(out.commit_updated);
    assert!(b.finish_wait(v3).unwrap().is_empty());
}

#[test]
fn watcher_count_follows_start_and_stop() {
    let mut s = Subscriptions::new();
    assert_eq!(s.watcher_count(), 0);
    let a = s.start_watching_with_mode(RepositoryWatchMode::GitRepository).subscriber_id;
    let b = s.start_watching_with_mode(RepositoryWatchMode::FilesystemOnly).subscriber_id;
    assert_eq!(s.watcher_count(), 2);
    assert!(s.stop_watching(a).is_some());
    assert_eq!(s.watcher_count(), 1);
    assert!(s.stop_watching(a).is_none());
    assert_eq!(s.watcher_count(), 1);
    assert!(s.stop_watching(b).is_some());
    assert_eq!(s.watcher_count(), 0);
}
