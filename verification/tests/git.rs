use hivecad::{
    fetch_refspec, format_status_report, git_commit, git_init, git_set_remote, git_status,
    git_sync, push_refspec, status_entries, sync_advance, sync_credentials, write_project,
    AppState, FileStatus, InitAction, OpError, StatusEntry, SyncPhase,
};

fn fresh() -> AppState {
    AppState::new(String::from("/root-dir"))
}

fn initialized() -> AppState {
    let mut st = fresh();
    git_init(&mut st);
    st
}

#[test]
fn init_twice_succeeds_and_leaves_one_repository() {
    let mut st = fresh();
    let first = git_init(&mut st);
    assert_eq!(first, InitAction::CreateRepository);
    let second = git_init(&mut st);
    assert_eq!(second, InitAction::AlreadyInitialized);
    assert!(st.repo.initialized);
    assert_eq!(st.repo.commits.len(), 0);
}

#[test]
fn set_remote_twice_keeps_only_second_url() {
    let mut st = initialized();
    let u1 = git_set_remote(&mut st, String::from("https://one.example/r.git")).unwrap();
    assert!(!u1.removed_existing);
    let u2 = git_set_remote(&mut st, String::from("https://two.example/r.git")).unwrap();
    assert!(u2.removed_existing);
    assert_eq!(st.repo.origin_url, Some(String::from("https://two.example/r.git")));
}

#[test]
fn set_remote_without_repository_fails() {
    let mut st = fresh();
    let r = git_set_remote(&mut st, String::from("https://x.example/r.git"));
    match r {
        Err(e) => assert_eq!(e.message(), "repository not initialized"),
        Ok(_) => panic!("expected a repository-state error"),
    }
}

#[test]
fn commit_with_no_changes_still_creates_a_commit() {
    let mut st = initialized();
    git_commit(&mut st, String::from("one")).unwrap();
    git_commit(&mut st, String::from("two")).unwrap();
    assert_eq!(st.repo.commits.len(), 2);
    assert_eq!(st.repo.commits[1].message, "two");
    assert_eq!(st.repo.commits[1].parent, Some(0));
}

#[test]
fn first_commit_has_no_parent() {
    let mut st = initialized();
    git_commit(&mut st, String::from("root")).unwrap();
    assert_eq!(st.repo.commits.len(), 1);
    assert_eq!(st.repo.commits[0].parent, None);
}

#[test]
fn commit_carries_fixed_identity() {
    let mut st = initialized();
    git_commit(&mut st, String::from("m")).unwrap();
    assert_eq!(st.repo.commits[0].author_name, "HiveCAD");
    assert_eq!(st.repo.commits[0].author_email, "user@hivecad.local");
}

#[test]
fn commit_without_repository_fails() {
    let mut st = fresh();
    match git_commit(&mut st, String::from("m")) {
        Err(e) => assert_eq!(e.message(), "repository not initialized"),
        Ok(()) => panic!("expected a repository-state error"),
    }
}

#[test]
fn write_commit_status_scenario_is_clean() {
    let mut st = initialized();
    write_project(
        &mut st,
        String::from("p1"),
        String::from("{\"id\":\"p1\",\"name\":\"Demo\",\"data\":{}}"),
    )
    .unwrap();
    git_commit(&mut st, String::from("init")).unwrap();
    assert_eq!(git_status(&st).unwrap(), "");
}

#[test]
fn status_reports_changes_after_commit() {
    let mut st = initialized();
    write_project(&mut st, String::from("kept"), String::from("same")).unwrap();
    write_project(&mut st, String::from("gone"), String::from("x")).unwrap();
    write_project(&mut st, String::from("edited"), String::from("before")).unwrap();
    git_commit(&mut st, String::from("base")).unwrap();
    write_project(&mut st, String::from("edited"), String::from("after")).unwrap();
    write_project(&mut st, String::from("added"), String::from("new")).unwrap();
    hivecad::delete_project(&mut st, String::from("gone")).unwrap();
    let report = git_status(&st).unwrap();
    let mut lines: Vec<&str> = report.lines().collect();
    lines.sort();
    assert_eq!(lines, vec!["Deleted: gone", "Modified: edited", "New: added"]);
}

#[test]
fn status_before_first_commit_lists_everything_as_new() {
    let mut st = initialized();
    write_project(&mut st, String::from("a"), String::from("1")).unwrap();
    let report = git_status(&st).unwrap();
    assert_eq!(report, "New: a");
}

#[test]
fn status_without_repository_fails() {
    let st = fresh();
    match git_status(&st) {
        Err(e) => assert_eq!(e.message(), "repository not initialized"),
        Ok(_) => panic!("expected a repository-state error"),
    }
}

#[test]
fn status_report_formatting_is_exact() {
    let entries = vec![
        StatusEntry { status: FileStatus::New, path: String::from("a.txt") },
        StatusEntry { status: FileStatus::Modified, path: String::from("b/c") },
        StatusEntry { status: FileStatus::Deleted, path: String::from("d") },
    ];
    assert_eq!(format_status_report(&entries), "New: a.txt\nModified: b/c\nDeleted: d");
    assert_eq!(format_status_report(&Vec::new()), "");
}

#[test]
fn status_entries_diff_two_trees() {
    let mut working = AppState::new(String::from("/r"));
    write_project(&mut working, String::from("w"), String::from("1")).unwrap();
    let mut committed = AppState::new(String::from("/r"));
    write_project(&mut committed, String::from("t"), String::from("2")).unwrap();
    let entries = status_entries(&working.store, &committed.store);
    assert_eq!(entries.len(), 2);
    assert!(entries.iter().any(|e| e.status == FileStatus::New && e.path == "w"));
    assert!(entries.iter().any(|e| e.status == FileStatus::Deleted && e.path == "t"));
}

#[test]
fn sync_requires_repository_then_remote() {
    let st = fresh();
    match git_sync(&st) {
        Err(e) => assert_eq!(e.message(), "repository not initialized"),
        Ok(_) => panic!("expected a repository-state error"),
    }
    let st2 = initialized();
    match git_sync(&st2) {
        Err(e) => assert_eq!(e.message(), "remote 'origin' not found"),
        Ok(_) => panic!("expected a missing-remote error"),
    }
}

#[test]
fn sync_against_unreachable_remote_fails_on_fetch_leg() {
    let mut st = initialized();
    git_set_remote(&mut st, String::from("https://nowhere.invalid/r.git")).unwrap();
    let phase = git_sync(&st).unwrap();
    assert!(matches!(phase, SyncPhase::FetchPending));
    // The host attempts the fetch; an unreachable server yields a
    // transport failure, which ends the sync naming the fetch leg.
    let after = sync_advance(phase, Err(String::from("failed to resolve address")));
    match after {
        SyncPhase::Failed(e) => {
            assert_eq!(e.message(), "Fetch failed: failed to resolve address");
        },
        _ => panic!("expected the sync to fail"),
    }
}

#[test]
fn sync_fetch_then_push_completes() {
    let p1 = sync_advance(SyncPhase::FetchPending, Ok(()));
    assert!(matches!(p1, SyncPhase::PushPending));
    let p2 = sync_advance(p1, Ok(()));
    assert!(matches!(p2, SyncPhase::Complete));
}

#[test]
fn push_failure_names_the_push_leg() {
    let after = sync_advance(SyncPhase::PushPending, Err(String::from("non-fast-forward")));
    match after {
        SyncPhase::Failed(e) => assert_eq!(e.message(), "Push failed: non-fast-forward"),
        _ => panic!("expected the sync to fail"),
    }
}

#[test]
fn finished_sync_stays_as_it_ended() {
    let done = sync_advance(SyncPhase::Complete, Err(String::from("late")));
    assert!(matches!(done, SyncPhase::Complete));
}

#[test]
fn credentials_use_fixed_username_and_token() {
    let c = sync_credentials(Some(String::from("tok123"))).unwrap();
    assert_eq!(c.username, "x-access-token");
    assert_eq!(c.password, "tok123");
    assert!(sync_credentials(None).is_none());
}

#[test]
fn refspecs_are_the_main_branch() {
    assert_eq!(fetch_refspec(), "main");
    assert_eq!(push_refspec(), "refs/heads/main:refs/heads/main");
}

#[test]
fn filesystem_error_message_is_verbatim() {
    let e = OpError::Filesystem(String::from("permission denied"));
    assert_eq!(e.message(), "permission denied");
    assert_eq!(OpError::LockUnavailable.message(), "state lock unavailable");
}
