use minigit::error::RepoError;
use minigit::repository::Repository;
use minigit::save_plan::SaveStep;

fn fresh() -> Repository {
    Repository::create("/w", false).unwrap()
}

fn strings(v: &[&str]) -> Vec<String> {
    v.iter().map(|s| s.to_string()).collect()
}

#[test]
fn init_starts_empty_at_version_zero() {
    let r = fresh();
    assert_eq!(r.version(), 0);
    assert_eq!(r.tracked_files().len(), 0);
    assert!(r.commits().is_empty());
    assert_eq!(r.store_dir(), "/w/.minigit");
}

#[test]
fn init_refuses_existing_store() {
    assert_eq!(Repository::create("/w", true).unwrap_err(), RepoError::AlreadyInitialized);
}

#[test]
fn add_commits_whole_tracked_set() {
    let mut r = fresh();
    assert_eq!(r.add("a.txt", true, None, &strings(&["hello"])), Ok(1));
    assert_eq!(r.add("b.txt", true, Some("second"), &strings(&["hello", "bee"])), Ok(2));
    let c = &r.commits()[1];
    assert_eq!(c.version, 2);
    assert_eq!(c.message, "second");
    assert_eq!(c.file_names(), strings(&["a.txt", "b.txt"]));
    assert_eq!(c.files[1].contents, "bee");
    assert_eq!(c.files[1].file.path, "/w/b.txt");
    assert_eq!(c.files[1].location, "/w/.minigit/COMMIT_2");
}

#[test]
fn add_default_message_names_the_file() {
    let mut r = fresh();
    r.add("a.txt", true, None, &strings(&["x"])).unwrap();
    assert_eq!(r.commits()[0].message, "Adding a file a.txt");
}

#[test]
fn add_invalid_path_changes_nothing() {
    let mut r = fresh();
    r.add("a.txt", true, None, &strings(&["x"])).unwrap();
    assert_eq!(r.add("missing.txt", false, None, &strings(&["x", ""])), Err(RepoError::InvalidPath));
    assert_eq!(r.tracked_files().len(), 1);
    assert_eq!(r.version(), 1);
    assert_eq!(r.commits().len(), 1);
}

#[test]
fn add_twice_fails_with_already_tracked() {
    let mut r = fresh();
    r.add("a.txt", true, None, &strings(&["x"])).unwrap();
    assert_eq!(r.add("a.txt", true, None, &strings(&["x", "x"])), Err(RepoError::AlreadyTracked));
    assert_eq!(r.tracked_files().len(), 1);
    assert_eq!(r.version(), 1);
}

#[test]
fn commit_keeps_tracked_order_and_bumps_version() {
    let mut r = fresh();
    r.add("a.txt", true, None, &strings(&["A"])).unwrap();
    r.add("b.txt", true, None, &strings(&["A", "B"])).unwrap();
    let before = r.version();
    let v = r.commit(Some("both"), &strings(&["A2", "B2"]));
    assert_eq!(v, before + 1);
    let c = r.commits().last().unwrap();
    assert_eq!(c.version, 3);
    assert_eq!(c.file_names(), strings(&["a.txt", "b.txt"]));
    assert_eq!(c.files[0].contents, "A2");
    assert_eq!(c.files[1].contents, "B2");
}

#[test]
fn commit_default_message() {
    let mut r = fresh();
    r.commit(None, &vec![]);
    assert_eq!(r.commits()[0].message, "Committed");
    assert!(r.commits()[0].files.is_empty());
}

#[test]
fn remove_keeps_history() {
    let mut r = fresh();
    r.add("a.txt", true, None, &strings(&["A"])).unwrap();
    r.add("b.txt", true, None, &strings(&["A", "B"])).unwrap();
    r.remove("a.txt").unwrap();
    assert_eq!(r.version(), 2);
    assert_eq!(r.commits().len(), 2);
    assert_eq!(r.snapshot_paths(), strings(&["/w/b.txt"]));
    assert_eq!(r.remove("a.txt"), Err(RepoError::NotFound));
}

#[test]
fn example_scenario() {
    let mut r = fresh();
    assert_eq!(r.add("a.txt", true, None, &strings(&["hello"])), Ok(1));
    assert_eq!(r.commit(Some("edit"), &strings(&["world"])), 2);
    let w = r.checkout(1).unwrap();
    assert_eq!(w.len(), 1);
    assert_eq!(w[0].path, "/w/a.txt");
    assert_eq!(w[0].contents, "hello");
    let last = r.history(None).unwrap();
    assert_eq!(last.len(), 1);
    assert_eq!(last[0].version, 2);
    assert_eq!(last[0].message, "edit");
    assert_eq!(last[0].file_names, strings(&["a.txt"]));
    let two = r.history(Some(2)).unwrap();
    let versions: Vec<u32> = two.iter().map(|e| e.version).collect();
    assert_eq!(versions, vec![1, 2]);
}

#[test]
fn checkout_uses_path_recorded_in_commit() {
    let mut r = fresh();
    r.add("a.txt", true, None, &strings(&["one"])).unwrap();
    r.add("b.txt", true, None, &strings(&["one", "two"])).unwrap();
    r.remove("a.txt").unwrap();
    r.commit(None, &strings(&["three"]));
    let w = r.checkout(2).unwrap();
    let got: Vec<(String, String)> = w.into_iter().map(|x| (x.path, x.contents)).collect();
    assert_eq!(
        got,
        vec![
            ("/w/a.txt".to_string(), "one".to_string()),
            ("/w/b.txt".to_string(), "two".to_string())
        ]
    );
}

#[test]
fn checkout_unknown_version() {
    let mut r = fresh();
    assert_eq!(r.checkout(0).unwrap_err(), RepoError::CommitNotFound);
    r.commit(None, &vec![]);
    assert_eq!(r.checkout(2).unwrap_err(), RepoError::CommitNotFound);
    assert!(r.checkout(1).is_ok());
}

#[test]
fn history_errors() {
    let mut r = fresh();
    assert_eq!(r.history(None).unwrap_err(), RepoError::CommitNotFound);
    r.commit(Some("one"), &vec![]);
    r.commit(Some("two"), &vec![]);
    assert_eq!(r.history(Some(3)).unwrap_err(), RepoError::InvalidRange);
    assert!(r.history(Some(0)).unwrap().is_empty());
}

#[test]
fn history_reports_last_n_ascending() {
    let mut r = fresh();
    for m in ["one", "two", "three", "four"] {
        r.commit(Some(m), &vec![]);
    }
    let es = r.history(Some(3)).unwrap();
    let got: Vec<(u32, String)> = es.into_iter().map(|e| (e.version, e.message)).collect();
    assert_eq!(got, vec![(2, "two".to_string()), (3, "three".to_string()), (4, "four".to_string())]);
    let all = r.history(Some(4)).unwrap();
    assert_eq!(all.len(), 4);
    assert_eq!(all[0].version, 1);
}

#[test]
fn construct_path_joins_working_tree() {
    let r = fresh();
    assert_eq!(r.construct_path("a.txt"), "/w/a.txt");
    assert_eq!(r.root(), "/w");
}

#[test]
fn save_plan_writes_new_commits() {
    let mut r = fresh();
    r.add("a.txt", true, None, &strings(&["A"])).unwrap();
    r.add("b.txt", true, None, &strings(&["A", "B"])).unwrap();
    let steps = r.save(&vec![true, false]);
    let expected = vec![
        SaveStep::WriteFileList { path: "/w/.minigit/tracked_files".to_string() },
        SaveStep::WriteVersion { path: "/w/.minigit/VERSION".to_string() },
        SaveStep::CreateDir { path: "/w/.minigit/COMMIT_2".to_string() },
        SaveStep::WriteSnapshot { path: "/w/.minigit/COMMIT_2/a.txt".to_string(), commit: 1, file: 0 },
        SaveStep::WriteSnapshot { path: "/w/.minigit/COMMIT_2/b.txt".to_string(), commit: 1, file: 1 },
        SaveStep::WriteMeta { path: "/w/.minigit/COMMIT_2/meta".to_string(), commit: 1 },
    ];
    assert_eq!(format!("{:?}", steps), format!("{:?}", expected));
}

#[test]
fn save_again_touches_no_commit_directory() {
    let mut r = fresh();
    r.add("a.txt", true, None, &strings(&["A"])).unwrap();
    r.commit(Some("again"), &strings(&["A2"]));
    let steps = r.save(&vec![true, true]);
    assert_eq!(steps.len(), 2);
    assert!(matches!(steps[0], SaveStep::WriteFileList { .. }));
    assert!(matches!(steps[1], SaveStep::WriteVersion { .. }));
}
