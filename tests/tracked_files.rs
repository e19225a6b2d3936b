use minigit::error::RepoError;
use minigit::path::{file_name_of, join_path, same_text};
use minigit::tracked_files::{RepositoryFile, TrackedFiles};

fn file(path: &str) -> RepositoryFile {
    RepositoryFile::create(path, true).unwrap()
}

#[test]
fn create_takes_name_from_final_component() {
    let f = file("/work/docs/a.txt");
    assert_eq!(f.name, "a.txt");
    assert_eq!(f.path, "/work/docs/a.txt");
}

#[test]
fn create_without_directory_keeps_whole_name() {
    let f = file("notes.md");
    assert_eq!(f.name, "notes.md");
}

#[test]
fn create_refuses_missing_or_irregular_path() {
    assert_eq!(RepositoryFile::create("/work/a.txt", false).unwrap_err(), RepoError::InvalidPath);
}

#[test]
fn create_refuses_path_without_file_name() {
    assert_eq!(RepositoryFile::create("/work/dir/", true).unwrap_err(), RepoError::InvalidPath);
    assert_eq!(RepositoryFile::create("", true).unwrap_err(), RepoError::InvalidPath);
}

#[test]
fn add_keeps_insertion_order() {
    let mut t = TrackedFiles::new();
    t.add(file("/w/b.txt")).unwrap();
    t.add(file("/w/a.txt")).unwrap();
    t.add(file("/w/c.txt")).unwrap();
    let names: Vec<&str> = t.files().iter().map(|f| f.name.as_str()).collect();
    assert_eq!(names, vec!["b.txt", "a.txt", "c.txt"]);
}

#[test]
fn add_twice_is_refused_and_size_kept() {
    let mut t = TrackedFiles::new();
    t.add(file("/w/a.txt")).unwrap();
    assert_eq!(t.add(file("/w/a.txt")), Err(RepoError::AlreadyTracked));
    assert_eq!(t.len(), 1);
}

#[test]
fn same_name_other_path_is_a_different_file() {
    let mut t = TrackedFiles::new();
    t.add(file("/w/a.txt")).unwrap();
    t.add(file("/w/sub/a.txt")).unwrap();
    assert_eq!(t.len(), 2);
}

#[test]
fn is_tracked_compares_name_and_path() {
    let mut t = TrackedFiles::new();
    t.add(file("/w/a.txt")).unwrap();
    assert!(t.is_tracked(&file("/w/a.txt")));
    assert!(!t.is_tracked(&file("/x/a.txt")));
}

#[test]
fn remove_takes_first_match_and_shifts_rest() {
    let mut t = TrackedFiles::new();
    t.add(file("/w/a.txt")).unwrap();
    t.add(file("/w/b.txt")).unwrap();
    t.add(file("/w/sub/b.txt")).unwrap();
    t.add(file("/w/c.txt")).unwrap();
    let gone = t.remove("b.txt").unwrap();
    assert_eq!(gone.path, "/w/b.txt");
    let paths: Vec<&str> = t.files().iter().map(|f| f.path.as_str()).collect();
    assert_eq!(paths, vec!["/w/a.txt", "/w/sub/b.txt", "/w/c.txt"]);
}

#[test]
fn remove_unknown_name_is_not_found() {
    let mut t = TrackedFiles::new();
    t.add(file("/w/a.txt")).unwrap();
    assert_eq!(t.remove("z.txt").unwrap_err(), RepoError::NotFound);
    assert_eq!(t.len(), 1);
}

#[test]
fn create_from_list_refuses_duplicates() {
    let ok = TrackedFiles::create(vec![file("/w/a.txt"), file("/w/b.txt")]).unwrap();
    assert_eq!(ok.len(), 2);
    let err = TrackedFiles::create(vec![file("/w/a.txt"), file("/w/b.txt"), file("/w/a.txt")]);
    assert_eq!(err.unwrap_err(), RepoError::CorruptStore);
}

#[test]
fn path_helpers() {
    assert_eq!(file_name_of("a/b/c.txt"), "c.txt");
    assert_eq!(file_name_of("c.txt"), "c.txt");
    assert_eq!(file_name_of("a/b/"), "");
    assert_eq!(join_path("/w", "a.txt"), "/w/a.txt");
    assert!(same_text("héllo", "héllo"));
    assert!(!same_text("hello", "hellO"));
    assert!(!same_text("hello", "hell"));
}

#[test]
fn equality_is_by_name_and_path() {
    assert_eq!(file("/w/a.txt"), file("/w/a.txt"));
    assert_ne!(file("/w/a.txt"), file("/w/b/a.txt"));
}
