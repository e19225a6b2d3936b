use vstd::prelude::*;

use crate::tracked_files::{keys, FileKey, RepositoryFile};

verus! {

/// What a committed file holds, as values.
pub struct SnapshotView {
    pub file: FileKey,
    pub contents: Seq<char>,
    pub location: Seq<char>,
}

/// What a commit holds, as values.
pub struct CommitView {
    pub version: nat,
    pub message: Seq<char>,
    pub files: Seq<SnapshotView>,
}

/// The characters of each string, in order.
pub open spec fn texts(s: Seq<String>) -> Seq<Seq<char>> {
    s.map_values(|t: String| t@)
}

/// The snapshots of `files`, the `i`-th holding `contents[i]`, all stored at `location`.
pub open spec fn snapshots(files: Seq<FileKey>, contents: Seq<Seq<char>>, location: Seq<char>) -> Seq<SnapshotView> {
    Seq::new(files.len(), |i: int| SnapshotView { file: files[i], contents: contents[i], location })
}

/// A file's full contents, captured when a commit was taken.
#[derive(Debug, Clone)]
pub struct CommittedFile {
    pub file: RepositoryFile,
    pub contents: String,
    /// Where the snapshot is stored.
    pub location: String,
}

impl View for CommittedFile {
    type V = SnapshotView;

    open spec fn view(&self) -> SnapshotView {
        SnapshotView { file: self.file@, contents: self.contents@, location: self.location@ }
    }
}

/// A snapshot of every tracked file, under a version number.
#[derive(Debug, Clone)]
pub struct Commit {
    pub message: String,
    pub version: u32,
    pub files: Vec<CommittedFile>,
}

impl View for Commit {
    type V = CommitView;

    open spec fn view(&self) -> CommitView {
        CommitView {
            version: self.version as nat,
            message: self.message@,
            files: self.files@.map_values(|f: CommittedFile| f@),
        }
    }
}

impl Commit {
    /// Takes the commit `version` of `files`, where `contents[i]` is what
    /// `files[i]` holds now; every snapshot is stored at `location`.
    pub fn create(
        message: &str,
        version: u32,
        files: &Vec<RepositoryFile>,
        contents: &Vec<String>,
        location: &str,
    ) -> (r: Commit)
        requires
            files@.len() == contents@.len(),
        ensures
            r@ == (CommitView {
                version: version as nat,
                message: message@,
                files: snapshots(keys(files@), texts(contents@), location@),
            }),
    {
        let mut out: Vec<CommittedFile> = Vec::new();
        let n = files.len();
        let mut i: usize = 0;
        while i < n
            invariant
                n == files@.len(),
                n == contents@.len(),
                i <= n,
                out@.len() == i,
                forall|k: int| 0 <= k < i ==> #[trigger] out@[k]@ == (SnapshotView {
                    file: files@[k]@,
                    contents: contents@[k]@,
                    location: location@,
                }),
            decreases n - i,
        {
            let f = CommittedFile {
                file: files[i].copy(),
                contents: contents[i].clone(),
                location: String::from_str(location),
            };
            out.push(f);
            i = i + 1;
        }
        let r = Commit { message: String::from_str(message), version, files: out };
        assert(r@.files =~= snapshots(keys(files@), texts(contents@), location@));
        r
    }

    /// The names of the committed files, in order.
    pub fn file_names(&self) -> (r: Vec<String>)
        ensures
            texts(r@) == self@.files.map_values(|s: SnapshotView| s.file.0),
    {
        let mut out: Vec<String> = Vec::new();
        let mut i: usize = 0;
        while i < self.files.len()
            invariant
                i <= self.files@.len(),
                out@.len() == i,
                forall|k: int| 0 <= k < i ==> #[trigger] out@[k]@ == self.files@[k].file.name@,
            decreases self.files@.len() - i,
        {
            out.push(self.files[i].file.name.clone());
            i = i + 1;
        }
        assert(texts(out@) =~= self@.files.map_values(|s: SnapshotView| s.file.0));
        out
    }
}

} // verus!
