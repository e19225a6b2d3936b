use vstd::prelude::*;

use crate::commit::{snapshots, texts, Commit, CommitView};
use crate::error::RepoError;
use crate::json::JsonSerializer;
use crate::order::{arrangeable, ascending, consecutive, lemma_ascending_arrangement, sort_by_version, views};
use crate::path::{decimal, decimal_string, final_segment, join_path, joined};
use crate::report::{entries, entry_of, restores, restores_of, shown, HistoryEntry, Restore};
use crate::save_plan::{commit_steps, header_steps, history_steps, save_plan, snapshot_steps, step_views, SaveStep, StepView};
use crate::tracked_files::{has_named, is_first_named, keys, no_duplicates, FileKey, RepositoryFile, TrackedFiles};

verus! {

/// What a repository holds, as values.
pub struct RepoView {
    /// The working tree.
    pub root: Seq<char>,
    pub files: Seq<FileKey>,
    pub commits: Seq<CommitView>,
    pub version: nat,
}

/// The name of the metadata store inside the working tree.
pub open spec fn store_name() -> Seq<char> {
    seq!['.', 'm', 'i', 'n', 'i', 'g', 'i', 't']
}

/// How the names of commit directories begin.
pub open spec fn commit_prefix() -> Seq<char> {
    seq!['C', 'O', 'M', 'M', 'I', 'T']
}

/// The metadata store of the working tree `root`.
pub open spec fn store_dir(root: Seq<char>) -> Seq<char> {
    joined(root, store_name())
}

/// The name of the directory of commit `v`.
pub open spec fn commit_dir(v: nat) -> Seq<char> {
    commit_prefix().push('_') + decimal(v)
}

/// Where the snapshots of commit `v` are stored.
pub open spec fn commit_location(root: Seq<char>, v: nat) -> Seq<char> {
    joined(store_dir(root), commit_dir(v))
}

/// The message given, or `default` when none is.
pub open spec fn message_or(message: Option<&str>, default: Seq<char>) -> Seq<char> {
    match message {
        Some(m) => m@,
        None => default,
    }
}

/// The message of a commit taken without one.
pub open spec fn commit_message() -> Seq<char> {
    "Committed"@
}

/// The message of the commit that adding the file `name` takes without one.
pub open spec fn add_message(name: Seq<char>) -> Seq<char> {
    "Adding a file "@ + name
}

/// The file that `name` refers to in the working tree `root`.
pub open spec fn file_key(root: Seq<char>, name: Seq<char>) -> FileKey {
    (final_segment(joined(root, name)), joined(root, name))
}

/// `r` with `files` as its tracked set.
pub open spec fn with_files(r: RepoView, files: Seq<FileKey>) -> RepoView {
    RepoView { root: r.root, files, commits: r.commits, version: r.version }
}

/// `r` after a commit with `message`, where `contents[i]` is what the `i`-th
/// tracked file holds.
pub open spec fn after_commit(r: RepoView, message: Seq<char>, contents: Seq<Seq<char>>) -> RepoView {
    let v = r.version + 1;
    RepoView {
        root: r.root,
        files: r.files,
        commits: r.commits.push(
            CommitView { version: v, message, files: snapshots(r.files, contents, commit_location(r.root, v)) },
        ),
        version: v,
    }
}

/// Why adding `name` to `r` is refused, if it is; `is_regular_file` says
/// whether the path names an existing regular file.
pub open spec fn add_refusal(r: RepoView, name: Seq<char>, is_regular_file: bool) -> Option<RepoError> {
    let key = file_key(r.root, name);
    if !is_regular_file || key.0.len() == 0 {
        Some(RepoError::InvalidPath)
    } else if r.files.contains(key) {
        Some(RepoError::AlreadyTracked)
    } else {
        None
    }
}

/// `r` after `name` was added and the commit with `message` taken.
pub open spec fn after_add(r: RepoView, name: Seq<char>, message: Seq<char>, contents: Seq<Seq<char>>) -> RepoView {
    after_commit(with_files(r, r.files.push(file_key(r.root, name))), message, contents)
}

/// `rep` is what `load` rebuilds from the listed files, the version counter
/// and the commits found in the store of `root`.
pub open spec fn loaded_from(
    rep: RepoView,
    root: Seq<char>,
    listed: Seq<RepositoryFile>,
    version: nat,
    found: Seq<Commit>,
) -> bool {
    &&& no_duplicates(rep.files)
    &&& consecutive(rep.commits, rep.version)
    &&& rep.root == root
    &&& rep.files == keys(listed)
    &&& rep.version == version
    &&& rep.commits.to_multiset() == views(found).to_multiset()
}

/// The tracked files, the commit history and the version counter of a
/// working tree.
#[derive(Debug)]
pub struct Repository {
    root: String,
    tracked_files: TrackedFiles,
    commits: Vec<Commit>,
    version: u32,
}

impl View for Repository {
    type V = RepoView;

    closed spec fn view(&self) -> RepoView {
        RepoView {
            root: self.root@,
            files: self.tracked_files@,
            commits: views(self.commits@),
            version: self.version as nat,
        }
    }
}

/// Returns the name of the directory of commit `version`.
pub fn commit_dir_name(version: u32) -> (r: String)
    ensures
        r@ == commit_dir(version as nat),
{
    proof {
        reveal_strlit("COMMIT_");
    }
    let digits = decimal_string(version);
    let mut r = String::from_str("COMMIT_");
    r.append(digits.as_str());
    assert("COMMIT_"@ =~= commit_prefix().push('_'));
    r
}

/// Returns the path of the metadata store of the working tree `root`.
pub fn store_path(root: &str) -> (r: String)
    ensures
        r@ == store_dir(root@),
{
    proof {
        reveal_strlit(".minigit");
    }
    let r = join_path(root, ".minigit");
    assert(".minigit"@ =~= store_name());
    r
}

/// Whether `name` is named like a commit directory.
pub fn is_commit_dir_name(name: &str) -> (r: bool)
    ensures
        r == commit_prefix().is_prefix_of(name@),
{
    proof {
        reveal_strlit("COMMIT");
    }
    let prefix = "COMMIT";
    assert(prefix@ =~= commit_prefix());
    let n = name.unicode_len();
    if n < 6 {
        return false;
    }
    let mut i: usize = 0;
    while i < 6
        invariant
            n == name@.len(),
            n >= 6,
            i <= 6,
            prefix@ == commit_prefix(),
            forall|k: int| 0 <= k < i ==> name@[k] == commit_prefix()[k],
        decreases 6 - i,
    {
        if name.get_char(i) != prefix.get_char(i) {
            return false;
        }
        i = i + 1;
    }
    true
}

impl Repository {
    /// The repository invariant: no file is tracked twice, and the commits
    /// are those of versions `1..=version`, in order.
    pub open spec fn wf(&self) -> bool {
        &&& no_duplicates(self@.files)
        &&& consecutive(self@.commits, self@.version)
    }

    /// Starts a repository in the working tree `root`; `store_exists` says
    /// whether its metadata store is already there, which is refused with
    /// `AlreadyInitialized`.
    pub fn create(root: &str, store_exists: bool) -> (r: Result<Repository, RepoError>)
        ensures
            r is Err <==> store_exists,
            r is Err ==> r == Err::<Repository, RepoError>(RepoError::AlreadyInitialized),
            r matches Ok(rep) ==> rep.wf() && rep@ == (RepoView {
                root: root@,
                files: Seq::empty(),
                commits: Seq::empty(),
                version: 0,
            }),
    {
        if store_exists {
            return Err(RepoError::AlreadyInitialized);
        }
        let rep = Repository {
            root: String::from_str(root),
            tracked_files: TrackedFiles::new(),
            commits: Vec::new(),
            version: 0,
        };
        assert(views(rep.commits@) =~= Seq::<CommitView>::empty());
        Ok(rep)
    }

    /// Rebuilds the repository of the working tree `root` from what its
    /// store holds: the tracked files, the version counter, and the commits
    /// found in it, in any order. Fails with `NotInitialized` when the store
    /// does not exist, and with `CorruptStore` when a file is listed twice or
    /// the commits are not exactly those of versions `1..=version`.
    pub fn load(
        root: &str,
        store_exists: bool,
        listed: Vec<RepositoryFile>,
        version: u32,
        scanned: Vec<Commit>,
    ) -> (r: Result<Repository, RepoError>)
        ensures
            !store_exists ==> r == Err::<Repository, RepoError>(RepoError::NotInitialized),
            store_exists ==> (r is Ok <==> no_duplicates(keys(listed@)) && arrangeable(
                views(scanned@),
                version as nat,
            )),
            store_exists && r is Err ==> r == Err::<Repository, RepoError>(RepoError::CorruptStore),
            r matches Ok(rep) ==> rep.wf() && loaded_from(rep@, root@, listed@, version as nat, scanned@),
    {
        if !store_exists {
            return Err(RepoError::NotInitialized);
        }
        let tracked_files = match TrackedFiles::create(listed) {
            Ok(t) => t,
            Err(e) => {
                return Err(e);
            },
        };
        let ghost found = views(scanned@);
        let commits = sort_by_version(scanned);
        let n = commits.len();
        let ok = if n != version as usize {
            false
        } else {
            let mut i: usize = 0;
            let mut good = true;
            while i < n
                invariant
                    n == commits@.len(),
                    i <= n,
                    good ==> forall|k: int| 0 <= k < i ==> #[trigger] views(commits@)[k].version == k + 1,
                    !good ==> !consecutive(views(commits@), n as nat),
                decreases n - i,
            {
                if commits[i].version as usize != i + 1 {
                    good = false;
                    assert(views(commits@)[i as int].version != i + 1);
                }
                i = i + 1;
            }
            good
        };
        if !ok {
            assert(!arrangeable(found, version as nat)) by {
                if arrangeable(found, version as nat) {
                    let t = choose|t: Seq<CommitView>|
                        t.to_multiset() == found.to_multiset() && consecutive(t, version as nat);
                    lemma_ascending_arrangement(views(commits@), t, version as nat);
                }
            }
            return Err(RepoError::CorruptStore);
        }
        let rep = Repository { root: String::from_str(root), tracked_files, commits, version };
        assert(consecutive(rep@.commits, version as nat));
        Ok(rep)
    }

    /// The working tree.
    pub fn root(&self) -> (r: &str)
        ensures
            r@ == self@.root,
    {
        self.root.as_str()
    }

    /// The current version counter.
    pub fn version(&self) -> (r: u32)
        ensures
            r == self@.version,
    {
        self.version
    }

    /// The tracked files.
    pub fn tracked_files(&self) -> (r: &TrackedFiles)
        ensures
            r@ == self@.files,
    {
        &self.tracked_files
    }

    /// The commits, in ascending order of version.
    pub fn commits(&self) -> (r: &Vec<Commit>)
        ensures
            views(r@) == self@.commits,
    {
        &self.commits
    }

    /// The path of the metadata store.
    pub fn store_dir(&self) -> (r: String)
        ensures
            r@ == store_dir(self@.root),
    {
        store_path(self.root.as_str())
    }

    /// The path of the file `name` in the working tree.
    pub fn construct_path(&self, name: &str) -> (r: String)
        ensures
            r@ == joined(self@.root, name@),
    {
        join_path(self.root.as_str(), name)
    }

    /// The paths of the tracked files, in order: what a commit reads.
    pub fn snapshot_paths(&self) -> (r: Vec<String>)
        ensures
            texts(r@) == self@.files.map_values(|k: FileKey| k.1),
    {
        let files = self.tracked_files.files();
        let mut out: Vec<String> = Vec::new();
        let mut i: usize = 0;
        while i < files.len()
            invariant
                keys(files@) == self@.files,
                i <= files@.len(),
                out@.len() == i,
                forall|k: int| 0 <= k < i ==> #[trigger] out@[k]@ == files@[k].path@,
            decreases files@.len() - i,
        {
            out.push(files[i].path.clone());
            i = i + 1;
        }
        assert(texts(out@) =~= self@.files.map_values(|k: FileKey| k.1));
        out
    }

    /// Takes a commit of every tracked file, where `contents[i]` is what the
    /// `i`-th tracked file holds now, and returns its version, one more than
    /// the last. Without a message the commit says "Committed".
    pub fn commit(&mut self, message: Option<&str>, contents: &Vec<String>) -> (r: u32)
        requires
            old(self).wf(),
            old(self)@.version < u32::MAX,
            contents@.len() == old(self)@.files.len(),
        ensures
            final(self).wf(),
            r == old(self)@.version + 1,
            final(self)@ == after_commit(old(self)@, message_or(message, commit_message()), texts(contents@)),
    {
        proof {
            reveal_strlit("Committed");
        }
        let text = match message {
            Some(m) => m,
            None => "Committed",
        };
        self.commit_file(text, contents)
    }

    fn commit_file(&mut self, message: &str, contents: &Vec<String>) -> (r: u32)
        requires
            old(self).wf(),
            old(self)@.version < u32::MAX,
            contents@.len() == old(self)@.files.len(),
        ensures
            final(self).wf(),
            r == old(self)@.version + 1,
            final(self)@ == after_commit(old(self)@, message@, texts(contents@)),
    {
        let v = self.version + 1;
        let dir = commit_dir_name(v);
        let location = join_path(self.store_dir().as_str(), dir.as_str());
        let files = self.tracked_files.files();
        let c = Commit::create(message, v, files, contents, location.as_str());
        let ghost before = self.commits@;
        self.commits.push(c);
        self.version = v;
        assert(views(self.commits@) =~= views(before).push(c@));
        v
    }

    /// Starts tracking the file `name` of the working tree and takes a commit
    /// of every tracked file; `is_regular_file` says whether that path names
    /// an existing regular file, and `contents` holds what the tracked files
    /// hold now, in order, followed by what the new file holds. Fails with
    /// `InvalidPath` or `AlreadyTracked`, changing nothing. Without a message
    /// the commit names the file.
    pub fn add(&mut self, name: &str, is_regular_file: bool, message: Option<&str>, contents: &Vec<String>) -> (r:
        Result<u32, RepoError>)
        requires
            old(self).wf(),
            old(self)@.version < u32::MAX,
            contents@.len() == old(self)@.files.len() + 1,
        ensures
            final(self).wf(),
            r is Err <==> add_refusal(old(self)@, name@, is_regular_file) is Some,
            r matches Err(e) ==> add_refusal(old(self)@, name@, is_regular_file) == Some(e) && final(self)@
                == old(self)@,
            r matches Ok(v) ==> v == old(self)@.version + 1 && final(self)@ == after_add(
                old(self)@,
                name@,
                message_or(message, add_message(file_key(old(self)@.root, name@).0)),
                texts(contents@),
            ),
    {
        let path = self.construct_path(name);
        let file = match RepositoryFile::create(path.as_str(), is_regular_file) {
            Ok(f) => f,
            Err(e) => {
                return Err(e);
            },
        };
        let default = self.add_message_for(&file);
        if let Err(e) = self.tracked_files.add(file) {
            return Err(e);
        }
        let text = match message {
            Some(m) => m,
            None => default.as_str(),
        };
        Ok(self.commit_file(text, contents))
    }

    fn add_message_for(&self, file: &RepositoryFile) -> (r: String)
        ensures
            r@ == add_message(file@.0),
    {
        proof {
            reveal_strlit("Adding a file ");
        }
        let mut r = String::from_str("Adding a file ");
        r.append(file.name.as_str());
        r
    }

    /// Stops tracking the first tracked file called `name`; fails with
    /// `NotFound` when there is none. Takes no commit: the history and the
    /// files on disk stay as they are.
    pub fn remove(&mut self, name: &str) -> (r: Result<(), RepoError>)
        requires
            old(self).wf(),
        ensures
            final(self).wf(),
            final(self)@.root == old(self)@.root,
            final(self)@.commits == old(self)@.commits,
            final(self)@.version == old(self)@.version,
            r is Err <==> !has_named(old(self)@.files, name@),
            r is Err ==> r == Err::<(), RepoError>(RepoError::NotFound) && final(self)@ == old(self)@,
            r is Ok ==> exists|i: int|
                #![trigger old(self)@.files.remove(i)]
                is_first_named(old(self)@.files, name@, i) && final(self)@.files
                    == old(self)@.files.remove(i),
    {
        match self.tracked_files.remove(name) {
            Ok(_) => Ok(()),
            Err(e) => Err(e),
        }
    }
}

impl Repository {
    /// Reports the last commit, or with `n_versions` the last that many, in
    /// ascending order of version. Fails with `CommitNotFound` when asked for
    /// the last commit of an empty history, and with `InvalidRange` when
    /// asked for more versions than were recorded.
    pub fn history(&self, n_versions: Option<u32>) -> (r: Result<Vec<HistoryEntry>, RepoError>)
        requires
            self.wf(),
        ensures
            r is Err <==> shown(n_versions) > self@.version,
            r is Err ==> r == Err::<Vec<HistoryEntry>, RepoError>(
                if n_versions is None {
                    RepoError::CommitNotFound
                } else {
                    RepoError::InvalidRange
                },
            ),
            r matches Ok(es) ==> entries(es@) == self@.commits.subrange(
                self@.version - shown(n_versions),
                self@.version as int,
            ).map_values(|c: CommitView| entry_of(c)),
            r matches Ok(es) ==> es@.len() == shown(n_versions) && forall|i: int|
                0 <= i < es@.len() ==> #[trigger] es@[i].version == self@.version - shown(n_versions) + 1 + i,
    {
        let count: u32 = match n_versions {
            Some(n) => n,
            None => 1,
        };
        if count > self.version {
            return match n_versions {
                Some(_) => Err(RepoError::InvalidRange),
                None => Err(RepoError::CommitNotFound),
            };
        }
        let start: usize = (self.version - count) as usize;
        let end: usize = self.version as usize;
        let ghost want = self@.commits.subrange(start as int, end as int).map_values(|c: CommitView| entry_of(c));
        let mut out: Vec<HistoryEntry> = Vec::new();
        let mut i: usize = start;
        while i < end
            invariant
                self.wf(),
                start <= i <= end,
                end == self@.version,
                end == self.commits@.len(),
                want == self@.commits.subrange(start as int, end as int).map_values(|c: CommitView| entry_of(c)),
                out@.len() == i - start,
                forall|k: int| 0 <= k < out@.len() ==> #[trigger] out@[k]@ == want[k],
            decreases end - i,
        {
            let c = &self.commits[i];
            assert(self@.commits[i as int] == c@);
            let names = c.file_names();
            let e = HistoryEntry { version: c.version, message: c.message.clone(), file_names: names };
            assert(e@.names =~= entry_of(c@).names);
            out.push(e);
            i = i + 1;
        }
        assert(entries(out@) =~= want);
        proof {
            assert forall|k: int| 0 <= k < out@.len() implies #[trigger] out@[k].version == self@.version - shown(
                n_versions,
            ) + 1 + k by {
                assert(out@[k]@ == want[k]);
                assert(self@.commits[start + k].version == start + k + 1);
            }
        }
        Ok(out)
    }

    /// The files to overwrite to bring back commit `version`: each file it
    /// recorded, at the path recorded in it, with the contents captured then.
    /// Fails with `CommitNotFound` when no commit has that version.
    pub fn checkout(&self, version: u32) -> (r: Result<Vec<Restore>, RepoError>)
        requires
            self.wf(),
        ensures
            r is Err <==> !exists|i: int| 0 <= i < self@.commits.len() && #[trigger] self@.commits[i].version == version,
            r is Err ==> r == Err::<Vec<Restore>, RepoError>(RepoError::CommitNotFound),
            r matches Ok(w) ==> 1 <= version <= self@.version && self@.commits[version - 1].version == version
                && restores(w@) == restores_of(self@.commits[version - 1]),
    {
        if version == 0 || version > self.version {
            assert(forall|i: int| 0 <= i < self@.commits.len() ==> #[trigger] self@.commits[i].version == i + 1);
            return Err(RepoError::CommitNotFound);
        }
        let c = &self.commits[(version - 1) as usize];
        assert(self@.commits[version - 1] == c@);
        assert(self@.commits[version - 1].version == version);
        let mut out: Vec<Restore> = Vec::new();
        let mut i: usize = 0;
        while i < c.files.len()
            invariant
                i <= c.files@.len(),
                out@.len() == i,
                forall|k: int| 0 <= k < i ==> #[trigger] out@[k]@ == restores_of(c@)[k],
            decreases c.files@.len() - i,
        {
            let f = &c.files[i];
            out.push(Restore { path: f.file.path.clone(), contents: f.contents.clone() });
            i = i + 1;
        }
        assert(restores(out@) =~= restores_of(c@));
        Ok(out)
    }

    /// The writes that store the repository: the tracked-file list and the
    /// version counter always, and every commit whose directory does not
    /// exist yet (`persisted[i]` says whether that of the `i`-th commit does).
    /// A commit whose directory exists is left as it is.
    pub fn save(&self, persisted: &Vec<bool>) -> (r: Vec<SaveStep>)
        requires
            self.wf(),
            persisted@.len() == self@.commits.len(),
        ensures
            step_views(r@) == save_plan(self@, persisted@),
    {
        proof {
            reveal_strlit("tracked_files");
            reveal_strlit("VERSION");
            reveal_strlit("meta");
        }
        let store = self.store_dir();
        let json = JsonSerializer::create(store.as_str());
        let mut steps: Vec<SaveStep> = Vec::new();
        steps.push(SaveStep::WriteFileList { path: json.record_path("tracked_files", None) });
        steps.push(SaveStep::WriteVersion { path: json.record_path("VERSION", None) });
        assert(step_views(steps@) =~= header_steps(self@));
        let n = self.commits.len();
        let mut i: usize = 0;
        while i < n
            invariant
                self.wf(),
                n == self@.commits.len(),
                n == persisted@.len(),
                i <= n,
                json@ == store_dir(self@.root),
                store@ == store_dir(self@.root),
                step_views(steps@) == header_steps(self@) + history_steps(self@, persisted@, i as nat),
            decreases n - i,
        {
            let ghost before = step_views(steps@);
            if !persisted[i] {
                let c = &self.commits[i];
                assert(self@.commits[i as int] == c@);
                let dir = commit_dir_name(c.version);
                let loc = join_path(store.as_str(), dir.as_str());
                let ghost l = commit_location(self@.root, c@.version);
                steps.push(SaveStep::CreateDir { path: loc });
                assert(step_views(steps@) =~= before + seq![StepView::Dir(l)]);
                let m = c.files.len();
                let mut j: usize = 0;
                while j < m
                    invariant
                        m == c.files@.len(),
                        j <= m,
                        i < n,
                        n == self@.commits.len(),
                        self@.commits[i as int] == c@,
                        dir@ == commit_dir(c@.version),
                        json@ == store_dir(self@.root),
                        l == commit_location(self@.root, c@.version),
                        step_views(steps@) == before + seq![StepView::Dir(l)] + snapshot_steps(self@, i as int, j as nat),
                    decreases m - j,
                {
                    let ghost mid = step_views(steps@);
                    let path = json.record_path(c.files[j].file.name.as_str(), Some(dir.as_str()));
                    steps.push(SaveStep::WriteSnapshot { path, commit: i, file: j });
                    assert(step_views(steps@) =~= mid.push(steps@[steps@.len() - 1]@));
                    j = j + 1;
                }
                let path = json.record_path("meta", Some(dir.as_str()));
                let ghost mid = step_views(steps@);
                steps.push(SaveStep::WriteMeta { path, commit: i });
                assert(step_views(steps@) =~= mid.push(StepView::Meta(joined(l, "meta"@), i as nat)));
                assert(step_views(steps@) =~= before + commit_steps(self@, i as int));
            } else {
                assert(history_steps(self@, persisted@, (i + 1) as nat) =~= history_steps(self@, persisted@, i as nat));
            }
            assert(step_views(steps@) =~= header_steps(self@) + history_steps(self@, persisted@, (i + 1) as nat));
            i = i + 1;
        }
        steps
    }
}

/// Round trip through the store: loading back what `save` stored, the
/// tracked-file list and the version counter as written and the commits
/// found in any order, succeeds, and the repository it rebuilds equals the
/// saved one.
pub proof fn lemma_save_load_round_trip(saved: Repository, listed: Seq<RepositoryFile>, found: Seq<Commit>)
    requires
        saved.wf(),
        keys(listed) == saved@.files,
        views(found).to_multiset() == saved@.commits.to_multiset(),
    ensures
        no_duplicates(keys(listed)),
        arrangeable(views(found), saved@.version),
        forall|rep: RepoView| #[trigger]
            loaded_from(rep, saved@.root, listed, saved@.version, found) ==> rep == saved@,
{
    assert(arrangeable(views(found), saved@.version));
    assert forall|rep: RepoView| #[trigger]
        loaded_from(rep, saved@.root, listed, saved@.version, found) implies rep == saved@ by {
        let sorted = rep.commits;
        assert(ascending(sorted));
        lemma_ascending_arrangement(sorted, saved@.commits, saved@.version);
    }
}

/// Adding the same file twice: once `name` has been added, adding it again
/// while its path still names a regular file is refused with
/// `AlreadyTracked` (and a refused `add` changes nothing).
pub proof fn lemma_add_twice(r: RepoView, name: Seq<char>, message: Seq<char>, contents: Seq<Seq<char>>)
    requires
        add_refusal(r, name, true) is None,
    ensures
        add_refusal(after_add(r, name, message, contents), name, true) == Some(RepoError::AlreadyTracked),
{
    let after = after_add(r, name, message, contents);
    let key = file_key(r.root, name);
    assert(after.files[after.files.len() - 1] == key);
}

/// A checkout gives back what a commit captured: the commit of the new
/// version restores each file that was tracked to the contents handed to it
/// then, and later commits leave that commit as it is, whatever the files hold
/// by then.
pub proof fn lemma_checkout_restores_captured(r: RepoView, message: Seq<char>, contents: Seq<Seq<char>>)
    requires
        consecutive(r.commits, r.version),
        contents.len() == r.files.len(),
    ensures
        ({
            let after = after_commit(r, message, contents);
            &&& restores_of(after.commits[after.version - 1]) == Seq::new(
                r.files.len(),
                |i: int| (r.files[i].1, contents[i]),
            )
            &&& forall|m: Seq<char>, later: Seq<Seq<char>>, i: int|
                0 <= i < after.commits.len() ==> #[trigger] after_commit(after, m, later).commits[i]
                    == after.commits[i]
        }),
{
    let after = after_commit(r, message, contents);
    assert(after.commits[after.version - 1] == after.commits.last());
    assert(restores_of(after.commits[after.version - 1]) =~= Seq::new(
        r.files.len(),
        |i: int| (r.files[i].1, contents[i]),
    ));
}

} // verus!
