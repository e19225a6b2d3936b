use vstd::prelude::*;

use crate::path::joined;
use crate::repository::{commit_location, store_dir, RepoView};

verus! {

/// One write that saving the repository makes.
#[derive(Debug, Clone)]
pub enum SaveStep {
    /// Write the list of tracked files at `path`.
    WriteFileList { path: String },
    /// Write the version counter at `path`.
    WriteVersion { path: String },
    /// Create the directory of a commit.
    CreateDir { path: String },
    /// Write the snapshot `file` of the commit at index `commit` at `path`.
    WriteSnapshot { path: String, commit: usize, file: usize },
    /// Write the record of the commit at index `commit` at `path`.
    WriteMeta { path: String, commit: usize },
}

/// A save step, as values.
pub enum StepView {
    FileList(Seq<char>),
    Version(Seq<char>),
    Dir(Seq<char>),
    Snapshot(Seq<char>, nat, nat),
    Meta(Seq<char>, nat),
}

impl View for SaveStep {
    type V = StepView;

    open spec fn view(&self) -> StepView {
        match self {
            SaveStep::WriteFileList { path } => StepView::FileList(path@),
            SaveStep::WriteVersion { path } => StepView::Version(path@),
            SaveStep::CreateDir { path } => StepView::Dir(path@),
            SaveStep::WriteSnapshot { path, commit, file } => StepView::Snapshot(path@, *commit as nat, *file as nat),
            SaveStep::WriteMeta { path, commit } => StepView::Meta(path@, *commit as nat),
        }
    }
}

/// The values of a sequence of save steps.
pub open spec fn step_views(s: Seq<SaveStep>) -> Seq<StepView> {
    s.map_values(|t: SaveStep| t@)
}

/// The writes of the first `m` snapshots of the commit at index `i`, each
/// named after its file.
pub open spec fn snapshot_steps(r: RepoView, i: int, m: nat) -> Seq<StepView>
    decreases m,
{
    if m == 0 {
        Seq::empty()
    } else {
        let c = r.commits[i];
        snapshot_steps(r, i, (m - 1) as nat).push(
            StepView::Snapshot(
                joined(commit_location(r.root, c.version), c.files[m - 1].file.0),
                i as nat,
                (m - 1) as nat,
            ),
        )
    }
}

/// The writes that store the commit at index `i`: its directory, one record
/// per file, and its own record.
pub open spec fn commit_steps(r: RepoView, i: int) -> Seq<StepView> {
    let loc = commit_location(r.root, r.commits[i].version);
    seq![StepView::Dir(loc)] + snapshot_steps(r, i, r.commits[i].files.len()) + seq![
        StepView::Meta(joined(loc, "meta"@), i as nat),
    ]
}

/// The writes for the first `k` commits: none for those whose directory
/// exists already.
pub open spec fn history_steps(r: RepoView, persisted: Seq<bool>, k: nat) -> Seq<StepView>
    decreases k,
{
    if k == 0 {
        Seq::empty()
    } else {
        history_steps(r, persisted, (k - 1) as nat) + if persisted[k - 1] {
            Seq::empty()
        } else {
            commit_steps(r, k - 1)
        }
    }
}

/// The writes that always come first: the tracked-file list and the version counter.
pub open spec fn header_steps(r: RepoView) -> Seq<StepView> {
    seq![
        StepView::FileList(joined(store_dir(r.root), "tracked_files"@)),
        StepView::Version(joined(store_dir(r.root), "VERSION"@)),
    ]
}

/// Everything that saving `r` writes, where `persisted[i]` says whether the
/// directory of the `i`-th commit exists already.
pub open spec fn save_plan(r: RepoView, persisted: Seq<bool>) -> Seq<StepView> {
    header_steps(r) + history_steps(r, persisted, r.commits.len())
}

/// Saving again when every commit directory is on disk writes only the
/// tracked-file list and the version counter: no commit directory is created
/// or written, so those already stored stay as they are.
pub proof fn lemma_save_again_keeps_commits(r: RepoView, persisted: Seq<bool>)
    requires
        persisted.len() == r.commits.len(),
        forall|i: int| 0 <= i < persisted.len() ==> persisted[i],
    ensures
        save_plan(r, persisted) == header_steps(r),
{
    lemma_no_history_steps(r, persisted, r.commits.len());
    assert(save_plan(r, persisted) =~= header_steps(r));
}

proof fn lemma_no_history_steps(r: RepoView, persisted: Seq<bool>, k: nat)
    requires
        k <= persisted.len(),
        forall|i: int| 0 <= i < persisted.len() ==> persisted[i],
    ensures
        history_steps(r, persisted, k) == Seq::<StepView>::empty(),
    decreases k,
{
    if k > 0 {
        lemma_no_history_steps(r, persisted, (k - 1) as nat);
        assert(history_steps(r, persisted, k) =~= Seq::<StepView>::empty());
    }
}

} // verus!
