use vstd::prelude::*;

use crate::commit::{texts, CommitView, SnapshotView};

verus! {

/// One commit as `history` reports it.
pub struct EntryView {
    pub version: nat,
    pub message: Seq<char>,
    pub names: Seq<Seq<char>>,
}

/// How `history` reports the commit `c`: its version, message and file names.
pub open spec fn entry_of(c: CommitView) -> EntryView {
    EntryView { version: c.version, message: c.message, names: c.files.map_values(|f: SnapshotView| f.file.0) }
}

/// How many commits `history` reports when asked for `n_versions`.
pub open spec fn shown(n_versions: Option<u32>) -> nat {
    match n_versions {
        Some(n) => n as nat,
        None => 1,
    }
}

/// The report on one commit: its version, message and the names of its files.
#[derive(Debug, Clone)]
pub struct HistoryEntry {
    pub version: u32,
    pub message: String,
    pub file_names: Vec<String>,
}

impl View for HistoryEntry {
    type V = EntryView;

    open spec fn view(&self) -> EntryView {
        EntryView { version: self.version as nat, message: self.message@, names: texts(self.file_names@) }
    }
}

/// The values of a sequence of history entries.
pub open spec fn entries(s: Seq<HistoryEntry>) -> Seq<EntryView> {
    s.map_values(|e: HistoryEntry| e@)
}

/// A file to overwrite with the given contents.
#[derive(Debug, Clone)]
pub struct Restore {
    pub path: String,
    pub contents: String,
}

impl View for Restore {
    type V = (Seq<char>, Seq<char>);

    open spec fn view(&self) -> (Seq<char>, Seq<char>) {
        (self.path@, self.contents@)
    }
}

/// The values of a sequence of restores.
pub open spec fn restores(s: Seq<Restore>) -> Seq<(Seq<char>, Seq<char>)> {
    s.map_values(|w: Restore| w@)
}

/// What a checkout of `c` writes: each file's recorded path with its captured contents.
pub open spec fn restores_of(c: CommitView) -> Seq<(Seq<char>, Seq<char>)> {
    c.files.map_values(|f: SnapshotView| (f.file.1, f.contents))
}

} // verus!
