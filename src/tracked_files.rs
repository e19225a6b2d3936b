use vstd::prelude::*;

use crate::error::RepoError;
use crate::path::{file_name_of, final_segment, same_text};

verus! {

/// What identifies a tracked file: its name and its path.
pub type FileKey = (Seq<char>, Seq<char>);

/// A reference to a trackable file.
#[derive(Debug, Clone)]
pub struct RepositoryFile {
    pub name: String,
    pub path: String,
}

impl View for RepositoryFile {
    type V = FileKey;

    open spec fn view(&self) -> FileKey {
        (self.name@, self.path@)
    }
}

impl PartialEq for RepositoryFile {
    fn eq(&self, other: &RepositoryFile) -> (r: bool) {
        self.same_as(other)
    }
}

impl vstd::std_specs::cmp::PartialEqSpecImpl for RepositoryFile {
    open spec fn obeys_eq_spec() -> bool {
        true
    }

    open spec fn eq_spec(&self, other: &RepositoryFile) -> bool {
        self@ == other@
    }
}

/// The keys of a sequence of files, in order.
pub open spec fn keys(files: Seq<RepositoryFile>) -> Seq<FileKey> {
    files.map_values(|f: RepositoryFile| f@)
}

/// No key occurs twice.
pub open spec fn no_duplicates(s: Seq<FileKey>) -> bool {
    forall|i: int, j: int| 0 <= i < j < s.len() ==> s[i] != s[j]
}

/// `i` is the index of the first key whose name is `name`.
pub open spec fn is_first_named(s: Seq<FileKey>, name: Seq<char>, i: int) -> bool {
    &&& 0 <= i < s.len()
    &&& s[i].0 == name
    &&& forall|j: int| 0 <= j < i ==> s[j].0 != name
}

/// Some key has the name `name`.
pub open spec fn has_named(s: Seq<FileKey>, name: Seq<char>) -> bool {
    exists|i: int| 0 <= i < s.len() && s[i].0 == name
}

impl RepositoryFile {
    /// Builds the reference to the file at `path`; `is_regular_file` says
    /// whether that path names an existing regular file. The name is the
    /// path's final component.
    pub fn create(path: &str, is_regular_file: bool) -> (r: Result<RepositoryFile, RepoError>)
        ensures
            r is Err <==> !is_regular_file || final_segment(path@).len() == 0,
            r is Err ==> r == Err::<RepositoryFile, RepoError>(RepoError::InvalidPath),
            r matches Ok(f) ==> f@ == (final_segment(path@), path@),
    {
        if !is_regular_file {
            return Err(RepoError::InvalidPath);
        }
        let name = file_name_of(path);
        if name.as_str().unicode_len() == 0 {
            return Err(RepoError::InvalidPath);
        }
        Ok(RepositoryFile { name, path: String::from_str(path) })
    }

    /// A copy with the same name and path.
    pub fn copy(&self) -> (r: RepositoryFile)
        ensures
            r@ == self@,
    {
        RepositoryFile { name: self.name.clone(), path: self.path.clone() }
    }

    /// Whether `self` and `other` have the same name and the same path.
    pub fn same_as(&self, other: &RepositoryFile) -> (r: bool)
        ensures
            r == (self@ == other@),
    {
        self.name == other.name && self.path == other.path
    }
}

/// The ordered set of tracked files: insertion order is kept and no two
/// entries are equal.
#[derive(Debug)]
pub struct TrackedFiles {
    files: Vec<RepositoryFile>,
}

impl View for TrackedFiles {
    type V = Seq<FileKey>;

    closed spec fn view(&self) -> Seq<FileKey> {
        keys(self.files@)
    }
}

impl TrackedFiles {
    pub open spec fn wf(&self) -> bool {
        no_duplicates(self@)
    }

    /// An empty set.
    pub fn new() -> (r: TrackedFiles)
        ensures
            r@ == Seq::<FileKey>::empty(),
            r.wf(),
    {
        let r = TrackedFiles { files: Vec::new() };
        assert(r@ =~= Seq::<FileKey>::empty());
        r
    }

    /// The set holding `files` in their order; fails with `CorruptStore`
    /// when two of them are equal.
    pub fn create(files: Vec<RepositoryFile>) -> (r: Result<TrackedFiles, RepoError>)
        ensures
            r is Ok <==> no_duplicates(keys(files@)),
            r is Err ==> r == Err::<TrackedFiles, RepoError>(RepoError::CorruptStore),
            r matches Ok(t) ==> t@ == keys(files@) && t.wf(),
    {
        let n = files.len();
        let mut i: usize = 0;
        while i < n
            invariant
                n == files@.len(),
                i <= n,
                forall|a: int, b: int| 0 <= a < b < n && a < i ==> keys(files@)[a] != keys(files@)[b],
            decreases n - i,
        {
            let mut j: usize = i + 1;
            while j < n
                invariant
                    n == files@.len(),
                    i < n,
                    i < j <= n,
                    forall|a: int, b: int| 0 <= a < b < n && a < i ==> keys(files@)[a] != keys(files@)[b],
                    forall|b: int| i < b < j ==> keys(files@)[i as int] != keys(files@)[b],
                decreases n - j,
            {
                if files[i].same_as(&files[j]) {
                    assert(keys(files@)[i as int] == keys(files@)[j as int]);
                    return Err(RepoError::CorruptStore);
                }
                j = j + 1;
            }
            i = i + 1;
        }
        Ok(TrackedFiles { files })
    }

    /// Whether a file equal to `file` is tracked.
    pub fn is_tracked(&self, file: &RepositoryFile) -> (r: bool)
        ensures
            r == self@.contains(file@),
    {
        let mut i: usize = 0;
        while i < self.files.len()
            invariant
                i <= self.files@.len(),
                forall|k: int| 0 <= k < i ==> self@[k] != file@,
            decreases self.files@.len() - i,
        {
            if self.files[i].same_as(file) {
                assert(self@[i as int] == file@);
                return true;
            }
            i = i + 1;
        }
        false
    }

    /// Appends `file`; fails with `AlreadyTracked`, changing nothing, when an
    /// equal file is already tracked.
    pub fn add(&mut self, file: RepositoryFile) -> (r: Result<(), RepoError>)
        requires
            old(self).wf(),
        ensures
            final(self).wf(),
            r is Err <==> old(self)@.contains(file@),
            r is Err ==> r == Err::<(), RepoError>(RepoError::AlreadyTracked) && final(self)@ == old(self)@,
            r is Ok ==> final(self)@ == old(self)@.push(file@),
    {
        if self.is_tracked(&file) {
            return Err(RepoError::AlreadyTracked);
        }
        let ghost before = self.files@;
        self.files.push(file);
        assert(keys(self.files@) =~= keys(before).push(file@));
        Ok(())
    }

    /// Removes the first file called `name` and returns it; fails with
    /// `NotFound`, changing nothing, when no tracked file has that name.
    pub fn remove(&mut self, name: &str) -> (r: Result<RepositoryFile, RepoError>)
        requires
            old(self).wf(),
        ensures
            final(self).wf(),
            r is Err <==> !has_named(old(self)@, name@),
            r is Err ==> r == Err::<RepositoryFile, RepoError>(RepoError::NotFound) && final(self)@ == old(self)@,
            r matches Ok(f) ==> exists|i: int|
                #![trigger old(self)@.remove(i)]
                is_first_named(old(self)@, name@, i) && f@ == old(self)@[i] && final(self)@ == old(self)@.remove(i),
    {
        let mut i: usize = 0;
        while i < self.files.len()
            invariant
                i <= self.files@.len(),
                *self == *old(self),
                self.wf(),
                forall|k: int| 0 <= k < i ==> self@[k].0 != name@,
            decreases self.files@.len() - i,
        {
            if same_text(self.files[i].name.as_str(), name) {
                assert(self@[i as int].0 == name@);
                let ghost before = self.files@;
                let ghost bk = self@;
                let f = self.files.remove(i);
                assert(keys(self.files@) =~= bk.remove(i as int));
                assert(no_duplicates(bk));
                assert(no_duplicates(self@)) by {
                    assert forall|a: int, b: int| 0 <= a < b < self@.len() implies self@[a] != self@[b] by {
                        let a2 = if a < i { a } else { a + 1 };
                        let b2 = if b < i { b } else { b + 1 };
                        assert(a2 < b2);
                        assert(self@[a] == bk[a2]);
                        assert(self@[b] == bk[b2]);
                        assert(bk[a2] != bk[b2]);
                    }
                }
                assert(is_first_named(bk, name@, i as int));
                assert(self@ == bk.remove(i as int));
                return Ok(f);
            }
            i = i + 1;
        }
        Err(RepoError::NotFound)
    }

    /// The tracked files, in insertion order.
    pub fn files(&self) -> (r: &Vec<RepositoryFile>)
        ensures
            keys(r@) == self@,
    {
        &self.files
    }

    /// The number of tracked files.
    pub fn len(&self) -> (r: usize)
        ensures
            r == self@.len(),
    {
        self.files.len()
    }
}

} // verus!
