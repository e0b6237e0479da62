use vstd::prelude::*;
use vstd::string::*;

use crate::error::{AddFileError, RemoveError};
use crate::text::{dec, decimal};

use std::path::PathBuf;

verus! {

/// `std::path::PathBuf`: where a shared file lives on disk, carried as an
/// opaque value.
#[verifier::external_type_specification]
#[verifier::external_body]
pub struct ExPathBuf(PathBuf);

/// `<PathBuf as Clone>::clone`. Claimed: the copy is the same path.
pub assume_specification[ <PathBuf as Clone>::clone ](p: &PathBuf) -> (r: PathBuf)
    ensures
        r == *p,
;

/// Opaque identifier for a shared file.
/// Newtype over u64 so signatures can't confuse it with a random number.
#[derive(Debug, Clone, Copy, PartialEq, Eq, Hash, Structural)]
pub struct FileId(pub u64);

impl FileId {
    /// The id as it is shown to users: its decimal number.
    pub fn to_string(&self) -> (r: String)
        ensures
            r@ == dec(self.0 as nat),
    {
        decimal(self.0)
    }
}

/// A file the user dropped into the app.
#[derive(Debug, Clone)]
pub struct SharedFile {
    pub id: FileId,
    /// File name only (e.g. `report.pdf`), shown in the UI and on the listing page.
    pub name: String,
    /// Absolute path on disk; the server streams from here.
    pub path: PathBuf,
    /// Size in bytes, captured when the file was added.
    pub size: u64,
}

/// The value of a `SharedFile`.
pub struct SharedFileView {
    pub id: u64,
    pub name: Seq<char>,
    pub path: PathBuf,
    pub size: u64,
}

impl View for SharedFile {
    type V = SharedFileView;

    open spec fn view(&self) -> SharedFileView {
        SharedFileView { id: self.id.0, name: self.name@, path: self.path, size: self.size }
    }
}

/// What the filesystem reported about a path when it was probed.
#[derive(Debug)]
pub enum PathProbe {
    /// Nothing exists at the path.
    Missing,
    /// The metadata could not be read for another reason.
    Unreadable(std::io::Error),
    /// The path is a directory.
    Directory,
    /// The path is a file of the given length.
    File { size: u64 },
}

/// The abstract state of a `FileStore`: the shared files in insertion order
/// and the id that the next added file receives.
pub struct FileStoreView {
    pub files: Seq<SharedFileView>,
    pub next_id: u64,
}

/// The name under which a file is shown: its file name, or `file` when the
/// path has none.
pub open spec fn shown_name(name: Option<String>) -> Seq<char> {
    match name {
        Some(n) => n@,
        None => "file"@,
    }
}

impl FileStoreView {
    /// Ids strictly increase along the list, and all lie below `next_id`.
    pub open spec fn wf(self) -> bool {
        &&& forall|i: int, j: int|
            0 <= i < j < self.files.len() ==> #[trigger] self.files[i].id < #[trigger] self.files[j].id
        &&& forall|i: int| 0 <= i < self.files.len() ==> #[trigger] self.files[i].id < self.next_id
    }

    pub open spec fn contains(self, id: u64) -> bool {
        exists|i: int| 0 <= i < self.files.len() && #[trigger] self.files[i].id == id
    }

    /// The position of the file with this id (meaningful when `contains(id)`).
    pub open spec fn index_of(self, id: u64) -> int {
        choose|i: int| 0 <= i < self.files.len() && #[trigger] self.files[i].id == id
    }

    pub open spec fn lookup(self, id: u64) -> Option<SharedFileView> {
        if self.contains(id) {
            Some(self.files[self.index_of(id)])
        } else {
            None
        }
    }

    /// The state after registering a file: it is appended with id `next_id`.
    pub open spec fn added(self, name: Seq<char>, path: PathBuf, size: u64) -> FileStoreView {
        FileStoreView {
            files: self.files.push(SharedFileView { id: self.next_id, name, path, size }),
            next_id: (self.next_id + 1) as u64,
        }
    }

    /// The state after unregistering the file with this id (when present).
    pub open spec fn removed(self, id: u64) -> FileStoreView {
        FileStoreView { files: self.files.remove(self.index_of(id)), next_id: self.next_id }
    }

    pub open spec fn cleared(self) -> FileStoreView {
        FileStoreView { files: Seq::empty(), next_id: self.next_id }
    }
}

/// In-memory registry of files currently being shared.
#[derive(Debug)]
pub struct FileStore {
    files: Vec<SharedFile>,
    next_id: u64,
}

impl View for FileStore {
    type V = FileStoreView;

    closed spec fn view(&self) -> FileStoreView {
        FileStoreView { files: self.files@.map_values(|f: SharedFile| f@), next_id: self.next_id }
    }
}

impl Default for FileStore {
    fn default() -> (s: Self)
        ensures
            s.wf(),
            s@.files == Seq::<SharedFileView>::empty(),
            s@.next_id == 0,
    {
        FileStore::new()
    }
}

impl FileStore {
    pub open spec fn wf(&self) -> bool {
        self@.wf()
    }

    pub fn new() -> (s: Self)
        ensures
            s.wf(),
            s@.files == Seq::<SharedFileView>::empty(),
            s@.next_id == 0,
    {
        let s = FileStore { files: Vec::new(), next_id: 0 };
        assert(s@.files =~= Seq::<SharedFileView>::empty());
        s
    }

    /// The id that the next registered file receives.
    pub fn next_id(&self) -> (r: u64)
        ensures
            r == self@.next_id,
    {
        self.next_id
    }

    /// Register a file, given what probing its path reported.
    /// `name` is the path's file name, if it has one.
    pub fn add(&mut self, path: PathBuf, name: Option<String>, probe: PathProbe) -> (r: Result<
        SharedFile,
        AddFileError,
    >)
        requires
            old(self).wf(),
            probe is File ==> old(self)@.next_id < u64::MAX,
        ensures
            final(self).wf(),
            match probe {
                PathProbe::Missing => {
                    &&& r == Err::<SharedFile, AddFileError>(AddFileError::NotFound(path))
                    &&& final(self)@ == old(self)@
                },
                PathProbe::Unreadable(e) => {
                    &&& r == Err::<SharedFile, AddFileError>(AddFileError::Metadata(e))
                    &&& final(self)@ == old(self)@
                },
                PathProbe::Directory => {
                    &&& r == Err::<SharedFile, AddFileError>(AddFileError::IsADirectory(path))
                    &&& final(self)@ == old(self)@
                },
                PathProbe::File { size } => {
                    &&& final(self)@ == old(self)@.added(shown_name(name), path, size)
                    &&& r matches Ok(f) && f@ == final(self)@.files.last()
                    &&& r matches Ok(f) ==> f.id.0 == old(self)@.next_id && f.path == path && f.size
                        == size
                    &&& r matches Ok(f) ==> match name {
                        Some(n) => f.name@ == n@,
                        None => f.name@ == "file"@,
                    }
                },
            },
    {
        match probe {
            PathProbe::Missing => Err(AddFileError::NotFound(path)),
            PathProbe::Unreadable(e) => Err(AddFileError::Metadata(e)),
            PathProbe::Directory => Err(AddFileError::IsADirectory(path)),
            PathProbe::File { size } => {
                let name = match name {
                    Some(n) => n,
                    None => String::from_str("file"),
                };
                let file = SharedFile { id: FileId(self.next_id), name, path, size };
                let stored = SharedFile {
                    id: file.id,
                    name: file.name.clone(),
                    path: file.path.clone(),
                    size,
                };
                let ghost before = self@;
                self.next_id = self.next_id + 1;
                self.files.push(stored);
                assert(self@.files =~= before.files.push(file@));
                Ok(file)
            },
        }
    }

    /// Position of the file with this id, if any.
    fn position(&self, id: FileId) -> (r: Option<usize>)
        requires
            self.wf(),
        ensures
            r is None <==> !self@.contains(id.0),
            r matches Some(i) ==> i < self@.files.len() && i == self@.index_of(id.0),
    {
        let mut i: usize = 0;
        while i < self.files.len()
            invariant
                self.wf(),
                i <= self.files@.len(),
                forall|j: int| 0 <= j < i ==> #[trigger] self@.files[j].id != id.0,
            decreases self.files@.len() - i,
        {
            if self.files[i].id.0 == id.0 {
                assert(self@.files[i as int].id == id.0);
                proof {
                    let k = self@.index_of(id.0);
                    assert(self@.files[k].id == id.0);
                    if k < i {
                        assert(self@.files[k].id < self@.files[i as int].id);
                    } else if k > i {
                        assert(self@.files[i as int].id < self@.files[k].id);
                    }
                }
                return Some(i);
            }
            i = i + 1;
        }
        None
    }

    /// Remove a file from the registry. Returns what was removed
    /// so the caller can confirm exactly what disappeared.
    pub fn remove(&mut self, id: FileId) -> (r: Result<SharedFile, RemoveError>)
        requires
            old(self).wf(),
        ensures
            final(self).wf(),
            old(self)@.contains(id.0) ==> {
                &&& r matches Ok(f) && Some(f@) == old(self)@.lookup(id.0)
                &&& final(self)@ == old(self)@.removed(id.0)
            },
            !old(self)@.contains(id.0) ==> {
                &&& r == Err::<SharedFile, RemoveError>(RemoveError::NotFound(id))
                &&& final(self)@ == old(self)@
            },
    {
        match self.position(id) {
            None => Err(RemoveError::NotFound(id)),
            Some(i) => {
                let ghost before = self@;
                let f = self.files.remove(i);
                assert(self@.files =~= before.files.remove(i as int));
                proof {
                    lemma_remove_keeps_wf(before, i as int);
                }
                Ok(f)
            },
        }
    }

    pub fn get(&self, id: FileId) -> (r: Option<&SharedFile>)
        requires
            self.wf(),
        ensures
            r is None <==> !self@.contains(id.0),
            r matches Some(f) ==> Some(f@) == self@.lookup(id.0),
    {
        match self.position(id) {
            None => None,
            Some(i) => Some(&self.files[i]),
        }
    }

    /// Insertion-ordered view of everything currently shared.
    pub fn list(&self) -> (r: &[SharedFile])
        ensures
            r@.map_values(|f: SharedFile| f@) == self@.files,
    {
        self.files.as_slice()
    }

    pub fn clear(&mut self)
        requires
            old(self).wf(),
        ensures
            final(self).wf(),
            final(self)@ == old(self)@.cleared(),
    {
        self.files.clear();
        assert(self@.files =~= Seq::<SharedFileView>::empty());
    }
}

/// Removing one entry keeps the ids ordered and bounded.
proof fn lemma_remove_keeps_wf(s: FileStoreView, i: int)
    requires
        s.wf(),
        0 <= i < s.files.len(),
    ensures
        (FileStoreView { files: s.files.remove(i), next_id: s.next_id }).wf(),
{
    let t = s.files.remove(i);
    assert forall|a: int, b: int| 0 <= a < b < t.len() implies #[trigger] t[a].id < #[trigger] t[b].id by {
        let a0 = if a < i { a } else { a + 1 };
        let b0 = if b < i { b } else { b + 1 };
        assert(t[a] == s.files[a0]);
        assert(t[b] == s.files[b0]);
        assert(s.files[a0].id < s.files[b0].id);
    }
    assert forall|a: int| 0 <= a < t.len() implies #[trigger] t[a].id < s.next_id by {
        let a0 = if a < i { a } else { a + 1 };
        assert(t[a] == s.files[a0]);
    }
}

/// Registering a file keeps the store well formed: the new id is larger
/// than every id already present.
pub proof fn lemma_added_keeps_wf(s: FileStoreView, name: Seq<char>, path: PathBuf, size: u64)
    requires
        s.wf(),
        s.next_id < u64::MAX,
    ensures
        s.added(name, path, size).wf(),
{
    let t = s.added(name, path, size);
    assert forall|a: int, b: int| 0 <= a < b < t.files.len() implies #[trigger] t.files[a].id
        < #[trigger] t.files[b].id by {
        if b == s.files.len() {
            assert(t.files[a] == s.files[a]);
        } else {
            assert(t.files[a] == s.files[a]);
            assert(t.files[b] == s.files[b]);
        }
    }
    assert forall|a: int| 0 <= a < t.files.len() implies #[trigger] t.files[a].id < t.next_id by {
        if a < s.files.len() {
            assert(t.files[a] == s.files[a]);
        }
    }
}

/// Unregistering a file keeps the store well formed.
pub proof fn lemma_removed_keeps_wf(s: FileStoreView, id: u64)
    requires
        s.wf(),
        s.contains(id),
    ensures
        s.removed(id).wf(),
{
    lemma_remove_keeps_wf(s, s.index_of(id));
}

/// At most one file carries a given id.
pub proof fn lemma_ids_unique(s: FileStoreView, i: int, j: int)
    requires
        s.wf(),
        0 <= i < s.files.len(),
        0 <= j < s.files.len(),
        s.files[i].id == s.files[j].id,
    ensures
        i == j,
{
    if i < j {
        assert(s.files[i].id < s.files[j].id);
    } else if j < i {
        assert(s.files[j].id < s.files[i].id);
    }
}

/// Ids are assigned sequentially: a registered file gets the next id, is
/// listed last, and the files listed before keep their order.
pub proof fn lemma_add_is_sequential(s: FileStoreView, name: Seq<char>, path: PathBuf, size: u64)
    ensures
        s.added(name, path, size).files.last().id == s.next_id,
        s.added(name, path, size).files.len() == s.files.len() + 1,
        s.added(name, path, size).files.take(s.files.len() as int) == s.files,
{
    assert(s.added(name, path, size).files.take(s.files.len() as int) =~= s.files);
}

/// A freshly registered file can be looked up by its id.
pub proof fn lemma_get_after_add(s: FileStoreView, name: Seq<char>, path: PathBuf, size: u64)
    requires
        s.wf(),
        s.next_id < u64::MAX,
    ensures
        s.added(name, path, size).lookup(s.next_id) == Some(
            SharedFileView { id: s.next_id, name, path, size },
        ),
{
    let t = s.added(name, path, size);
    let last = s.files.len() as int;
    assert(t.files[last].id == s.next_id);
    assert(t.contains(s.next_id));
    lemma_added_keeps_wf(s, name, path, size);
    lemma_ids_unique(t, t.index_of(s.next_id), last);
}

/// Removing a file that was just registered gives back the files as they were.
pub proof fn lemma_remove_undoes_add(s: FileStoreView, name: Seq<char>, path: PathBuf, size: u64)
    requires
        s.wf(),
        s.next_id < u64::MAX,
    ensures
        s.added(name, path, size).removed(s.next_id).files == s.files,
{
    let t = s.added(name, path, size);
    let last = s.files.len() as int;
    assert(t.files[last].id == s.next_id);
    assert(t.contains(s.next_id));
    lemma_added_keeps_wf(s, name, path, size);
    lemma_ids_unique(t, t.index_of(s.next_id), last);
    assert(t.files.remove(last) =~= s.files);
}

/// A removed file is gone: looking its id up finds nothing, and every other
/// file is still there.
pub proof fn lemma_get_after_remove(s: FileStoreView, id: u64, other: u64)
    requires
        s.wf(),
        s.contains(id),
        other != id,
    ensures
        s.removed(id).lookup(id) is None,
        s.removed(id).lookup(other) == s.lookup(other),
{
    let k = s.index_of(id);
    let t = s.removed(id);
    lemma_removed_keeps_wf(s, id);
    if t.contains(id) {
        let i = t.index_of(id);
        let i0 = if i < k { i } else { i + 1 };
        assert(t.files[i] == s.files[i0]);
        lemma_ids_unique(s, i0, k);
    }
    if s.contains(other) {
        let j = s.index_of(other);
        assert(j != k);
        let j1 = if j < k { j } else { j - 1 };
        assert(t.files[j1] == s.files[j]);
        assert(t.contains(other));
        let i = t.index_of(other);
        let i0 = if i < k { i } else { i + 1 };
        assert(t.files[i] == s.files[i0]);
        lemma_ids_unique(s, i0, j);
    } else if t.contains(other) {
        let i = t.index_of(other);
        let i0 = if i < k { i } else { i + 1 };
        assert(t.files[i] == s.files[i0]);
    }
}

/// Ids are never reused: whatever was removed or cleared, the next file
/// registered gets an id larger than every id the store ever handed out.
pub proof fn lemma_ids_never_reused(s: FileStoreView, id: u64, name: Seq<char>, path: PathBuf, size: u64)
    requires
        s.wf(),
        s.contains(id),
        s.next_id < u64::MAX,
    ensures
        s.removed(id).added(name, path, size).files.last().id > id,
        s.cleared().added(name, path, size).files.last().id > id,
        s.added(name, path, size).files.last().id > id,
{
    let k = s.index_of(id);
    assert(s.files[k].id < s.next_id);
}

/// Every listed file is found by its own id.
pub proof fn lemma_lookup_finds_listed(s: FileStoreView, i: int)
    requires
        s.wf(),
        0 <= i < s.files.len(),
    ensures
        s.lookup(s.files[i].id) == Some(s.files[i]),
{
    let id = s.files[i].id;
    assert(s.contains(id));
    lemma_ids_unique(s, s.index_of(id), i);
}

/// A file is shown under exactly the file name it was given; the placeholder
/// `file` is used only for a path without a file name.
pub proof fn lemma_given_name_is_kept(
    s: FileStoreView,
    n: String,
    path: PathBuf,
    size: u64,
)
    ensures
        s.added(shown_name(Some(n)), path, size).files.last().name == n@,
        s.added(shown_name(None), path, size).files.last().name == "file"@,
        s.added(shown_name(Some(n)), path, size).files.last().path == path,
        s.added(shown_name(Some(n)), path, size).files.last().size == size,
{
}

} // verus!
