//! The in-memory engine: the catalog and the content of every file held in
//! process memory, in the order of allocation.

use crate::attr::InodeRow;
use crate::attr::ROOT_ID;
use crate::bytes::bytes_equal;
use crate::bytes::copy_bytes;
use crate::error::StoreError;
use crate::records::lines_of;
use crate::store::AttrChange;
use crate::store::DirEntry;
use crate::store::entry_views;
use crate::store::FileModel;
use crate::store::lemma_allocate_wf;
use crate::store::lemma_append_wf;
use crate::store::lemma_id_index;
use crate::store::lemma_name_index;
use crate::store::lemma_update_wf;
use crate::store::RecordStore;
use crate::store::StoreModel;
use vstd::prelude::*;

verus! {

/// One file in memory.
struct MemFile {
    row: InodeRow,
    name: Vec<u8>,
    lines: Vec<String>,
}

impl View for MemFile {
    type V = FileModel;

    closed spec fn view(&self) -> FileModel {
        FileModel { row: self.row, name: self.name@, lines: lines_of(self.lines@) }
    }
}

/// A record store that lives in process memory. It is reliable: it answers
/// every operation as the model says.
pub struct MemStore {
    files: Vec<MemFile>,
    last_id: u64,
}

impl MemStore {
    /// An empty store. Its first file gets the identifier after the root's.
    pub fn new() -> (store: MemStore)
        ensures
            store.inv(),
            store.model() == StoreModel::empty(ROOT_ID),
            store.model().wf(),
    {
        let store = MemStore { files: Vec::new(), last_id: ROOT_ID };
        assert(store.model().files =~= Seq::<FileModel>::empty());
        store
    }

    /// An empty store whose first file gets the identifier after `last_id`;
    /// `None` if that could be the root's or one below it.
    pub fn starting_after(last_id: u64) -> (store: Option<MemStore>)
        ensures
            store is Some <==> last_id >= ROOT_ID,
            store matches Some(s) ==> s.inv() && s.model().wf() && s.model() == StoreModel::empty(
                last_id,
            ),
    {
        if last_id < ROOT_ID {
            return None;
        }
        let store = MemStore { files: Vec::new(), last_id };
        assert(store.model().files =~= Seq::<FileModel>::empty());
        Some(store)
    }

    /// The number of files.
    pub fn len(&self) -> (n: usize)
        ensures
            n == self.model().files.len(),
    {
        self.files.len()
    }

    /// The last identifier given out; the root's, if none was.
    pub fn last_id(&self) -> (id: u64)
        ensures
            id == self.model().last_id,
    {
        self.last_id
    }

    /// The place of the file of this name, if there is one.
    fn position_of_name(&self, name: &[u8]) -> (at: Option<usize>)
        ensures
            match at {
                Some(i) => i < self.files@.len() && self.model().files[i as int].name == name@,
                None => !self.model().has_name(name@),
            },
    {
        let mut i: usize = 0;
        while i < self.files.len()
            invariant
                i <= self.files@.len(),
                forall|j: int| 0 <= j < i ==> (#[trigger] self.model().files[j]).name != name@,
            decreases self.files.len() - i,
        {
            if bytes_equal(self.files[i].name.as_slice(), name) {
                return Some(i);
            }
            i += 1;
        }
        None
    }

    /// The place of the file of this identifier, if there is one.
    fn position_of_id(&self, id: u64) -> (at: Option<usize>)
        ensures
            match at {
                Some(i) => i < self.files@.len() && self.model().files[i as int].row.ino == id,
                None => !self.model().has_id(id),
            },
    {
        let mut i: usize = 0;
        while i < self.files.len()
            invariant
                i <= self.files@.len(),
                forall|j: int| 0 <= j < i ==> (#[trigger] self.model().files[j]).row.ino != id,
            decreases self.files.len() - i,
        {
            if self.files[i].row.ino == id {
                return Some(i);
            }
            i += 1;
        }
        None
    }

    /// The content records of a file, oldest first; `None` for an unknown
    /// identifier.
    pub fn content(&self, id: u64) -> (lines: Option<Vec<String>>)
        requires
            self.inv(),
        ensures
            lines is Some <==> self.model().content(id) is Some,
            lines matches Some(v) ==> Some(lines_of(v@)) == self.model().content(id),
    {
        match self.position_of_id(id) {
            None => None,
            Some(at) => {
                proof {
                    lemma_id_index(self.model(), id, at as int);
                }
                let stored = &self.files[at].lines;
                let mut copy: Vec<String> = Vec::new();
                let mut i: usize = 0;
                while i < stored.len()
                    invariant
                        i <= stored@.len(),
                        copy@ == stored@.take(i as int),
                    decreases stored.len() - i,
                {
                    copy.push(stored[i].clone());
                    assert(stored@.take(i + 1) =~= stored@.take(i as int).push(stored@[i as int]));
                    i += 1;
                }
                assert(stored@.take(i as int) =~= stored@);
                Some(copy)
            },
        }
    }
}

impl RecordStore for MemStore {
    /// The catalog in memory is consistent.
    closed spec fn inv(&self) -> bool {
        self.model().wf()
    }

    /// The files in memory, in their order, and the last identifier.
    closed spec fn model(&self) -> StoreModel {
        StoreModel {
            files: Seq::new(self.files@.len(), |i: int| self.files@[i]@),
            last_id: self.last_id,
        }
    }

    /// Memory does not fail on its own.
    open spec fn reliable() -> bool {
        true
    }

    fn lookup_by_name(&mut self, name: &[u8]) -> (answer: Result<InodeRow, StoreError>)
        ensures
            answer == old(self).model().find_name(name@),
    {
        match self.position_of_name(name) {
            Some(at) => {
                proof {
                    lemma_name_index(self.model(), name@, at as int);
                }
                Ok(self.files[at].row)
            },
            None => Err(StoreError::NotFound),
        }
    }

    fn lookup_by_id(&mut self, id: u64) -> (answer: Result<InodeRow, StoreError>)
        ensures
            answer == old(self).model().find_id(id),
    {
        match self.position_of_id(id) {
            Some(at) => {
                proof {
                    lemma_id_index(self.model(), id, at as int);
                }
                Ok(self.files[at].row)
            },
            None => Err(StoreError::NotFound),
        }
    }

    fn allocate(&mut self, name: &[u8], mode: u32, uid: u32, gid: u32) -> (answer: Result<
        InodeRow,
        StoreError,
    >)
        ensures
            (final(self).model(), answer) == old(self).model().allocate(name@, mode, uid, gid),
    {
        proof {
            lemma_allocate_wf(self.model(), name@, mode, uid, gid);
        }
        if self.position_of_name(name).is_some() {
            return Err(StoreError::AlreadyExists);
        }
        if self.last_id == u64::MAX {
            return Err(StoreError::Failure);
        }
        let row = InodeRow { ino: self.last_id + 1, mode, uid, gid };
        let file = MemFile { row, name: copy_bytes(name), lines: Vec::new() };
        assert(file@.lines =~= Seq::<Seq<char>>::empty());
        self.files.push(file);
        self.last_id = row.ino;
        assert(self.model().files =~= old(self).model().allocate(name@, mode, uid, gid).0.files);
        Ok(row)
    }

    fn update_attributes(&mut self, id: u64, change: AttrChange) -> (answer: Result<
        (),
        StoreError,
    >)
        ensures
            (final(self).model(), answer) == old(self).model().update(id, change),
    {
        proof {
            lemma_update_wf(self.model(), id, change);
        }
        match self.position_of_id(id) {
            None => Err(StoreError::NotFound),
            Some(at) => {
                proof {
                    lemma_id_index(self.model(), id, at as int);
                }
                let updated = change.apply_to(self.files[at].row);
                self.files[at].row = updated;
                assert(self.model().files =~= old(self).model().update(id, change).0.files);
                Ok(())
            },
        }
    }

    fn append_content(&mut self, id: u64, lines: Vec<String>) -> (answer: Result<(), StoreError>)
        ensures
            (final(self).model(), answer) == old(self).model().append(id, lines_of(lines@)),
    {
        proof {
            lemma_append_wf(self.model(), id, lines_of(lines@));
        }
        match self.position_of_id(id) {
            None => Err(StoreError::NotFound),
            Some(at) => {
                proof {
                    lemma_id_index(self.model(), id, at as int);
                }
                let mut rest = lines;
                let ghost before = self.files@[at as int].lines@;
                self.files[at].lines.append(&mut rest);
                assert(lines_of(before + lines@) =~= lines_of(before) + lines_of(lines@));
                assert(self.model().files =~= old(self).model().append(
                    id,
                    lines_of(lines@),
                ).0.files);
                Ok(())
            },
        }
    }

    fn enumerate(&mut self) -> (answer: Result<Vec<DirEntry>, StoreError>)
        ensures
            answer matches Ok(entries) && entry_views(entries@) == old(self).model().catalog(),
    {
        let mut entries: Vec<DirEntry> = Vec::new();
        let mut i: usize = 0;
        while i < self.files.len()
            invariant
                i <= self.files@.len(),
                entries@.len() == i,
                forall|j: int|
                    0 <= j < i ==> (#[trigger] entries@[j])@ == self.model().catalog()[j],
            decreases self.files.len() - i,
        {
            let entry = DirEntry {
                ino: self.files[i].row.ino,
                name: copy_bytes(self.files[i].name.as_slice()),
            };
            entries.push(entry);
            i += 1;
        }
        assert(entry_views(entries@) =~= self.model().catalog());
        Ok(entries)
    }
}

} // verus!
