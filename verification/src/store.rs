//! The record store: an append-only log of text lines per file, and the
//! catalog that maps names to identifiers and attributes.
//!
//! `StoreModel` says what a store holds; its spec functions say what each
//! operation answers and how it changes the store. `RecordStore` is the
//! capability that every engine offers, stated against that model.

use crate::attr::InodeRow;
use crate::attr::ROOT_ID;
use crate::error::StoreError;
use crate::records::lines_of;
use vstd::prelude::*;

verus! {

/// A name and the identifier that it maps to, as a directory listing shows it.
#[derive(Debug)]
pub struct DirEntry {
    pub ino: u64,
    pub name: Vec<u8>,
}

/// What a `DirEntry` holds.
pub struct DirEntryModel {
    pub ino: u64,
    pub name: Seq<u8>,
}

impl View for DirEntry {
    type V = DirEntryModel;

    open spec fn view(&self) -> DirEntryModel {
        DirEntryModel { ino: self.ino, name: self.name@ }
    }
}

/// The directory entry that a name and the identifier column of a
/// relational catalog make, if the identifier can be a file's.
pub fn entry_of_columns(name: Vec<u8>, ino: i32) -> (entry: Option<DirEntry>)
    ensures
        entry is Some <==> ino > ROOT_ID,
        entry matches Some(e) ==> e@ == (DirEntryModel { ino: ino as u64, name: name@ }),
{
    if ino > 1 {
        Some(DirEntry { ino: ino as u64, name })
    } else {
        None
    }
}

/// What a vector of directory entries holds.
pub open spec fn entry_views(v: Seq<DirEntry>) -> Seq<DirEntryModel> {
    Seq::new(v.len(), |i: int| v[i]@)
}

/// A partial update of a catalog row: a field that is `None` stays.
#[derive(Clone, Copy, Debug)]
pub struct AttrChange {
    pub mode: Option<u32>,
    pub uid: Option<u32>,
    pub gid: Option<u32>,
}

impl AttrChange {
    /// No field is to change.
    pub open spec fn is_empty(self) -> bool {
        self.mode is None && self.uid is None && self.gid is None
    }

    /// The row after the update.
    pub open spec fn apply(self, row: InodeRow) -> InodeRow {
        InodeRow {
            ino: row.ino,
            mode: match self.mode {
                Some(mode) => mode,
                None => row.mode,
            },
            uid: match self.uid {
                Some(uid) => uid,
                None => row.uid,
            },
            gid: match self.gid {
                Some(gid) => gid,
                None => row.gid,
            },
        }
    }

    /// The row after the update.
    pub fn apply_to(&self, row: InodeRow) -> (updated: InodeRow)
        ensures
            updated == self.apply(row),
    {
        InodeRow {
            ino: row.ino,
            mode: match self.mode {
                Some(mode) => mode,
                None => row.mode,
            },
            uid: match self.uid {
                Some(uid) => uid,
                None => row.uid,
            },
            gid: match self.gid {
                Some(gid) => gid,
                None => row.gid,
            },
        }
    }
}

/// One file as a store holds it: its catalog row, its name and its content
/// records in the order in which they were appended.
pub struct FileModel {
    pub row: InodeRow,
    pub name: Seq<u8>,
    pub lines: Seq<Seq<char>>,
}

/// What a store holds: its files in the order of their allocation, and the
/// last identifier that it has given out.
pub struct StoreModel {
    pub files: Seq<FileModel>,
    pub last_id: u64,
}

impl StoreModel {
    /// A store with no file, whose first identifier will be `last_id + 1`.
    pub open spec fn empty(last_id: u64) -> StoreModel {
        StoreModel { files: Seq::empty(), last_id }
    }

    /// The catalog is consistent: identifiers lie above the root's and at or
    /// below the last one given out, they increase along the catalog, and no
    /// two files share a name.
    pub open spec fn wf(self) -> bool {
        &&& self.last_id >= ROOT_ID
        &&& forall|i: int|
            0 <= i < self.files.len() ==> ROOT_ID < (#[trigger] self.files[i]).row.ino
                <= self.last_id
        &&& forall|i: int, j: int|
            0 <= i < j < self.files.len() ==> (#[trigger] self.files[i]).row.ino < (
            #[trigger] self.files[j]).row.ino
        &&& forall|i: int, j: int|
            0 <= i < j < self.files.len() ==> (#[trigger] self.files[i]).name != (
            #[trigger] self.files[j]).name
    }

    /// Some file has this name.
    pub open spec fn has_name(self, name: Seq<u8>) -> bool {
        exists|i: int| 0 <= i < self.files.len() && (#[trigger] self.files[i]).name == name
    }

    /// The place in the catalog of the file of this name.
    pub open spec fn name_index(self, name: Seq<u8>) -> int {
        choose|i: int| 0 <= i < self.files.len() && (#[trigger] self.files[i]).name == name
    }

    /// Some file has this identifier.
    pub open spec fn has_id(self, id: u64) -> bool {
        exists|i: int| 0 <= i < self.files.len() && (#[trigger] self.files[i]).row.ino == id
    }

    /// The place in the catalog of the file of this identifier.
    pub open spec fn id_index(self, id: u64) -> int {
        choose|i: int| 0 <= i < self.files.len() && (#[trigger] self.files[i]).row.ino == id
    }

    /// The answer to a lookup by name.
    pub open spec fn find_name(self, name: Seq<u8>) -> Result<InodeRow, StoreError> {
        if self.has_name(name) {
            Ok(self.files[self.name_index(name)].row)
        } else {
            Err(StoreError::NotFound)
        }
    }

    /// The answer to a lookup by identifier.
    pub open spec fn find_id(self, id: u64) -> Result<InodeRow, StoreError> {
        if self.has_id(id) {
            Ok(self.files[self.id_index(id)].row)
        } else {
            Err(StoreError::NotFound)
        }
    }

    /// The content records of a file, oldest first.
    pub open spec fn content(self, id: u64) -> Option<Seq<Seq<char>>> {
        if self.has_id(id) {
            Some(self.files[self.id_index(id)].lines)
        } else {
            None
        }
    }

    /// The full catalog as a listing, in the order of the identifiers.
    pub open spec fn catalog(self) -> Seq<DirEntryModel> {
        Seq::new(
            self.files.len(),
            |i: int| DirEntryModel { ino: self.files[i].row.ino, name: self.files[i].name },
        )
    }

    /// Allocation: refused with `AlreadyExists` for a name that is mapped,
    /// and with `Failure` when no identifier is left; else a new file with
    /// the next identifier and no content joins the end of the catalog.
    pub open spec fn allocate(self, name: Seq<u8>, mode: u32, uid: u32, gid: u32) -> (
        StoreModel,
        Result<InodeRow, StoreError>,
    ) {
        if self.has_name(name) {
            (self, Err(StoreError::AlreadyExists))
        } else if self.last_id >= u64::MAX {
            (self, Err(StoreError::Failure))
        } else {
            let row = InodeRow { ino: (self.last_id + 1) as u64, mode, uid, gid };
            (
                StoreModel {
                    files: self.files.push(FileModel { row, name, lines: Seq::empty() }),
                    last_id: row.ino,
                },
                Ok(row),
            )
        }
    }

    /// Attribute update: refused with `NotFound` for an unknown identifier;
    /// else the fields that the change names are replaced in that file's row.
    pub open spec fn update(self, id: u64, change: AttrChange) -> (
        StoreModel,
        Result<(), StoreError>,
    ) {
        if self.has_id(id) {
            let i = self.id_index(id);
            let file = self.files[i];
            (
                StoreModel {
                    files: self.files.update(
                        i,
                        FileModel { row: change.apply(file.row), name: file.name, lines: file.lines },
                    ),
                    last_id: self.last_id,
                },
                Ok(()),
            )
        } else {
            (self, Err(StoreError::NotFound))
        }
    }

    /// Content append: refused with `NotFound` for an unknown identifier;
    /// else the lines join the end of that file's records, in their order.
    pub open spec fn append(self, id: u64, lines: Seq<Seq<char>>) -> (
        StoreModel,
        Result<(), StoreError>,
    ) {
        if self.has_id(id) {
            let i = self.id_index(id);
            let file = self.files[i];
            (
                StoreModel {
                    files: self.files.update(
                        i,
                        FileModel { row: file.row, name: file.name, lines: file.lines + lines },
                    ),
                    last_id: self.last_id,
                },
                Ok(()),
            )
        } else {
            (self, Err(StoreError::NotFound))
        }
    }

    /// Nothing that this store holds is lost or rewritten in `later`: every
    /// file is still at its place with its identifier and its name, its
    /// content then begins with its content now, and the last identifier is
    /// no lower. Permission bits and ownership may differ.
    pub open spec fn grows_into(self, later: StoreModel) -> bool {
        &&& later.last_id >= self.last_id
        &&& later.files.len() >= self.files.len()
        &&& forall|i: int|
            0 <= i < self.files.len() ==> {
                &&& (#[trigger] later.files[i]).row.ino == self.files[i].row.ino
                &&& later.files[i].name == self.files[i].name
                &&& self.files[i].lines.is_prefix_of(later.files[i].lines)
            }
    }

    /// What a failed allocation may leave of this store: the same files,
    /// and a last identifier that is no lower.
    pub open spec fn after_failed_allocation(self, after: StoreModel) -> bool {
        after.files == self.files && after.last_id >= self.last_id
    }

    /// What a failed append of `lines` to a file may leave of this store:
    /// the first few of the lines appended, and nothing else changed.
    pub open spec fn after_failed_append(
        self,
        after: StoreModel,
        id: u64,
        lines: Seq<Seq<char>>,
    ) -> bool {
        exists|k: int| 0 <= k <= lines.len() && after == (#[trigger] self.append(id, lines.take(k))).0
    }

    /// Both stores hold the same files under the same names and identifiers,
    /// and have given out the same identifiers; anything else may differ.
    pub open spec fn same_catalog_as(self, other: StoreModel) -> bool {
        &&& self.last_id == other.last_id
        &&& self.files.len() == other.files.len()
        &&& forall|i: int|
            0 <= i < self.files.len() ==> {
                &&& (#[trigger] self.files[i]).row.ino == other.files[i].row.ino
                &&& self.files[i].name == other.files[i].name
            }
    }

    /// Both stores hold the same files with the same names and content, and
    /// have given out the same identifiers; permission bits and ownership may
    /// differ.
    pub open spec fn same_content_as(self, other: StoreModel) -> bool {
        &&& self.last_id == other.last_id
        &&& self.files.len() == other.files.len()
        &&& forall|i: int|
            0 <= i < self.files.len() ==> {
                &&& (#[trigger] self.files[i]).row.ino == other.files[i].row.ino
                &&& self.files[i].name == other.files[i].name
                &&& self.files[i].lines == other.files[i].lines
            }
    }
}

/// In a consistent catalog a name is found at one place only.
pub proof fn lemma_name_index(m: StoreModel, name: Seq<u8>, i: int)
    requires
        m.wf(),
        0 <= i < m.files.len(),
        m.files[i].name == name,
    ensures
        m.has_name(name),
        m.name_index(name) == i,
        m.find_name(name) == Ok::<InodeRow, StoreError>(m.files[i].row),
{
    let j = m.name_index(name);
    assert(0 <= j < m.files.len() && m.files[j].name == name);
    if j < i {
        assert(m.files[j].name != m.files[i].name);
    } else if i < j {
        assert(m.files[i].name != m.files[j].name);
    }
}

/// In a consistent catalog an identifier is found at one place only.
pub proof fn lemma_id_index(m: StoreModel, id: u64, i: int)
    requires
        m.wf(),
        0 <= i < m.files.len(),
        m.files[i].row.ino == id,
    ensures
        m.has_id(id),
        m.id_index(id) == i,
        m.find_id(id) == Ok::<InodeRow, StoreError>(m.files[i].row),
        m.content(id) == Some(m.files[i].lines),
{
    let j = m.id_index(id);
    assert(0 <= j < m.files.len() && m.files[j].row.ino == id);
    if j < i {
        assert(m.files[j].row.ino < m.files[i].row.ino);
    } else if i < j {
        assert(m.files[i].row.ino < m.files[j].row.ino);
    }
}

/// In a consistent catalog the identifiers lie at least one apart, so the
/// file at place `i` has an identifier of at least `i` above the first
/// possible one, and the catalog holds fewer files than identifiers exist.
pub proof fn lemma_ids_spread(m: StoreModel, i: int)
    requires
        m.wf(),
        0 <= i < m.files.len(),
    ensures
        m.files[i].row.ino >= ROOT_ID + 1 + i,
        m.files.len() < m.last_id,
    decreases m.files.len() - i,
{
    if i > 0 {
        lemma_ids_spread_up_to(m, i);
    }
    if i + 1 < m.files.len() {
        lemma_ids_spread(m, i + 1);
    } else {
        lemma_ids_spread_up_to(m, i);
        assert(m.files[i].row.ino <= m.last_id);
    }
}

/// The file at place `i` of a consistent catalog has an identifier of at
/// least `i` above the first possible one.
pub proof fn lemma_ids_spread_up_to(m: StoreModel, i: int)
    requires
        m.wf(),
        0 <= i < m.files.len(),
    ensures
        m.files[i].row.ino >= ROOT_ID + 1 + i,
    decreases i,
{
    if i > 0 {
        lemma_ids_spread_up_to(m, i - 1);
        assert(m.files[i - 1].row.ino < m.files[i].row.ino);
    } else {
        assert(m.files[0].row.ino > ROOT_ID);
    }
}

/// Allocation keeps the catalog consistent and never lowers the last
/// identifier; a row that it answers with is the last of the catalog.
pub proof fn lemma_allocate_wf(m: StoreModel, name: Seq<u8>, mode: u32, uid: u32, gid: u32)
    requires
        m.wf(),
    ensures
        m.allocate(name, mode, uid, gid).0.wf(),
        m.allocate(name, mode, uid, gid).0.last_id >= m.last_id,
        m.allocate(name, mode, uid, gid).1 matches Ok(row) ==> {
            &&& row.ino == m.last_id + 1
            &&& !m.has_id(row.ino)
            &&& m.allocate(name, mode, uid, gid).0.find_name(name) == Ok::<InodeRow, StoreError>(
                row,
            )
            &&& m.allocate(name, mode, uid, gid).0.find_id(row.ino) == Ok::<InodeRow, StoreError>(
                row,
            )
            &&& m.allocate(name, mode, uid, gid).0.content(row.ino) == Some(
                Seq::<Seq<char>>::empty(),
            )
        },
{
    let (next, answer) = m.allocate(name, mode, uid, gid);
    if let Ok(row) = answer {
        let n = m.files.len() as int;
        assert(next.files.len() == n + 1);
        assert(next.files[n].name == name);
        assert(next.files[n].row == row);
        assert forall|i: int| 0 <= i < n implies #[trigger] next.files[i] == m.files[i] by {}
        assert forall|i: int, j: int| 0 <= i < j < next.files.len() implies (
        #[trigger] next.files[i]).name != (#[trigger] next.files[j]).name by {
            if j == n {
                assert(m.files[i].name != name);
            } else {
                assert(m.files[i].name != m.files[j].name);
            }
        }
        assert forall|i: int, j: int| 0 <= i < j < next.files.len() implies (
        #[trigger] next.files[i]).row.ino < (#[trigger] next.files[j]).row.ino by {
            if j == n {
                assert(m.files[i].row.ino <= m.last_id);
            } else {
                assert(m.files[i].row.ino < m.files[j].row.ino);
            }
        }
        assert forall|i: int| 0 <= i < next.files.len() implies ROOT_ID < (
        #[trigger] next.files[i]).row.ino <= next.last_id by {
            if i < n {
                assert(ROOT_ID < m.files[i].row.ino <= m.last_id);
            }
        }
        assert(next.wf());
        lemma_name_index(next, name, n);
        lemma_id_index(next, row.ino, n);
        if m.has_id(row.ino) {
            let k = m.id_index(row.ino);
            assert(m.files[k].row.ino <= m.last_id);
        }
    }
}

/// An attribute update keeps the catalog consistent, and changes neither a
/// name, nor an identifier, nor any content.
pub proof fn lemma_update_wf(m: StoreModel, id: u64, change: AttrChange)
    requires
        m.wf(),
    ensures
        m.update(id, change).0.wf(),
        m.update(id, change).0.same_content_as(m),
        m.update(id, change).1 is Ok <==> m.has_id(id),
        m.has_id(id) ==> m.update(id, change).0.find_id(id) == Ok::<InodeRow, StoreError>(
            change.apply(m.files[m.id_index(id)].row),
        ),
{
    let next = m.update(id, change).0;
    if m.has_id(id) {
        let k = m.id_index(id);
        assert forall|i: int| 0 <= i < m.files.len() implies {
            &&& (#[trigger] next.files[i]).row.ino == m.files[i].row.ino
            &&& next.files[i].name == m.files[i].name
            &&& next.files[i].lines == m.files[i].lines
        } by {}
        lemma_same_catalog_wf(m, next);
        lemma_id_index(next, id, k);
    }
}

/// A content append keeps the catalog consistent, leaves every row and every
/// other file's content as it was, and puts the lines at the end of the
/// file's records.
pub proof fn lemma_append_wf(m: StoreModel, id: u64, lines: Seq<Seq<char>>)
    requires
        m.wf(),
    ensures
        m.append(id, lines).0.wf(),
        m.append(id, lines).0.last_id == m.last_id,
        m.append(id, lines).0.catalog() == m.catalog(),
        m.append(id, lines).1 is Ok <==> m.has_id(id),
        m.has_id(id) ==> m.append(id, lines).0.content(id) == Some(m.content(id).unwrap() + lines),
        forall|other: u64|
            other != id ==> #[trigger] m.append(id, lines).0.content(other) == m.content(other),
        forall|other: u64| #[trigger] m.append(id, lines).0.find_id(other) == m.find_id(other),
        forall|name: Seq<u8>|
            #[trigger] m.append(id, lines).0.find_name(name) == m.find_name(name),
{
    let next = m.append(id, lines).0;
    if m.has_id(id) {
        let k = m.id_index(id);
        assert forall|i: int| 0 <= i < m.files.len() implies {
            &&& (#[trigger] next.files[i]).row == m.files[i].row
            &&& next.files[i].name == m.files[i].name
        } by {}
        lemma_same_catalog_wf(m, next);
        lemma_id_index(next, id, k);
        assert(next.catalog() =~= m.catalog());
        assert forall|other: u64| other != id implies #[trigger] next.content(other) == m.content(
            other,
        ) by {
            lemma_same_rows_find(m, next, other, Seq::empty());
            if m.has_id(other) {
                let j = m.id_index(other);
                lemma_id_index(next, other, j);
            }
        }
        assert forall|other: u64| #[trigger] next.find_id(other) == m.find_id(other) by {
            lemma_same_rows_find(m, next, other, Seq::empty());
        }
        assert forall|name: Seq<u8>| #[trigger] next.find_name(name) == m.find_name(name) by {
            lemma_same_rows_find(m, next, 0, name);
        }
    }
}

/// A store with the catalog of a consistent one is consistent.
pub proof fn lemma_same_catalog_wf(m: StoreModel, next: StoreModel)
    requires
        m.wf(),
        next.same_catalog_as(m),
    ensures
        next.wf(),
{
    assert forall|i: int| 0 <= i < next.files.len() implies ROOT_ID < (
    #[trigger] next.files[i]).row.ino <= next.last_id by {
        assert(ROOT_ID < m.files[i].row.ino <= m.last_id);
    }
    assert forall|i: int, j: int| 0 <= i < j < next.files.len() implies (
    #[trigger] next.files[i]).row.ino < (#[trigger] next.files[j]).row.ino by {
        assert(m.files[i].row.ino < m.files[j].row.ino);
    }
    assert forall|i: int, j: int| 0 <= i < j < next.files.len() implies (
    #[trigger] next.files[i]).name != (#[trigger] next.files[j]).name by {
        assert(m.files[i].name != m.files[j].name);
    }
}

/// Two stores with the same rows and names at every place.
pub open spec fn same_rows(m: StoreModel, next: StoreModel) -> bool {
    &&& next.last_id == m.last_id
    &&& next.files.len() == m.files.len()
    &&& forall|i: int|
        0 <= i < m.files.len() ==> {
            &&& (#[trigger] next.files[i]).row == m.files[i].row
            &&& next.files[i].name == m.files[i].name
        }
}

/// Two consistent stores with the same rows and names answer every lookup
/// alike, and find every file at the same place.
pub proof fn lemma_same_rows_find(m: StoreModel, next: StoreModel, id: u64, name: Seq<u8>)
    requires
        m.wf(),
        same_rows(m, next),
    ensures
        next.has_id(id) == m.has_id(id),
        next.has_name(name) == m.has_name(name),
        m.has_id(id) ==> next.id_index(id) == m.id_index(id),
        next.find_id(id) == m.find_id(id),
        next.find_name(name) == m.find_name(name),
{
    lemma_same_catalog_wf(m, next);
    if m.has_id(id) {
        let k = m.id_index(id);
        assert(next.files[k].row == m.files[k].row);
        lemma_id_index(next, id, k);
    } else if next.has_id(id) {
        let k = next.id_index(id);
        assert(next.files[k].row == m.files[k].row);
        assert(m.files[k].row.ino == id);
    }
    if m.has_name(name) {
        let k = m.name_index(name);
        assert(next.files[k].name == m.files[k].name);
        lemma_name_index(next, name, k);
    } else if next.has_name(name) {
        let k = next.name_index(name);
        assert(next.files[k].name == m.files[k].name);
        assert(m.files[k].name == name);
    }
}

/// A store grows into itself, and growing goes on: what has grown into a
/// store has grown into whatever that store grows into.
pub proof fn lemma_grows_on(first: StoreModel, second: StoreModel, third: StoreModel)
    requires
        first.grows_into(second),
        second.grows_into(third),
    ensures
        first.grows_into(first),
        first.grows_into(third),
{
    assert forall|i: int| 0 <= i < first.files.len() implies {
        &&& (#[trigger] third.files[i]).row.ino == first.files[i].row.ino
        &&& third.files[i].name == first.files[i].name
        &&& first.files[i].lines.is_prefix_of(third.files[i].lines)
    } by {
        assert(second.files[i].row.ino == first.files[i].row.ino);
        assert(first.files[i].lines.is_prefix_of(second.files[i].lines));
        assert(second.files[i].lines.is_prefix_of(third.files[i].lines));
    }
}

/// Every operation of a store grows it, whether it succeeds or is refused;
/// so does what a failure of the storage layer may leave behind.
pub proof fn lemma_operations_grow(
    m: StoreModel,
    after: StoreModel,
    id: u64,
    name: Seq<u8>,
    mode: u32,
    uid: u32,
    gid: u32,
    change: AttrChange,
    lines: Seq<Seq<char>>,
)
    requires
        m.wf(),
    ensures
        m.grows_into(m.allocate(name, mode, uid, gid).0),
        m.grows_into(m.update(id, change).0),
        m.grows_into(m.append(id, lines).0),
        m.after_failed_allocation(after) ==> m.grows_into(after),
        after.same_content_as(m) ==> m.grows_into(after),
        m.after_failed_append(after, id, lines) ==> m.grows_into(after),
{
    assert forall|k: int| 0 <= k <= lines.len() implies m.grows_into(
        (#[trigger] m.append(id, lines.take(k))).0,
    ) by {
        let next = m.append(id, lines.take(k)).0;
        assert forall|i: int| 0 <= i < m.files.len() implies m.files[i].lines.is_prefix_of(
            (#[trigger] next.files[i]).lines,
        ) by {}
    }
    assert(lines.take(lines.len() as int) =~= lines);
    let updated = m.update(id, change).0;
    assert forall|i: int| 0 <= i < m.files.len() implies m.files[i].lines.is_prefix_of(
        (#[trigger] updated.files[i]).lines,
    ) by {}
    if after.same_content_as(m) {
        assert forall|i: int| 0 <= i < m.files.len() implies m.files[i].lines.is_prefix_of(
            (#[trigger] after.files[i]).lines,
        ) by {
            assert(after.files[i].lines == m.files[i].lines);
        }
    }
}

/// What a consistent store holds is found again, at its place, in every
/// consistent store that it grows into: each identifier with content that
/// begins with the content it had, each name with the identifier it had.
pub proof fn lemma_grown_store_keeps(m: StoreModel, later: StoreModel, id: u64, name: Seq<u8>)
    requires
        m.wf(),
        later.wf(),
        m.grows_into(later),
    ensures
        m.content(id) matches Some(lines) ==> later.content(id) matches Some(more)
            && lines.is_prefix_of(more),
        m.find_name(name) matches Ok(row) ==> later.find_name(name) matches Ok(found) && found.ino
            == row.ino,
        m.find_id(id) is Ok ==> later.find_id(id) is Ok,
{
    if m.has_id(id) {
        let k = m.id_index(id);
        assert(later.files[k].row.ino == id);
        lemma_id_index(later, id, k);
    }
    if m.has_name(name) {
        let k = m.name_index(name);
        assert(later.files[k].name == name);
        lemma_name_index(later, name, k);
    }
}

/// A failure of the storage layer itself, as the answer of any operation.
pub open spec fn failed<T>() -> Result<T, StoreError> {
    Err(StoreError::Failure)
}

/// The capability that every storage engine offers. Each operation is held
/// to the model: it answers and changes the store as the model's function of
/// the same name says. An engine whose storage layer can fail on its own
/// (a connection, a decode) is not `reliable`; only such an engine may answer
/// `Failure` where the model does not, and each operation says what such a
/// failure leaves behind.
pub trait RecordStore: Sized {
    /// The engine's own consistency. An engine that states none has none to
    /// keep.
    open spec fn inv(&self) -> bool {
        true
    }

    /// What the store holds. An engine that does not say what it holds is
    /// not known to hold anything in particular.
    open spec fn model(&self) -> StoreModel {
        arbitrary()
    }

    /// The engine's storage layer never fails on its own. An engine is not
    /// reliable unless it says so.
    open spec fn reliable() -> bool {
        false
    }

    /// The row of the file of this name. A failure leaves the store as it was.
    fn lookup_by_name(&mut self, name: &[u8]) -> (answer: Result<InodeRow, StoreError>)
        requires
            old(self).inv(),
            old(self).model().wf(),
        ensures
            final(self).inv(),
            final(self).model() == old(self).model(),
            answer == old(self).model().find_name(name@)
                || (!Self::reliable() && answer == failed::<InodeRow>()),
    ;

    /// The row of the file of this identifier. A failure leaves the store as
    /// it was.
    fn lookup_by_id(&mut self, id: u64) -> (answer: Result<InodeRow, StoreError>)
        requires
            old(self).inv(),
            old(self).model().wf(),
        ensures
            final(self).inv(),
            final(self).model() == old(self).model(),
            answer == old(self).model().find_id(id)
                || (!Self::reliable() && answer == failed::<InodeRow>()),
    ;

    /// Gives a new file the next identifier. A failure adds no file, though
    /// it may use up identifiers.
    fn allocate(&mut self, name: &[u8], mode: u32, uid: u32, gid: u32) -> (answer: Result<
        InodeRow,
        StoreError,
    >)
        requires
            old(self).inv(),
            old(self).model().wf(),
        ensures
            final(self).inv(),
            (final(self).model(), answer) == old(self).model().allocate(name@, mode, uid, gid)
                || (!Self::reliable() && answer == failed::<InodeRow>()
                && old(self).model().after_failed_allocation(final(self).model())),
    ;

    /// Replaces the fields that the change names. A failure may leave some
    /// of them replaced, and touches nothing else.
    fn update_attributes(&mut self, id: u64, change: AttrChange) -> (answer: Result<
        (),
        StoreError,
    >)
        requires
            old(self).inv(),
            old(self).model().wf(),
        ensures
            final(self).inv(),
            (final(self).model(), answer) == old(self).model().update(id, change)
                || (!Self::reliable() && answer == failed::<()>()
                && final(self).model().same_content_as(old(self).model())),
    ;

    /// Appends the lines, in their order, to the file's content. A failure
    /// leaves the first few of them appended, and touches nothing else.
    fn append_content(&mut self, id: u64, lines: Vec<String>) -> (answer: Result<(), StoreError>)
        requires
            old(self).inv(),
            old(self).model().wf(),
        ensures
            final(self).inv(),
            (final(self).model(), answer) == old(self).model().append(id, lines_of(lines@))
                || (!Self::reliable() && answer == failed::<()>()
                && old(self).model().after_failed_append(
                final(self).model(),
                id,
                lines_of(lines@),
            )),
    ;

    /// The full catalog, in the order of the identifiers. A failure leaves
    /// the store as it was.
    fn enumerate(&mut self) -> (answer: Result<Vec<DirEntry>, StoreError>)
        requires
            old(self).inv(),
            old(self).model().wf(),
        ensures
            final(self).inv(),
            final(self).model() == old(self).model(),
            (answer matches Ok(entries) && entry_views(entries@) == old(self).model().catalog())
                || (!Self::reliable() && answer matches Err(StoreError::Failure)),
    ;
}

} // verus!
