//! The filesystem call dispatcher: the calls that the delivery layer makes,
//! each routed to the namespace manager, the attribute mapping, the record
//! store and the directory session, and answered with attributes or with one
//! typed error.
//!
//! What a call answers and how it changes the filesystem is a spec function
//! of the model (`spec_lookup`, `spec_create`, ...). On a reliable engine a
//! call does exactly that. On an engine whose storage layer can fail on its
//! own, a call may instead answer the error that the failure maps to; each
//! contract says which error that is and what the failure leaves behind.

use crate::attr::FileAttr;
use crate::attr::InodeRow;
use crate::attr::MAX_NAME_LENGTH;
use crate::attr::new_attr;
use crate::attr::resolve_time;
use crate::attr::root_attr;
use crate::attr::ROOT_ID;
use crate::attr::spec_new_attr;
use crate::attr::spec_resolve_time;
use crate::attr::spec_root_attr;
use crate::attr::TimeOrNow;
use crate::attr::Timestamp;
use crate::error::FsError;
use crate::error::StoreError;
use crate::namespace::found_row;
use crate::namespace::spec_allocated;
use crate::namespace::spec_create_row;
use crate::namespace::spec_found;
use crate::namespace::spec_resolve;
use crate::records::lines_of;
use crate::records::split_records;
use crate::records::text_records;
use crate::session::DirRecord;
use crate::session::DirRecordModel;
use crate::session::DirSession;
use crate::session::record_views;
use crate::session::SessionModel;
use crate::store::AttrChange;
use crate::store::failed;
use crate::store::lemma_append_wf;
use crate::store::lemma_grows_on;
use crate::store::lemma_operations_grow;
use crate::store::lemma_same_catalog_wf;
use crate::store::lemma_update_wf;
use crate::store::RecordStore;
use crate::store::StoreModel;
use vstd::prelude::*;

verus! {

/// What an attribute update asks for: a field that is `None` stays.
#[derive(Clone, Copy, Debug)]
pub struct SetAttr {
    pub mode: Option<u32>,
    pub uid: Option<u32>,
    pub gid: Option<u32>,
    pub size: Option<u64>,
    pub atime: Option<TimeOrNow>,
    pub mtime: Option<TimeOrNow>,
}

impl SetAttr {
    /// The part of the request that the store persists.
    pub open spec fn change(self) -> AttrChange {
        AttrChange { mode: self.mode, uid: self.uid, gid: self.gid }
    }

    /// The attribute record with the requested timestamps put in.
    pub open spec fn with_times(self, attr: FileAttr, now: Timestamp) -> FileAttr {
        FileAttr {
            atime: match self.atime {
                Some(t) => spec_resolve_time(t, now),
                None => attr.atime,
            },
            mtime: match self.mtime {
                Some(t) => spec_resolve_time(t, now),
                None => attr.mtime,
            },
            ..attr
        }
    }
}

/// What a filesystem holds: its store and its directory session.
pub struct FsModel {
    pub store: StoreModel,
    pub session: SessionModel,
}

/// The attributes of a row that was found or created, at time `now`; an
/// error stays as it is.
pub open spec fn spec_attributes_of(row: Result<InodeRow, FsError>, now: Timestamp) -> Result<
    FileAttr,
    FsError,
> {
    match row {
        Ok(row) => Ok(spec_new_attr(row, now)),
        Err(e) => Err(e),
    }
}

/// The answer to an attribute update of the file with this row, given what
/// became of storing the change: a failure of the store is
/// `InvalidArgument`; else a request that names a size is refused with
/// `OperationNotSupported`; else the answer is the attributes of the updated
/// row at time `now`, with the requested timestamps put in.
pub open spec fn spec_setattr_answer(
    row: InodeRow,
    request: SetAttr,
    stored: Result<(), StoreError>,
    now: Timestamp,
) -> Result<FileAttr, FsError> {
    if stored is Err {
        Err(FsError::InvalidArgument)
    } else if request.size is Some {
        Err(FsError::OperationNotSupported)
    } else {
        Ok(request.with_times(spec_new_attr(request.change().apply(row), now), now))
    }
}

/// The answer to a write of `len` bytes, given what became of appending its
/// records: the whole length is accepted, or the answer is `Io`.
pub open spec fn spec_write_answer(len: usize, appended: Result<(), StoreError>) -> Result<
    usize,
    FsError,
> {
    match appended {
        Ok(_) => Ok(len),
        Err(_) => Err(FsError::Io),
    }
}

/// The answer to opening the directory, given the handle that the session
/// issued: the handle, or `Io` when none was left.
pub open spec fn spec_opendir_answer(issued: Option<u64>) -> Result<u64, FsError> {
    match issued {
        Some(handle) => Ok(handle),
        None => Err(FsError::Io),
    }
}

/// `lookup`: what resolving the name gives, as attributes at time `now`.
pub open spec fn spec_lookup(m: StoreModel, parent: u64, name: Seq<u8>, now: Timestamp) -> Result<
    FileAttr,
    FsError,
> {
    spec_attributes_of(spec_resolve(m, parent, name), now)
}

/// `getattr`: the fixed record for the root; for a file the attributes of
/// its row at time `now`; `NotFound` for any other identifier.
pub open spec fn spec_getattr(m: StoreModel, id: u64, now: Timestamp) -> Result<
    FileAttr,
    FsError,
> {
    if id == ROOT_ID {
        Ok(spec_root_attr())
    } else {
        spec_attributes_of(spec_found(m.find_id(id)), now)
    }
}

/// `setattr`: `NotFound` for an identifier that is no file's, with the store
/// as it was. Else the requested permission bits and ownership are stored,
/// if any are requested, and the answer is that to the update.
pub open spec fn spec_setattr(m: StoreModel, id: u64, request: SetAttr, now: Timestamp) -> (
    StoreModel,
    Result<FileAttr, FsError>,
) {
    match m.find_id(id) {
        Err(_) => (m, Err(FsError::NotFound)),
        Ok(row) => {
            let (next, stored) = if request.change().is_empty() {
                (m, Ok(()))
            } else {
                m.update(id, request.change())
            };
            (next, spec_setattr_answer(row, request, stored, now))
        },
    }
}

/// `create`: what the namespace manager's creation gives, as attributes at
/// time `now`.
pub open spec fn spec_create(
    m: StoreModel,
    parent: u64,
    name: Seq<u8>,
    mode: u32,
    uid: u32,
    gid: u32,
    now: Timestamp,
) -> (StoreModel, Result<FileAttr, FsError>) {
    (
        spec_create_row(m, parent, name, mode, uid, gid).0,
        spec_attributes_of(spec_create_row(m, parent, name, mode, uid, gid).1, now),
    )
}

/// `write`: a payload that is not text is refused with `Io` and the store
/// stays as it was. Else the payload's text records are appended to the
/// file's content and the answer is that to the write; so a write to an
/// identifier that is no file's is refused with `Io`.
pub open spec fn spec_write(m: StoreModel, id: u64, data: Seq<u8>) -> (
    StoreModel,
    Result<usize, FsError>,
) {
    match text_records(data) {
        None => (m, Err(FsError::Io)),
        Some(lines) => (
            m.append(id, lines).0,
            spec_write_answer(data.len() as usize, m.append(id, lines).1),
        ),
    }
}

/// `opendir`: `NotFound` for anything but the root. Else the session is
/// opened on the catalog as it is now and the answer is that to the opening.
/// The store stays as it was.
pub open spec fn spec_opendir(fs: FsModel, id: u64) -> (FsModel, Result<u64, FsError>) {
    if id != ROOT_ID {
        (fs, Err(FsError::NotFound))
    } else {
        (
            FsModel { store: fs.store, session: fs.session.open(fs.store.catalog()).0 },
            spec_opendir_answer(fs.session.open(fs.store.catalog()).1),
        )
    }
}

/// `readdir`: what a read of the session gives. The store plays no part.
pub open spec fn spec_readdir(fs: FsModel, handle: u64, offset: u64) -> (
    FsModel,
    Result<Seq<DirRecordModel>, FsError>,
) {
    (
        FsModel { store: fs.store, session: fs.session.read(handle, offset).0 },
        fs.session.read(handle, offset).1,
    )
}

/// `releasedir`: the session is closed, whatever the handle.
pub open spec fn spec_releasedir(fs: FsModel) -> FsModel {
    FsModel { store: fs.store, session: fs.session.release() }
}

/// What a failure of the storage layer makes of an attribute update. If
/// the lookup fails the answer is `NotFound` and the store stays as it was.
/// If storing the change fails the answer is that to a failed update, and
/// the store differs in permission bits and ownership at most.
pub open spec fn setattr_after_failure(
    before: StoreModel,
    after: StoreModel,
    id: u64,
    request: SetAttr,
    now: Timestamp,
    answer: Result<FileAttr, FsError>,
) -> bool {
    ||| answer == Err::<FileAttr, FsError>(FsError::NotFound) && after == before
    ||| {
        &&& !request.change().is_empty()
        &&& before.find_id(id) is Ok
        &&& after.same_content_as(before)
        &&& answer == spec_setattr_answer(before.find_id(id).unwrap(), request, failed::<()>(), now)
    }
}

/// The attributes of a row that was found or created.
pub fn attributes_of(row: Result<InodeRow, FsError>, now: Timestamp) -> (answer: Result<
    FileAttr,
    FsError,
>)
    ensures
        answer == spec_attributes_of(row, now),
{
    match row {
        Ok(row) => Ok(new_attr(row, now)),
        Err(e) => Err(e),
    }
}

/// The answer to an attribute update, given what became of storing it.
pub fn setattr_answer(
    row: InodeRow,
    request: SetAttr,
    stored: Result<(), StoreError>,
    now: Timestamp,
) -> (answer: Result<FileAttr, FsError>)
    ensures
        answer == spec_setattr_answer(row, request, stored, now),
{
    if stored.is_err() {
        return Err(FsError::InvalidArgument);
    }
    if request.size.is_some() {
        return Err(FsError::OperationNotSupported);
    }
    let change = AttrChange { mode: request.mode, uid: request.uid, gid: request.gid };
    let mut attr = new_attr(change.apply_to(row), now);
    match request.atime {
        Some(t) => {
            attr.atime = resolve_time(t, now);
        },
        None => {},
    }
    match request.mtime {
        Some(t) => {
            attr.mtime = resolve_time(t, now);
        },
        None => {},
    }
    Ok(attr)
}

/// The answer to a write, given what became of appending its records.
pub fn write_answer(len: usize, appended: Result<(), StoreError>) -> (answer: Result<
    usize,
    FsError,
>)
    ensures
        answer == spec_write_answer(len, appended),
{
    match appended {
        Ok(_) => Ok(len),
        Err(_) => Err(FsError::Io),
    }
}

/// The answer to opening the directory, given the handle that was issued.
pub fn opendir_answer(issued: Option<u64>) -> (answer: Result<u64, FsError>)
    ensures
        answer == spec_opendir_answer(issued),
{
    match issued {
        Some(handle) => Ok(handle),
        None => Err(FsError::Io),
    }
}

/// The dispatcher: a record store and the directory session over it.
pub struct Dispatcher<S: RecordStore> {
    pub store: S,
    pub session: DirSession,
}

impl<S: RecordStore> Dispatcher<S> {
    /// What the filesystem holds.
    pub open spec fn model(&self) -> FsModel {
        FsModel { store: self.store.model(), session: self.session@ }
    }

    /// The store is consistent.
    pub open spec fn inv(&self) -> bool {
        self.store.inv() && self.store.model().wf()
    }

    /// A dispatcher over a store, with a closed session.
    pub fn new(store: S) -> (fs: Dispatcher<S>)
        requires
            store.inv(),
            store.model().wf(),
        ensures
            fs.inv(),
            fs.model() == (FsModel { store: store.model(), session: SessionModel::initial() }),
    {
        Dispatcher { store, session: DirSession::new() }
    }

    /// Looks a name up below a parent. Nothing changes. An engine that is
    /// not reliable may fail the lookup, which then means `NotFound`.
    pub fn lookup(&mut self, parent: u64, name: &[u8], now: Timestamp) -> (answer: Result<
        FileAttr,
        FsError,
    >)
        requires
            old(self).inv(),
        ensures
            final(self).inv(),
            final(self).model() == old(self).model(),
            answer == spec_lookup(old(self).store.model(), parent, name@, now)
                || (!S::reliable() && name@.len() <= MAX_NAME_LENGTH && parent == ROOT_ID
                && answer == spec_attributes_of(spec_found(failed::<InodeRow>()), now)),
    {
        attributes_of(crate::namespace::resolve(&mut self.store, parent, name), now)
    }

    /// Answers the attributes of the root or of a file. Nothing changes, and
    /// for the root no store is asked. An engine that is not reliable may
    /// fail the lookup, which then means `NotFound`.
    pub fn getattr(&mut self, id: u64, now: Timestamp) -> (answer: Result<FileAttr, FsError>)
        requires
            old(self).inv(),
        ensures
            final(self).inv(),
            final(self).model() == old(self).model(),
            answer == spec_getattr(old(self).store.model(), id, now)
                || (!S::reliable() && id != ROOT_ID
                && answer == spec_attributes_of(spec_found(failed::<InodeRow>()), now)),
    {
        if id == ROOT_ID {
            return Ok(root_attr());
        }
        attributes_of(found_row(self.store.lookup_by_id(id)), now)
    }

    /// Updates permission bits and ownership, and answers the attributes with
    /// the requested timestamps. No content, name or identifier changes,
    /// whatever the outcome. An engine that is not reliable may fail the
    /// lookup, which then means `NotFound` with the store as it was, or the
    /// update, which is then answered as a failed update is.
    pub fn setattr(&mut self, id: u64, request: SetAttr, now: Timestamp) -> (answer: Result<
        FileAttr,
        FsError,
    >)
        requires
            old(self).inv(),
        ensures
            final(self).inv(),
            final(self).session@ == old(self).session@,
            final(self).store.model().same_content_as(old(self).store.model()),
            old(self).store.model().grows_into(final(self).store.model()),
            (final(self).store.model(), answer) == spec_setattr(
                old(self).store.model(),
                id,
                request,
                now,
            ) || (!S::reliable() && setattr_after_failure(
                old(self).store.model(),
                final(self).store.model(),
                id,
                request,
                now,
                answer,
            )),
    {
        let ghost before = self.store.model();
        proof {
            lemma_grows_on(before, before, before);
        }
        let row = match self.store.lookup_by_id(id) {
            Ok(row) => row,
            Err(_) => {
                return Err(FsError::NotFound);
            },
        };
        let change = AttrChange { mode: request.mode, uid: request.uid, gid: request.gid };
        let stored = if change.mode.is_some() || change.uid.is_some() || change.gid.is_some() {
            proof {
                lemma_update_wf(before, id, change);
            }
            let stored = self.store.update_attributes(id, change);
            proof {
                lemma_same_catalog_wf(before, self.store.model());
                lemma_operations_grow(
                    before,
                    self.store.model(),
                    id,
                    Seq::empty(),
                    0,
                    0,
                    0,
                    change,
                    Seq::empty(),
                );
            }
            stored
        } else {
            Ok(())
        };
        setattr_answer(row, request, stored, now)
    }

    /// Opens the root directory on a snapshot of the catalog. The store
    /// stays as it was. An engine that is not reliable may fail the
    /// enumeration, which then means `Io` with the session as it was.
    pub fn opendir(&mut self, id: u64) -> (answer: Result<u64, FsError>)
        requires
            old(self).inv(),
        ensures
            final(self).inv(),
            final(self).store.model() == old(self).store.model(),
            (final(self).model(), answer) == spec_opendir(old(self).model(), id)
                || (!S::reliable() && id == ROOT_ID && answer == Err::<u64, FsError>(FsError::Io)
                && final(self).model() == old(self).model()),
    {
        if id != ROOT_ID {
            return Err(FsError::NotFound);
        }
        match self.store.enumerate() {
            Ok(snapshot) => opendir_answer(self.session.open(snapshot)),
            Err(_) => Err(FsError::Io),
        }
    }

    /// Reads the open directory from `offset` on. The store plays no part
    /// and stays as it was.
    pub fn readdir(&mut self, handle: u64, offset: u64) -> (answer: Result<
        Vec<DirRecord>,
        FsError,
    >)
        requires
            old(self).inv(),
        ensures
            final(self).inv(),
            final(self).model() == spec_readdir(old(self).model(), handle, offset).0,
            match answer {
                Ok(records) => spec_readdir(old(self).model(), handle, offset).1 == Ok::<
                    Seq<DirRecordModel>,
                    FsError,
                >(record_views(records@)),
                Err(e) => spec_readdir(old(self).model(), handle, offset).1 == Err::<
                    Seq<DirRecordModel>,
                    FsError,
                >(e),
            },
    {
        self.session.read(handle, offset)
    }

    /// Closes the directory session. It always succeeds, whatever the handle
    /// and whatever the state of the session.
    pub fn releasedir(&mut self, handle: u64)
        requires
            old(self).inv(),
        ensures
            final(self).inv(),
            final(self).model() == spec_releasedir(old(self).model()),
    {
        self.session.release();
    }

    /// Creates a file below a parent and answers its attributes. The session
    /// stays as it was. An engine that is not reliable may fail the
    /// allocation, which then means `BadParent` and adds no file.
    pub fn create(
        &mut self,
        parent: u64,
        name: &[u8],
        mode: u32,
        uid: u32,
        gid: u32,
        now: Timestamp,
    ) -> (answer: Result<FileAttr, FsError>)
        requires
            old(self).inv(),
        ensures
            final(self).inv(),
            final(self).session@ == old(self).session@,
            old(self).store.model().grows_into(final(self).store.model()),
            (final(self).store.model(), answer) == spec_create(
                old(self).store.model(),
                parent,
                name@,
                mode,
                uid,
                gid,
                now,
            ) || (!S::reliable() && name@.len() <= MAX_NAME_LENGTH && parent == ROOT_ID
                && answer == spec_attributes_of(spec_allocated(failed::<InodeRow>()), now)
                && old(self).store.model().after_failed_allocation(final(self).store.model())),
    {
        attributes_of(
            crate::namespace::create(&mut self.store, parent, name, mode, uid, gid),
            now,
        )
    }

    /// Splits a payload into text records and appends them to a file. The
    /// session stays as it was. An engine that is not reliable may fail the
    /// append, which then means `Io` with the first few records appended.
    pub fn write(&mut self, id: u64, data: &[u8]) -> (answer: Result<usize, FsError>)
        requires
            old(self).inv(),
        ensures
            final(self).inv(),
            final(self).session@ == old(self).session@,
            old(self).store.model().grows_into(final(self).store.model()),
            (final(self).store.model(), answer) == spec_write(old(self).store.model(), id, data@)
                || (!S::reliable() && text_records(data@) is Some
                && answer == spec_write_answer(data@.len() as usize, failed::<()>())
                && old(self).store.model().after_failed_append(
                final(self).store.model(),
                id,
                text_records(data@).unwrap(),
            )),
    {
        let ghost before = self.store.model();
        proof {
            lemma_grows_on(before, before, before);
        }
        let lines = match split_records(data) {
            Some(lines) => lines,
            None => {
                return Err(FsError::Io);
            },
        };
        let ghost text = lines_of(lines@);
        proof {
            lemma_append_wf(before, id, text);
            assert forall|k: int| 0 <= k <= text.len() implies (#[trigger] before.append(
                id,
                text.take(k),
            )).0.wf() by {
                lemma_append_wf(before, id, text.take(k));
            }
        }
        let appended = self.store.append_content(id, lines);
        proof {
            lemma_operations_grow(
                before,
                self.store.model(),
                id,
                Seq::empty(),
                0,
                0,
                0,
                AttrChange { mode: None, uid: None, gid: None },
                text,
            );
        }
        write_answer(data.len(), appended)
    }

    /// Forgets lookups of an inode: nothing is kept of them, so nothing
    /// changes.
    pub fn forget(&mut self, id: u64, count: u64)
        requires
            old(self).inv(),
        ensures
            final(self).inv(),
            final(self).model() == old(self).model(),
    {
    }
}

} // verus!
