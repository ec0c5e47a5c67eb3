//! What holds of the filesystem calls taken together, stated over the spec
//! functions that the calls' contracts use.

use crate::attr::FileAttr;
use crate::attr::MAX_NAME_LENGTH;
use crate::attr::ROOT_ID;
use crate::attr::spec_root_attr;
use crate::attr::Timestamp;
use crate::dispatcher::FsModel;
use crate::dispatcher::SetAttr;
use crate::dispatcher::spec_create;
use crate::dispatcher::spec_getattr;
use crate::dispatcher::spec_lookup;
use crate::dispatcher::spec_opendir;
use crate::dispatcher::spec_readdir;
use crate::dispatcher::spec_releasedir;
use crate::dispatcher::spec_setattr;
use crate::dispatcher::spec_write;
use crate::error::FsError;
use crate::records::law_text_records_of_text;
use crate::records::text_records;
use crate::session::DirRecordModel;
use crate::session::records_from;
use crate::session::SessionModel;
use crate::session::start_of;
use crate::store::lemma_allocate_wf;
use crate::store::lemma_append_wf;
use crate::store::lemma_grown_store_keeps;
use crate::store::lemma_grows_on;
use crate::store::lemma_id_index;
use crate::store::lemma_ids_spread;
use crate::store::lemma_operations_grow;
use crate::store::lemma_update_wf;
use crate::store::StoreModel;
use vstd::prelude::*;
use vstd::utf8::valid_utf8;

verus! {

/// Every call that changes the store keeps its catalog consistent and never
/// lowers the last identifier given out.
pub proof fn law_store_stays_consistent(
    m: StoreModel,
    id: u64,
    parent: u64,
    name: Seq<u8>,
    mode: u32,
    uid: u32,
    gid: u32,
    request: SetAttr,
    data: Seq<u8>,
    now: Timestamp,
)
    requires
        m.wf(),
    ensures
        spec_create(m, parent, name, mode, uid, gid, now).0.wf(),
        spec_create(m, parent, name, mode, uid, gid, now).0.last_id >= m.last_id,
        spec_setattr(m, id, request, now).0.wf(),
        spec_setattr(m, id, request, now).0.last_id == m.last_id,
        spec_write(m, id, data).0.wf(),
        spec_write(m, id, data).0.last_id == m.last_id,
{
    lemma_allocate_wf(m, name, mode, uid, gid);
    lemma_update_wf(m, id, request.change());
    if text_records(data) is Some {
        lemma_append_wf(m, id, text_records(data).unwrap());
    }
}

/// The store is append-only: whatever a call does, every file stays at its
/// place in the catalog with its identifier and its name, and its content
/// after the call begins with its content before. No record is changed,
/// dropped or moved, and no file goes away.
pub proof fn law_nothing_is_lost(
    m: StoreModel,
    id: u64,
    parent: u64,
    name: Seq<u8>,
    mode: u32,
    uid: u32,
    gid: u32,
    request: SetAttr,
    data: Seq<u8>,
    now: Timestamp,
)
    requires
        m.wf(),
    ensures
        m.grows_into(spec_create(m, parent, name, mode, uid, gid, now).0),
        m.grows_into(spec_setattr(m, id, request, now).0),
        m.grows_into(spec_write(m, id, data).0),
{
    let lines = if text_records(data) is Some {
        text_records(data).unwrap()
    } else {
        Seq::empty()
    };
    lemma_operations_grow(m, m, id, name, mode, uid, gid, request.change(), lines);
    lemma_grows_on(m, m, m);
}

/// What a store held is found in every later store: under each identifier
/// content that begins with the content it had, under each name the
/// identifier it had.
pub proof fn law_later_stores_keep(m: StoreModel, later: StoreModel, id: u64, name: Seq<u8>)
    requires
        m.wf(),
        later.wf(),
        m.grows_into(later),
    ensures
        m.content(id) matches Some(lines) ==> later.content(id) matches Some(more)
            && lines.is_prefix_of(more),
        m.find_name(name) matches Ok(row) ==> later.find_name(name) matches Ok(found) && found.ino
            == row.ino,
{
    lemma_grown_store_keeps(m, later, id, name);
}

/// The catalog lists the files in the order of their identifiers, each
/// identifier and each name once.
pub proof fn law_catalog_is_ordered(m: StoreModel, i: int, j: int)
    requires
        m.wf(),
        0 <= i < j < m.catalog().len(),
    ensures
        m.catalog().len() == m.files.len(),
        m.catalog()[i].ino < m.catalog()[j].ino,
        m.catalog()[i].name != m.catalog()[j].name,
        ROOT_ID < m.catalog()[i].ino,
{
    assert(m.files[i].row.ino < m.files[j].row.ino);
    assert(m.files[i].name != m.files[j].name);
}

/// Creation succeeds exactly for a name within the limit that is not in use,
/// below the root, while an identifier is left.
pub proof fn law_create_succeeds(
    m: StoreModel,
    parent: u64,
    name: Seq<u8>,
    mode: u32,
    uid: u32,
    gid: u32,
    now: Timestamp,
)
    requires
        m.wf(),
    ensures
        spec_create(m, parent, name, mode, uid, gid, now).1 is Ok <==> (name.len()
            <= MAX_NAME_LENGTH && parent == ROOT_ID && !m.has_name(name) && m.last_id < u64::MAX),
{
}

/// A file that was created is found under its name, with the identifier that
/// the creation answered.
pub proof fn law_create_then_lookup(
    m: StoreModel,
    name: Seq<u8>,
    mode: u32,
    uid: u32,
    gid: u32,
    created_at: Timestamp,
    looked_up_at: Timestamp,
)
    requires
        m.wf(),
    ensures
        spec_create(m, ROOT_ID, name, mode, uid, gid, created_at).1 matches Ok(created) ==> (
        spec_lookup(
            spec_create(m, ROOT_ID, name, mode, uid, gid, created_at).0,
            ROOT_ID,
            name,
            looked_up_at,
        ) matches Ok(found) && found.ino == created.ino && found.uid == uid && found.gid == gid
            && found.perm == created.perm),
{
    lemma_allocate_wf(m, name, mode, uid, gid);
}

/// Creating a file under a name that is in use is refused with
/// `AlreadyExists`, and the store stays as it was: no identifier is used up.
pub proof fn law_create_existing_name(
    m: StoreModel,
    name: Seq<u8>,
    mode: u32,
    uid: u32,
    gid: u32,
    now: Timestamp,
)
    requires
        m.wf(),
        m.has_name(name),
        name.len() <= MAX_NAME_LENGTH,
    ensures
        spec_create(m, ROOT_ID, name, mode, uid, gid, now) == (
            m,
            Err::<FileAttr, FsError>(FsError::AlreadyExists),
        ),
{
}

/// The identifier of a new file lies above the root's and above every
/// identifier given out before; so the identifiers of two creations, with
/// whatever calls between them, increase.
pub proof fn law_identifiers_increase(
    m: StoreModel,
    first_name: Seq<u8>,
    later: StoreModel,
    second_name: Seq<u8>,
    mode: u32,
    uid: u32,
    gid: u32,
    now: Timestamp,
)
    requires
        m.wf(),
        later.wf(),
        later.last_id >= spec_create(m, ROOT_ID, first_name, mode, uid, gid, now).0.last_id,
    ensures
        spec_create(m, ROOT_ID, first_name, mode, uid, gid, now).1 matches Ok(first) ==> {
            &&& first.ino > ROOT_ID
            &&& first.ino > m.last_id
            &&& !m.has_id(first.ino)
            &&& spec_create(later, ROOT_ID, second_name, mode, uid, gid, now).1 matches Ok(second)
                ==> second.ino > first.ino
        },
{
    lemma_allocate_wf(m, first_name, mode, uid, gid);
    lemma_allocate_wf(later, second_name, mode, uid, gid);
}

/// A write of text to a file puts the payload's records at the end of the
/// file's content, accepts the whole payload, and leaves every other file's
/// content and every row as it was.
pub proof fn law_write_appends(m: StoreModel, id: u64, data: Seq<u8>)
    requires
        m.wf(),
        m.has_id(id),
        text_records(data) is Some,
    ensures
        spec_write(m, id, data).1 == Ok::<usize, FsError>(data.len() as usize),
        spec_write(m, id, data).0.content(id) == Some(
            m.content(id).unwrap() + text_records(data).unwrap(),
        ),
        forall|other: u64|
            other != id ==> #[trigger] spec_write(m, id, data).0.content(other) == m.content(other),
        spec_write(m, id, data).0.catalog() == m.catalog(),
{
    lemma_append_wf(m, id, text_records(data).unwrap());
}

/// Two writes to a file leave their records in the order of the calls.
pub proof fn law_writes_in_call_order(m: StoreModel, id: u64, first: Seq<u8>, second: Seq<u8>)
    requires
        m.wf(),
        m.has_id(id),
        text_records(first) is Some,
        text_records(second) is Some,
    ensures
        spec_write(spec_write(m, id, first).0, id, second).0.content(id) == Some(
            m.content(id).unwrap() + text_records(first).unwrap() + text_records(second).unwrap(),
        ),
{
    let middle = spec_write(m, id, first).0;
    lemma_append_wf(m, id, text_records(first).unwrap());
    lemma_append_wf(middle, id, text_records(second).unwrap());
    assert(middle.has_id(id)) by {
        let k = m.id_index(id);
        assert(middle.files[k].row.ino == id);
    }
}

/// A write changes no attribute and no name: every lookup and every
/// attribute query is answered after it as before.
pub proof fn law_write_keeps_attributes(
    m: StoreModel,
    id: u64,
    data: Seq<u8>,
    any: u64,
    parent: u64,
    name: Seq<u8>,
    now: Timestamp,
)
    requires
        m.wf(),
    ensures
        spec_getattr(spec_write(m, id, data).0, any, now) == spec_getattr(m, any, now),
        spec_lookup(spec_write(m, id, data).0, parent, name, now) == spec_lookup(
            m,
            parent,
            name,
            now,
        ),
{
    if text_records(data) is Some {
        lemma_append_wf(m, id, text_records(data).unwrap());
    }
}

/// A name and the identifier that it maps to lead to the same attributes.
pub proof fn law_lookup_agrees_with_getattr(m: StoreModel, name: Seq<u8>, now: Timestamp)
    requires
        m.wf(),
    ensures
        spec_lookup(m, ROOT_ID, name, now) matches Ok(attr) ==> spec_getattr(m, attr.ino, now)
            == Ok::<FileAttr, FsError>(attr),
{
    if m.has_name(name) && name.len() <= MAX_NAME_LENGTH {
        let k = m.name_index(name);
        lemma_id_index(m, m.files[k].row.ino, k);
    }
}

/// A write is refused exactly when its payload is not well-formed UTF-8 or
/// its identifier is no file's; it is then refused with `Io` and leaves the
/// store as it was.
pub proof fn law_refused_write_changes_nothing(m: StoreModel, id: u64, data: Seq<u8>)
    requires
        m.wf(),
    ensures
        spec_write(m, id, data).1 is Err <==> (!valid_utf8(data) || !m.has_id(id)),
        spec_write(m, id, data).1 is Err ==> spec_write(m, id, data) == (
            m,
            Err::<usize, FsError>(FsError::Io),
        ),
{
    law_text_records_of_text(data);
}

/// An attribute update that names a size is refused with
/// `OperationNotSupported` whenever the identifier is a file's, and no
/// attribute update, refused or not, changes the content of any file.
pub proof fn law_setattr_size_refused(m: StoreModel, id: u64, request: SetAttr, now: Timestamp)
    requires
        m.wf(),
    ensures
        m.has_id(id) && request.size is Some ==> spec_setattr(m, id, request, now).1 == Err::<
            FileAttr,
            FsError,
        >(FsError::OperationNotSupported),
        !m.has_id(id) ==> spec_setattr(m, id, request, now) == (
            m,
            Err::<FileAttr, FsError>(FsError::NotFound),
        ),
        forall|any: u64| #[trigger] spec_setattr(m, id, request, now).0.content(any) == m.content(any),
        spec_setattr(m, id, request, now).0.catalog() == m.catalog(),
{
    let next = spec_setattr(m, id, request, now).0;
    lemma_update_wf(m, id, request.change());
    assert(next.same_content_as(m));
    assert(next.catalog() =~= m.catalog());
    assert forall|any: u64| #[trigger] next.content(any) == m.content(any) by {
        if m.has_id(any) {
            let k = m.id_index(any);
            assert(next.files[k].row.ino == any);
            lemma_id_index(next, any, k);
        } else if next.has_id(any) {
            let k = next.id_index(any);
            assert(m.files[k].row.ino == any);
        }
    }
}

/// An attribute update that names no size stores the requested permission
/// bits and ownership, and a later attribute query answers them.
pub proof fn law_setattr_then_getattr(
    m: StoreModel,
    id: u64,
    request: SetAttr,
    now: Timestamp,
    later: Timestamp,
)
    requires
        m.wf(),
        m.has_id(id),
        request.size is None,
    ensures
        spec_setattr(m, id, request, now).1 matches Ok(updated) && spec_getattr(
            spec_setattr(m, id, request, now).0,
            id,
            later,
        ) matches Ok(found) && found.ino == id && found.perm == updated.perm && found.uid
            == updated.uid && found.gid == updated.gid,
{
    lemma_update_wf(m, id, request.change());
    let k = m.id_index(id);
    assert(m.files[k].row.ino > ROOT_ID);
}

/// A directory that was opened lists the catalog as it was when it was
/// opened, one record for every file, in the order of the identifiers, each
/// with the offset of the record after it; and it lists that whatever became
/// of the store in between.
pub proof fn law_readdir_lists_snapshot(fs: FsModel, later: StoreModel)
    requires
        fs.store.wf(),
    ensures
        spec_opendir(fs, ROOT_ID).1 matches Ok(handle) ==> (spec_readdir(
            FsModel { store: later, session: spec_opendir(fs, ROOT_ID).0.session },
            handle,
            0,
        ).1 matches Ok(records) && records.len() == fs.store.files.len() && forall|i: int|
            0 <= i < records.len() ==> (#[trigger] records[i]).ino == fs.store.files[i].row.ino
                && records[i].name == fs.store.files[i].name && records[i].next_offset == i + 1),
        spec_opendir(fs, ROOT_ID).1 is Ok <==> fs.session.last_handle < u64::MAX,
        spec_opendir(fs, ROOT_ID).0.store == fs.store,
{
    if let Ok(handle) = spec_opendir(fs, ROOT_ID).1 {
        let session = spec_opendir(fs, ROOT_ID).0.session;
        let snapshot = fs.store.catalog();
        assert(session.is_open_with(handle));
        assert(start_of(snapshot.len(), 0) == 0);
        let records = records_from(snapshot, 0);
        assert(session.read(handle, 0).1 == Ok::<Seq<DirRecordModel>, FsError>(records));
        assert(records.len() == fs.store.files.len());
        assert forall|i: int| 0 <= i < records.len() implies (#[trigger] records[i]).ino
            == fs.store.files[i].row.ino && records[i].name == fs.store.files[i].name
            && records[i].next_offset == i + 1 by {
            assert(snapshot[0 + i].ino == fs.store.files[i].row.ino);
            lemma_ids_spread(fs.store, i);
        }
    }
}

/// A file that was created before the directory was opened is listed, under
/// its name and with its identifier.
pub proof fn law_created_file_is_listed(
    fs: FsModel,
    name: Seq<u8>,
    mode: u32,
    uid: u32,
    gid: u32,
    now: Timestamp,
)
    requires
        fs.store.wf(),
    ensures
        ({
            let (store, created) = spec_create(fs.store, ROOT_ID, name, mode, uid, gid, now);
            let (opened, handle) = spec_opendir(FsModel { store, session: fs.session }, ROOT_ID);
            created is Ok && handle is Ok ==> (spec_readdir(opened, handle.unwrap(), 0).1
                matches Ok(records) && records.len() == fs.store.files.len() + 1
                && records.last().ino == created.unwrap().ino && records.last().name == name)
        }),
{
    lemma_allocate_wf(fs.store, name, mode, uid, gid);
}

/// Once the listing has been read, a further read in the same session
/// answers nothing, and is no error.
pub proof fn law_second_read_is_empty(session: SessionModel, handle: u64, first: u64, second: u64)
    requires
        session.is_open_with(handle),
    ensures
        session.read(handle, first).0.read(handle, second).1 == Ok::<
            Seq<DirRecordModel>,
            FsError,
        >(Seq::empty()),
{
    let after = session.read(handle, first).0;
    assert(after.read(handle, second).1.unwrap() =~= Seq::<DirRecordModel>::empty());
}

/// A read is refused with `InvalidHandle` exactly when the handle is not the
/// one of the open session; the session then stays as it was.
pub proof fn law_readdir_refuses_other_handles(session: SessionModel, handle: u64, offset: u64)
    ensures
        session.read(handle, offset).1 is Err <==> !session.is_open_with(handle),
        !session.is_open_with(handle) ==> session.read(handle, offset) == (
            session,
            Err::<Seq<DirRecordModel>, FsError>(FsError::InvalidHandle),
        ),
{
}

/// After a release every handle is refused with `InvalidHandle`, and a
/// second release changes nothing.
pub proof fn law_released_handle_is_refused(fs: FsModel, handle: u64, offset: u64)
    ensures
        spec_readdir(spec_releasedir(fs), handle, offset).1 == Err::<
            Seq<DirRecordModel>,
            FsError,
        >(FsError::InvalidHandle),
        spec_releasedir(spec_releasedir(fs)) == spec_releasedir(fs),
{
}

/// A handle goes stale when the directory is opened again: the handle of an
/// earlier open is refused with `InvalidHandle` after any later open.
pub proof fn law_stale_handle_is_refused(
    fs: FsModel,
    later: FsModel,
    offset: u64,
)
    requires
        fs.session.wf(),
        later.session.wf(),
        later.session.last_handle >= spec_opendir(fs, ROOT_ID).0.session.last_handle,
    ensures
        (spec_opendir(fs, ROOT_ID).1 is Ok && spec_opendir(later, ROOT_ID).1 is Ok)
            ==> spec_readdir(
            spec_opendir(later, ROOT_ID).0,
            spec_opendir(fs, ROOT_ID).1.unwrap(),
            offset,
        ).1 == Err::<Seq<DirRecordModel>, FsError>(FsError::InvalidHandle),
{
}

/// An attribute query on the root answers the fixed directory attributes,
/// whatever the store holds and whatever the time.
pub proof fn law_root_attributes_are_fixed(m: StoreModel, now: Timestamp)
    ensures
        spec_getattr(m, ROOT_ID, now) == Ok::<FileAttr, FsError>(spec_root_attr()),
{
}

} // verus!
