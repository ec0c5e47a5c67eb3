//! The namespace manager: one directory, the root, and a flat set of names
//! below it. It decides whether a call targets the root, bounds the length of
//! a name before any store is asked, and keeps names unique.

use crate::attr::InodeRow;
use crate::attr::MAX_NAME_LENGTH;
use crate::attr::ROOT_ID;
use crate::error::FsError;
use crate::error::StoreError;
use crate::store::AttrChange;
use crate::store::failed;
use crate::store::lemma_allocate_wf;
use crate::store::lemma_grows_on;
use crate::store::lemma_operations_grow;
use crate::store::RecordStore;
use crate::store::StoreModel;
use vstd::prelude::*;

verus! {

/// What a lookup in the store means to the namespace: a row is found, and
/// anything else, a failure of the store too, is `NotFound`.
pub open spec fn spec_found(found: Result<InodeRow, StoreError>) -> Result<InodeRow, FsError> {
    match found {
        Ok(row) => Ok(row),
        Err(_) => Err(FsError::NotFound),
    }
}

/// What an allocation in the store means to the namespace: a row is
/// created, a name in use is `AlreadyExists`, and anything else, a failure
/// of the store too, is `BadParent`.
pub open spec fn spec_allocated(allocated: Result<InodeRow, StoreError>) -> Result<
    InodeRow,
    FsError,
> {
    match allocated {
        Ok(row) => Ok(row),
        Err(StoreError::AlreadyExists) => Err(FsError::AlreadyExists),
        Err(_) => Err(FsError::BadParent),
    }
}

/// The outcome of resolving a name: `NameTooLong` for a name over the limit,
/// else `BadParent` for a parent that is not the root, else what the lookup
/// of the name means.
pub open spec fn spec_resolve(m: StoreModel, parent: u64, name: Seq<u8>) -> Result<
    InodeRow,
    FsError,
> {
    if name.len() > MAX_NAME_LENGTH {
        Err(FsError::NameTooLong)
    } else if parent != ROOT_ID {
        Err(FsError::BadParent)
    } else {
        spec_found(m.find_name(name))
    }
}

/// The outcome of creating a file, and the store after it: `NameTooLong` for
/// a name over the limit, else `BadParent` for a parent that is not the root,
/// else `AlreadyExists` for a name in use, all three with the store as it
/// was; else what the allocation means.
pub open spec fn spec_create_row(
    m: StoreModel,
    parent: u64,
    name: Seq<u8>,
    mode: u32,
    uid: u32,
    gid: u32,
) -> (StoreModel, Result<InodeRow, FsError>) {
    if name.len() > MAX_NAME_LENGTH {
        (m, Err(FsError::NameTooLong))
    } else if parent != ROOT_ID {
        (m, Err(FsError::BadParent))
    } else if m.has_name(name) {
        (m, Err(FsError::AlreadyExists))
    } else {
        (m.allocate(name, mode, uid, gid).0, spec_allocated(m.allocate(name, mode, uid, gid).1))
    }
}

/// Whether a name is within the limit.
pub fn name_fits(name: &[u8]) -> (fits: bool)
    ensures
        fits == (name@.len() <= MAX_NAME_LENGTH),
{
    name.len() <= MAX_NAME_LENGTH
}

/// What a lookup in the store means to the namespace.
pub fn found_row(found: Result<InodeRow, StoreError>) -> (answer: Result<InodeRow, FsError>)
    ensures
        answer == spec_found(found),
{
    match found {
        Ok(row) => Ok(row),
        Err(_) => Err(FsError::NotFound),
    }
}

/// What an allocation in the store means to the namespace.
pub fn allocated_row(allocated: Result<InodeRow, StoreError>) -> (answer: Result<
    InodeRow,
    FsError,
>)
    ensures
        answer == spec_allocated(allocated),
{
    match allocated {
        Ok(row) => Ok(row),
        Err(StoreError::AlreadyExists) => Err(FsError::AlreadyExists),
        Err(_) => Err(FsError::BadParent),
    }
}

/// Resolves a name below a parent. The store is left as it was. An engine
/// that is not reliable may fail the lookup, which then means `NotFound`.
pub fn resolve<S: RecordStore>(store: &mut S, parent: u64, name: &[u8]) -> (answer: Result<
    InodeRow,
    FsError,
>)
    requires
        old(store).inv(),
        old(store).model().wf(),
    ensures
        final(store).inv(),
        final(store).model() == old(store).model(),
        answer == spec_resolve(old(store).model(), parent, name@)
            || (!S::reliable() && name@.len() <= MAX_NAME_LENGTH && parent == ROOT_ID
            && answer == spec_found(failed::<InodeRow>())),
{
    if !name_fits(name) {
        return Err(FsError::NameTooLong);
    }
    if parent != ROOT_ID {
        return Err(FsError::BadParent);
    }
    found_row(store.lookup_by_name(name))
}

/// Creates a file below a parent. An engine that is not reliable may fail
/// the allocation, which then means `BadParent` and adds no file.
pub fn create<S: RecordStore>(
    store: &mut S,
    parent: u64,
    name: &[u8],
    mode: u32,
    uid: u32,
    gid: u32,
) -> (answer: Result<InodeRow, FsError>)
    requires
        old(store).inv(),
        old(store).model().wf(),
    ensures
        final(store).inv(),
        final(store).model().wf(),
        old(store).model().grows_into(final(store).model()),
        (final(store).model(), answer) == spec_create_row(
            old(store).model(),
            parent,
            name@,
            mode,
            uid,
            gid,
        ) || (!S::reliable() && name@.len() <= MAX_NAME_LENGTH && parent == ROOT_ID
            && answer == spec_allocated(failed::<InodeRow>())
            && old(store).model().after_failed_allocation(final(store).model())),
{
    proof {
        lemma_allocate_wf(store.model(), name@, mode, uid, gid);
        lemma_grows_on(store.model(), store.model(), store.model());
    }
    if !name_fits(name) {
        return Err(FsError::NameTooLong);
    }
    if parent != ROOT_ID {
        return Err(FsError::BadParent);
    }
    if store.lookup_by_name(name).is_ok() {
        return Err(FsError::AlreadyExists);
    }
    let ghost before = store.model();
    let allocated = store.allocate(name, mode, uid, gid);
    proof {
        if store.model().files == before.files {
            assert(store.model().wf()) by {
                assert(store.model().files =~= before.files);
            }
        }
        lemma_operations_grow(
            before,
            store.model(),
            0,
            name@,
            mode,
            uid,
            gid,
            AttrChange { mode: None, uid: None, gid: None },
            Seq::empty(),
        );
    }
    allocated_row(allocated)
}

} // verus!
