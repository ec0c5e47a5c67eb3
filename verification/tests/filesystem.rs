use capturefs::attr::FileKind;
use capturefs::attr::TimeOrNow;
use capturefs::attr::Timestamp;
use capturefs::attr::root_attr;
use capturefs::attr::ROOT_ID;
use capturefs::bytes::bytes_equal;
use capturefs::bytes::copy_bytes;
use capturefs::dispatcher::Dispatcher;
use capturefs::dispatcher::SetAttr;
use capturefs::error::FsError;
use capturefs::error::StoreError;
use capturefs::mem_store::MemStore;
use capturefs::namespace::name_fits;
use capturefs::store::AttrChange;
use capturefs::store::RecordStore;

const T0: Timestamp = Timestamp { secs: 100, nanos: 0 };
const T1: Timestamp = Timestamp { secs: 200, nanos: 7 };

fn fresh() -> Dispatcher<MemStore> {
    Dispatcher::new(MemStore::new())
}

fn no_change() -> SetAttr {
    SetAttr { mode: None, uid: None, gid: None, size: None, atime: None, mtime: None }
}

fn strings(lines: &[&str]) -> Option<Vec<String>> {
    Some(lines.iter().map(|s| s.to_string()).collect())
}

#[test]
fn end_to_end() {
    let mut fs = fresh();
    let created = fs.create(ROOT_ID, b"log.txt", 0o644, 1000, 1000, T0).unwrap();
    assert!(created.ino > ROOT_ID);
    assert_eq!(created.perm, 0o644);
    assert_eq!(created.uid, 1000);
    assert_eq!(created.gid, 1000);
    assert_eq!(created.kind, FileKind::RegularFile);
    let id = created.ino;

    assert_eq!(fs.write(id, b"hello\nworld\n"), Ok(12));
    assert_eq!(fs.store.content(id), strings(&["hello", "world"]));

    let handle = fs.opendir(ROOT_ID).unwrap();
    let listing = fs.readdir(handle, 0).unwrap();
    assert_eq!(listing.len(), 1);
    assert_eq!(listing[0].ino, id);
    assert_eq!(listing[0].name, b"log.txt".to_vec());
    assert_eq!(listing[0].kind, FileKind::RegularFile);
    assert_eq!(listing[0].next_offset, 1);
    fs.releasedir(handle);

    let again = fs.getattr(id, T1).unwrap();
    assert_eq!(again.ino, id);
    assert_eq!(again.perm, 0o644);
    assert_eq!(again.uid, 1000);
    assert_eq!(again.gid, 1000);
}

#[test]
fn create_then_lookup_gives_the_same_identifier() {
    let mut fs = fresh();
    let created = fs.create(ROOT_ID, b"a.log", 0o600, 1, 2, T0).unwrap();
    let found = fs.lookup(ROOT_ID, b"a.log", T1).unwrap();
    assert_eq!(found.ino, created.ino);
    assert_eq!(found.perm, 0o600);
    assert_eq!(found.uid, 1);
    assert_eq!(found.gid, 2);
    assert_eq!(found.atime, T1);
    assert_eq!(created.atime, T0);
}

#[test]
fn first_identifier_follows_the_root() {
    let mut fs = fresh();
    assert_eq!(fs.store.last_id(), ROOT_ID);
    let created = fs.create(ROOT_ID, b"first", 0o644, 0, 0, T0).unwrap();
    assert_eq!(created.ino, 2);
    assert_eq!(fs.store.last_id(), 2);
    assert_eq!(fs.store.len(), 1);
}

#[test]
fn identifiers_increase() {
    let mut fs = fresh();
    let a = fs.create(ROOT_ID, b"a", 0o644, 0, 0, T0).unwrap();
    let b = fs.create(ROOT_ID, b"b", 0o644, 0, 0, T0).unwrap();
    fs.write(a.ino, b"x\n").unwrap();
    let c = fs.create(ROOT_ID, b"c", 0o644, 0, 0, T0).unwrap();
    assert!(ROOT_ID < a.ino && a.ino < b.ino && b.ino < c.ino);
    assert_eq!((a.ino, b.ino, c.ino), (2, 3, 4));
}

#[test]
fn create_existing_name_is_refused() {
    let mut fs = fresh();
    let first = fs.create(ROOT_ID, b"dup", 0o644, 0, 0, T0).unwrap();
    let counter = fs.store.last_id();
    assert_eq!(fs.create(ROOT_ID, b"dup", 0o600, 5, 5, T1), Err(FsError::AlreadyExists));
    assert_eq!(fs.store.last_id(), counter);
    assert_eq!(fs.store.len(), 1);
    let next = fs.create(ROOT_ID, b"other", 0o644, 0, 0, T0).unwrap();
    assert_eq!(next.ino, first.ino + 1);
    assert_eq!(fs.lookup(ROOT_ID, b"dup", T1).unwrap().perm, 0o644);
}

#[test]
fn create_below_another_parent_is_refused() {
    let mut fs = fresh();
    assert_eq!(fs.create(7, b"x", 0o644, 0, 0, T0), Err(FsError::BadParent));
    assert_eq!(fs.create(0, b"x", 0o644, 0, 0, T0), Err(FsError::BadParent));
    assert_eq!(fs.store.len(), 0);
    assert_eq!(fs.store.last_id(), ROOT_ID);
}

#[test]
fn name_length_limit() {
    let mut fs = fresh();
    let longest = vec![b'n'; 255];
    let too_long = vec![b'n'; 256];
    assert!(name_fits(&longest));
    assert!(!name_fits(&too_long));
    assert!(name_fits(b""));
    let created = fs.create(ROOT_ID, &longest, 0o644, 0, 0, T0).unwrap();
    assert_eq!(fs.lookup(ROOT_ID, &longest, T0).unwrap().ino, created.ino);
    assert_eq!(fs.create(ROOT_ID, &too_long, 0o644, 0, 0, T0), Err(FsError::NameTooLong));
    assert_eq!(fs.lookup(ROOT_ID, &too_long, T0), Err(FsError::NameTooLong));
    assert_eq!(fs.store.len(), 1);
}

#[test]
fn name_length_is_checked_before_the_parent() {
    let mut fs = fresh();
    let too_long = vec![b'n'; 300];
    assert_eq!(fs.lookup(9, &too_long, T0), Err(FsError::NameTooLong));
    assert_eq!(fs.create(9, &too_long, 0o644, 0, 0, T0), Err(FsError::NameTooLong));
}

#[test]
fn lookup_failures() {
    let mut fs = fresh();
    fs.create(ROOT_ID, b"here", 0o644, 0, 0, T0).unwrap();
    assert_eq!(fs.lookup(ROOT_ID, b"absent", T0), Err(FsError::NotFound));
    assert_eq!(fs.lookup(2, b"here", T0), Err(FsError::BadParent));
    assert_eq!(fs.lookup(ROOT_ID, b"her", T0), Err(FsError::NotFound));
    assert_eq!(fs.lookup(ROOT_ID, b"here!", T0), Err(FsError::NotFound));
}

#[test]
fn getattr_of_the_root_is_fixed() {
    let mut fs = fresh();
    assert_eq!(fs.getattr(ROOT_ID, T0), Ok(root_attr()));
    fs.create(ROOT_ID, b"f", 0o644, 0, 0, T0).unwrap();
    fs.write(2, b"line\n").unwrap();
    assert_eq!(fs.getattr(ROOT_ID, T1), Ok(root_attr()));
    assert_eq!(root_attr().kind, FileKind::Directory);
}

#[test]
fn getattr_of_an_unknown_identifier() {
    let mut fs = fresh();
    assert_eq!(fs.getattr(2, T0), Err(FsError::NotFound));
    assert_eq!(fs.getattr(0, T0), Err(FsError::NotFound));
}

#[test]
fn getattr_reports_the_time_of_the_query_and_no_size() {
    let mut fs = fresh();
    let id = fs.create(ROOT_ID, b"f", 0o644, 3, 4, T0).unwrap().ino;
    fs.write(id, b"some content\n").unwrap();
    let attr = fs.getattr(id, T1).unwrap();
    assert_eq!(attr.size, 0);
    assert_eq!(attr.blocks, 0);
    assert_eq!(attr.nlink, 1);
    assert_eq!(attr.atime, T1);
    assert_eq!(attr.mtime, T1);
    assert_eq!(attr.ctime, T1);
    assert_eq!(attr.crtime, Timestamp { secs: 0, nanos: 0 });
    assert_eq!(attr.blksize, 512);
}

#[test]
fn writes_append_in_call_order() {
    let mut fs = fresh();
    let id = fs.create(ROOT_ID, b"f", 0o644, 0, 0, T0).unwrap().ino;
    assert_eq!(fs.store.content(id), strings(&[]));
    assert_eq!(fs.write(id, b"a\nb\n"), Ok(4));
    assert_eq!(fs.write(id, b"c\n"), Ok(2));
    assert_eq!(fs.store.content(id), strings(&["a", "b", "c"]));
}

#[test]
fn write_accepts_the_whole_payload() {
    let mut fs = fresh();
    let id = fs.create(ROOT_ID, b"f", 0o644, 0, 0, T0).unwrap().ino;
    assert_eq!(fs.write(id, b""), Ok(0));
    assert_eq!(fs.write(id, b"\n\n\n"), Ok(3));
    assert_eq!(fs.store.content(id), strings(&[]));
    assert_eq!(fs.write(id, b"no line break"), Ok(13));
    assert_eq!(fs.store.content(id), strings(&["no line break"]));
}

#[test]
fn writes_to_different_files_do_not_mix() {
    let mut fs = fresh();
    let a = fs.create(ROOT_ID, b"a", 0o644, 0, 0, T0).unwrap().ino;
    let b = fs.create(ROOT_ID, b"b", 0o644, 0, 0, T0).unwrap().ino;
    fs.write(a, b"1\n2\n").unwrap();
    fs.write(b, b"x\n").unwrap();
    fs.write(a, b"3\n").unwrap();
    assert_eq!(fs.store.content(a), strings(&["1", "2", "3"]));
    assert_eq!(fs.store.content(b), strings(&["x"]));
}

#[test]
fn write_to_an_unknown_identifier_is_refused() {
    let mut fs = fresh();
    assert_eq!(fs.write(5, b"x\n"), Err(FsError::Io));
    assert_eq!(fs.write(ROOT_ID, b"x\n"), Err(FsError::Io));
    assert_eq!(fs.store.content(5), None);
}

#[test]
fn write_of_invalid_text_is_refused() {
    let mut fs = fresh();
    let id = fs.create(ROOT_ID, b"f", 0o644, 0, 0, T0).unwrap().ino;
    fs.write(id, b"good\n").unwrap();
    assert_eq!(fs.write(id, b"fine\n\xff\n"), Err(FsError::Io));
    assert_eq!(fs.store.content(id), strings(&["good"]));
}

#[test]
fn setattr_with_a_size_is_refused() {
    let mut fs = fresh();
    let id = fs.create(ROOT_ID, b"f", 0o644, 1, 1, T0).unwrap().ino;
    fs.write(id, b"kept\n").unwrap();
    let truncate = SetAttr { size: Some(0), ..no_change() };
    assert_eq!(fs.setattr(id, truncate, T1), Err(FsError::OperationNotSupported));
    assert_eq!(fs.store.content(id), strings(&["kept"]));
    let grow = SetAttr { size: Some(1 << 40), mtime: Some(TimeOrNow::Now), ..no_change() };
    assert_eq!(fs.setattr(id, grow, T1), Err(FsError::OperationNotSupported));
    assert_eq!(fs.store.content(id), strings(&["kept"]));
}

#[test]
fn setattr_with_a_size_still_stores_the_other_fields() {
    let mut fs = fresh();
    let id = fs.create(ROOT_ID, b"f", 0o644, 1, 1, T0).unwrap().ino;
    fs.write(id, b"kept\n").unwrap();
    let request = SetAttr { mode: Some(0o600), size: Some(0), ..no_change() };
    assert_eq!(fs.setattr(id, request, T1), Err(FsError::OperationNotSupported));
    assert_eq!(fs.getattr(id, T1).unwrap().perm, 0o600);
    assert_eq!(fs.store.content(id), strings(&["kept"]));
}

#[test]
fn setattr_of_an_unknown_identifier() {
    let mut fs = fresh();
    assert_eq!(fs.setattr(9, no_change(), T0), Err(FsError::NotFound));
    let truncate = SetAttr { size: Some(0), ..no_change() };
    assert_eq!(fs.setattr(9, truncate, T0), Err(FsError::NotFound));
    assert_eq!(fs.setattr(ROOT_ID, truncate, T0), Err(FsError::NotFound));
}

#[test]
fn setattr_updates_mode_and_ownership() {
    let mut fs = fresh();
    let id = fs.create(ROOT_ID, b"f", 0o644, 1, 2, T0).unwrap().ino;
    let request = SetAttr { mode: Some(0o400), uid: Some(10), ..no_change() };
    let updated = fs.setattr(id, request, T1).unwrap();
    assert_eq!(updated.ino, id);
    assert_eq!(updated.perm, 0o400);
    assert_eq!(updated.uid, 10);
    assert_eq!(updated.gid, 2);
    assert_eq!(updated.atime, T1);
    let found = fs.getattr(id, T0).unwrap();
    assert_eq!((found.perm, found.uid, found.gid), (0o400, 10, 2));
    let request = SetAttr { gid: Some(77), ..no_change() };
    let updated = fs.setattr(id, request, T1).unwrap();
    assert_eq!((updated.perm, updated.uid, updated.gid), (0o400, 10, 77));
    assert_eq!(fs.lookup(ROOT_ID, b"f", T0).unwrap().gid, 77);
}

#[test]
fn setattr_answers_the_requested_times() {
    let mut fs = fresh();
    let id = fs.create(ROOT_ID, b"f", 0o644, 1, 2, T0).unwrap().ino;
    let at = Timestamp { secs: 5, nanos: 6 };
    let request = SetAttr {
        atime: Some(TimeOrNow::SpecificTime(at)),
        mtime: Some(TimeOrNow::Now),
        ..no_change()
    };
    let updated = fs.setattr(id, request, T1).unwrap();
    assert_eq!(updated.atime, at);
    assert_eq!(updated.mtime, T1);
    assert_eq!(updated.ctime, T1);
    assert_eq!(updated.perm, 0o644);
    let request = SetAttr { mtime: Some(TimeOrNow::SpecificTime(at)), ..no_change() };
    let updated = fs.setattr(id, request, T1).unwrap();
    assert_eq!(updated.atime, T1);
    assert_eq!(updated.mtime, at);
}

#[test]
fn setattr_without_a_change_answers_the_attributes() {
    let mut fs = fresh();
    let id = fs.create(ROOT_ID, b"f", 0o644, 1, 2, T0).unwrap().ino;
    assert_eq!(fs.setattr(id, no_change(), T1), fs.getattr(id, T1));
}

#[test]
fn opendir_of_anything_but_the_root_is_refused() {
    let mut fs = fresh();
    let id = fs.create(ROOT_ID, b"f", 0o644, 0, 0, T0).unwrap().ino;
    assert_eq!(fs.opendir(id), Err(FsError::NotFound));
    assert_eq!(fs.opendir(0), Err(FsError::NotFound));
}

#[test]
fn readdir_lists_the_catalog_in_order() {
    let mut fs = fresh();
    for name in [&b"zeta"[..], b"alpha", b"mid"] {
        fs.create(ROOT_ID, name, 0o644, 0, 0, T0).unwrap();
    }
    let handle = fs.opendir(ROOT_ID).unwrap();
    let listing = fs.readdir(handle, 0).unwrap();
    let seen: Vec<(u64, u64, Vec<u8>)> =
        listing.iter().map(|r| (r.ino, r.next_offset, r.name.clone())).collect();
    assert_eq!(
        seen,
        vec![
            (2, 1, b"zeta".to_vec()),
            (3, 2, b"alpha".to_vec()),
            (4, 3, b"mid".to_vec()),
        ]
    );
}

#[test]
fn readdir_of_an_empty_directory() {
    let mut fs = fresh();
    let handle = fs.opendir(ROOT_ID).unwrap();
    assert_eq!(fs.readdir(handle, 0).unwrap().len(), 0);
}

#[test]
fn readdir_from_an_offset() {
    let mut fs = fresh();
    for name in [&b"a"[..], b"b", b"c"] {
        fs.create(ROOT_ID, name, 0o644, 0, 0, T0).unwrap();
    }
    let handle = fs.opendir(ROOT_ID).unwrap();
    let listing = fs.readdir(handle, 1).unwrap();
    let seen: Vec<(u64, u64, Vec<u8>)> =
        listing.iter().map(|r| (r.ino, r.next_offset, r.name.clone())).collect();
    assert_eq!(seen, vec![(3, 2, b"b".to_vec()), (4, 3, b"c".to_vec())]);

    let handle = fs.opendir(ROOT_ID).unwrap();
    assert_eq!(fs.readdir(handle, 3).unwrap().len(), 0);
    let handle = fs.opendir(ROOT_ID).unwrap();
    assert_eq!(fs.readdir(handle, u64::MAX).unwrap().len(), 0);
}

#[test]
fn second_read_of_a_session_is_empty() {
    let mut fs = fresh();
    fs.create(ROOT_ID, b"a", 0o644, 0, 0, T0).unwrap();
    let handle = fs.opendir(ROOT_ID).unwrap();
    assert_eq!(fs.readdir(handle, 0).unwrap().len(), 1);
    assert_eq!(fs.readdir(handle, 0).unwrap().len(), 0);
    assert_eq!(fs.readdir(handle, 1).unwrap().len(), 0);
}

#[test]
fn readdir_shows_the_catalog_as_it_was_opened() {
    let mut fs = fresh();
    let before = fs.create(ROOT_ID, b"before", 0o644, 0, 0, T0).unwrap().ino;
    let handle = fs.opendir(ROOT_ID).unwrap();
    fs.create(ROOT_ID, b"after", 0o644, 0, 0, T0).unwrap();
    let listing = fs.readdir(handle, 0).unwrap();
    assert_eq!(listing.len(), 1);
    assert_eq!(listing[0].ino, before);
    assert_eq!(listing[0].name, b"before".to_vec());
    fs.releasedir(handle);
    let handle = fs.opendir(ROOT_ID).unwrap();
    assert_eq!(fs.readdir(handle, 0).unwrap().len(), 2);
}

#[test]
fn readdir_without_an_open_session_is_refused() {
    let mut fs = fresh();
    assert_eq!(fs.readdir(0, 0).unwrap_err(), FsError::InvalidHandle);
    assert_eq!(fs.readdir(1, 0).unwrap_err(), FsError::InvalidHandle);
    assert_eq!(fs.readdir(42, 0).unwrap_err(), FsError::InvalidHandle);
}

#[test]
fn readdir_after_release_is_refused() {
    let mut fs = fresh();
    fs.create(ROOT_ID, b"a", 0o644, 0, 0, T0).unwrap();
    let handle = fs.opendir(ROOT_ID).unwrap();
    fs.releasedir(handle);
    assert_eq!(fs.readdir(handle, 0).unwrap_err(), FsError::InvalidHandle);
    fs.releasedir(handle);
    assert_eq!(fs.readdir(handle, 0).unwrap_err(), FsError::InvalidHandle);
}

#[test]
fn readdir_with_a_stale_handle_is_refused() {
    let mut fs = fresh();
    fs.create(ROOT_ID, b"a", 0o644, 0, 0, T0).unwrap();
    let stale = fs.opendir(ROOT_ID).unwrap();
    let current = fs.opendir(ROOT_ID).unwrap();
    assert_ne!(stale, current);
    assert_eq!(fs.readdir(stale, 0).unwrap_err(), FsError::InvalidHandle);
    assert_eq!(fs.readdir(current, 0).unwrap().len(), 1);
    assert_eq!(fs.readdir(current + 1, 0).unwrap_err(), FsError::InvalidHandle);
}

#[test]
fn release_closes_whatever_the_handle() {
    let mut fs = fresh();
    let handle = fs.opendir(ROOT_ID).unwrap();
    fs.releasedir(handle + 10);
    assert_eq!(fs.readdir(handle, 0).unwrap_err(), FsError::InvalidHandle);
}

#[test]
fn handles_are_never_issued_twice() {
    let mut fs = fresh();
    let a = fs.opendir(ROOT_ID).unwrap();
    fs.releasedir(a);
    let b = fs.opendir(ROOT_ID).unwrap();
    let c = fs.opendir(ROOT_ID).unwrap();
    assert_eq!((a, b, c), (1, 2, 3));
}

#[test]
fn forget_changes_nothing() {
    let mut fs = fresh();
    let id = fs.create(ROOT_ID, b"a", 0o644, 0, 0, T0).unwrap().ino;
    fs.write(id, b"x\n").unwrap();
    fs.forget(id, 3);
    fs.forget(99, 1);
    assert_eq!(fs.getattr(id, T0).unwrap().ino, id);
    assert_eq!(fs.store.content(id), strings(&["x"]));
    assert_eq!(fs.store.len(), 1);
}

#[test]
fn store_lookups() {
    let mut store = MemStore::new();
    assert_eq!(store.lookup_by_name(b"a"), Err(StoreError::NotFound));
    let row = store.allocate(b"a", 0o644, 1, 2).unwrap();
    assert_eq!((row.ino, row.mode, row.uid, row.gid), (2, 0o644, 1, 2));
    assert_eq!(store.lookup_by_name(b"a"), Ok(row));
    assert_eq!(store.lookup_by_id(2), Ok(row));
    assert_eq!(store.lookup_by_id(3), Err(StoreError::NotFound));
    assert_eq!(store.lookup_by_id(ROOT_ID), Err(StoreError::NotFound));
    assert_eq!(store.allocate(b"a", 0, 0, 0), Err(StoreError::AlreadyExists));
    assert_eq!(store.last_id(), 2);
}

#[test]
fn store_updates_and_appends() {
    let mut store = MemStore::new();
    let row = store.allocate(b"a", 0o644, 1, 2).unwrap();
    let change = AttrChange { mode: None, uid: Some(9), gid: None };
    assert_eq!(store.update_attributes(row.ino, change), Ok(()));
    assert_eq!(store.lookup_by_id(row.ino).unwrap().uid, 9);
    assert_eq!(store.lookup_by_id(row.ino).unwrap().mode, 0o644);
    assert_eq!(store.update_attributes(77, change), Err(StoreError::NotFound));
    assert_eq!(store.append_content(77, vec!["x".to_string()]), Err(StoreError::NotFound));
    assert_eq!(store.append_content(row.ino, vec!["x".to_string(), "y".to_string()]), Ok(()));
    assert_eq!(store.append_content(row.ino, vec![]), Ok(()));
    assert_eq!(store.append_content(row.ino, vec!["z".to_string()]), Ok(()));
    assert_eq!(store.content(row.ino), strings(&["x", "y", "z"]));
    assert_eq!(store.content(77), None);
}

#[test]
fn store_enumerates_by_identifier() {
    let mut store = MemStore::new();
    assert_eq!(store.enumerate().unwrap().len(), 0);
    store.allocate(b"b", 0, 0, 0).unwrap();
    store.allocate(b"a", 0, 0, 0).unwrap();
    let listing = store.enumerate().unwrap();
    let seen: Vec<(u64, Vec<u8>)> = listing.iter().map(|e| (e.ino, e.name.clone())).collect();
    assert_eq!(seen, vec![(2, b"b".to_vec()), (3, b"a".to_vec())]);
}

#[test]
fn byte_strings() {
    assert!(bytes_equal(b"", b""));
    assert!(bytes_equal(b"abc", b"abc"));
    assert!(!bytes_equal(b"abc", b"abd"));
    assert!(!bytes_equal(b"abc", b"ab"));
    assert!(!bytes_equal(b"", b"a"));
    assert_eq!(copy_bytes(b"log.txt"), b"log.txt".to_vec());
    assert_eq!(copy_bytes(b""), Vec::<u8>::new());
}

#[test]
fn store_with_a_reserved_first_identifier() {
    assert!(MemStore::starting_after(0).is_none());
    let mut store = MemStore::starting_after(9).unwrap();
    assert_eq!(store.last_id(), 9);
    assert_eq!(store.allocate(b"a", 0o644, 0, 0).unwrap().ino, 10);
    assert_eq!(store.allocate(b"b", 0o644, 0, 0).unwrap().ino, 11);
    let same_as_new = MemStore::starting_after(ROOT_ID).unwrap();
    assert_eq!(same_as_new.last_id(), MemStore::new().last_id());
}

#[test]
fn store_without_an_identifier_left() {
    let mut store = MemStore::starting_after(u64::MAX - 1).unwrap();
    assert_eq!(store.allocate(b"last", 0, 0, 0).unwrap().ino, u64::MAX);
    assert_eq!(store.allocate(b"none", 0, 0, 0), Err(StoreError::Failure));
    assert_eq!(store.allocate(b"last", 0, 0, 0), Err(StoreError::AlreadyExists));
    assert_eq!(store.len(), 1);
    assert_eq!(store.last_id(), u64::MAX);
}

#[test]
fn create_without_an_identifier_left_is_refused() {
    let mut fs = Dispatcher::new(MemStore::starting_after(u64::MAX).unwrap());
    assert_eq!(fs.create(ROOT_ID, b"f", 0o644, 0, 0, T0), Err(FsError::BadParent));
    assert_eq!(fs.lookup(ROOT_ID, b"f", T0), Err(FsError::NotFound));
    assert_eq!(fs.store.len(), 0);
}
