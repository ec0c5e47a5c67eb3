//! Attribute records, catalog rows and the mapping between them.
//!
//! A catalog row carries what a store persists about a file: identifier,
//! permission bits and ownership. An attribute record is what a filesystem
//! call answers with. The mapping from row to record is pure; the root
//! directory's record is a constant that never comes from a store.

use crate::error::StoreError;
use vstd::prelude::*;

verus! {

/// The identifier of the one directory.
pub const ROOT_ID: u64 = 1;

/// The longest name, in bytes, that the namespace accepts.
pub const MAX_NAME_LENGTH: usize = 255;

/// The block size reported for every file.
pub const BLOCK_SIZE: u32 = 512;

/// A point in time, as whole seconds and nanoseconds since the Unix epoch.
#[derive(Clone, Copy, Debug, PartialEq, Eq, Structural)]
pub struct Timestamp {
    pub secs: u64,
    pub nanos: u32,
}

/// The kind of a node of the filesystem.
#[derive(Clone, Copy, Debug, PartialEq, Eq, Structural)]
pub enum FileKind {
    Directory,
    RegularFile,
}

/// What a store persists about one file besides its name and content.
#[derive(Clone, Copy, Debug, PartialEq, Eq, Structural)]
pub struct InodeRow {
    pub ino: u64,
    pub mode: u32,
    pub uid: u32,
    pub gid: u32,
}

/// The attribute record that a filesystem call answers with.
#[derive(Clone, Copy, Debug, PartialEq, Eq, Structural)]
pub struct FileAttr {
    pub ino: u64,
    pub size: u64,
    pub blocks: u64,
    pub atime: Timestamp,
    pub mtime: Timestamp,
    pub ctime: Timestamp,
    pub crtime: Timestamp,
    pub kind: FileKind,
    pub perm: u16,
    pub nlink: u32,
    pub uid: u32,
    pub gid: u32,
    pub rdev: u32,
    pub flags: u32,
    pub blksize: u32,
}

/// A requested timestamp: a given instant, or the time of the call.
#[derive(Clone, Copy, Debug, PartialEq, Eq, Structural)]
pub enum TimeOrNow {
    SpecificTime(Timestamp),
    Now,
}

/// The Unix epoch.
pub open spec fn spec_epoch() -> Timestamp {
    Timestamp { secs: 0, nanos: 0 }
}

/// The fixed attribute record of the root directory.
pub open spec fn spec_root_attr() -> FileAttr {
    FileAttr {
        ino: ROOT_ID,
        size: 0,
        blocks: 0,
        atime: spec_epoch(),
        mtime: spec_epoch(),
        ctime: spec_epoch(),
        crtime: spec_epoch(),
        kind: FileKind::Directory,
        perm: 0o755,
        nlink: 2,
        uid: 501,
        gid: 20,
        rdev: 0,
        flags: 0,
        blksize: BLOCK_SIZE,
    }
}

/// The attribute record of a regular file, from its catalog row and the time
/// of the query: size zero, one link, the low sixteen bits of the mode as
/// permission bits, access, modification and change time at `now`, creation
/// time at the epoch.
pub open spec fn spec_new_attr(row: InodeRow, now: Timestamp) -> FileAttr {
    FileAttr {
        ino: row.ino,
        size: 0,
        blocks: 0,
        atime: now,
        mtime: now,
        ctime: now,
        crtime: spec_epoch(),
        kind: FileKind::RegularFile,
        perm: (row.mode % 0x1_0000) as u16,
        nlink: 1,
        uid: row.uid,
        gid: row.gid,
        rdev: 0,
        flags: 0,
        blksize: BLOCK_SIZE,
    }
}

/// The instant that a requested timestamp stands for at time `now`.
pub open spec fn spec_resolve_time(t: TimeOrNow, now: Timestamp) -> Timestamp {
    match t {
        TimeOrNow::SpecificTime(at) => at,
        TimeOrNow::Now => now,
    }
}

/// The Unix epoch.
pub fn epoch() -> (t: Timestamp)
    ensures
        t == spec_epoch(),
{
    Timestamp { secs: 0, nanos: 0 }
}

/// The fixed attribute record of the root directory.
pub fn root_attr() -> (attr: FileAttr)
    ensures
        attr == spec_root_attr(),
{
    FileAttr {
        ino: ROOT_ID,
        size: 0,
        blocks: 0,
        atime: epoch(),
        mtime: epoch(),
        ctime: epoch(),
        crtime: epoch(),
        kind: FileKind::Directory,
        perm: 0o755,
        nlink: 2,
        uid: 501,
        gid: 20,
        rdev: 0,
        flags: 0,
        blksize: BLOCK_SIZE,
    }
}

/// The low sixteen bits of a mode.
pub fn permission_bits(mode: u32) -> (perm: u16)
    ensures
        perm == mode % 0x1_0000,
{
    let low: u32 = mode & 0xFFFF;
    assert(low == mode % 0x1_0000 && low < 0x1_0000) by (bit_vector)
        requires
            low == mode & 0xFFFF,
    ;
    low as u16
}

/// Maps a catalog row to the attribute record of a regular file.
pub fn new_attr(row: InodeRow, now: Timestamp) -> (attr: FileAttr)
    ensures
        attr == spec_new_attr(row, now),
{
    FileAttr {
        ino: row.ino,
        size: 0,
        blocks: 0,
        atime: now,
        mtime: now,
        ctime: now,
        crtime: epoch(),
        kind: FileKind::RegularFile,
        perm: permission_bits(row.mode),
        nlink: 1,
        uid: row.uid,
        gid: row.gid,
        rdev: 0,
        flags: 0,
        blksize: BLOCK_SIZE,
    }
}

/// The instant that a requested timestamp stands for at time `now`.
pub fn resolve_time(t: TimeOrNow, now: Timestamp) -> (at: Timestamp)
    ensures
        at == spec_resolve_time(t, now),
{
    match t {
        TimeOrNow::SpecificTime(at) => at,
        TimeOrNow::Now => now,
    }
}

/// The unsigned value that a signed 32-bit column holds: the same 32 bits.
pub open spec fn spec_u32_of_column(x: i32) -> u32 {
    if x >= 0 {
        x as u32
    } else {
        (x + 0x1_0000_0000) as u32
    }
}

/// The signed 32-bit column that holds an unsigned value: the same 32 bits.
pub open spec fn spec_column_of_u32(x: u32) -> i32 {
    if x <= i32::MAX {
        x as i32
    } else {
        (x - 0x1_0000_0000) as i32
    }
}

/// The catalog row that four signed columns of a relational catalog hold, if
/// the identifier column can be a file's: it must lie above the root's.
pub open spec fn spec_row_of_columns(ino: i32, uid: i32, gid: i32, mode: i32) -> Option<InodeRow> {
    if ino > ROOT_ID {
        Some(
            InodeRow {
                ino: ino as u64,
                mode: spec_u32_of_column(mode),
                uid: spec_u32_of_column(uid),
                gid: spec_u32_of_column(gid),
            },
        )
    } else {
        None
    }
}

/// What a relational lookup answers, from the columns `(ino, uid, gid,
/// mode)` of the row that it found, if it found one.
pub open spec fn spec_found_columns(found: Option<(i32, i32, i32, i32)>) -> Result<
    InodeRow,
    StoreError,
> {
    match found {
        None => Err(StoreError::NotFound),
        Some((ino, uid, gid, mode)) => match spec_row_of_columns(ino, uid, gid, mode) {
            Some(row) => Ok(row),
            None => Err(StoreError::Failure),
        },
    }
}

/// The signed 32-bit column that holds an identifier, if it fits.
pub open spec fn spec_column_of_ino(ino: u64) -> Option<i32> {
    if ino <= i32::MAX {
        Some(ino as i32)
    } else {
        None
    }
}

/// Reads an unsigned value out of a signed 32-bit column.
pub fn u32_of_column(x: i32) -> (r: u32)
    ensures
        r == spec_u32_of_column(x),
{
    if x >= 0 {
        x as u32
    } else {
        let wide: i64 = x as i64 + 0x1_0000_0000i64;
        wide as u32
    }
}

/// Stores an unsigned value in a signed 32-bit column.
pub fn column_of_u32(x: u32) -> (r: i32)
    ensures
        r == spec_column_of_u32(x),
{
    if x <= 0x7FFF_FFFFu32 {
        x as i32
    } else {
        let wide: i64 = x as i64 - 0x1_0000_0000i64;
        wide as i32
    }
}

/// Decodes the four columns of a relational catalog row.
pub fn row_of_columns(ino: i32, uid: i32, gid: i32, mode: i32) -> (row: Option<InodeRow>)
    ensures
        row == spec_row_of_columns(ino, uid, gid, mode),
{
    if ino > 1 {
        Some(
            InodeRow {
                ino: ino as u64,
                mode: u32_of_column(mode),
                uid: u32_of_column(uid),
                gid: u32_of_column(gid),
            },
        )
    } else {
        None
    }
}

/// Decodes what a relational lookup found: no row is `NotFound`, a row whose
/// columns are no file's is a failure of the store, and any other row is
/// the answer.
pub fn found_columns(found: Option<(i32, i32, i32, i32)>) -> (answer: Result<InodeRow, StoreError>)
    ensures
        answer == spec_found_columns(found),
{
    match found {
        None => Err(StoreError::NotFound),
        Some((ino, uid, gid, mode)) => match row_of_columns(ino, uid, gid, mode) {
            Some(row) => Ok(row),
            None => Err(StoreError::Failure),
        },
    }
}

/// Encodes an identifier for a signed 32-bit column.
pub fn column_of_ino(ino: u64) -> (col: Option<i32>)
    ensures
        col == spec_column_of_ino(ino),
{
    if ino <= 0x7FFF_FFFFu64 {
        Some(ino as i32)
    } else {
        None
    }
}

/// Storing a value in a signed column and reading it back gives the value,
/// and the other way round.
pub proof fn law_columns_round_trip(x: u32, c: i32)
    ensures
        spec_u32_of_column(spec_column_of_u32(x)) == x,
        spec_column_of_u32(spec_u32_of_column(c)) == c,
{
}

/// A file's attribute record repeats the identifier and ownership of its row,
/// is a regular file, and reports size zero, whatever the time of the query.
pub proof fn law_file_attributes(row: InodeRow, now: Timestamp)
    ensures
        spec_new_attr(row, now).ino == row.ino,
        spec_new_attr(row, now).uid == row.uid,
        spec_new_attr(row, now).gid == row.gid,
        spec_new_attr(row, now).kind == FileKind::RegularFile,
        spec_new_attr(row, now).size == 0,
        spec_new_attr(row, now).nlink == 1,
        row.mode < 0x1_0000 ==> spec_new_attr(row, now).perm == row.mode,
{
}

} // verus!
