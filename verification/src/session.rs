//! The directory session: the snapshot of the catalog that one open of the
//! root directory captures, and the handle under which it is read.
//!
//! A session is closed or open. Opening captures a snapshot and issues a
//! handle that was never issued before; a read under that handle hands out
//! what is left of the snapshot and leaves it empty; releasing closes the
//! session whatever its state. Any other handle is refused.

use crate::attr::FileKind;
use crate::bytes::copy_bytes;
use crate::error::FsError;
use crate::store::DirEntry;
use crate::store::DirEntryModel;
use crate::store::entry_views;
use vstd::prelude::*;

verus! {

/// One entry of a directory listing as a read hands it out: the file's
/// identifier, the offset at which the listing goes on after it, the kind
/// and the name.
#[derive(Debug)]
pub struct DirRecord {
    pub ino: u64,
    pub next_offset: u64,
    pub kind: FileKind,
    pub name: Vec<u8>,
}

/// What a `DirRecord` holds.
pub struct DirRecordModel {
    pub ino: u64,
    pub next_offset: u64,
    pub kind: FileKind,
    pub name: Seq<u8>,
}

impl View for DirRecord {
    type V = DirRecordModel;

    open spec fn view(&self) -> DirRecordModel {
        DirRecordModel {
            ino: self.ino,
            next_offset: self.next_offset,
            kind: self.kind,
            name: self.name@,
        }
    }
}

/// What a vector of directory records holds.
pub open spec fn record_views(v: Seq<DirRecord>) -> Seq<DirRecordModel> {
    Seq::new(v.len(), |i: int| v[i]@)
}

/// The two states of a session.
pub enum SessionState {
    Closed,
    Open { handle: u64, remaining: Seq<DirEntryModel> },
}

/// What a session holds: its state, and the last handle that it has issued.
pub struct SessionModel {
    pub last_handle: u64,
    pub state: SessionState,
}

/// The place at which a read at `offset` starts in a snapshot of `len`
/// entries: the offset, or the end for an offset beyond it.
pub open spec fn start_of(len: nat, offset: u64) -> int {
    if offset < len {
        offset as int
    } else {
        len as int
    }
}

/// The records of the entries of a snapshot from `offset` on. Each record
/// names the offset after its own place in the snapshot; every entry is a
/// regular file.
pub open spec fn records_from(snapshot: Seq<DirEntryModel>, offset: u64) -> Seq<DirRecordModel> {
    let start = start_of(snapshot.len(), offset);
    Seq::new(
        (snapshot.len() - start) as nat,
        |k: int|
            DirRecordModel {
                ino: snapshot[start + k].ino,
                next_offset: (start + k + 1) as u64,
                kind: FileKind::RegularFile,
                name: snapshot[start + k].name,
            },
    )
}

impl SessionModel {
    /// A closed session that has issued no handle.
    pub open spec fn initial() -> SessionModel {
        SessionModel { last_handle: 0, state: SessionState::Closed }
    }

    /// An open session carries the handle issued last.
    pub open spec fn wf(self) -> bool {
        self.state matches SessionState::Open { handle, .. } ==> handle == self.last_handle
    }

    /// Whether `handle` is the handle of the open session.
    pub open spec fn is_open_with(self, handle: u64) -> bool {
        self.state matches SessionState::Open { handle: current, .. } && current == handle
    }

    /// Opening: the session takes the snapshot under the next handle, and a
    /// session that was open is discarded. When no handle is left the
    /// session stays as it was and no handle is issued.
    pub open spec fn open(self, snapshot: Seq<DirEntryModel>) -> (SessionModel, Option<u64>) {
        if self.last_handle >= u64::MAX {
            (self, None)
        } else {
            let handle = (self.last_handle + 1) as u64;
            (
                SessionModel {
                    last_handle: handle,
                    state: SessionState::Open { handle, remaining: snapshot },
                },
                Some(handle),
            )
        }
    }

    /// Reading: under the handle of the open session, the records of what is
    /// left of the snapshot from `offset` on, and nothing is left after it;
    /// under any other handle, or when closed, `InvalidHandle`.
    pub open spec fn read(self, handle: u64, offset: u64) -> (
        SessionModel,
        Result<Seq<DirRecordModel>, FsError>,
    ) {
        match self.state {
            SessionState::Open { handle: current, remaining } if current == handle => (
                SessionModel {
                    last_handle: self.last_handle,
                    state: SessionState::Open { handle: current, remaining: Seq::empty() },
                },
                Ok(records_from(remaining, offset)),
            ),
            _ => (self, Err(FsError::InvalidHandle)),
        }
    }

    /// Releasing: the session is closed and its snapshot discarded.
    pub open spec fn release(self) -> SessionModel {
        SessionModel { last_handle: self.last_handle, state: SessionState::Closed }
    }
}

/// The session of a dispatcher.
pub struct DirSession {
    last_handle: u64,
    opened: bool,
    remaining: Vec<DirEntry>,
}

impl View for DirSession {
    type V = SessionModel;

    closed spec fn view(&self) -> SessionModel {
        SessionModel {
            last_handle: self.last_handle,
            state: if self.opened {
                SessionState::Open {
                    handle: self.last_handle,
                    remaining: entry_views(self.remaining@),
                }
            } else {
                SessionState::Closed
            },
        }
    }
}

impl DirSession {
    /// A closed session that has issued no handle.
    pub fn new() -> (session: DirSession)
        ensures
            session@ == SessionModel::initial(),
            session@.wf(),
    {
        DirSession { last_handle: 0, opened: false, remaining: Vec::new() }
    }

    /// Every session is well-formed.
    pub proof fn lemma_wf(&self)
        ensures
            self@.wf(),
    {
    }

    /// Opens the session on a snapshot and answers the handle, or `None`
    /// when no handle is left.
    pub fn open(&mut self, snapshot: Vec<DirEntry>) -> (handle: Option<u64>)
        ensures
            (final(self)@, handle) == old(self)@.open(entry_views(snapshot@)),
            final(self)@.wf(),
    {
        if self.last_handle == u64::MAX {
            return None;
        }
        self.last_handle = self.last_handle + 1;
        self.opened = true;
        self.remaining = snapshot;
        Some(self.last_handle)
    }

    /// Hands out what is left of the snapshot from `offset` on.
    pub fn read(&mut self, handle: u64, offset: u64) -> (answer: Result<Vec<DirRecord>, FsError>)
        ensures
            final(self)@ == old(self)@.read(handle, offset).0,
            final(self)@.wf(),
            match answer {
                Ok(records) => old(self)@.read(handle, offset).1 == Ok::<
                    Seq<DirRecordModel>,
                    FsError,
                >(record_views(records@)),
                Err(e) => old(self)@.read(handle, offset).1 == Err::<Seq<DirRecordModel>, FsError>(
                    e,
                ),
            },
    {
        if !self.opened || handle != self.last_handle {
            return Err(FsError::InvalidHandle);
        }
        let ghost snapshot = entry_views(self.remaining@);
        let len: usize = self.remaining.len();
        let start: usize = if offset < len as u64 {
            offset as usize
        } else {
            len
        };
        let mut records: Vec<DirRecord> = Vec::new();
        let mut i: usize = start;
        while i < len
            invariant
                start <= i <= len,
                len == self.remaining@.len(),
                snapshot == entry_views(self.remaining@),
                start == start_of(snapshot.len(), offset),
                records@.len() == i - start,
                forall|k: int|
                    0 <= k < i - start ==> (#[trigger] records@[k])@ == records_from(
                        snapshot,
                        offset,
                    )[k],
            decreases len - i,
        {
            let entry = &self.remaining[i];
            let record = DirRecord {
                ino: entry.ino,
                next_offset: (i + 1) as u64,
                kind: FileKind::RegularFile,
                name: copy_bytes(entry.name.as_slice()),
            };
            assert(snapshot[i as int] == self.remaining@[i as int]@);
            records.push(record);
            i += 1;
        }
        assert(record_views(records@) =~= records_from(snapshot, offset));
        self.remaining = Vec::new();
        assert(entry_views(self.remaining@) =~= Seq::<DirEntryModel>::empty());
        Ok(records)
    }

    /// Closes the session and discards its snapshot.
    pub fn release(&mut self)
        ensures
            final(self)@ == old(self)@.release(),
            final(self)@.wf(),
    {
        self.opened = false;
        self.remaining = Vec::new();
    }
}

} // verus!
