//! The file record installed in place of the host engine's native
//! in-memory file handle, together with the storage entry points that the
//! engine calls on it.
//!
//! A [`HookedFile`] owns one [`MemFile`] and tracks three pieces of policy
//! state: how many shared snapshots of the buffer are outstanding (while
//! any is, every mutation fails read-only, emulating copy-on-write without
//! copying), the size limit negotiated through file control (a write may
//! never grow the accounted capacity beyond it), and the count of
//! outstanding memory-map leases (while any is, the buffer must not be
//! relocated, so growth past the accounted capacity fails).
//!
//! Every entry point is specified against a spec-level transition function
//! over [`FileView`], so that laws relating several entry points can be
//! stated and proved once about the transitions.

use vstd::prelude::*;

use crate::codes::FileError;
use crate::codes::IOCAP_ATOMIC;
use crate::codes::IOCAP_POWERSAFE_OVERWRITE;
use crate::codes::IOCAP_SAFE_APPEND;
use crate::codes::IOCAP_SEQUENTIAL;
use crate::codes::LOCK_SHARED;
use crate::mem_file::seq_zeros;
use crate::mem_file::MemFile;
use crate::mem_file::MemFileView;
use crate::text::push_dec_u64;
use crate::text::push_hex_u64;
use crate::text::spec_dec;
use crate::text::spec_hex;

verus! {

/// The mathematical value of a [`HookedFile`]: the buffer it owns, the
/// negotiated size limit, and the two outstanding-use counters.
pub struct FileView {
    pub file: MemFileView,
    pub size_max: nat,
    pub mapped: nat,
    pub shared: nat,
}

impl FileView {
    /// Invariant: the buffer is well formed, both the accounted capacity
    /// and the size limit fit the engine's signed 64-bit file sizes, and
    /// the two counters fit their representations.
    pub open spec fn wf(self) -> bool {
        &&& self.file.wf()
        &&& self.file.cap <= i64::MAX
        &&& self.size_max <= i64::MAX
        &&& self.mapped <= u16::MAX
        &&& self.shared <= usize::MAX
    }

    /// Mutation is permitted only while no shared snapshot is outstanding
    /// and the buffer's mode allows writing.
    pub open spec fn can_modify(self) -> bool {
        self.shared == 0 && self.file.writable()
    }
}

/// The bytes of `b` after writing `d` at offset `ofst`: bytes past the
/// write survive only when the write stays inside the old length, and a
/// write past the old length zero-fills the gap.
pub open spec fn spec_write_bytes(b: Seq<u8>, ofst: int, d: Seq<u8>) -> Seq<u8> {
    let head = if ofst <= b.len() {
        b.take(ofst)
    } else {
        b + seq_zeros((ofst - b.len()) as nat)
    };
    let tail = if ofst + d.len() < b.len() {
        b.skip(ofst + d.len())
    } else {
        Seq::<u8>::empty()
    };
    head + d + tail
}

/// The transition of the write entry point: fails read-only unless the
/// buffer is exclusively held and writable; growth past the accounted
/// capacity fails full while a map lease is outstanding or when the
/// resulting capacity would exceed the size limit; otherwise the payload is
/// stored, the gap (if any) zero-filled, and length and capacity updated.
/// A failing write leaves the record unchanged.
pub open spec fn spec_write(v: FileView, ofst: int, d: Seq<u8>) -> (FileView, Result<
    (),
    FileError,
>) {
    let end = ofst + d.len();
    if !v.can_modify() {
        (v, Err(FileError::ReadOnly))
    } else if end > v.file.cap && v.mapped > 0 {
        (v, Err(FileError::Full))
    } else if end > v.file.cap && end > v.size_max {
        (v, Err(FileError::Full))
    } else {
        let new_cap = if end > v.file.cap {
            end as nat
        } else {
            v.file.cap
        };
        (
            FileView {
                file: MemFileView {
                    bytes: spec_write_bytes(v.file.bytes, ofst, d),
                    cap: new_cap,
                    mode: v.file.mode,
                },
                ..v
            },
            Ok(()),
        )
    }
}

/// The transition of the truncate entry point: only shrinks; requesting
/// growth fails full (in rollback journaling truncate never extends), and
/// non-exclusive or immutable storage fails read-only.
pub open spec fn spec_truncate(v: FileView, size: int) -> (FileView, Result<(), FileError>) {
    if !v.can_modify() {
        (v, Err(FileError::ReadOnly))
    } else if size > v.file.bytes.len() {
        (v, Err(FileError::Full))
    } else {
        (
            FileView {
                file: MemFileView { bytes: v.file.bytes.take(size), ..v.file },
                ..v
            },
            Ok(()),
        )
    }
}

/// The result of the read entry point: the requested range when it lies
/// inside the file, and otherwise the available prefix zero-filled to the
/// requested amount together with the short-read code.
pub open spec fn spec_read(v: FileView, ofst: int, amt: int) -> (Seq<u8>, Result<
    (),
    FileError,
>) {
    let n = v.file.bytes.len() as int;
    if ofst + amt <= n {
        (v.file.bytes.subrange(ofst, ofst + amt), Ok(()))
    } else if ofst < n {
        (
            v.file.bytes.subrange(ofst, n) + seq_zeros((ofst + amt - n) as nat),
            Err(FileError::ShortRead),
        )
    } else {
        (seq_zeros(amt as nat), Err(FileError::ShortRead))
    }
}

/// The result of the lock (and unlock) entry point: any lock stronger than
/// shared is rejected on immutable storage; everything else succeeds, since
/// no interprocess locking is meaningful for a private in-memory file.
pub open spec fn spec_lock(v: FileView, level: i32) -> Result<(), FileError> {
    if level > LOCK_SHARED && !v.file.writable() {
        Err(FileError::ReadOnly)
    } else {
        Ok(())
    }
}

/// The size-limit negotiation of the file-control entry point: a negative
/// request restores the previous cap, a request below the current length
/// clamps to the current length, and any other request is adopted.  Returns
/// the new record state and the adopted value, which is also reported back
/// to the caller.
pub open spec fn spec_set_size_limit(v: FileView, limit: int) -> (FileView, int) {
    let n = v.file.bytes.len() as int;
    let adopted = if limit < n {
        if limit < 0 {
            v.size_max as int
        } else {
            n
        }
    } else {
        limit
    };
    (FileView { size_max: adopted as nat, ..v }, adopted)
}

/// The transition of the map entry point: a range inside the current length
/// takes one more lease and is mapped; anything else is not mapped and the
/// caller falls back to plain reads.  A saturated lease counter also
/// refuses the map, so the count stays sound.
pub open spec fn spec_fetch(v: FileView, ofst: int, amt: int) -> (FileView, bool) {
    if ofst + amt <= v.file.bytes.len() && v.mapped < u16::MAX {
        (FileView { mapped: (v.mapped + 1) as nat, ..v }, true)
    } else {
        (v, false)
    }
}

/// The transition of the unmap entry point: releases one lease; an unmap
/// without an outstanding lease is abnormal and reports the generic I/O
/// error.
pub open spec fn spec_unfetch(v: FileView) -> (FileView, Result<(), FileError>) {
    if v.mapped > 0 {
        (FileView { mapped: (v.mapped - 1) as nat, ..v }, Ok(()))
    } else {
        (v, Err(FileError::Io))
    }
}

/// The descriptive name reported by the file-control name query: the
/// storage address and current length rendered into a fixed shape.
pub open spec fn spec_vfs_name(ptr: int, len: int) -> Seq<char> {
    "rust_memdb(0x"@ + spec_hex(ptr) + ","@ + spec_dec(len) + ")"@
}

/// A file-control operation, already decoded from the engine's op code.
/// The name query carries the address of the backing storage, which only
/// the boundary glue knows.
#[derive(Clone, Copy, Debug)]
pub enum FileControlOp {
    VfsName { ptr: u64 },
    SizeLimit { limit: i64 },
    Other,
}

/// The reply of the file-control entry point.
#[derive(Debug)]
pub enum FileControlReply {
    Name(String),
    SizeLimit(i64),
    NotFound,
}

/// The file record installed at a schema slot in place of the engine's
/// native in-memory file: one buffer, the snapshot count, the size limit,
/// and the map-lease count.
pub struct HookedFile {
    data: MemFile,
    size_max: u64,
    memory_mapped: u16,
    shared_refs: usize,
}

impl View for HookedFile {
    type V = FileView;

    closed spec fn view(&self) -> FileView {
        FileView {
            file: self.data@,
            size_max: self.size_max as nat,
            mapped: self.memory_mapped as nat,
            shared: self.shared_refs as nat,
        }
    }
}

impl HookedFile {
    /// Invariant carried by every record.
    pub open spec fn wf(&self) -> bool {
        self@.wf()
    }

    /// Installs a fresh record around `data` with the given size limit, no
    /// snapshot outstanding and no lease outstanding.
    pub fn new(data: MemFile, size_max: u64) -> (h: HookedFile)
        requires
            data.wf(),
            data@.cap <= i64::MAX,
            size_max <= i64::MAX,
        ensures
            h.wf(),
            h@ == (FileView {
                file: data@,
                size_max: size_max as nat,
                mapped: 0,
                shared: 0,
            }),
    {
        HookedFile { data, size_max, memory_mapped: 0, shared_refs: 0 }
    }

    /// The buffer this record holds.
    pub fn as_ref(&self) -> (f: &MemFile)
        ensures
            f@ == self@.file,
    {
        &self.data
    }

    /// Mutable access to the buffer, granted only while no shared snapshot
    /// is outstanding and the mode permits writing; the policy every write
    /// and truncate entry point enforces.
    pub fn get_mut(&mut self) -> (r: Option<&mut MemFile>)
        ensures
            old(self)@.can_modify() ==> r.is_some() && (*r.unwrap())@ == old(self)@.file
                && final(self)@ == (FileView { file: (*final(r.unwrap()))@, ..old(self)@ }),
            !old(self)@.can_modify() ==> r.is_none() && final(self)@ == old(self)@,
    {
        if self.shared_refs == 0 && self.data.writable() {
            Some(&mut self.data)
        } else {
            None
        }
    }

    /// Releases this record's reference to the buffer and destructs the
    /// record, handing the buffer back (for borrowed modes the boundary
    /// glue returns it to the external caller, final length and capacity
    /// included).
    pub fn close(self) -> (f: MemFile)
        ensures
            f@ == self@.file,
    {
        let HookedFile { data, .. } = self;
        data
    }

    /// Takes one more shared snapshot of the buffer; while it is
    /// outstanding every mutation fails read-only.  A saturated counter is
    /// abnormal and reports the generic I/O error.
    pub fn add_snapshot(&mut self) -> (r: Result<(), FileError>)
        requires
            old(self).wf(),
        ensures
            final(self).wf(),
            old(self)@.shared < usize::MAX ==> r == Ok::<(), FileError>(()) && final(self)@
                == (FileView { shared: old(self)@.shared + 1, ..old(self)@ }),
            old(self)@.shared == usize::MAX ==> r == Err::<(), FileError>(FileError::Io)
                && final(self)@ == old(self)@,
    {
        if self.shared_refs == usize::MAX {
            Err(FileError::Io)
        } else {
            self.shared_refs = self.shared_refs + 1;
            Ok(())
        }
    }

    /// Releases one shared snapshot; once none is outstanding the exclusive
    /// owner regains write access.  Releasing without an outstanding
    /// snapshot is abnormal and reports the generic I/O error.
    pub fn release_snapshot(&mut self) -> (r: Result<(), FileError>)
        requires
            old(self).wf(),
        ensures
            final(self).wf(),
            old(self)@.shared > 0 ==> r == Ok::<(), FileError>(()) && final(self)@ == (FileView {
                shared: (old(self)@.shared - 1) as nat,
                ..old(self)@
            }),
            old(self)@.shared == 0 ==> r == Err::<(), FileError>(FileError::Io) && final(self)@
                == old(self)@,
    {
        if self.shared_refs == 0 {
            Err(FileError::Io)
        } else {
            self.shared_refs = self.shared_refs - 1;
            Ok(())
        }
    }

    /// How many shared snapshots are outstanding.
    pub fn snapshot_refs(&self) -> (n: usize)
        ensures
            n == self@.shared,
    {
        self.shared_refs
    }

    /// Reads `amt` bytes at `ofst`.  A range inside the file returns its
    /// bytes; a range past the end returns the available prefix zero-filled
    /// to `amt` together with the short-read code, which the engine treats
    /// as non-fatal.
    pub fn read(&self, ofst: usize, amt: usize) -> (r: (Vec<u8>, Result<(), FileError>))
        requires
            self.wf(),
            ofst + amt <= usize::MAX,
        ensures
            (r.0@, r.1) == spec_read(self@, ofst as int, amt as int),
    {
        let n = self.data.len();
        if amt <= n && ofst <= n - amt {
            let s = vstd::slice::slice_subrange(self.data.as_slice(), ofst, ofst + amt);
            let out = crate::mem_file::copy_bytes(s);
            proof {
                assert(out@ =~= spec_read(self@, ofst as int, amt as int).0);
            }
            (out, Ok(()))
        } else {
            let mut out = if ofst < n {
                let s = vstd::slice::slice_subrange(self.data.as_slice(), ofst, n);
                crate::mem_file::copy_bytes(s)
            } else {
                Vec::new()
            };
            out.resize(amt, 0u8);
            proof {
                let bytes = self@.file.bytes;
                let avail: int = if ofst < bytes.len() {
                    bytes.len() - ofst
                } else {
                    0
                };
                let expected = spec_read(self@, ofst as int, amt as int).0;
                assert forall|j: int| 0 <= j < amt implies out@[j] == expected[j] by {
                    if j >= avail {
                        assert(vstd::pervasive::cloned::<u8>(0u8, out@[j]));
                        assert(out@[j] == 0u8);
                    }
                }
                assert(out@ =~= expected);
            }
            (out, Err(FileError::ShortRead))
        }
    }

    /// Writes `data` at `ofst`, growing the file as [`spec_write`] says:
    /// fails read-only while a snapshot is outstanding or on an immutable
    /// buffer, fails full when growth is forbidden, and otherwise
    /// zero-fills any gap, stores the payload, and succeeds.  A failing
    /// write leaves the record unchanged.
    pub fn write(&mut self, ofst: usize, data: &[u8]) -> (r: Result<(), FileError>)
        requires
            old(self).wf(),
            ofst + data@.len() <= usize::MAX,
        ensures
            final(self).wf(),
            (final(self)@, r) == spec_write(old(self)@, ofst as int, data@),
    {
        if self.shared_refs > 0 || !self.data.writable() {
            return Err(FileError::ReadOnly);
        }
        let end = ofst + data.len();
        if end > self.data.len() {
            if end > self.data.cap() {
                if self.memory_mapped > 0 {
                    return Err(FileError::Full);
                }
                if end as u64 > self.size_max {
                    return Err(FileError::Full);
                }
                let len = self.data.len();
                let reserved = self.data.reserve_additional(end - len);
                proof {
                    assert(reserved);
                }
            }
            self.data.set_len(end);
        }
        self.data.write_at(ofst, data);
        proof {
            assert(self@.file.bytes =~= spec_write_bytes(old(self)@.file.bytes, ofst as int, data@));
            assert(self@ == spec_write(old(self)@, ofst as int, data@).0);
        }
        Ok(())
    }

    /// Truncates the file to `size`: only shrinks (growth fails full, as
    /// the engine's rollback journaling expects), and fails read-only on
    /// non-exclusive or immutable storage.  A failing truncate leaves the
    /// record unchanged.
    pub fn truncate(&mut self, size: usize) -> (r: Result<(), FileError>)
        requires
            old(self).wf(),
        ensures
            final(self).wf(),
            (final(self)@, r) == spec_truncate(old(self)@, size as int),
    {
        if self.shared_refs > 0 || !self.data.writable() {
            return Err(FileError::ReadOnly);
        }
        if size > self.data.len() {
            return Err(FileError::Full);
        }
        self.data.set_len(size);
        Ok(())
    }

    /// Synchronizes the file to durable storage: a no-op, since in-memory
    /// storage has no durability boundary.
    pub fn sync(&self) -> (r: Result<(), FileError>)
        ensures
            r == Ok::<(), FileError>(()),
    {
        Ok(())
    }

    /// The current file size in bytes.
    pub fn file_size(&self) -> (n: usize)
        ensures
            n == self@.file.bytes.len(),
    {
        self.data.len()
    }

    /// Takes a lock of the given level: any level stronger than shared is
    /// rejected on immutable storage with the read-only code; otherwise the
    /// request succeeds.
    pub fn lock(&self, level: i32) -> (r: Result<(), FileError>)
        ensures
            r == spec_lock(self@, level),
    {
        if level > LOCK_SHARED && !self.data.writable() {
            Err(FileError::ReadOnly)
        } else {
            Ok(())
        }
    }

    /// Releases a lock of the given level; same policy as [`Self::lock`].
    pub fn unlock(&self, level: i32) -> (r: Result<(), FileError>)
        ensures
            r == spec_lock(self@, level),
    {
        self.lock(level)
    }

    /// The file-control entry point.  The name query reports a descriptive
    /// string embedding the storage address and current length; the
    /// size-limit query negotiates as [`spec_set_size_limit`] says; any
    /// other operation is not found.
    pub fn file_control(&mut self, op: FileControlOp) -> (reply: FileControlReply)
        requires
            old(self).wf(),
        ensures
            final(self).wf(),
            match op {
                FileControlOp::VfsName { ptr } => final(self)@ == old(self)@ && (reply matches
                    FileControlReply::Name(s) && s@ == spec_vfs_name(
                    ptr as int,
                    old(self)@.file.bytes.len() as int,
                )),
                FileControlOp::SizeLimit { limit } => {
                    final(self)@ == spec_set_size_limit(old(self)@, limit as int).0 && (reply
                        matches FileControlReply::SizeLimit(l) && l == spec_set_size_limit(
                        old(self)@,
                        limit as int,
                    ).1)
                },
                FileControlOp::Other => final(self)@ == old(self)@ && reply matches
                    FileControlReply::NotFound,
            },
    {
        match op {
            FileControlOp::VfsName { ptr } => {
                let mut name = String::new();
                name.push_str("rust_memdb(0x");
                push_hex_u64(&mut name, ptr);
                name.push_str(",");
                push_dec_u64(&mut name, self.data.len() as u64);
                name.push_str(")");
                proof {
                    assert(name@ =~= spec_vfs_name(
                        ptr as int,
                        old(self)@.file.bytes.len() as int,
                    ));
                }
                FileControlReply::Name(name)
            }
            FileControlOp::SizeLimit { limit } => {
                let n = self.data.len();
                let adopted: i64 = if limit >= 0 && (limit as u64) >= (n as u64) {
                    limit
                } else if limit < 0 {
                    self.size_max as i64
                } else {
                    n as i64
                };
                self.size_max = adopted as u64;
                FileControlReply::SizeLimit(adopted)
            }
            FileControlOp::Other => FileControlReply::NotFound,
        }
    }

    /// The device characteristics of in-memory storage: atomic writes,
    /// power-safe overwrite, safe append and sequential access.  The four
    /// flags occupy disjoint bits, so their sum is their union.
    pub fn device_characteristics(&self) -> (c: i32)
        ensures
            c == IOCAP_ATOMIC + IOCAP_SAFE_APPEND + IOCAP_SEQUENTIAL + IOCAP_POWERSAFE_OVERWRITE,
    {
        IOCAP_ATOMIC + IOCAP_SAFE_APPEND + IOCAP_SEQUENTIAL + IOCAP_POWERSAFE_OVERWRITE
    }

    /// The map entry point: reports whether the requested range may be
    /// served by a direct pointer into the backing storage, and if so takes
    /// one lease.  The boundary glue hands out the pointer itself; a range
    /// past the end is not mapped and the engine falls back to plain reads.
    pub fn fetch(&mut self, ofst: usize, amt: usize) -> (mapped: bool)
        requires
            old(self).wf(),
            ofst + amt <= usize::MAX,
        ensures
            final(self).wf(),
            (final(self)@, mapped) == spec_fetch(old(self)@, ofst as int, amt as int),
    {
        let n = self.data.len();
        if amt <= n && ofst <= n - amt && self.memory_mapped < u16::MAX {
            self.memory_mapped = self.memory_mapped + 1;
            true
        } else {
            false
        }
    }

    /// The unmap entry point: releases one memory-map lease.
    pub fn unfetch(&mut self) -> (r: Result<(), FileError>)
        requires
            old(self).wf(),
        ensures
            final(self).wf(),
            (final(self)@, r) == spec_unfetch(old(self)@),
    {
        if self.memory_mapped == 0 {
            Err(FileError::Io)
        } else {
            self.memory_mapped = self.memory_mapped - 1;
            Ok(())
        }
    }
}

/// Law: while a shared snapshot of the buffer is outstanding, every write
/// fails with the read-only code and leaves the record unchanged.
pub proof fn lemma_snapshot_write_exclusion(v: FileView, ofst: int, d: Seq<u8>)
    requires
        v.shared > 0,
    ensures
        spec_write(v, ofst, d) == (v, Err::<(), FileError>(FileError::ReadOnly)),
{
}

/// Law: once no snapshot is outstanding, a write to a growable buffer
/// succeeds whenever it needs no capacity growth, or growth is permitted
/// because no map lease is outstanding and the resulting capacity stays
/// within the size limit.
pub proof fn lemma_exclusive_write_succeeds(v: FileView, ofst: int, d: Seq<u8>)
    requires
        v.shared == 0,
        v.file.writable(),
        0 <= ofst,
        ofst + d.len() <= v.file.cap || (v.mapped == 0 && ofst + d.len() <= v.size_max),
    ensures
        spec_write(v, ofst, d).1 == Ok::<(), FileError>(()),
{
}

/// Law (growth zero-fill): a successful write at offset `ofst` at or past
/// the current length `len` grows the file to exactly `ofst + d.len()`
/// bytes, keeps bytes `[0, len)` unchanged, zero-fills bytes `[len, ofst)`,
/// and stores the payload at `[ofst, ofst + d.len())`.
pub proof fn lemma_growth_zero_fill(v: FileView, ofst: int, d: Seq<u8>)
    requires
        v.wf(),
        v.file.bytes.len() <= ofst,
        spec_write(v, ofst, d).1 == Ok::<(), FileError>(()),
    ensures
        spec_write(v, ofst, d).0.file.bytes.len() == ofst + d.len(),
        forall|j: int|
            0 <= j < v.file.bytes.len() ==> spec_write(v, ofst, d).0.file.bytes[j]
                == v.file.bytes[j],
        forall|j: int|
            v.file.bytes.len() <= j < ofst ==> spec_write(v, ofst, d).0.file.bytes[j] == 0u8,
        forall|j: int|
            0 <= j < d.len() ==> spec_write(v, ofst, d).0.file.bytes[ofst + j] == d[j],
{
}

/// Law (truncate monotonicity): on an exclusively held growable buffer,
/// truncating to a size greater than the current length fails full and
/// changes nothing, while truncating to the current length or smaller
/// succeeds and a subsequent size query reports the new length exactly.
pub proof fn lemma_truncate_monotonicity(v: FileView, size: int)
    requires
        v.wf(),
        v.can_modify(),
        0 <= size,
    ensures
        size > v.file.bytes.len() ==> spec_truncate(v, size) == (
            v,
            Err::<(), FileError>(FileError::Full),
        ),
        size <= v.file.bytes.len() ==> spec_truncate(v, size).1 == Ok::<(), FileError>(())
            && spec_truncate(v, size).0.file.bytes == v.file.bytes.take(size) && spec_truncate(
            v,
            size,
        ).0.file.bytes.len() == size,
{
}

/// Law (read past end): reading `amt` bytes at offset `ofst` with
/// `ofst + amt` past the current length `len` reports a short read and
/// returns a buffer of exactly `amt` bytes whose first `max(0, len - ofst)`
/// bytes equal the stored data and whose remaining bytes are zero.
pub proof fn lemma_read_past_end(v: FileView, ofst: int, amt: int)
    requires
        v.wf(),
        0 <= ofst,
        0 <= amt,
        ofst + amt > v.file.bytes.len(),
    ensures
        spec_read(v, ofst, amt).1 == Err::<(), FileError>(FileError::ShortRead),
        spec_read(v, ofst, amt).0.len() == amt,
        forall|j: int|
            0 <= j < v.file.bytes.len() - ofst ==> spec_read(v, ofst, amt).0[j]
                == v.file.bytes[ofst + j],
        forall|j: int|
            0 <= j < amt && v.file.bytes.len() - ofst <= j ==> spec_read(v, ofst, amt).0[j]
                == 0u8,
{
}

/// Law (size-limit enforcement): a write whose growth past the accounted
/// capacity would exceed the size limit fails full and changes nothing; and
/// after a size-limit file-control request adopting a value at least the
/// resulting length, the same write succeeds.
pub proof fn lemma_size_limit_enforcement(v: FileView, ofst: int, d: Seq<u8>, raised: int)
    requires
        v.wf(),
        v.can_modify(),
        v.mapped == 0,
        0 <= ofst,
        ofst + d.len() > v.file.cap,
        ofst + d.len() > v.size_max,
        raised >= ofst + d.len(),
    ensures
        spec_write(v, ofst, d) == (v, Err::<(), FileError>(FileError::Full)),
        spec_set_size_limit(v, raised).1 == raised,
        spec_write(spec_set_size_limit(v, raised).0, ofst, d).1 == Ok::<(), FileError>(()),
{
}

/// Law (read-only storage): on an immutable buffer every write fails with
/// the read-only code and changes nothing, and every lock request stronger
/// than shared is rejected with the read-only code.
pub proof fn lemma_read_only_rejects(v: FileView, ofst: int, d: Seq<u8>, level: i32)
    requires
        v.file.mode == crate::mem_file::Mode::ReadOnly,
    ensures
        spec_write(v, ofst, d) == (v, Err::<(), FileError>(FileError::ReadOnly)),
        level > LOCK_SHARED ==> spec_lock(v, level) == Err::<(), FileError>(FileError::ReadOnly),
{
}

} // verus!
