//! The byte buffer storing one in-memory database file.
//!
//! A [`MemFile`] holds the raw bytes of one virtual file in one of three
//! ownership modes.  Besides the bytes it accounts for a capacity: the
//! number of bytes the file may hold before its backing allocation would
//! have to grow.  Growth policy (size limits, map leases) is decided by the
//! record that owns the buffer; the buffer itself only offers the primitive
//! operations.

use vstd::prelude::*;

verus! {

/// The ownership mode of a [`MemFile`].
#[derive(Clone, Copy, Debug, PartialEq, Eq, Structural)]
pub enum Mode {
    /// The buffer is wholly owned by the file record.
    Owned,
    /// The buffer is owned by an external caller and borrowed mutably for
    /// the lifetime of the attachment; it may grow and is written back on
    /// release.
    Resizable,
    /// The buffer is an immutable view owned by an external caller;
    /// mutation is never permitted and capacity equals length.
    ReadOnly,
}

/// The mathematical value of a [`MemFile`]: its bytes, its accounted
/// capacity, and its ownership mode.
pub struct MemFileView {
    pub bytes: Seq<u8>,
    pub cap: nat,
    pub mode: Mode,
}

impl MemFileView {
    /// Invariant: the length never exceeds the accounted capacity, and an
    /// immutable buffer's capacity is exactly its length.
    pub open spec fn wf(self) -> bool {
        &&& self.bytes.len() <= self.cap
        &&& self.mode == Mode::ReadOnly ==> self.cap == self.bytes.len()
    }

    /// Whether the mode permits mutation at all.
    pub open spec fn writable(self) -> bool {
        self.mode != Mode::ReadOnly
    }
}

/// A sequence of `n` zero bytes, as exposed by growth.
pub open spec fn seq_zeros(n: nat) -> Seq<u8> {
    Seq::new(n, |i: int| 0u8)
}

/// Byte array storing an in-memory database file.
pub enum MemFile {
    /// Owned growable buffer.
    Owned { data: Vec<u8>, cap: usize },
    /// Mutably borrowed growable buffer (modelled here by ownership; the
    /// boundary glue hands the final bytes back to the external caller on
    /// release).
    Resizable { data: Vec<u8>, cap: usize },
    /// Immutably borrowed bytes for a read-only database.
    ReadOnly { data: Vec<u8> },
}

impl View for MemFile {
    type V = MemFileView;

    closed spec fn view(&self) -> MemFileView {
        match self {
            MemFile::Owned { data, cap } => MemFileView {
                bytes: data@,
                cap: *cap as nat,
                mode: Mode::Owned,
            },
            MemFile::Resizable { data, cap } => MemFileView {
                bytes: data@,
                cap: *cap as nat,
                mode: Mode::Resizable,
            },
            MemFile::ReadOnly { data } => MemFileView {
                bytes: data@,
                cap: data@.len(),
                mode: Mode::ReadOnly,
            },
        }
    }
}

impl MemFile {
    /// Invariant carried by every well-formed buffer.
    pub open spec fn wf(&self) -> bool {
        self@.wf()
    }

    /// A new owned buffer; the accounted capacity starts at the length.
    pub fn owned(data: Vec<u8>) -> (f: MemFile)
        ensures
            f@.bytes == data@,
            f@.cap == data@.len(),
            f@.mode == Mode::Owned,
            f.wf(),
    {
        let cap = data.len();
        MemFile::Owned { data, cap }
    }

    /// A new mutably borrowed buffer whose backing allocation already holds
    /// `cap` bytes.
    pub fn resizable(data: Vec<u8>, cap: usize) -> (f: MemFile)
        requires
            data@.len() <= cap,
        ensures
            f@.bytes == data@,
            f@.cap == cap,
            f@.mode == Mode::Resizable,
            f.wf(),
    {
        MemFile::Resizable { data, cap }
    }

    /// A new immutable buffer.
    pub fn read_only(data: Vec<u8>) -> (f: MemFile)
        ensures
            f@.bytes == data@,
            f@.cap == data@.len(),
            f@.mode == Mode::ReadOnly,
            f.wf(),
    {
        MemFile::ReadOnly { data }
    }

    /// Immutable view of the stored bytes.
    pub fn as_slice(&self) -> (s: &[u8])
        ensures
            s@ == self@.bytes,
    {
        match self {
            MemFile::Owned { data, .. } => data.as_slice(),
            MemFile::Resizable { data, .. } => data.as_slice(),
            MemFile::ReadOnly { data } => data.as_slice(),
        }
    }

    /// Current length of the file in bytes.
    pub fn len(&self) -> (n: usize)
        ensures
            n == self@.bytes.len(),
    {
        match self {
            MemFile::Owned { data, .. } => data.len(),
            MemFile::Resizable { data, .. } => data.len(),
            MemFile::ReadOnly { data } => data.len(),
        }
    }

    /// The accounted capacity: how long the file may get before more
    /// backing storage must be reserved.
    pub fn cap(&self) -> (n: usize)
        ensures
            n == self@.cap,
    {
        match self {
            MemFile::Owned { data: _, cap } => *cap,
            MemFile::Resizable { data: _, cap } => *cap,
            MemFile::ReadOnly { data } => data.len(),
        }
    }

    /// Whether the mode permits mutation (write-protected or not).
    pub fn writable(&self) -> (b: bool)
        ensures
            b == self@.writable(),
    {
        match self {
            MemFile::Owned { .. } => true,
            MemFile::Resizable { .. } => true,
            MemFile::ReadOnly { .. } => false,
        }
    }

    /// The byte at position `i`.
    pub fn byte_at(&self, i: usize) -> (b: u8)
        requires
            i < self@.bytes.len(),
        ensures
            b == self@.bytes[i as int],
    {
        match self {
            MemFile::Owned { data, .. } => data[i],
            MemFile::Resizable { data, .. } => data[i],
            MemFile::ReadOnly { data } => data[i],
        }
    }

    /// Sets the length of the file: zero-fills newly exposed bytes when
    /// growing, truncates in place when shrinking.  Growing past the
    /// accounted capacity or resizing an immutable buffer is excluded by
    /// contract; callers reserve first and never resize read-only storage.
    pub fn set_len(&mut self, new_len: usize)
        requires
            old(self).wf(),
            old(self)@.writable(),
            new_len <= old(self)@.cap,
        ensures
            final(self).wf(),
            final(self)@.mode == old(self)@.mode,
            final(self)@.cap == old(self)@.cap,
            final(self)@.bytes == if new_len <= old(self)@.bytes.len() {
                old(self)@.bytes.take(new_len as int)
            } else {
                old(self)@.bytes + seq_zeros((new_len - old(self)@.bytes.len()) as nat)
            },
    {
        match self {
            MemFile::Owned { data, .. } => {
                data.resize(new_len, 0u8);
                assert(data@ =~= if new_len <= old(self)@.bytes.len() {
                    old(self)@.bytes.take(new_len as int)
                } else {
                    old(self)@.bytes + seq_zeros((new_len - old(self)@.bytes.len()) as nat)
                });
            }
            MemFile::Resizable { data, .. } => {
                data.resize(new_len, 0u8);
                assert(data@ =~= if new_len <= old(self)@.bytes.len() {
                    old(self)@.bytes.take(new_len as int)
                } else {
                    old(self)@.bytes + seq_zeros((new_len - old(self)@.bytes.len()) as nat)
                });
            }
            MemFile::ReadOnly { .. } => {
                proof {
                    assert(false);
                }
            }
        }
    }

    /// Reserves room for `additional` more bytes past the current length:
    /// raises the accounted capacity (and grows the backing allocation) for
    /// growable modes, and reports "not possible" for immutable buffers.
    pub fn reserve_additional(&mut self, additional: usize) -> (ok: bool)
        requires
            old(self).wf(),
            old(self)@.bytes.len() + additional <= usize::MAX,
        ensures
            final(self).wf(),
            ok == old(self)@.writable(),
            final(self)@.bytes == old(self)@.bytes,
            final(self)@.mode == old(self)@.mode,
            final(self)@.cap == if old(self)@.writable() && old(self)@.bytes.len() + additional
                > old(self)@.cap {
                old(self)@.bytes.len() + additional
            } else {
                old(self)@.cap as int
            },
    {
        match self {
            MemFile::Owned { data, cap } => {
                data.reserve(additional);
                let need = data.len() + additional;
                if need > *cap {
                    *cap = need;
                }
                true
            }
            MemFile::Resizable { data, cap } => {
                data.reserve(additional);
                let need = data.len() + additional;
                if need > *cap {
                    *cap = need;
                }
                true
            }
            MemFile::ReadOnly { .. } => false,
        }
    }

    /// Overwrites `buf.len()` bytes in place starting at `ofst`; the range
    /// must already lie within the file.
    pub fn write_at(&mut self, ofst: usize, buf: &[u8])
        requires
            old(self).wf(),
            old(self)@.writable(),
            ofst + buf@.len() <= old(self)@.bytes.len(),
        ensures
            final(self).wf(),
            final(self)@.mode == old(self)@.mode,
            final(self)@.cap == old(self)@.cap,
            final(self)@.bytes.len() == old(self)@.bytes.len(),
            final(self)@.bytes == old(self)@.bytes.take(ofst as int) + buf@ + old(self)@.bytes.skip(
                ofst + buf@.len(),
            ),
    {
        match self {
            MemFile::Owned { data, .. } => {
                write_vec_at(data, ofst, buf);
            }
            MemFile::Resizable { data, .. } => {
                write_vec_at(data, ofst, buf);
            }
            MemFile::ReadOnly { .. } => {
                proof {
                    assert(false);
                }
            }
        }
        assert(self@.bytes =~= old(self)@.bytes.take(ofst as int) + buf@ + old(
            self,
        )@.bytes.skip(ofst + buf@.len()));
    }

    /// A fresh owned copy of the stored bytes.
    pub fn to_vec(&self) -> (v: Vec<u8>)
        ensures
            v@ == self@.bytes,
    {
        copy_bytes(self.as_slice())
    }
}

/// Copies `buf` over `data[ofst..ofst + buf.len()]`.
fn write_vec_at(data: &mut Vec<u8>, ofst: usize, buf: &[u8])
    requires
        ofst + buf@.len() <= old(data)@.len(),
    ensures
        final(data)@.len() == old(data)@.len(),
        forall|j: int|
            0 <= j < final(data)@.len() ==> final(data)@[j] == if ofst <= j < ofst + buf@.len() {
                buf@[j - ofst]
            } else {
                old(data)@[j]
            },
{
    let n = data.len();
    let mut i: usize = 0;
    while i < buf.len()
        invariant
            ofst + buf@.len() <= n,
            n == old(data)@.len(),
            i <= buf@.len(),
            data@.len() == old(data)@.len(),
            forall|j: int|
                0 <= j < data@.len() ==> data@[j] == if ofst <= j < ofst + i {
                    buf@[j - ofst]
                } else {
                    old(data)@[j]
                },
        decreases buf@.len() - i,
    {
        let b = *vstd::slice::slice_index_get(buf, i);
        data[ofst + i] = b;
        i = i + 1;
    }
}

/// A fresh owned copy of a byte slice.
pub fn copy_bytes(buf: &[u8]) -> (v: Vec<u8>)
    ensures
        v@ == buf@,
{
    let mut v: Vec<u8> = Vec::new();
    let mut i: usize = 0;
    while i < buf.len()
        invariant
            i <= buf@.len(),
            v@ == buf@.take(i as int),
        decreases buf@.len() - i,
    {
        v.push(*vstd::slice::slice_index_get(buf, i));
        proof {
            assert(v@ =~= buf@.take(i + 1));
        }
        i = i + 1;
    }
    proof {
        assert(buf@.take(buf@.len() as int) =~= buf@);
    }
    v
}

} // verus!
