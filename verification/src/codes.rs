//! Status codes and constants shared by the virtual-file entry points and
//! the serialization bridge.

use vstd::prelude::*;

verus! {

/// Failure vocabulary of the storage callbacks and the serialization
/// bridge, mirroring the host engine's native result codes.
///
/// `Io` is the generic catch-all (anything abnormal caught at the callback
/// boundary is converted to it); `ShortRead` reports a read past the current
/// end of the file and is not fatal to the engine; `Full` reports a growth
/// request that capacity, the size limit, or an outstanding memory-map lease
/// forbids; `ReadOnly` reports a write, truncate or strong lock attempted on
/// non-exclusive or immutable storage; `Busy` and `Locked` surface contention
/// from the engine's page-backup primitive; `NotFound` reports an
/// unrecognized file-control operation.
#[derive(Clone, Copy, Debug, PartialEq, Eq, Structural)]
pub enum FileError {
    Io,
    ShortRead,
    Full,
    ReadOnly,
    Busy,
    Locked,
    NotFound,
}

/// No lock is held.
pub const LOCK_NONE: i32 = 0;

/// The weakest lock; reading is permitted.  Any request strictly stronger
/// than this is rejected on immutable storage.
pub const LOCK_SHARED: i32 = 1;

/// A write intent lock.
pub const LOCK_RESERVED: i32 = 2;

/// A pending-exclusive lock.
pub const LOCK_PENDING: i32 = 3;

/// The strongest lock.
pub const LOCK_EXCLUSIVE: i32 = 4;

/// Device characteristic: writes of any size are atomic.
pub const IOCAP_ATOMIC: i32 = 0x1;

/// Device characteristic: appends write no garbage past the old end.
pub const IOCAP_SAFE_APPEND: i32 = 0x200;

/// Device characteristic: the file is read and written sequentially.
pub const IOCAP_SEQUENTIAL: i32 = 0x400;

/// Device characteristic: an overwrite does not disturb neighbouring bytes
/// on power loss.
pub const IOCAP_POWERSAFE_OVERWRITE: i32 = 0x1000;

/// The size limit a freshly created in-memory file starts out with,
/// matching the host engine's default cap for such files.
pub const DEFAULT_SIZE_MAX: u64 = 1073741824;

} // verus!
