//! An in-memory virtual file subsystem for an embedded relational database
//! engine with a pluggable storage backend.
//!
//! The library models one database file as a byte buffer held in memory
//! ([`mem_file::MemFile`]), wraps it in the record that the engine's
//! storage callbacks operate on ([`hooked_file::HookedFile`]), and provides
//! the serialization bridge that attaches such buffers to a connection's
//! schema slots and extracts them again ([`deserialize`]).  The [`pragma`]
//! module builds the SQL text used to query and update pragma values.
//!
//! Every entry point of the storage callback table (read, write, truncate,
//! size, lock, file-control, map/unmap) is implemented here as a verified
//! function over plain values; the process-level glue that the engine calls
//! through raw pointers converts at the boundary and delegates to these
//! functions.

pub mod codes;
pub mod deserialize;
pub mod hooked_file;
pub mod mem_file;
pub mod pragma;
pub mod text;
