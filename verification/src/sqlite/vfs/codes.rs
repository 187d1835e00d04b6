//! The codes that file operations answer with, and the bytes that locks are
//! put on.

use vstd::prelude::*;

verus! {

pub const SQLITE_BUSY: i32 = 5;

pub const SQLITE_IOERR: i32 = 10;

pub const SQLITE_CANTOPEN: i32 = 14;

pub const SQLITE_IOERR_READ: i32 = 266;

pub const SQLITE_IOERR_WRITE: i32 = 778;

pub const SQLITE_IOERR_FSYNC: i32 = 1034;

pub const SQLITE_IOERR_TRUNCATE: i32 = 1546;

pub const SQLITE_IOERR_FSTAT: i32 = 1802;

pub const SQLITE_IOERR_UNLOCK: i32 = 2058;

pub const SQLITE_IOERR_DELETE: i32 = 2570;

pub const SQLITE_IOERR_LOCK: i32 = 3850;

pub const SQLITE_IOERR_DELETE_NOENT: i32 = 5898;

pub const SQLITE_IOERR_SHMOPEN: i32 = 4618;

pub const SQLITE_IOERR_SHMLOCK: i32 = 5130;

pub const SQLITE_IOERR_SHMMAP: i32 = 5386;

pub const SQLITE_IOERR_SHMSIZE: i32 = 5642;

pub const SQLITE_READONLY_CANTINIT: i32 = 1288;

/// The byte that is locked on the way to a shared or an exclusive lock.
pub const PENDING_BYTE: i64 = 0x4000_0000;

/// The byte that is locked by who means to write.
pub const RESERVED_BYTE: i64 = 0x4000_0001;

/// The first of the bytes that are locked by who reads or writes.
pub const SHARED_FIRST: i64 = 0x4000_0002;

/// How many bytes are locked by who reads or writes.
pub const SHARED_SIZE: i64 = 510;

/// How many locks the shared memory has.
pub const SQLITE_SHM_NLOCK: usize = 8;

/// The byte of the first lock of the shared memory.
pub const UNIX_SHM_BASE: i64 = 120;

/// The byte that tells whether anyone uses the shared memory.
pub const UNIX_SHM_DMS: i64 = 128;

} // verus!
