//! The files behind a database: how they are opened, locked and mapped.

pub mod codes;
pub mod file;
pub mod file_laws;
pub mod lock;
pub mod lock_calls;
pub mod lock_laws;
pub mod shm;
pub mod shm_calls;
pub mod shm_laws;
pub mod shm_map;
