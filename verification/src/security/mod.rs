//! Access control: who may do what to files and other objects.

pub mod accept_laws;
pub mod ace;
pub mod ace_laws;
pub mod acl;
pub mod acl_input;
pub mod coerce;
pub mod desc_laws;
pub mod flags;
pub mod given_laws;
pub mod lookup;
pub mod macos;
pub mod macos_flags;
pub mod meaning;
pub mod model;
pub mod nfs4;
pub mod nfs4_flags;
pub mod path;
pub mod portable_laws;
pub mod posix_flags;
pub mod records;
pub mod sec_desc;
pub mod sid;
pub mod symbol_laws;
pub mod table_laws;
pub mod unix;
pub mod windows_flags;
