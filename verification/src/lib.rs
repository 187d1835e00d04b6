//! Extension library: styled terminal text, console capture, time, shell
//! helpers, access control, SQLite and TAR support.

pub mod console;
pub mod error;
pub mod security;
pub mod shell;
pub mod sqlite;
pub mod tar;
pub mod term;
pub mod text;
pub mod value;
