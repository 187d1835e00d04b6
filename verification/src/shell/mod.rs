//! Shell helpers: time, quoting, highlighting, system information, processes.

pub mod paths;
pub mod process;
pub mod process_laws;
pub mod syntax;
pub mod syntax_laws;
pub mod sys;
pub mod sys_laws;
pub mod term;
pub mod time;
pub mod time_laws;
pub mod words;
