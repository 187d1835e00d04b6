//! Consoles: where human-readable output goes, and how it is captured.

pub mod console_laws;
pub mod data;
pub mod routing;
pub mod sink;
