//! Styled terminal text: styles, escape sequences, layout and rendering.

pub mod cells;
pub mod control_laws;
pub mod extension;
pub mod filter;
pub mod filter_laws;
pub mod global;
pub mod layout;
pub mod layout_laws;
pub mod nested_laws;
pub mod option_laws;
pub mod options;
pub mod print_laws;
pub mod render;
pub mod sgr;
pub mod style;
pub mod text_laws;
pub mod texts;
