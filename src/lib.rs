//! Token-aware cursor navigation for a text editor, the commands built on it,
//! and the layout of the file-search view.

pub mod position;
pub mod token;
pub mod resolver;
pub mod buffer;
pub mod application;
pub mod commands;
pub mod render;
