//! Selects the text source files of a directory tree and renders them,
//! with a tree listing, as one document.

pub mod text;
pub mod classify;
pub mod walk;
pub mod dump;
pub mod clipboard;
pub mod config;
pub mod laws;
