//! A small site renderer: pages are declared in a configuration table, each
//! one either a single markdown document or a directory of markdown documents
//! browsed as a list. Rendering resolves a page name, converts markdown to
//! HTML, and substitutes title, stylesheet and body into an HTML template.
//!
//! The file reads themselves are left to the caller: rendering works on a
//! [`appconfig::Sources`] snapshot of the texts and directory listings
//! involved, so every function here is a function of its arguments alone.

pub mod appconfig;
pub mod error;
pub mod laws;
pub mod render;
pub mod template;
