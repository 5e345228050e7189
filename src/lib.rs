//! Turns reading material into word-bounded pages, and holds the decisions of
//! the upload, catalog import and translation flows.

pub mod catalog;
pub mod error;
pub mod lemmas;
pub mod paginate;
pub mod text;
pub mod translate;
pub mod upload;
