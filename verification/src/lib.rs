//! The document and find model of a single-document plain-text editor.
//!
//! A [`document::Document`] owns the text being edited and knows whether it
//! differs from what was last loaded or saved. A [`find::FindEngine`] locates
//! the occurrences of a search term in that text and steps through them.
//! Neither touches the file system: the caller reads and writes files and
//! hands the outcome over.

pub mod document;
pub mod error;
pub mod find;
pub mod matching;
pub mod path;
pub mod stats;
pub mod text;
