//! Core logic of a word-completion editor extension.
//!
//! The library holds the text analysis and edit construction that the
//! extension performs: scanning a line for the word ending at a cursor
//! offset, capitalizing that word when a trigger character is inserted,
//! offering prefix-based word completions over the document text, and
//! resolving the path of the extension's log file.  The host editor owns
//! the document and the transport; it hands each callback plain values
//! (line text, byte offsets, the document text) and receives plain edit
//! descriptions back.

pub mod complete;
pub mod edit;
pub mod logpath;
pub mod plugin;
pub mod scan;
pub mod text;
