//! Selective extraction of a read-only filesystem image onto a directory tree.
//!
//! The library decides *what* is written and *where*: it expands a set of
//! names into the closed set of permitted paths, selects the archive entries
//! that set admits, and turns each selected entry into the exact sequence of
//! filesystem actions that materialises it (or a typed error for an entry
//! kind that the chosen strategy cannot write). Performing the actions and
//! scheduling them is left to the caller.
pub mod entry;
pub mod extract;
pub mod filter;
pub mod paths;
pub mod select;
