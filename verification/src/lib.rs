//! File and archive handling for a project-scaffolding tool: path expansion,
//! ordered directory listings, removal decisions, archive extraction plans and
//! a small store of named text templates.
//!
//! Nothing here reads or writes a file. A function takes what the caller has
//! read from disk as plain values, and gives back the listing, the decision
//! or the plan that the caller then carries out. Two things come from outside
//! all the same: the user's home directory for path expansion, and the
//! decoding of zip archives, over bytes that the caller has read into memory.

pub mod archive;
pub mod error;
pub mod listing;
pub mod paths;
pub mod removal;
pub mod sequences;
pub mod status;
pub mod store;
pub mod templates;
pub mod text;
