//! Supervision of a file-classifying worker process and relocation of the files it grouped.
//!
//! The worker writes a manifest that assigns each source file to a group. This library holds
//! the rules around it: how a manifest is read and checked, how group names become folder
//! names, where each file goes and under which name when that name is taken, how the worker's
//! output decides the outcome of a run, and how a second run is refused while one is in
//! flight. File and process handling stay with the caller, which performs the requests that
//! the library issues and hands back what happened.
pub mod count;
pub mod error;
pub mod json;
pub mod manifest;
pub mod multiplexer;
pub mod path;
pub mod reconcile;
pub mod relocation;
pub mod sanitize;
pub mod supervisor;
pub mod text;
