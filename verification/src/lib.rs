//! Stacks of projects, stages and scripts: the documents that describe them
//! and their form as JSON, the rules a document has to meet, the registry of
//! document files, the resolution of a stack name to a registered file, and
//! the bookkeeping of a run of shell commands. Files are read and written,
//! and processes started, by the caller.

pub mod dispatch;
pub mod document;
pub mod encode;
pub mod json;
pub mod registry;
pub mod runner;
pub mod search;
pub mod text;
pub mod validation;
pub mod wire;
