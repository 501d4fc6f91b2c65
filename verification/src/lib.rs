//! Locating and summarising a must-gather archive.
//!
//! A must-gather archive is a directory tree of cluster resource manifests,
//! laid out by scope, API group and resource kind. This library holds the
//! rules of that layout and the decisions made while reading it; it performs
//! no I/O itself. A caller observes directories and loads manifests, and
//! hands what it saw to the functions here.

pub mod document;
pub mod layout;
pub mod root;
pub mod summary;
