//! Planning the snapshot of a cluster's resources.
//!
//! The library decides and computes; it reads no cluster and writes no file.
//! A caller discovers the resource types that the cluster serves, asks
//! [`collect::fetch_plan`] which of them to list, lists them, and hands each
//! listing to [`collect::record_fetch`], which cleans the documents with
//! [`sanitize::sanitize_resource`] and keeps them by kind. The result sets
//! are turned into directories and files by [`output::OutputManager`], which
//! gives the steps to carry out, and are counted by [`summary`] for the
//! summary document of [`report`].
//!
//! Documents are `serde_json` values. What the library assumes of
//! `serde_json`, `serde_yaml`, `chrono` and a few string functions of the
//! standard library stands in [`json`], [`time`] and [`text`]; everything
//! else is proved.

pub mod collect;
pub mod json;
pub mod kindmap;
pub mod namespaces;
pub mod output;
pub mod plan;
pub mod policy;
pub mod report;
pub mod sanitize;
pub mod summary;
pub mod text;
pub mod time;
pub mod typed;
