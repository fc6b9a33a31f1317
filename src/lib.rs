//! Backup-repository bookkeeping for a restic store kept in S3: path keys,
//! categories, repository discovery, snapshot selection and error triage.

pub mod text;
pub mod category;
pub mod errors;
pub mod codec;
pub mod config;
pub mod discovery;
pub mod snapshots;
pub mod windows;
pub mod listing;
pub mod workflow;
pub mod selection;
pub mod size;
