//! Verified core of a host-metrics logger: it renders point-in-time CPU and
//! memory samples as rows of a comma-separated log, derives the per-file
//! header and file name from the moment a file is opened, and decides when a
//! new file must be started.

pub mod csvenc;
pub mod logfile;
pub mod metrics;
pub mod rotation;
pub mod schema;
pub mod text;
pub mod timestamp;
