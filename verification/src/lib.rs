//! Retention logic and run sequencing for a client that keeps a recipe
//! server's backups in step with a local directory.

pub mod config;
pub mod get_backup;
pub mod retention;
pub mod run;
