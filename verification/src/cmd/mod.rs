//! The subcommands that are programs of their own.
pub mod agent;
pub mod box_job;
pub mod job_laws;
pub mod pivy_box;
pub mod tool;
