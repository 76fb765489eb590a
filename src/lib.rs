//! Orchestration of benchmarking jobs on a fleet of remote machines: the job
//! lifecycle, the round-robin scheduler, and the normalisation of results.
pub mod text;
pub mod inventories;
pub mod state;
pub mod jobs;
pub mod scheduler;
pub mod events;
pub mod results;
pub mod configs;
pub mod submission;
pub mod window;
pub mod scripts;
