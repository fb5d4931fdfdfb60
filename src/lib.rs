//! A local batch job launcher: job declarations are validated (files, then pipes),
//! dispatched in pipe order, and supervised until each process ends or times out.
pub mod config;
pub mod counting;
pub mod error_handler;
pub mod job_checker;
pub mod jobfile;
pub mod jobs;
pub mod pipe_laws;
pub mod pipes;
pub mod scheduler;
pub mod supervisor;
