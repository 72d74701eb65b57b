//! The verified core of slurm-assistant: the records exchanged by its client
//! and server, the Slurm commands they build, the parsing of what Slurm
//! prints, the rules of the connection and session store, and the text the
//! client shows.
pub mod text;
pub mod proto;
pub mod error;
pub mod pattern;
pub mod gpu;
pub mod jobs;
pub mod order;
pub mod store;
pub mod programs;
pub mod commands;
pub mod client;
pub mod partition;
pub mod server;
pub mod render;
pub mod paths;
