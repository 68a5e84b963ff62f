//! The resident agent.
pub mod answers;
pub mod arrivals;
pub mod commands;
pub mod config;
pub mod cursors;
pub mod daemon;
pub mod deeds;
pub mod discord;
pub mod email;
pub mod errands;
pub mod findings;
pub mod intake;
pub mod laws;
pub mod orders;
pub mod paths;
pub mod research;
pub mod rounds;
pub mod runtime;
pub mod sorting;
pub mod state;
pub mod ticking;
