//! Configuration, storage, model calls and pacing.
pub mod config;
pub mod controller;
pub mod limits;
pub mod models;
pub mod scheduler;
