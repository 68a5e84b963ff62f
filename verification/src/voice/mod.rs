//! Speech through local commands.
pub mod audio;
pub mod engine;
