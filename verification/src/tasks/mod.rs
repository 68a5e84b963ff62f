//! What the assistant does.
pub mod aerospace;
pub mod email;
pub mod discord;
pub mod events;
pub mod task;
