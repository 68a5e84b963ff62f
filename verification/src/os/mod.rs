//! What the machine and the network answer.
pub mod monitor;
