//! Aerospace research.
pub mod compress;
pub mod crawler;
pub mod storage;
