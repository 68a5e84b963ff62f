//! Lion: a bounded personal assistant.
//!
//! The library holds the rules: what may be stored, how mail ranks, which model is asked, what a
//! job does next and what it may do at all. It touches neither the disk nor the network. Where a
//! rule needs something done, it says so as a value, and goes on with what came of it.
use vstd::prelude::*;

pub mod agent;
pub mod base;
pub mod error;
pub mod failure;
pub mod json;
pub mod link;
pub mod os;
pub mod table;
pub mod tasks;
pub mod text;
pub mod voice;

verus! {

} // verus!
