//! Narration of a Grok session while its turn runs, from the updates file that it
//! appends to.

pub mod proto;
pub mod registry;
pub mod supervisor;
pub mod tail;
