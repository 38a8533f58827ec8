//! Dictation by the Caps Lock key: tap to dictate, hold to cancel.

pub mod paste;
pub mod gesture;
pub mod machine;
pub mod laws;
pub mod episodes;
