//! Brings a working copy of an upstream source tree to a pinned revision, ready
//! for a fixed set of patches, by deciding which commands to run and reading
//! what they report. Running the commands is left to the caller.

pub mod git;
pub mod laws;
pub mod patch;
pub mod sync;
pub mod text;
