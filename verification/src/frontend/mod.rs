//! Frontend helpers shared with the SSA builder.

pub mod misc;
pub mod sort_id;
