//! What holds of the pass on every tree.

pub mod capture;
pub mod idempotence;
pub mod names;
pub mod targets;
