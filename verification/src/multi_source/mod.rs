//! Multi-source request structure: the pre-action topology and its commitment.
pub mod topology;
pub mod contracts;
