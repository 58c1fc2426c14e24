//! Observation-only admission logic for Pod images.
//!
//! The crate decomposes container image references into registry, repository
//! name, tag and digest, collects one record per container image of a Pod, and
//! answers every admission review with an allow decision that echoes the
//! request's identifier.

pub mod admission;
pub mod config;
pub mod image;
pub mod logger;
pub mod metrics;
pub mod pod;
