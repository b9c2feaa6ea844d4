//! The relations that can hold between an ordered pair of activities.

pub mod dependency;
pub mod existential;
pub mod temporal;
