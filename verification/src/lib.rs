//! Classifies a business-process event log by how structured its control
//! flow is, from the relations observed between pairs of activities.

pub mod dependency_types;
pub mod matrix;
pub mod features;
pub mod percentages;
pub mod rules;
pub mod classification;
pub mod app_state;
