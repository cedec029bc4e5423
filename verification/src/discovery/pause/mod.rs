//! Coordination of the pause of an owned child.

pub mod adapter;
pub mod calls;
pub mod cleanup;
pub mod conduct;
pub mod courses;
pub mod cycle;
pub mod diagnostic;
pub mod ending;
pub mod evidence;
pub mod failure;
pub mod io;
pub mod laws;
pub mod progress;
pub mod refusal;
pub mod restraint;
pub mod retirement;
pub mod draining;
pub mod outcomes;
pub mod readings;
pub mod stages;
pub mod rules;
pub mod service;
pub mod state;
pub mod steps;
pub mod tasks;
