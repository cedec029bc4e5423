//! What decides over loading the probes and attaching them. One entry probe and one return probe
//! serve each slot; the attach cookie carries the slot.

pub mod policy;
pub mod format;
pub mod probes;
pub mod links;
pub mod session;
pub mod dynamic;
pub mod counters;
pub mod lifecycle;
pub mod inventory;
pub mod startup;
pub mod catalog;
pub mod readback;
pub mod laws;
pub mod facts;
