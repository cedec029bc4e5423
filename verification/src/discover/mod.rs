//! Discovery by an unprivileged helper. The observer itself never loads a provider: it is
//! privileged, and must not run a vendor's constructors.

pub mod closure;
pub mod command;
pub mod helper;
pub mod inheritance;
pub mod laws;
pub mod protocol;
pub mod stabilize;
pub mod supervision;
