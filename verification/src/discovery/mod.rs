//! Discovery of providers inside a running process.

pub mod attribution;
pub mod hooks;
pub mod identity;
pub mod laws;
pub mod loader;
pub mod pause;
