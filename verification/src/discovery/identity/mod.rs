//! Objects held open by a capture, each pinned to the identity that it had when it was opened, so
//! that a change of the file is noticed. This is a cheap check, and no guarantee that the bytes
//! stay as they are.

pub mod keyed;
pub mod pinned;
pub mod scanned;
pub mod overlay;
pub mod manifest;
pub mod folding;
pub mod laws;
