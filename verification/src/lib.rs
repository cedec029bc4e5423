//! Decision core of p11scope, an observer of PKCS#11 providers.

pub mod attach;
pub mod cli;
pub mod discover;
pub mod discovery;
pub mod mapped;
pub mod maps;
pub mod options;
pub mod record;
pub mod text;
pub mod words;
