//! XKCD-style memorable passphrase generator.
//!
//! The crate builds passphrases from a word dictionary according to shape
//! parameters (word count, separators, digit and symbol padding, casing
//! transforms, adaptive length), and reports an integer entropy estimate
//! together with a human-readable crack-time narrative.

pub mod config;
pub mod dict;
pub mod entropy;
pub mod prelude;
pub mod randomizer;
pub mod settings;
pub mod text;
