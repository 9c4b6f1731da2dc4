//! A registry of location bookmarks: short aliases bound to local paths or to
//! paths on remote hosts, an optional command per alias and an optional
//! default alias, together with the operations that query and change it.
//!
//! The library neither reads nor writes the store and prints nothing. Its
//! caller loads a [`Config`], hands it to one operation of [`cmd`], and does
//! what the [`outcome::Outcome`] or the [`outcome::Failure`] asks for.

pub mod cli;
pub mod cmd;
pub mod laws;
pub mod order;
pub mod outcome;
pub mod registry;
pub mod table;
pub mod text;
pub mod workdir;

pub use registry::{CommandDef, Config, Destination};
