//! Volume and collection bookkeeping for a local storage manager.
//!
//! A volume is a root directory that was taken into ownership; a collection
//! is a named subdirectory of a volume. A central registry maps the
//! identifiers of the attached volumes to their roots, and each volume keeps
//! an index of its collections.
//!
//! The library decides and the caller acts: an operation takes what was read
//! from the registry, from an index or from a root directory, changes the
//! registry or the index in place, and answers with the steps to take on
//! disk. What each operation decides is written down as a function on the
//! mathematical model of its inputs, and the operation is proved to follow
//! it.
//!
//! - [`id`]: identifiers and how they are minted.
//! - [`table`]: the table of text pairs that a registry and an index hold.
//! - [`volume`]: the life of a volume, from creation to deletion.
//! - [`collection`]: the collections of a volume and their transfer.
//! - [`document`]: the TOML documents of the registry and of the indexes.
//! - [`metadata`]: the lines of the audit log.
//! - [`error`]: the failures.
//! - [`api`], [`cli`], [`response`], [`socket`]: what the requests of the
//!   transport layer and the commands of the command line ask for.
//! - [`meta`], [`mounts`], [`scan`], [`config`]: what is read from the output
//!   of system tools for the description of a system and of a device.
//! - [`logger`], [`clock`], [`text`]: the console log, the clock and small
//!   operations on text.
//!
//! Random numbers, the clock, lowercase and TOML come from other crates.
//! Each call stands in a small function of its own, whose contract is taken
//! on trust and says in its documentation what it claims.

pub mod api;
pub mod cli;
pub mod clock;
pub mod collection;
pub mod config;
pub mod document;
pub mod error;
pub mod id;
pub mod logger;
pub mod meta;
pub mod metadata;
pub mod mounts;
pub mod response;
pub mod scan;
pub mod socket;
pub mod table;
pub mod text;
pub mod volume;
