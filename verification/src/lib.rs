//! Access control for a gate that is opened with one-wire hardware tokens.
//!
//! A token is named by seven bytes. The tokens that may pass are listed by a
//! remote registry; the list is kept in memory, refreshed in place, and stored
//! on disk as a flat sequence of seven-byte records.
//!
//! - [`identifier`]: the identifiers and their textual form.
//! - [`registry`]: the text in which the registry lists them.
//! - [`access`]: the set of authorized identifiers, with one writer and any
//!   number of readers.
//! - [`sync`]: one refresh of the set from the registry's answer.
//! - [`store`]: the bytes in which the set is kept between runs.
//! - [`monitor`]: the decision on a presented token.
//! - [`config`]: the settings.
//! - [`text`], [`seqs`]: what the others share.
//!
//! The library neither reads nor writes files, sockets or devices: it is
//! handed what was read and hands back what is to be written.

pub mod access;
pub mod config;
pub mod identifier;
pub mod monitor;
pub mod registry;
pub mod seqs;
pub mod store;
pub mod sync;
pub mod text;
