//! An in-memory key-value store driven by a line-based text protocol.
//!
//! - [`command`]: the grammar, which turns one line of input into a
//!   [`command::Command`];
//! - [`store`]: the [`store::Store`], a map from text keys to text values;
//! - [`reply`]: the outcome of a command and its text on the wire;
//! - [`dispatch`]: carrying a command out against a store;
//! - [`session`]: the state machine of one client's session;
//! - [`laws`]: what holds of all of these together.
//!
//! The library reads no socket and takes no lock. A server reads the lines,
//! shares one store among its connections behind a lock of its choice, and
//! hands the library lines and the store.
pub mod command;
pub mod dispatch;
pub mod laws;
pub mod reply;
pub mod session;
pub mod store;
