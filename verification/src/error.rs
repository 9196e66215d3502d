//! Error type of the library.

use vstd::prelude::*;
use serde_json::Error as JsonError;

verus! {

/// The standard library's I/O error, carried through unread.
#[verifier::external_type_specification]
#[verifier::external_body]
pub struct ExIoError(std::io::Error);

/// serde_json's parse error, carried through unread.
#[verifier::external_type_specification]
#[verifier::external_body]
pub struct ExJsonError(JsonError);

/// The standard library's owned file system path, carried through unread.
#[verifier::external_type_specification]
#[verifier::external_body]
pub struct ExPathBuf(std::path::PathBuf);

/// Errors that can be returned by the public API.
#[derive(Debug)]
pub enum Error {
    /// Failed to bind the HTTP listener.
    Bind {
        /// Socket address that was tried.
        addr: String,
        /// Underlying I/O error.
        source: std::io::Error,
    },
    /// Generic I/O error (file system, sockets, ...).
    Io(std::io::Error),
    /// Failed to parse JSON received from CS2.
    Parse(JsonError),
    /// The CS2 install directory could not be located.
    SteamDiscovery(String),
    /// A `gamestate_integration_*.cfg` file could not be written.
    CfgWrite {
        /// Target path that was written to.
        path: std::path::PathBuf,
        /// Underlying I/O error.
        source: std::io::Error,
    },
    /// The listener was already started.
    AlreadyStarted,
    /// The listener was not started yet.
    NotRunning,
}

} // verus!
