//! Errors of the multi-host layer.
use vstd::prelude::*;

verus! {

/// The error of a command issued to an MPD server; carried through unchanged.
#[verifier::external_type_specification]
#[verifier::external_body]
pub struct ExCommandError(mpd_client::client::CommandError);

/// Why a request to the multi-host client did not produce a result.
#[derive(Debug)]
pub enum Error {
    /// No host is connected, or none reports a usable play state.
    NoHostConnectedError,
    /// A command, issued to a host or while choosing one, failed.
    CommandError(mpd_client::client::CommandError),
}

} // verus!
