//! The error taxonomy of the supervisor.

use vstd::prelude::*;

verus! {

/// Every failure the supervisor core can report.
///
/// Transient kinds are retried by the retry fabric; the rest surface to the
/// runner loop, which terminates the child best-effort and exits non-zero.
#[derive(Clone, Copy, Debug, PartialEq, Eq, Structural)]
pub enum Error {
    /// Websocket disconnect, timeout or protocol failure on a chain read.
    TransientRpc,
    /// Download failure or incomplete body on an HTTP fetch.
    TransientHttp,
    /// The chain returned bytes that do not decode as a release record.
    DecodeError,
    /// The chain advertises no current release at startup.
    NoCurrentRelease,
    /// Filesystem failure while writing, permissioning or removing a binary.
    InstallError,
    /// A child process is already running when a spawn was requested.
    ChildProcessExists,
    /// No child process is running when a termination was requested.
    NoChildProcess,
    /// No downloaded release is recorded when one was required.
    NoDownloadedRelease,
    /// The release URI has no usable final path segment.
    NameDerivationError,
    /// The release URI is not a well-formed absolute URL.
    UrlParseError,
    /// Signal delivery or reaping of the child failed.
    SignalError,
    /// A process id did not fit the width the signal interface needs.
    IntegerConversionError,
    /// A currency symbol was not recognised.
    InvalidCurrency,
}

} // verus!
