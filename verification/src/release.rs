//! The release records the supervisor tracks.

use vstd::prelude::*;

verus! {

/// Number of bytes in a release's code hash.
pub const CODE_HASH_LEN: usize = 32;

/// An announcement record read from the chain: the URI of a fetchable
/// binary and a 32-byte digest of its code.
///
/// The URI is carried as the raw UTF-8 bytes of the announced string; the
/// digest is informational and is not checked against the downloaded bytes.
/// A change of release is detected by URI inequality alone.
#[derive(Clone, Debug, PartialEq, Eq)]
pub struct ClientRelease {
    /// UTF-8 bytes of the URL the binary can be fetched from.
    pub uri: Vec<u8>,
    /// 32-byte digest announced with the release.
    pub code_hash: Vec<u8>,
}

impl ClientRelease {
    /// A record is well formed when its digest has the fixed width.
    pub open spec fn wf(self) -> bool {
        self.code_hash@.len() == CODE_HASH_LEN
    }

    /// Two records announce the same binary location.
    pub open spec fn same_uri(self, other: ClientRelease) -> bool {
        self.uri@ == other.uri@
    }
}

/// Bookkeeping for a binary that has been materialized on disk.
#[derive(Clone, Debug, PartialEq, Eq)]
pub struct DownloadedRelease {
    /// The announcement this binary came from.
    pub release: ClientRelease,
    /// Bytes of the filesystem path the binary was written to.
    pub path: Vec<u8>,
    /// Final path segment of the URI; never empty.
    pub bin_name: Vec<u8>,
}

impl DownloadedRelease {
    /// A downloaded release is well formed when its record is and the
    /// binary name is non-empty.
    pub open spec fn wf(self) -> bool {
        &&& self.release.wf()
        &&& self.bin_name@.len() > 0
    }
}

} // verus!
