//! An auto-updating supervisor core for long-running chain client binaries.
//!
//! A blockchain announces the release of a worker binary in a storage slot.
//! This library holds the verified core of the supervisor that watches the
//! slot: the storage-key derivation, the SCALE decoding of release records,
//! the binary-name derivation from a release URI, the supervisor state
//! machine with its child-exclusion invariants, and the retry policy.
//! The surrounding process (RPC session, HTTP download, file system and
//! child-process handling) performs the effects that the state machine
//! plans.

pub mod bin_name;
pub mod byteseq;
pub mod currency;
pub mod error;
pub mod release;
pub mod retry;
pub mod runtime_types;
pub mod scale;
pub mod storage_key;
pub mod supervisor;
