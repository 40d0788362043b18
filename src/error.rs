use vstd::prelude::*;

verus! {

/// Every way in which a vault operation can fail.
#[derive(Debug, Clone, Copy, PartialEq, Eq, Structural)]
pub enum VaultError {
    /// The operating system's random source failed.
    RandomnessUnavailable,
    /// The authentication tag did not match: wrong password or corrupted data.
    AuthenticationFailure,
    /// The input is shorter than the smallest envelope.
    MalformedEnvelope,
    /// The master password was never configured.
    MissingCredential,
    /// The underlying store failed to read, write or flush.
    StorageIOFailure,
    /// A stored entry name is not valid UTF-8 text.
    EncodingFailure,
}

} // verus!
