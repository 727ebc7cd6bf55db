use vstd::prelude::*;

verus! {

/// Failure taxonomy of the key-allocation and redemption protocol.
///
/// - `InvalidCredential`: an API key did not resolve to a user.
/// - `PoolExhausted`: the pool of pre-generated keys is empty; the
///   allocation request fails and the operator must replenish.
/// - `DuplicateKey`: an insert collided with an existing key value.
/// - `NotFound`: an unknown or inactive key; redemption and admin paths
///   collapse both causes into this one signal.
#[derive(Clone, Copy, Debug, PartialEq, Eq, Structural)]
pub enum UrlError {
    InvalidCredential,
    PoolExhausted,
    DuplicateKey,
    NotFound,
}

} // verus!
