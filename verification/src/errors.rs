//! The error kinds that resolution and the OAuth flow can surface.
use vstd::prelude::*;

verus! {

/// Every failure a caller of this library can observe.
///
/// - `Transport`: a network or DNS fetch failed; the caller may retry.
/// - `NotFound`: the handle or DID does not resolve to anything.
/// - `Malformed`: a fetched or supplied value fails structural validation.
/// - `NoAuthServer`: the resolved identity exposes no usable
///   authorization-server service endpoint.
/// - `InvalidState`: a callback carried a state parameter that is unknown,
///   already consumed, or inconsistent with the stored session.
/// - `TokenExchangeFailed`: the authorization server rejected the code
///   exchange.
/// - `KeyParseError`: a private key supplied at construction time could not
///   be parsed; construction fails as a whole.
/// - `Unsupported`: an optional state-store capability is not implemented.
#[derive(Clone, Copy, Debug, PartialEq, Eq, Structural)]
pub enum AuthError {
    Transport,
    NotFound,
    Malformed,
    NoAuthServer,
    InvalidState,
    TokenExchangeFailed,
    KeyParseError,
    Unsupported,
}

} // verus!
