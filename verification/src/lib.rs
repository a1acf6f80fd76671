//! Verified core of a decentralized-identity OAuth client: identity
//! resolution (handle -> DID -> DID document -> authorization server),
//! a capacity- and TTL-bounded cache, single-flight request coalescing,
//! a signing-key ring, a session state store, and the authorization-code
//! flow orchestrator with PKCE and replay protection.
pub mod cache;
pub mod errors;
pub mod flow;
pub mod identity;
pub mod keyring;
pub mod resolver;
pub mod store;
pub mod strutil;
pub mod throttle;

pub use errors::AuthError;
