//! Inbound request-authentication middleware for a federated GraphQL gateway.
//!
//! The crate validates a bearer JWT (RS256 only) against a fixed RSA public
//! key and, on success, attaches a gateway-trusted identity header that
//! downstream services may rely on.  Any client-supplied value of that header
//! is stripped before the decision is made, so the header is present after
//! interception exactly when it carries a cryptographically verified subject.

pub mod b64;
pub mod claims;
pub mod headers;
pub mod keys;
pub mod util;
pub mod validate;
