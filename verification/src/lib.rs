//! An outbound OAuth2/OIDC credential-acquisition library for a client
//! talking to a Keycloak-style identity provider: it obtains, caches,
//! refreshes, and cryptographically verifies bearer tokens.
//!
//! The pieces with real logic are the device-authorization polling state
//! machine ([`device_poll`]), the token lifecycle manager ([`lifecycle`]),
//! the time-bounded cache of the provider's signing keys ([`jwks`]), the
//! JWT verifier ([`jwt_verification`]), and the durable token cache
//! ([`token_cache`]). Network and file I/O live outside this crate; every
//! function here is specified and verified over plain values.

pub mod app_config;
pub mod app_config2;
pub mod application_builder;
pub mod config;
pub mod credentials;
pub mod device_poll;
pub mod grant;
pub mod jwks;
pub mod jwt_verification;
pub mod lifecycle;
pub mod strutil;
pub mod token_cache;
