//! The token lifecycle manager: given what the cache held and what a
//! refresh would return, decide among reusing the cache, refreshing, and
//! requiring a fresh authentication.
//!
//! The caller performs the file read and the one refresh round trip; every
//! decision, and the collapsing of refresh failures into a single
//! "authenticate again" answer, is made and proved here.

use vstd::prelude::*;
use crate::token_cache::{declared_lifetime, CachedToken, TokenResult};

verus! {

/// Which grant flow a caller runs when authentication is required.
#[derive(Clone, Copy, Debug)]
pub enum Flow {
    DeviceAuthorization,
    OwnerCredentials,
}

/// What loading the durable cache produced: a record, no file yet, or an
/// unreadable file.
pub enum LoadOutcome {
    Loaded(CachedToken),
    NotFound,
    Corrupt,
}

/// Why no usable access token could be handed out.
#[derive(Clone, Copy, Debug, PartialEq, Eq)]
pub enum LifecycleError {
    /// No cached or refreshed token is available; the caller's one recovery
    /// action is to run a grant flow again.
    RequiresAuthentication,
    /// The cache exists but cannot be read: a real fault, not first-run state.
    FatalCacheError,
}

/// The action the lifecycle takes after consulting the cache.
#[derive(Clone, Debug)]
pub enum LifecycleStep {
    /// The cached token is still valid: hand it out, no network call.
    UseCached(String),
    /// The cached token expired but left a refresh token: one refresh call.
    AttemptRefresh(String),
    /// Nothing usable: fail with the reason.
    Fail(LifecycleError),
}

/// The decision taken for each cache state: a missing cache or an expired
/// record without refresh token requires authentication, a corrupt cache is
/// a fault, a future `expires_at` reuses the record, and an expired record
/// with a refresh token attempts one refresh.
pub open spec fn lifecycle_decision(load: LoadOutcome, now: u64) -> LifecycleStep {
    match load {
        LoadOutcome::NotFound => LifecycleStep::Fail(LifecycleError::RequiresAuthentication),
        LoadOutcome::Corrupt => LifecycleStep::Fail(LifecycleError::FatalCacheError),
        LoadOutcome::Loaded(t) => {
            if t.expires_at > now {
                LifecycleStep::UseCached(t.access_token)
            } else {
                match t.refresh_token {
                    Some(rt) => LifecycleStep::AttemptRefresh(rt),
                    None => LifecycleStep::Fail(LifecycleError::RequiresAuthentication),
                }
            }
        },
    }
}

/// Decides what to do with what the cache held, as [`lifecycle_decision`]
/// describes.
pub fn lifecycle_decide(load: LoadOutcome, now: u64) -> (r: LifecycleStep)
    ensures
        r == lifecycle_decision(load, now),
{
    match load {
        LoadOutcome::NotFound => LifecycleStep::Fail(LifecycleError::RequiresAuthentication),
        LoadOutcome::Corrupt => LifecycleStep::Fail(LifecycleError::FatalCacheError),
        LoadOutcome::Loaded(t) => {
            if t.expires_at > now {
                LifecycleStep::UseCached(t.access_token)
            } else {
                match t.refresh_token {
                    Some(rt) => LifecycleStep::AttemptRefresh(rt),
                    None => LifecycleStep::Fail(LifecycleError::RequiresAuthentication),
                }
            }
        },
    }
}

/// Turns the outcome of the one refresh call into the lifecycle's answer:
/// success yields the new access token and the record to persist; any
/// failure is `RequiresAuthentication`, never a raw transport error.
pub fn lifecycle_after_refresh(outcome: Option<TokenResult>, now: u64) -> (r: Result<
    (String, CachedToken),
    LifecycleError,
>)
    requires
        outcome matches Some(t) ==> now + declared_lifetime(t) <= u64::MAX,
    ensures
        match outcome {
            Some(t) => r matches Ok(p) && p.0 == t.access_token && p.1.access_token
                == t.access_token && p.1.refresh_token == t.refresh_token && p.1.expires_at == now
                + declared_lifetime(t),
            None => r == Err::<(String, CachedToken), LifecycleError>(
                LifecycleError::RequiresAuthentication,
            ),
        },
{
    match outcome {
        Some(t) => {
            let access = t.access_token.clone();
            let record = CachedToken::from_token_result(t, now);
            Ok((access, record))
        },
        None => Err(LifecycleError::RequiresAuthentication),
    }
}

/// One complete lifecycle pass: the answer handed to the caller, how many
/// refresh calls were issued, and what was written back to the cache.
pub struct LifecycleRun {
    pub result: Result<String, LifecycleError>,
    pub refresh_calls: u64,
    pub saved: Option<CachedToken>,
}

/// Runs the whole `ensure_valid_access_token` decision on plain values:
/// `load` is what the cache held, and `refresh_outcome` stands for what the
/// single refresh round trip would return, consulted only when a refresh is
/// actually attempted.
///
/// A cache record with `expires_at` in the future is returned unchanged
/// with zero refresh calls and nothing written. An expired record with a
/// refresh token costs exactly one refresh call; success persists and
/// returns the new token, and failure is `RequiresAuthentication`, never
/// the transport error itself.
pub fn ensure_valid_access_token(
    load: LoadOutcome,
    refresh_outcome: Option<TokenResult>,
    now: u64,
) -> (r: LifecycleRun)
    requires
        refresh_outcome matches Some(t) ==> now + declared_lifetime(t) <= u64::MAX,
    ensures
        match lifecycle_decision(load, now) {
            LifecycleStep::UseCached(access) => r.result == Ok::<String, LifecycleError>(access)
                && r.refresh_calls == 0 && r.saved is None,
            LifecycleStep::AttemptRefresh(_) => r.refresh_calls == 1 && match refresh_outcome {
                Some(t) => r.result == Ok::<String, LifecycleError>(t.access_token) && (r.saved
                    matches Some(c) && c.access_token == t.access_token && c.refresh_token
                    == t.refresh_token && c.expires_at == now + declared_lifetime(t)),
                None => r.result == Err::<String, LifecycleError>(
                    LifecycleError::RequiresAuthentication,
                ) && r.saved is None,
            },
            LifecycleStep::Fail(e) => r.result == Err::<String, LifecycleError>(e)
                && r.refresh_calls == 0 && r.saved is None,
        },
{
    match lifecycle_decide(load, now) {
        LifecycleStep::UseCached(access) => LifecycleRun {
            result: Ok(access),
            refresh_calls: 0,
            saved: None,
        },
        LifecycleStep::AttemptRefresh(_) => match lifecycle_after_refresh(refresh_outcome, now) {
            Ok((access, record)) => LifecycleRun {
                result: Ok(access),
                refresh_calls: 1,
                saved: Some(record),
            },
            Err(e) => LifecycleRun { result: Err(e), refresh_calls: 1, saved: None },
        },
        LifecycleStep::Fail(e) => LifecycleRun { result: Err(e), refresh_calls: 0, saved: None },
    }
}

} // verus!
