//! The grant executor's decisions: what must be checked before a grant's
//! network round trip is issued.

use vstd::prelude::*;

verus! {

/// Why a grant could not produce a token.
#[derive(Clone, Copy, Debug, PartialEq, Eq)]
pub enum GrantFailure {
    /// Username or password was absent; checked before any network call.
    MissingCredentials,
    /// The round trip itself failed.
    Transport,
}

/// The eager credential check of the password grant: a request is formed
/// exactly when both the username and the password are present, and no
/// network call may happen otherwise.
pub fn password_grant_request(username: Option<String>, password: Option<String>) -> (r: Result<
    (String, String),
    GrantFailure,
>)
    ensures
        r is Ok <==> (username is Some && password is Some),
        r matches Ok(p) ==> Some(p.0) == username && Some(p.1) == password,
        r is Err ==> r == Err::<(String, String), GrantFailure>(GrantFailure::MissingCredentials),
{
    match (username, password) {
        (Some(u), Some(p)) => Ok((u, p)),
        _ => Err(GrantFailure::MissingCredentials),
    }
}

} // verus!
