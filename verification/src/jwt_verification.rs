//! JWT verification against the cached key set.
//!
//! The RSA signature check itself is the `jsonwebtoken` crate's work; key
//! selection and every claim rule — expiry, audience intersection, issuer
//! match — are decided and proved here, so a token whose signature is
//! valid still fails on a wrong audience or issuer.

use vstd::prelude::*;
use crate::jwks::{json_array, json_string, json_u64, json_member, string_member, KeyCache};
use crate::strutil::str_eq;

verus! {

/// The standard claims a verified token yields.
#[derive(Clone, Debug)]
pub struct Claims {
    pub sub: String,
    pub exp: u64,
    pub iat: u64,
    pub iss: String,
    pub aud: Vec<String>,
}

/// The specific claim or signature rule a token failed.
#[derive(Clone, Copy, Debug, PartialEq, Eq)]
pub enum VerifyCause {
    /// The RS256 signature did not verify against the selected key.
    Signature,
    /// The signed payload does not carry the standard claims as expected.
    MalformedClaims,
    /// `exp` is not in the future.
    Expired,
    /// No audience of the token is among the accepted ones.
    AudienceMismatch,
    /// The issuer is not among the accepted ones.
    IssuerMismatch,
}

/// Why verification failed.
#[derive(Clone, Copy, Debug, PartialEq, Eq)]
pub enum VerifyJwtError {
    /// The token's unverified header cannot be read or carries no `kid`.
    ProtocolViolation,
    /// The `kid` is not in the fetched key set; no signature check was run.
    UnknownKey,
    /// The stored modulus and exponent do not form an RSA public key.
    MalformedKey,
    /// The signature or a standard claim failed, with the specific cause.
    SignatureOrClaimInvalid(VerifyCause),
}

/// Whether some audience of the token is among the accepted ones.
pub open spec fn audience_accepted(aud: Seq<Seq<char>>, allowed: Seq<Seq<char>>) -> bool {
    exists|i: int, j: int|
        0 <= i < aud.len() && 0 <= j < allowed.len() && aud[i] == allowed[j]
}

/// Whether the issuer is among the accepted ones.
pub open spec fn issuer_accepted(iss: Seq<char>, allowed: Seq<Seq<char>>) -> bool {
    exists|j: int| 0 <= j < allowed.len() && allowed[j] == iss
}

/// The one verdict the claim rules allow: expiry is checked first, then
/// the audience intersection, then the issuer.
pub open spec fn claims_verdict(
    c: Claims,
    audience: Seq<Seq<char>>,
    issuer: Seq<Seq<char>>,
    now: u64,
) -> Result<(), VerifyCause> {
    if c.exp <= now {
        Err(VerifyCause::Expired)
    } else if !audience_accepted(c.aud.deep_view(), audience) {
        Err(VerifyCause::AudienceMismatch)
    } else if !issuer_accepted(c.iss@, issuer) {
        Err(VerifyCause::IssuerMismatch)
    } else {
        Ok(())
    }
}

/// Whether the list holds this exact string.
fn contains_str(list: &Vec<String>, x: &str) -> (r: bool)
    ensures
        r == exists|j: int| 0 <= j < list.deep_view().len() && list.deep_view()[j] == x@,
{
    let mut j: usize = 0;
    while j < list.len()
        invariant
            j <= list.len(),
            forall|k: int| 0 <= k < j ==> list.deep_view()[k] != x@,
        decreases list.len() - j,
    {
        if str_eq(list[j].as_str(), x) {
            proof {
                assert(list.deep_view()[j as int] == x@);
            }
            return true;
        }
        proof {
            assert(list.deep_view()[j as int] != x@);
        }
        j = j + 1;
    }
    false
}

/// Checks the standard claims, as [`claims_verdict`] describes: a token
/// that is expired, or whose audiences miss the accepted set, or whose
/// issuer is not accepted, fails with that cause even when its signature
/// is valid.
pub fn validate_claims(c: &Claims, audience: &Vec<String>, issuer: &Vec<String>, now: u64) -> (r:
    Result<(), VerifyCause>)
    ensures
        r == claims_verdict(*c, audience.deep_view(), issuer.deep_view(), now),
{
    if c.exp <= now {
        return Err(VerifyCause::Expired);
    }
    let mut i: usize = 0;
    let mut aud_ok = false;
    while i < c.aud.len()
        invariant
            i <= c.aud.len(),
            aud_ok == exists|a: int, j: int|
                0 <= a < i && 0 <= j < audience.deep_view().len() && c.aud.deep_view()[a]
                    == audience.deep_view()[j],
        decreases c.aud.len() - i,
    {
        proof {
            assert(c.aud.deep_view()[i as int] == c.aud@[i as int]@);
        }
        if contains_str(audience, c.aud[i].as_str()) {
            aud_ok = true;
        }
        i = i + 1;
    }
    if !aud_ok {
        return Err(VerifyCause::AudienceMismatch);
    }
    if !contains_str(issuer, c.iss.as_str()) {
        return Err(VerifyCause::IssuerMismatch);
    }
    Ok(())
}

/// The `kid` named by a token's unverified header, or `None` when the
/// token or its header does not decode or names no key. decode_header is
/// deterministic in the token, so the function is well defined; what it
/// holds of a given token only [`decode_header_kid`] says.
pub uninterp spec fn header_kid_of(token: Seq<char>) -> Option<Seq<char>>;

/// Whether a `(modulus, exponent)` pair of base64url texts builds an RSA
/// public key. Deterministic in the two texts; only
/// [`valid_rsa_components`] says what it holds of given ones.
pub uninterp spec fn rsa_components_valid(modulus: Seq<char>, exponent: Seq<char>) -> bool;

/// Whether a token is well-formed and carries a valid RS256 signature
/// under the RSA key with this modulus and exponent. Deterministic in its
/// three texts (RSA verification draws no randomness); only
/// [`decode_rs256_claims`] says what it holds of given ones. Under
/// components that build no key it is false.
pub uninterp spec fn rs256_signature_accepted(
    token: Seq<char>,
    modulus: Seq<char>,
    exponent: Seq<char>,
) -> bool;

/// Relies on jsonwebtoken::decode_header: the `kid` of the token's
/// unverified header, `None` when the token or its header cannot be
/// decoded or names no key — exactly [`header_kid_of`].
#[verifier::external_body]
fn decode_header_kid(token: &str) -> (r: Option<String>)
    ensures
        r.deep_view() == header_kid_of(token@),
{
    match jsonwebtoken::decode_header(token) {
        Ok(h) => h.kid,
        Err(_) => None,
    }
}

/// Relies on jsonwebtoken::DecodingKey::from_rsa_components: it returns a
/// key exactly when the modulus and exponent are base64url-encoded
/// numbers, named [`rsa_components_valid`].
#[verifier::external_body]
fn valid_rsa_components(modulus: &str, exponent: &str) -> (r: bool)
    ensures
        r == rsa_components_valid(modulus@, exponent@),
{
    jsonwebtoken::DecodingKey::from_rsa_components(modulus, exponent).is_ok()
}

/// Relies on jsonwebtoken::decode with claim checks disabled and RS256 as
/// the only accepted algorithm (that policy lives in this body and nowhere
/// else): the signed claims exactly when the token is well-formed and its
/// RS256 signature verifies under the key the components build, named
/// [`rs256_signature_accepted`]. The key is built with
/// DecodingKey::from_rsa_components.
#[verifier::external_body]
fn decode_rs256_claims(token: &str, modulus: &str, exponent: &str) -> (r: Option<
    serde_json::Value,
>)
    ensures
        r is Some <==> rs256_signature_accepted(token@, modulus@, exponent@),
{
    let key = match jsonwebtoken::DecodingKey::from_rsa_components(modulus, exponent) {
        Ok(k) => k,
        Err(_) => { return None },
    };
    let mut validation = jsonwebtoken::Validation::new(jsonwebtoken::Algorithm::RS256);
    validation.validate_exp = false;
    validation.validate_aud = false;
    validation.required_spec_claims = std::collections::HashSet::new();
    match jsonwebtoken::decode::<serde_json::Value>(token, &key, &validation) {
        Ok(data) => Some(data.claims),
        Err(_) => None,
    }
}

/// The standard claims carried by a decoded payload, if they are all
/// present in the expected shapes (`aud` an array of strings).
fn extract_claims(v: &serde_json::Value) -> Option<Claims> {
    let sub = match string_member(v, "sub") {
        Some(s) => s,
        None => { return None },
    };
    let iss = match string_member(v, "iss") {
        Some(s) => s,
        None => { return None },
    };
    let exp = match json_member(v, "exp") {
        Some(m) => match json_u64(m) {
            Some(n) => n,
            None => { return None },
        },
        None => { return None },
    };
    let iat = match json_member(v, "iat") {
        Some(m) => match json_u64(m) {
            Some(n) => n,
            None => { return None },
        },
        None => { return None },
    };
    let aud_value = match json_member(v, "aud") {
        Some(m) => m,
        None => { return None },
    };
    let arr = match json_array(aud_value) {
        Some(a) => a,
        None => { return None },
    };
    let mut aud: Vec<String> = Vec::new();
    let mut i: usize = 0;
    while i < arr.len()
        decreases arr@.len() - i,
    {
        match json_string(&arr[i]) {
            Some(s) => aud.push(s),
            None => { return None },
        }
        i = i + 1;
    }
    Some(Claims { sub, exp, iat, iss, aud })
}

/// Verifies a token against the key the set holds for `kid`.
///
/// A `kid` absent from the key set fails with `UnknownKey` before any
/// signature work; a present key that builds no RSA key is `MalformedKey`;
/// a built key under which the signature does not verify is the signature
/// cause; and whatever the signature says, a token can only come back `Ok`
/// with an unexpired `exp`, an accepted audience, and an accepted issuer.
/// The split between `MalformedClaims`, the three claim causes, and `Ok`
/// depends on the signed payload's content, which is opaque here; it is
/// decided by [`validate_claims`] on the extracted claims and pinned by
/// tests.
pub fn verify_with_kid(
    token: &str,
    kid: &str,
    keys: &KeyCache,
    audience: &Vec<String>,
    issuer: &Vec<String>,
    now: u64,
) -> (r: Result<Claims, VerifyJwtError>)
    ensures
        r == Err::<Claims, VerifyJwtError>(VerifyJwtError::UnknownKey)
            <==> !keys.key_map().contains_key(kid@),
        r == Err::<Claims, VerifyJwtError>(VerifyJwtError::MalformedKey)
            <==> keys.key_map().contains_key(kid@) && !rsa_components_valid(
            keys.key_map()[kid@].0,
            keys.key_map()[kid@].1,
        ),
        r == Err::<Claims, VerifyJwtError>(
            VerifyJwtError::SignatureOrClaimInvalid(VerifyCause::Signature),
        ) <==> keys.key_map().contains_key(kid@) && rsa_components_valid(
            keys.key_map()[kid@].0,
            keys.key_map()[kid@].1,
        ) && !rs256_signature_accepted(
            token@,
            keys.key_map()[kid@].0,
            keys.key_map()[kid@].1,
        ),
        r != Err::<Claims, VerifyJwtError>(VerifyJwtError::ProtocolViolation),
        r matches Ok(c) ==> claims_verdict(c, audience.deep_view(), issuer.deep_view(), now)
            is Ok && rs256_signature_accepted(
            token@,
            keys.key_map()[kid@].0,
            keys.key_map()[kid@].1,
        ),
{
    let entry = match keys.lookup(kid) {
        Some(e) => e,
        None => { return Err(VerifyJwtError::UnknownKey) },
    };
    if !valid_rsa_components(entry.modulus.as_str(), entry.exponent.as_str()) {
        return Err(VerifyJwtError::MalformedKey);
    }
    let payload = match decode_rs256_claims(
        token,
        entry.modulus.as_str(),
        entry.exponent.as_str(),
    ) {
        Some(p) => p,
        None => {
            return Err(VerifyJwtError::SignatureOrClaimInvalid(VerifyCause::Signature));
        },
    };
    let claims = match extract_claims(&payload) {
        Some(c) => c,
        None => {
            return Err(VerifyJwtError::SignatureOrClaimInvalid(VerifyCause::MalformedClaims));
        },
    };
    match validate_claims(&claims, audience, issuer, now) {
        Ok(()) => Ok(claims),
        Err(cause) => Err(VerifyJwtError::SignatureOrClaimInvalid(cause)),
    }
}

/// Verifies a bearer token against the fetched key set: reads the `kid`
/// from the unverified header — its absence, or an undecodable header, is
/// exactly `ProtocolViolation` — then continues as [`verify_with_kid`]
/// under that `kid`.
pub fn verify_jwt(
    token: &str,
    keys: &KeyCache,
    audience: &Vec<String>,
    issuer: &Vec<String>,
    now: u64,
) -> (r: Result<Claims, VerifyJwtError>)
    ensures
        r == Err::<Claims, VerifyJwtError>(VerifyJwtError::ProtocolViolation) <==> header_kid_of(
            token@,
        ) is None,
        r == Err::<Claims, VerifyJwtError>(VerifyJwtError::UnknownKey) <==> (header_kid_of(token@)
            matches Some(k) && !keys.key_map().contains_key(k)),
        r == Err::<Claims, VerifyJwtError>(VerifyJwtError::MalformedKey) <==> (header_kid_of(
            token@,
        ) matches Some(k) && keys.key_map().contains_key(k) && !rsa_components_valid(
            keys.key_map()[k].0,
            keys.key_map()[k].1,
        )),
        r == Err::<Claims, VerifyJwtError>(
            VerifyJwtError::SignatureOrClaimInvalid(VerifyCause::Signature),
        ) <==> (header_kid_of(token@) matches Some(k) && keys.key_map().contains_key(k)
            && rsa_components_valid(keys.key_map()[k].0, keys.key_map()[k].1)
            && !rs256_signature_accepted(token@, keys.key_map()[k].0, keys.key_map()[k].1)),
        r matches Ok(c) ==> claims_verdict(c, audience.deep_view(), issuer.deep_view(), now)
            is Ok,
{
    let kid = match decode_header_kid(token) {
        Some(k) => k,
        None => { return Err(VerifyJwtError::ProtocolViolation) },
    };
    verify_with_kid(token, kid.as_str(), keys, audience, issuer, now)
}

} // verus!
