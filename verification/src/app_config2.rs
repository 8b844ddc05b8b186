//! A second application-config builder whose marker types also carry the
//! collected endpoint values, so that each builder step is visible in the
//! type of the result.

use core::marker::PhantomData;
use vstd::prelude::*;
use crate::credentials::ResourceOwnerPasswordCredential;

verus! {

/// A token endpoint has been chosen.
pub struct WithTokenUrl(pub String);

/// No token endpoint yet.
pub struct NoTokenUrl;

/// An authorization endpoint has been chosen.
pub struct WithAuthUrl(pub String);

/// No authorization endpoint yet.
pub struct NoAuthUrl;

/// The device-authorization flow.
pub struct Device;

/// The resource-owner password flow.
pub struct Owner;

/// A configuration whose type parameters say which endpoints are present
/// and which flow the credentials select.
pub struct AppConfig<A, T, C> {
    pub client_id: String,
    pub auth_url: Option<A>,
    pub token_url: Option<T>,
    pub credential_type: PhantomData<C>,
}

impl<A, T, C> AppConfig<A, T, C> {
    pub fn new(client_id: String) -> (r: AppConfig<A, T, C>)
        ensures
            r.client_id == client_id,
            r.auth_url is None,
            r.token_url is None,
    {
        AppConfig { client_id, auth_url: None, token_url: None, credential_type: PhantomData }
    }
}

/// Builder counterpart of [`AppConfig`]; every step returns the state
/// reached, endpoint values kept inside the marker types.
pub struct AppConfigBuilder<A, T, C> {
    pub client_id: String,
    pub auth_url: Option<A>,
    pub token_url: Option<T>,
    pub credential_type: PhantomData<C>,
}

impl<A, T, C> AppConfigBuilder<A, T, C> {
    pub fn new(client_id: String) -> (r: AppConfigBuilder<A, T, C>)
        ensures
            r.client_id == client_id,
            r.auth_url is None,
            r.token_url is None,
    {
        AppConfigBuilder {
            client_id,
            auth_url: None,
            token_url: None,
            credential_type: PhantomData,
        }
    }
}

impl AppConfigBuilder<NoAuthUrl, NoTokenUrl, Owner> {
    pub fn token_url(self, token_url: String) -> (r: AppConfigBuilder<
        NoAuthUrl,
        WithTokenUrl,
        Owner,
    >)
        ensures
            r.client_id == self.client_id,
            r.auth_url is None,
            r.token_url matches Some(t) && t.0 == token_url,
    {
        AppConfigBuilder {
            client_id: self.client_id,
            auth_url: None,
            token_url: Some(WithTokenUrl(token_url)),
            credential_type: PhantomData,
        }
    }
}

impl<T> AppConfigBuilder<NoAuthUrl, T, Owner> {
    pub fn auth_url(self, auth_url: String) -> (r: AppConfigBuilder<WithAuthUrl, T, Owner>)
        ensures
            r.client_id == self.client_id,
            r.auth_url matches Some(a) && a.0 == auth_url,
            r.token_url == self.token_url,
    {
        AppConfigBuilder {
            client_id: self.client_id,
            auth_url: Some(WithAuthUrl(auth_url)),
            token_url: self.token_url,
            credential_type: PhantomData,
        }
    }
}

impl AppConfigBuilder<WithAuthUrl, WithTokenUrl, Owner> {
    /// Both endpoints are present in this state, so building cannot fail.
    pub fn build(self) -> (r: AppConfig<WithAuthUrl, WithTokenUrl, Owner>)
        ensures
            r.client_id == self.client_id,
            r.auth_url == self.auth_url,
            r.token_url == self.token_url,
    {
        AppConfig {
            client_id: self.client_id,
            auth_url: self.auth_url,
            token_url: self.token_url,
            credential_type: PhantomData,
        }
    }
}

impl<A, T, C> AppConfigBuilder<A, T, C> {
    /// Switches the builder to the owner flow; the credential value itself
    /// is carried separately by the caller.
    pub fn with_owner_credentials(self, owner_credentials: ResourceOwnerPasswordCredential) -> (r:
        AppConfigBuilder<A, T, Owner>)
        ensures
            r.client_id == self.client_id,
            r.auth_url == self.auth_url,
            r.token_url == self.token_url,
    {
        let _ = owner_credentials;
        AppConfigBuilder {
            client_id: self.client_id,
            auth_url: self.auth_url,
            token_url: self.token_url,
            credential_type: PhantomData,
        }
    }
}

} // verus!
