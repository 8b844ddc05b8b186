//! Application configuration and a builder that tracks, in its type, which
//! credential variant has been chosen.

use core::marker::PhantomData;
use vstd::prelude::*;
use crate::credentials::{Credential, DeviceCodeCredential, ResourceOwnerPasswordCredential};

verus! {

/// Builder state before any credential is attached.
pub struct NoCredentials;

/// Builder state after resource-owner credentials are attached.
pub struct WithOwnerCredentials;

/// Builder state after device-code credentials are attached.
pub struct WithDeviceCredentials;

/// A complete application configuration for one grant flow.
pub struct AppConfig<C: Credential> {
    pub client_id: String,
    pub auth_url: String,
    /// Only the device flow needs an explicit token endpoint here.
    pub token_url: Option<String>,
    pub credential: C,
}

impl<C: Credential> AppConfig<C> {
    pub fn new(client_id: String, auth_url: String, credentials: C) -> (r: AppConfig<C>)
        ensures
            r.client_id == client_id,
            r.auth_url == auth_url,
            r.token_url is None,
            r.credential == credentials,
    {
        AppConfig { client_id, auth_url, token_url: None, credential: credentials }
    }
}

/// Collects configuration a field at a time; `build` checks completeness.
pub struct AppConfigBuilder<State, C: Credential> {
    client_id: Option<String>,
    auth_url: Option<String>,
    token_url: Option<String>,
    credential: Option<C>,
    marker: PhantomData<State>,
}

impl<State, C: Credential> AppConfigBuilder<State, C> {
    /// The collected fields, for stating what `build` returns.
    pub closed spec fn parts(self) -> (Option<String>, Option<String>, Option<String>, Option<C>) {
        (self.client_id, self.auth_url, self.token_url, self.credential)
    }
}

impl AppConfigBuilder<NoCredentials, ResourceOwnerPasswordCredential> {
    pub fn new(client_id: String) -> (r: AppConfigBuilder<
        NoCredentials,
        ResourceOwnerPasswordCredential,
    >)
        ensures
            r.parts() == (Some(client_id), None::<String>, None::<String>, None::<
                ResourceOwnerPasswordCredential,
            >),
    {
        AppConfigBuilder {
            client_id: Some(client_id),
            auth_url: None,
            token_url: None,
            credential: None,
            marker: PhantomData,
        }
    }

    pub fn auth_url(self, auth_url: String) -> (r: AppConfigBuilder<
        NoCredentials,
        ResourceOwnerPasswordCredential,
    >)
        ensures
            r.parts() == (self.parts().0, Some(auth_url), self.parts().2, self.parts().3),
    {
        AppConfigBuilder {
            client_id: self.client_id,
            auth_url: Some(auth_url),
            token_url: self.token_url,
            credential: self.credential,
            marker: PhantomData,
        }
    }

    pub fn with_owner_credentials(self, credentials: ResourceOwnerPasswordCredential) -> (r:
        AppConfigBuilder<WithOwnerCredentials, ResourceOwnerPasswordCredential>)
        ensures
            r.parts() == (self.parts().0, self.parts().1, self.parts().2, Some(credentials)),
    {
        AppConfigBuilder {
            client_id: self.client_id,
            auth_url: self.auth_url,
            token_url: self.token_url,
            credential: Some(credentials),
            marker: PhantomData,
        }
    }

    pub fn with_device_code_credentials(self, credentials: DeviceCodeCredential) -> (r:
        AppConfigBuilder<WithDeviceCredentials, DeviceCodeCredential>)
        ensures
            r.parts() == (self.parts().0, self.parts().1, self.parts().2, Some(credentials)),
    {
        AppConfigBuilder {
            client_id: self.client_id,
            auth_url: self.auth_url,
            token_url: self.token_url,
            credential: Some(credentials),
            marker: PhantomData,
        }
    }
}

impl AppConfigBuilder<WithOwnerCredentials, ResourceOwnerPasswordCredential> {
    /// Succeeds exactly when client id, auth url, and credentials are all set;
    /// the owner flow never carries a token url.
    pub fn build(self) -> (r: Result<AppConfig<ResourceOwnerPasswordCredential>, &'static str>)
        ensures
            r is Ok <==> (self.parts().0 is Some && self.parts().1 is Some && self.parts().3
                is Some),
            r matches Ok(c) ==> {
                &&& Some(c.client_id) == self.parts().0
                &&& Some(c.auth_url) == self.parts().1
                &&& c.token_url is None
                &&& Some(c.credential) == self.parts().3
            },
    {
        let client_id = match self.client_id {
            Some(v) => v,
            None => { return Err("client_id is not set") },
        };
        let auth_url = match self.auth_url {
            Some(v) => v,
            None => { return Err("auth_url is not set") },
        };
        let credential = match self.credential {
            Some(v) => v,
            None => { return Err("Owner credentials not set") },
        };
        Ok(AppConfig { client_id, auth_url, token_url: None, credential })
    }
}

impl AppConfigBuilder<WithDeviceCredentials, DeviceCodeCredential> {
    pub fn token_url(self, token_url: String) -> (r: AppConfigBuilder<
        WithDeviceCredentials,
        DeviceCodeCredential,
    >)
        ensures
            r.parts() == (self.parts().0, self.parts().1, Some(token_url), self.parts().3),
    {
        AppConfigBuilder {
            client_id: self.client_id,
            auth_url: self.auth_url,
            token_url: Some(token_url),
            credential: self.credential,
            marker: PhantomData,
        }
    }

    /// Succeeds exactly when every field, the token url included, is set.
    pub fn build(self) -> (r: Result<AppConfig<DeviceCodeCredential>, &'static str>)
        ensures
            r is Ok <==> (self.parts().0 is Some && self.parts().1 is Some && self.parts().2
                is Some && self.parts().3 is Some),
            r matches Ok(c) ==> {
                &&& Some(c.client_id) == self.parts().0
                &&& Some(c.auth_url) == self.parts().1
                &&& c.token_url == self.parts().2
                &&& Some(c.credential) == self.parts().3
            },
    {
        let client_id = match self.client_id {
            Some(v) => v,
            None => { return Err("client_id is not set") },
        };
        let auth_url = match self.auth_url {
            Some(v) => v,
            None => { return Err("auth_url is not set") },
        };
        let token_url = match self.token_url {
            Some(v) => v,
            None => { return Err("token_url is not set") },
        };
        let credentials = match self.credential {
            Some(v) => v,
            None => { return Err("DeviceCredential not set") },
        };
        Ok(AppConfig { client_id, auth_url, token_url: Some(token_url), credential: credentials })
    }
}

} // verus!
