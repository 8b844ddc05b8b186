//! Credential variants that select which grant flow a client runs.

use vstd::prelude::*;

verus! {

/// Marker trait for the credential types an application config can carry.
pub trait Credential {

}

/// Username and password for the resource-owner password grant.
pub struct ResourceOwnerPasswordCredential {
    pub client_id: String,
    pub username: String,
    pub password: String,
}

impl Credential for ResourceOwnerPasswordCredential {

}

impl ResourceOwnerPasswordCredential {
    pub fn new(username: String, password: String, client_id: String) -> (r:
        ResourceOwnerPasswordCredential)
        ensures
            r.username == username,
            r.password == password,
            r.client_id == client_id,
    {
        ResourceOwnerPasswordCredential { client_id, username, password }
    }
}

/// Client identity for the device-authorization grant.
pub struct DeviceCodeCredential {
    pub client_id: String,
    pub device_code: String,
    pub token_url: String,
}

impl Credential for DeviceCodeCredential {

}

/// Builds credentials from values that the caller read out of the process
/// environment. Reading the environment itself happens outside the library;
/// this type only decides whether what was found is complete.
pub struct EnvironmentCredential;

impl EnvironmentCredential {
    /// A password credential is present exactly when all three variables are.
    pub fn resource_owner_password_credential(
        client_id: Option<String>,
        username: Option<String>,
        password: Option<String>,
    ) -> (r: Option<ResourceOwnerPasswordCredential>)
        ensures
            r is Some <==> (client_id is Some && username is Some && password is Some),
            r matches Some(c) ==> {
                &&& Some(c.client_id) == client_id
                &&& Some(c.username) == username
                &&& Some(c.password) == password
            },
    {
        match (client_id, username, password) {
            (Some(client_id), Some(username), Some(password)) => Some(
                ResourceOwnerPasswordCredential { client_id, username, password },
            ),
            _ => None,
        }
    }
}

} // verus!
