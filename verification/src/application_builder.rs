//! A thin wrapper pairing an application with its configuration.

use vstd::prelude::*;
use crate::app_config::AppConfig;
use crate::credentials::Credential;

verus! {

/// A public (non-confidential) OAuth2 application.
pub struct PublicApplication<C: Credential> {
    pub config: AppConfig<C>,
}

} // verus!
