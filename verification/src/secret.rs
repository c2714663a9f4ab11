//! The credentials the chat client authenticates with, as plain values.
//! Loading them from disk is the host's job.

use vstd::prelude::*;

verus! {

/// All secrets the application needs.
#[derive(Debug, Clone, PartialEq, Eq)]
pub struct Secrets {
    pub client: SecretClient,
}

/// The registered client's credentials.
#[derive(Debug, Clone, PartialEq, Eq)]
pub struct SecretClient {
    pub client_id: String,
    pub client_secret: String,
}

} // verus!
