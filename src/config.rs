use vstd::prelude::*;

verus! {

/// What a session needs to log in: the capabilities to request, the channel
/// to join, the login name and the auth token.
#[derive(Debug, Clone)]
pub struct AuthConfig {
    pub capabilities: String,
    pub broadcaster: String,
    pub username: String,
    pub token: String,
}

} // verus!
