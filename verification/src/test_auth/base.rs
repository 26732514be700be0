use vstd::prelude::*;

verus! {

/// Settings shared by every way of signing in.
pub struct AuthConfig {
    pub secret_key: String,
    pub token_expiry: u64,
    pub max_attempts: u32,
    pub lockout_duration: u64,
}

impl AuthConfig {
    /// The settings for `secret`: tokens last an hour, and five failed
    /// attempts lock an account for a quarter of an hour.
    pub fn new(secret: &str) -> (config: Self)
        ensures
            config.secret_key@ == secret@,
            config.token_expiry == 3600,
            config.max_attempts == 5,
            config.lockout_duration == 900,
    {
        AuthConfig {
            secret_key: secret.to_owned(),
            token_expiry: 3600,
            max_attempts: 5,
            lockout_duration: 900,
        }
    }
}

} // verus!
