use super::base::AuthConfig;
use vstd::prelude::*;
use vstd::string::StringExecFns;

verus! {

pub struct LoginCredentials {
    pub username: String,
    pub password: String,
}

/// The token of a user: the name, an underscore and the secret.
pub open spec fn token_of(username: Seq<char>, secret: Seq<char>) -> Seq<char> {
    username + "_"@ + secret
}

/// Signs a user in. Credentials with an empty name or an empty password are
/// refused; all others get the user's token.
pub fn authenticate(creds: &LoginCredentials, config: &AuthConfig) -> (r: Result<String, String>)
    ensures
        creds.username@.len() == 0 || creds.password@.len() == 0 ==> (r matches Err(e) && e@
            == "Invalid credentials"@),
        creds.username@.len() > 0 && creds.password@.len() > 0 ==> (r matches Ok(token) && token@
            == token_of(creds.username@, config.secret_key@)),
{
    if creds.username.as_str().is_empty() || creds.password.as_str().is_empty() {
        return Err("Invalid credentials".to_owned());
    }
    let token = creds.username.clone().concat("_").concat(config.secret_key.as_str());
    Ok(token)
}

} // verus!
