use super::base::AuthConfig;
use vstd::prelude::*;
use vstd::string::StringExecFns;

verus! {

pub enum OAuthProvider {
    Google,
    GitHub,
    Facebook,
}

pub struct OAuthToken {
    pub provider: String,
    pub access_token: String,
    pub refresh_token: Option<String>,
}

/// The name under which a provider is known.
pub open spec fn provider_name(provider: OAuthProvider) -> Seq<char> {
    match provider {
        OAuthProvider::Google => "google"@,
        OAuthProvider::GitHub => "github"@,
        OAuthProvider::Facebook => "facebook"@,
    }
}

/// Exchanges an authorisation code of a provider for a token. An empty code
/// is refused; any other yields the provider's name, the access token made
/// of that name, an underscore and the code, and a refresh token.
pub fn oauth_authenticate(provider: OAuthProvider, code: &str, config: &AuthConfig) -> (r: Result<
    OAuthToken,
    String,
>)
    ensures
        code@.len() == 0 ==> (r matches Err(e) && e@ == "Invalid OAuth code"@),
        code@.len() > 0 ==> (r matches Ok(token) && token.provider@ == provider_name(provider)
            && token.access_token@ == provider_name(provider) + "_"@ + code@
            && (token.refresh_token matches Some(refresh) && refresh@ == "refresh_token"@)),
{
    if code.is_empty() {
        return Err("Invalid OAuth code".to_owned());
    }
    let provider_name: &str = match provider {
        OAuthProvider::Google => "google",
        OAuthProvider::GitHub => "github",
        OAuthProvider::Facebook => "facebook",
    };
    Ok(
        OAuthToken {
            provider: provider_name.to_owned(),
            access_token: provider_name.to_owned().concat("_").concat(code),
            refresh_token: Some("refresh_token".to_owned()),
        },
    )
}

} // verus!
