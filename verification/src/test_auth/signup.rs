use super::base::AuthConfig;
use crate::text::contains_char;
use vstd::prelude::*;
use vstd::string::{StringExecFns, StringSliceAdditionalSpecFns};
use vstd::utf8::encode_utf8;

verus! {

pub struct SignupData {
    pub username: String,
    pub email: String,
    pub password: String,
}

/// The number of bytes that a text takes.
pub open spec fn byte_len(s: Seq<char>) -> nat {
    encode_utf8(s).len()
}

/// Registers a user. The name needs three bytes or more, the address an
/// `@`, the password eight bytes or more; the first of these that fails
/// names the error.
pub fn register_user(data: &SignupData, config: &AuthConfig) -> (r: Result<String, String>)
    ensures
        byte_len(data.username@) < 3 ==> (r matches Err(e) && e@ == "Username too short"@),
        byte_len(data.username@) >= 3 && !data.email@.contains('@') ==> (r matches Err(e) && e@
            == "Invalid email"@),
        byte_len(data.username@) >= 3 && data.email@.contains('@') && byte_len(data.password@) < 8
            ==> (r matches Err(e) && e@ == "Password too short"@),
        byte_len(data.username@) >= 3 && data.email@.contains('@') && byte_len(data.password@) >= 8
            ==> (r matches Ok(message) && message@ == "User "@ + data.username@ + " registered"@),
{
    if data.username.as_str().as_bytes().len() < 3 {
        return Err("Username too short".to_owned());
    }
    if !contains_char(data.email.as_str(), '@') {
        return Err("Invalid email".to_owned());
    }
    if data.password.as_str().as_bytes().len() < 8 {
        return Err("Password too short".to_owned());
    }
    Ok("User ".to_owned().concat(data.username.as_str()).concat(" registered"))
}

} // verus!
