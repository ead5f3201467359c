//! What every request to the provider carries.

use vstd::prelude::*;
use vstd::string::StringExecFns;

verus! {

/// The media type that the requests accept.
pub const ACCEPT_MEDIA_TYPE: &'static str = "application/vnd.github.v3+json";

/// The name under which the client announces itself.
pub const USER_AGENT: &'static str = "bus_factor";

/// The value of the `authorization` header for a personal access token:
/// the word `token`, a space, and the token.
pub fn authorization_value(token: &str) -> (value: String)
    ensures
        value@ == "token "@ + token@,
{
    let mut value: String = String::from_str("token ");
    value.append(token);
    value
}

} // verus!
