use vstd::prelude::*;
use vstd::string::StringExecFns;

verus! {

/// The fixed endpoint every request is posted to.
pub const API_URL: &'static str = "https://openrouter.ai/api/v1/chat/completions";

/// The authorization header value for an API key: the word `Bearer`, one
/// space, then the key itself.
pub fn bearer_token(api_key: &str) -> (r: String)
    ensures
        r@ == "Bearer "@ + api_key@,
{
    let mut r = String::from_str("Bearer ");
    r.append(api_key);
    r
}

} // verus!
