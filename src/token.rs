//! The access-token answer of the OAuth endpoint.
use vstd::prelude::*;
use crate::json::{json_str_field, json_u64_field, str_field_of_json, u64_field_of_json};

verus! {

/// The access token and its lifetime in seconds, read from an OAuth answer:
/// present when `access_token` is a string and `expires_in` an unsigned
/// integer.
pub fn parse_token_response(body: &[u8]) -> (r: Option<(String, u64)>)
    ensures
        match r {
            Some((token, expires_in)) => json_str_field(body@, "access_token"@) == Some(token@)
                && json_u64_field(body@, "expires_in"@) == Some(expires_in),
            None => json_str_field(body@, "access_token"@) is None
                || json_u64_field(body@, "expires_in"@) is None,
        },
{
    let token = str_field_of_json(body, "access_token");
    let expires_in = u64_field_of_json(body, "expires_in");
    match (token, expires_in) {
        (Some(t), Some(e)) => Some((t, e)),
        _ => None,
    }
}

} // verus!
