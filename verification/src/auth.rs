//! Authorization passthrough: only a strictly well-formed bearer
//! credential is ever forwarded to a backend instance. Any other
//! scheme, a malformed bearer value, or an absent header forwards
//! nothing — never an error, never a fallback credential.

use vstd::prelude::*;
use vstd::string::StrSliceExecFns;
use vstd::string::StringExecFns;
use crate::text::spec_starts_with;
use crate::text::str_starts_with;

verus! {

/// Authorization header credential forwarded to a backend instance
/// through a request's extension bag.
#[derive(Clone, Debug)]
pub struct AuthorizationHeader(pub String);

/// The view of an optional header value.
pub open spec fn opt_str_view(h: Option<&str>) -> Option<Seq<char>> {
    match h {
        Some(s) => Some(s@),
        None => None,
    }
}

/// The view of a forwarded credential.
pub open spec fn cred_view(c: Option<AuthorizationHeader>) -> Option<Seq<char>> {
    match c {
        Some(a) => Some(a.0@),
        None => None,
    }
}

/// The credential a request forwards: the token of a well-formed
/// `Bearer` header, and nothing in every other case.
pub open spec fn spec_bearer(h: Option<Seq<char>>) -> Option<Seq<char>> {
    match h {
        Some(s) => if s.len() > 7 && s.subrange(0, 7) == "Bearer "@ {
            Some(s.subrange(7, s.len() as int))
        } else {
            None
        },
        None => None,
    }
}

/// Extracts the bearer credential from an authorization header value,
/// if and only if the value is `Bearer` followed by a nonempty token.
pub fn extract_bearer(h: Option<&str>) -> (r: Option<AuthorizationHeader>)
    ensures
        match r {
            Some(a) => spec_bearer(opt_str_view(h)) == Some(a.0@),
            None => spec_bearer(opt_str_view(h)) is None,
        },
{
    proof {
        reveal_strlit("Bearer ");
    }
    match h {
        None => None,
        Some(s) => {
            let len = s.unicode_len();
            if len > 7 && str_starts_with(s, "Bearer ") {
                let token = s.substring_char(7, len);
                Some(AuthorizationHeader(String::from_str(token)))
            } else {
                None
            }
        },
    }
}

} // verus!
