//! The bearer-token check every request passes, with the health paths
//! exempted.

use vstd::prelude::*;
use crate::text;

verus! {

pub open spec fn is_health_path(p: Seq<char>) -> bool {
    p == "/health"@ || p == "/health/live"@ || p == "/health/ready"@
}

/// Whether a request passes authentication: health paths always do;
/// anything else needs an `Authorization` header of `Bearer <token>`
/// matching the configured token exactly.
pub open spec fn auth_ok_spec(
    path: Seq<char>,
    header: Option<Seq<char>>,
    token: Option<Seq<char>>,
) -> bool {
    if is_health_path(path) {
        true
    } else {
        match header {
            Some(h) => text::spec_starts_with(h, "Bearer "@) && match token {
                Some(t) => h.skip("Bearer "@.len() as int) == t,
                None => false,
            },
            None => false,
        }
    }
}

pub fn check_auth(path: &str, auth_header: Option<&str>, token: Option<&str>) -> (r: bool)
    ensures
        r == auth_ok_spec(
            path@,
            match auth_header {
                Some(h) => Some(h@),
                None => None,
            },
            match token {
                Some(t) => Some(t@),
                None => None,
            },
        ),
{
    proof {
        reveal_strlit("/health");
        reveal_strlit("/health/live");
        reveal_strlit("/health/ready");
        reveal_strlit("Bearer ");
    }
    if text::str_eq(path, "/health") || text::str_eq(path, "/health/live") || text::str_eq(
        path,
        "/health/ready",
    ) {
        return true;
    }
    match auth_header {
        Some(h) => {
            if !text::starts_with(h, "Bearer ") {
                return false;
            }
            let presented = text::suffix_from(h, 7);
            match token {
                Some(t) => text::str_eq(presented.as_str(), t),
                None => false,
            }
        },
        None => false,
    }
}

} // verus!
