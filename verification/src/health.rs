//! The health and readiness payloads.

use vstd::prelude::*;
use crate::api::{HealthCheckResponse, ReadinessCheckResponse};
use crate::num;

verus! {

/// The uptime display: whole seconds with an `s` suffix.
pub fn uptime_text(secs: u64) -> (r: String)
    ensures
        r@ == num::dec_digits(secs as nat) + "s"@,
{
    proof {
        reveal_strlit("s");
    }
    let mut s = num::u64_to_dec(secs);
    s.append("s");
    s
}

pub fn health_response(uptime_secs: u64, version: String) -> (r: HealthCheckResponse)
    ensures
        r.health_status@ == "ok"@,
        r.uptime@ == num::dec_digits(uptime_secs as nat) + "s"@,
        r.version == version,
{
    HealthCheckResponse {
        health_status: String::from_str("ok"),
        uptime: uptime_text(uptime_secs),
        version,
    }
}

pub fn readiness_response(workspace_accessible: bool) -> (r: ReadinessCheckResponse)
    ensures
        r.readiness_status@ == (if workspace_accessible {
            "ready"@
        } else {
            "not_ready"@
        }),
        r.workspace == workspace_accessible,
{
    if workspace_accessible {
        ReadinessCheckResponse {
            readiness_status: String::from_str("ready"),
            workspace: workspace_accessible,
        }
    } else {
        ReadinessCheckResponse {
            readiness_status: String::from_str("not_ready"),
            workspace: workspace_accessible,
        }
    }
}

} // verus!
