//! The health report derived from the snapshot.
use vstd::prelude::*;
use crate::snapshot::ZtState;

verus! {

/// The health report: `healthy` when the last cycle reached the node,
/// `degraded` otherwise.
#[derive(Debug, Clone, Copy)]
pub struct HealthResponse {
    pub status: &'static str,
    pub zt_connected: bool,
    pub version: &'static str,
}

/// The node was reached in the last cycle: a status and no error.
pub open spec fn connected(zt: ZtState) -> bool {
    zt.status is Some && zt.error is None
}

/// The health report for the snapshot `zt`, naming the running `version`.
pub fn health_check(zt: &ZtState, version: &'static str) -> (r: HealthResponse)
    ensures
        r.zt_connected == connected(*zt),
        r.status@ == (if connected(*zt) { "healthy"@ } else { "degraded"@ }),
        r.version == version,
{
    let zt_connected = zt.status.is_some() && zt.error.is_none();
    HealthResponse {
        status: if zt_connected {
            "healthy"
        } else {
            "degraded"
        },
        zt_connected,
        version,
    }
}

} // verus!
