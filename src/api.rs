//! The messages of the kernel's HTTP façade.
use crate::text::owned;
use crate::trace::Trace;
use vstd::prelude::*;

verus! {

/// The answer to a plan execution request.
pub struct ExecuteResponse {
    pub plan_id: String,
    pub stream_url: String,
    pub status: String,
}

/// The traces of one plan.
pub struct TraceResponse {
    pub plan_id: String,
    pub traces: Vec<Trace>,
}

/// A request for a replay bundle.
pub struct BundleRequest {
    pub plan_id: String,
}

impl ExecuteResponse {
    /// The answer for a completed plan: its traces stream at `/v1/trace/{plan_id}`.
    pub fn completed(plan_id: String) -> (r: ExecuteResponse)
        ensures
            r.plan_id == plan_id,
            r.stream_url@ == "/v1/trace/"@ + plan_id@,
            r.status@ == "completed"@,
    {
        let mut stream_url = owned("/v1/trace/");
        stream_url.append(plan_id.as_str());
        ExecuteResponse { plan_id, stream_url, status: owned("completed") }
    }
}

} // verus!
