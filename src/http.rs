//! The decisions of the HTTP front door: who may read the metrics, and the
//! response to a metrics request.
use vstd::prelude::*;
use vstd::string::StringExecFns;

use crate::metrics::{generate_metrics_output, render_text, MetricsStore};

verus! {

/// The media type of the metrics body.
pub const OPENMETRICS_CONTENT_TYPE: &'static str = "application/openmetrics-text; version=1.0.0; charset=utf-8";

/// The body of the liveness probe.
pub const HEALTH_BODY: &'static str = "OK";

/// A caller may read the metrics: no token is configured, or the
/// `Authorization` header is exactly `Bearer <token>`.
pub open spec fn authorized_spec(token: Option<Seq<char>>, header: Option<Seq<char>>) -> bool {
    match token {
        None => true,
        Some(t) => header == Some("Bearer "@ + t),
    }
}

/// The text of an optional string slice.
pub open spec fn opt_str_view(o: Option<&str>) -> Option<Seq<char>> {
    match o {
        Some(s) => Some(s@),
        None => None,
    }
}

/// Whether a request with this `Authorization` header may read the metrics.
pub fn is_authorized(bearer_token: Option<&str>, header: Option<&str>) -> (r: bool)
    ensures
        r == authorized_spec(opt_str_view(bearer_token), opt_str_view(header)),
{
    match bearer_token {
        None => true,
        Some(t) => match header {
            None => false,
            Some(h) => {
                let mut expected = String::from_str("Bearer ");
                expected.append(t);
                let given = h.to_owned();
                given == expected
            },
        },
    }
}

/// The answer to a metrics request.
#[derive(Clone, Debug)]
pub struct MetricsResponse {
    /// 200 or 401.
    pub status: u16,
    /// The media type of the body, on success.
    pub content_type: Option<String>,
    pub body: String,
}

/// Answers a metrics request: 401 with a fixed body when the caller is not
/// authorized, else 200 with the OpenMetrics text of the store.
pub fn metrics_response(store: &MetricsStore, bearer_token: Option<&str>, header: Option<&str>) -> (r: MetricsResponse)
    ensures
        authorized_spec(opt_str_view(bearer_token), opt_str_view(header)) ==> {
            &&& r.status == 200
            &&& r.body@ == render_text(store@)
            &&& r.content_type matches Some(c) && c@ == OPENMETRICS_CONTENT_TYPE@
        },
        !authorized_spec(opt_str_view(bearer_token), opt_str_view(header)) ==> {
            &&& r.status == 401
            &&& r.body@ == "Unauthorized"@
            &&& r.content_type is None
        },
{
    if is_authorized(bearer_token, header) {
        MetricsResponse {
            status: 200,
            content_type: Some(String::from_str(OPENMETRICS_CONTENT_TYPE)),
            body: generate_metrics_output(store),
        }
    } else {
        MetricsResponse { status: 401, content_type: None, body: String::from_str("Unauthorized") }
    }
}

} // verus!
