//! Value objects exchanged with the remote metric API, and the summary shape
//! consumed by the scheduler.

use vstd::prelude::*;

verus! {

/// Body of an account-registration request to the metric API.
pub struct RegisterRequest {
    pub username: String,
    pub password: String,
}

/// Body of a login request to the metric API.
pub struct LoginRequest {
    pub username: String,
    pub password: String,
}

/// Body of a successful authentication response.
pub struct AuthResponse {
    pub token: String,
}

/// Body of a step-count submission.
pub struct StepsRequest {
    pub steps: i64,
}

/// One recorded step-count entry.
pub struct StepsResponse {
    pub steps: i64,
    pub date: Option<String>,
}

/// Daily/monthly/yearly step aggregates returned by the summary endpoint.
pub struct StepsSummaryResponse {
    pub daily: i64,
    pub monthly: i64,
    pub yearly: i64,
}

/// Daily/monthly/yearly water aggregates, pre-formatted by the source API.
pub struct WaterSummaryResponse {
    pub daily_display: String,
    pub monthly_display: String,
    pub yearly_display: String,
}

/// Error body returned by the metric API on a non-success response.
pub struct ErrorResponse {
    pub error: String,
}

} // verus!
