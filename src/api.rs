use vstd::prelude::*;

verus! {

/// Body of a request that creates a rule.
#[derive(Clone, Debug)]
pub struct CreateRuleRequest {
    pub name: String,
    pub source: String,
    pub target: String,
    pub timeout_secs: u64,
}

/// Body of a request that replaces a rule.
#[derive(Clone, Debug)]
pub struct UpdateRuleRequest {
    pub name: String,
    pub source: String,
    pub target: String,
    pub timeout_secs: u64,
    pub enabled: bool,
}

/// Body of a request that enables or disables a rule.
#[derive(Clone, Debug)]
pub struct ToggleRuleRequest {
    pub enabled: bool,
}

/// Body of a request that changes a setting.
#[derive(Clone, Debug)]
pub struct UpdateConfigRequest {
    pub value: String,
}

/// Envelope of every administration answer.
#[derive(Clone, Debug)]
pub struct ApiResponse<T> {
    pub success: bool,
    pub data: Option<T>,
    pub message: Option<String>,
}

impl<T> ApiResponse<T> {
    /// A successful answer carrying `data`.
    pub fn ok(data: T) -> (r: Self)
        ensures
            r.success,
            r.data == Some(data),
            r.message is None,
    {
        ApiResponse { success: true, data: Some(data), message: None }
    }
}

/// What the administration interface reports of the proxy.
#[derive(Clone, Debug)]
pub struct ProxyStatus {
    pub running: bool,
    pub port: u16,
    pub rules_count: usize,
    pub direct_proxy_path: String,
}

/// A logged-in administrator's session.
#[derive(Clone, Debug)]
pub struct Session {
    pub username: String,
    pub expires_at: i64,
}

/// Body of a login request.
#[derive(Clone, Debug)]
pub struct LoginRequest {
    pub username: String,
    pub password: String,
}

/// Answer to a login request.
#[derive(Clone, Debug)]
pub struct LoginResponse {
    pub success: bool,
    pub token: Option<String>,
    pub message: Option<String>,
}

} // verus!
