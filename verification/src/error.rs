//! The platform's error type, its HTTP status codes, and its JSON body.

use vstd::prelude::*;
use crate::json::{Json, JsonV};
use crate::text::concat_str;

verus! {

/// The platform's error type.
#[derive(Debug)]
pub enum CasperError {
    Unauthorized,
    Forbidden(String),
    NotFound(String),
    Conflict(String),
    BadRequest(String),
    RateLimited,
    Internal(String),
    Unavailable(String),
    BadGateway(String),
    GatewayTimeout(String),
}

/// The HTTP status code of an error.
pub open spec fn spec_status_code(e: CasperError) -> u16 {
    match e {
        CasperError::Unauthorized => 401,
        CasperError::Forbidden(_) => 403,
        CasperError::NotFound(_) => 404,
        CasperError::Conflict(_) => 409,
        CasperError::BadRequest(_) => 400,
        CasperError::RateLimited => 429,
        CasperError::Internal(_) => 500,
        CasperError::Unavailable(_) => 503,
        CasperError::BadGateway(_) => 502,
        CasperError::GatewayTimeout(_) => 504,
    }
}

/// The machine-readable name of an error.
pub open spec fn spec_variant_name(e: CasperError) -> Seq<char> {
    match e {
        CasperError::Unauthorized => "unauthorized"@,
        CasperError::Forbidden(_) => "forbidden"@,
        CasperError::NotFound(_) => "not_found"@,
        CasperError::Conflict(_) => "conflict"@,
        CasperError::BadRequest(_) => "bad_request"@,
        CasperError::RateLimited => "rate_limited"@,
        CasperError::Internal(_) => "internal"@,
        CasperError::Unavailable(_) => "unavailable"@,
        CasperError::BadGateway(_) => "bad_gateway"@,
        CasperError::GatewayTimeout(_) => "gateway_timeout"@,
    }
}

/// The human-readable message of an error (its `Display` form).
pub open spec fn spec_error_message(e: CasperError) -> Seq<char> {
    match e {
        CasperError::Unauthorized => "Not authenticated"@,
        CasperError::Forbidden(m) => "Insufficient permissions: "@ + m@,
        CasperError::NotFound(m) => "Resource not found: "@ + m@,
        CasperError::Conflict(m) => "Conflict: "@ + m@,
        CasperError::BadRequest(m) => "Bad request: "@ + m@,
        CasperError::RateLimited => "Rate limited"@,
        CasperError::Internal(m) => "Internal error: "@ + m@,
        CasperError::Unavailable(m) => "Service unavailable: "@ + m@,
        CasperError::BadGateway(m) => "Bad gateway: "@ + m@,
        CasperError::GatewayTimeout(m) => "Gateway timeout: "@ + m@,
    }
}

/// Whether retrying cannot help: the request itself was refused.
pub open spec fn spec_is_non_retryable(e: CasperError) -> bool {
    match e {
        CasperError::BadRequest(_) | CasperError::Unauthorized | CasperError::Forbidden(_)
        | CasperError::NotFound(_) => true,
        _ => false,
    }
}

impl CasperError {
    /// The HTTP status code of the error.
    pub fn status_code(&self) -> (r: u16)
        ensures
            r == spec_status_code(*self),
    {
        match self {
            CasperError::Unauthorized => 401,
            CasperError::Forbidden(_) => 403,
            CasperError::NotFound(_) => 404,
            CasperError::Conflict(_) => 409,
            CasperError::BadRequest(_) => 400,
            CasperError::RateLimited => 429,
            CasperError::Internal(_) => 500,
            CasperError::Unavailable(_) => 503,
            CasperError::BadGateway(_) => 502,
            CasperError::GatewayTimeout(_) => 504,
        }
    }

    /// The machine-readable name of the error.
    pub fn variant_name(&self) -> (r: &'static str)
        ensures
            r@ == spec_variant_name(*self),
    {
        match self {
            CasperError::Unauthorized => "unauthorized",
            CasperError::Forbidden(_) => "forbidden",
            CasperError::NotFound(_) => "not_found",
            CasperError::Conflict(_) => "conflict",
            CasperError::BadRequest(_) => "bad_request",
            CasperError::RateLimited => "rate_limited",
            CasperError::Internal(_) => "internal",
            CasperError::Unavailable(_) => "unavailable",
            CasperError::BadGateway(_) => "bad_gateway",
            CasperError::GatewayTimeout(_) => "gateway_timeout",
        }
    }

    /// The human-readable message of the error (its `Display` form).
    pub fn message(&self) -> (r: String)
        ensures
            r@ == spec_error_message(*self),
    {
        match self {
            CasperError::Unauthorized => "Not authenticated".to_string(),
            CasperError::Forbidden(m) => concat_str("Insufficient permissions: ", m),
            CasperError::NotFound(m) => concat_str("Resource not found: ", m),
            CasperError::Conflict(m) => concat_str("Conflict: ", m),
            CasperError::BadRequest(m) => concat_str("Bad request: ", m),
            CasperError::RateLimited => "Rate limited".to_string(),
            CasperError::Internal(m) => concat_str("Internal error: ", m),
            CasperError::Unavailable(m) => concat_str("Service unavailable: ", m),
            CasperError::BadGateway(m) => concat_str("Bad gateway: ", m),
            CasperError::GatewayTimeout(m) => concat_str("Gateway timeout: ", m),
        }
    }

    /// The JSON body of the error: `{"error": <name>, "message": <message>}`.
    pub fn to_json(&self) -> (r: Json)
        ensures
            r@ == JsonV::Object(seq![
                ("error"@, JsonV::Str(spec_variant_name(*self))),
                ("message"@, JsonV::Str(spec_error_message(*self))),
            ]),
    {
        let mut entries: Vec<(String, Json)> = Vec::new();
        entries.push(("error".to_string(), Json::Str(self.variant_name().to_string())));
        entries.push(("message".to_string(), Json::Str(self.message())));
        let r = Json::Object(entries);
        proof {
            crate::json::lemma_view_object(&r);
        }
        assert(r@->Object_0 =~= seq![
            ("error"@, JsonV::Str(spec_variant_name(*self))),
            ("message"@, JsonV::Str(spec_error_message(*self))),
        ]);
        r
    }
}

/// Whether retrying cannot help: the request itself was refused.
pub fn is_non_retryable(err: &CasperError) -> (r: bool)
    ensures
        r == spec_is_non_retryable(*err),
{
    match err {
        CasperError::BadRequest(_) | CasperError::Unauthorized | CasperError::Forbidden(_)
        | CasperError::NotFound(_) => true,
        _ => false,
    }
}

} // verus!
