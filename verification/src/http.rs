//! Requests to the API and what comes back.

use crate::text::decimal;
use vstd::prelude::*;

verus! {

/// The address that every request starts with.
pub const API_BASE_URL: &'static str = "https://cloud.lambdalabs.com/api/v1";

/// How long a request may take in all, in seconds.
pub const DEFAULT_TIMEOUT_SECS: u64 = 30;

/// How long connecting may take, in seconds.
pub const CONNECT_TIMEOUT_SECS: u64 = 10;

/// What is to be done at the address of a request.
#[derive(Debug, Clone, Copy, PartialEq, Eq, Structural)]
pub enum Method {
    Get,
    Post,
    Delete,
}

/// A request: where it goes and the JSON document it carries.
#[derive(Debug)]
pub struct ApiRequest {
    pub method: Method,
    pub url: String,
    pub body: Option<serde_json::Value>,
}

/// An HTTP status code: a number of three digits.
#[derive(Debug, Clone, Copy)]
pub struct HttpStatus {
    code: u16,
}

/// The reason that `StatusCode` of the `http` crate shows behind a code.
pub uninterp spec fn status_reason(code: u16) -> Seq<char>;

/// A status as it is shown: its code, a blank and its reason.
pub open spec fn status_shown(code: u16) -> Seq<char> {
    decimal(code as nat) + " "@ + status_reason(code)
}

/// `reqwest::StatusCode::from_u16` and the `Display` of its result. A code is
/// accepted when it has three digits, and is shown as its number, a blank and a
/// reason that depends on the number alone. Which reason belongs to which code is
/// not stated.
#[verifier::external_body]
fn show_status(code: u16) -> (shown: Option<String>)
    ensures
        shown is Some <==> 100 <= code <= 999,
        shown is Some ==> shown->0@ == decimal(code as nat) + " "@ + status_reason(code),
{
    match reqwest::StatusCode::from_u16(code) {
        Ok(status) => Some(status.to_string()),
        Err(_) => None,
    }
}

impl HttpStatus {
    #[verifier::type_invariant]
    spec fn three_digits(self) -> bool {
        100 <= self.code <= 999
    }

    /// The number of the status.
    pub closed spec fn number(self) -> u16 {
        self.code
    }

    /// The status says that the request succeeded.
    pub open spec fn succeeds(self) -> bool {
        200 <= self.number() <= 299
    }

    /// The status with the given code. A code that has not three digits is none.
    pub fn from_code(code: u16) -> (status: Option<HttpStatus>)
        ensures
            status is Some <==> 100 <= code <= 999,
            status is Some ==> status->0.number() == code,
    {
        if 100 <= code && code <= 999 {
            Some(HttpStatus { code })
        } else {
            None
        }
    }

    /// Whether the status says that the request succeeded.
    pub fn is_success(&self) -> (success: bool)
        ensures
            success == self.succeeds(),
    {
        200 <= self.code && self.code <= 299
    }

    /// The status as it is shown: its code, a blank and its reason.
    pub fn text(&self) -> (text: String)
        ensures
            text@ == status_shown(self.number()),
    {
        proof {
            use_type_invariant(self);
        }
        match show_status(self.code) {
            Some(text) => text,
            None => String::new(),
        }
    }
}

/// A request may take half a minute in all and ten seconds to connect.
pub proof fn request_times_are_limited()
    ensures
        DEFAULT_TIMEOUT_SECS == 30,
        CONNECT_TIMEOUT_SECS == 10,
{
}

} // verus!
