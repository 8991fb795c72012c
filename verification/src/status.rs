//! The closed set of status codes a response can carry.

use vstd::prelude::*;

verus! {

/// Status of a response: the four codes the server ever emits.
#[derive(Clone, Copy, Debug, PartialEq, Eq, Structural)]
pub enum StatusCode {
    Okay,
    NotFound,
    MethodNotAllowed,
    InternalServerError,
}

/// The numeric code of a status.
pub open spec fn code_spec(s: StatusCode) -> u16 {
    match s {
        StatusCode::Okay => 200,
        StatusCode::NotFound => 404,
        StatusCode::MethodNotAllowed => 405,
        StatusCode::InternalServerError => 500,
    }
}

/// The reason phrase of a status.
pub open spec fn reason_spec(s: StatusCode) -> Seq<char> {
    match s {
        StatusCode::Okay => "OK"@,
        StatusCode::NotFound => "Not Found"@,
        StatusCode::MethodNotAllowed => "Method Not Allowed"@,
        StatusCode::InternalServerError => "Internal Server Error"@,
    }
}

impl StatusCode {
    /// The numeric code, as it stands in the status line.
    pub fn code(&self) -> (r: u16)
        ensures
            r == code_spec(*self),
    {
        match self {
            StatusCode::Okay => 200,
            StatusCode::NotFound => 404,
            StatusCode::MethodNotAllowed => 405,
            StatusCode::InternalServerError => 500,
        }
    }

    /// The reason phrase, as it stands in the status line and in the body of
    /// an error response.
    pub fn reason(&self) -> (r: &'static str)
        ensures
            r@ == reason_spec(*self),
    {
        match self {
            StatusCode::Okay => "OK",
            StatusCode::NotFound => "Not Found",
            StatusCode::MethodNotAllowed => "Method Not Allowed",
            StatusCode::InternalServerError => "Internal Server Error",
        }
    }
}

impl Default for StatusCode {
    /// A fresh response is a 200 unless a code is set.
    fn default() -> (r: Self)
        ensures
            r == StatusCode::Okay,
    {
        StatusCode::Okay
    }
}

} // verus!
