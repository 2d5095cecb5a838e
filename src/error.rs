use vstd::prelude::*;

verus! {

/// The kinds of failure that the library reports.
#[derive(Clone, Copy, PartialEq, Eq, Debug, Structural)]
pub enum ErrorCode {
    EINTERNAL,
    EINVALID,
    EUNAUTHORIZED,
    EFORBIDDEN,
    EUNKNOWN,
    ENOTFOUND,
    ECONFLICT,
    ENOTIMPLEMENTED,
}

impl ErrorCode {
    /// The human readable text of each code.
    pub open spec fn text(self) -> Seq<char> {
        match self {
            ErrorCode::EINTERNAL => "internal server error"@,
            ErrorCode::EINVALID => "invalid"@,
            ErrorCode::EFORBIDDEN => "forbidden"@,
            ErrorCode::EUNKNOWN => "unknown"@,
            ErrorCode::ENOTFOUND => "not found"@,
            ErrorCode::ECONFLICT => "conflict"@,
            ErrorCode::EUNAUTHORIZED => "unauthorized"@,
            ErrorCode::ENOTIMPLEMENTED => "not implemented"@,
        }
    }

    /// The HTTP status that each code maps to.
    pub open spec fn http_status(self) -> u16 {
        match self {
            ErrorCode::EINTERNAL => 500,
            ErrorCode::EINVALID => 400,
            ErrorCode::EFORBIDDEN => 403,
            ErrorCode::EUNKNOWN => 500,
            ErrorCode::ENOTFOUND => 404,
            ErrorCode::ECONFLICT => 409,
            ErrorCode::EUNAUTHORIZED => 401,
            ErrorCode::ENOTIMPLEMENTED => 501,
        }
    }

    /// Returns the error code as a string.
    pub fn as_str(&self) -> (r: &'static str)
        ensures
            r@ == self.text(),
    {
        match self {
            ErrorCode::EINTERNAL => "internal server error",
            ErrorCode::EINVALID => "invalid",
            ErrorCode::EFORBIDDEN => "forbidden",
            ErrorCode::EUNKNOWN => "unknown",
            ErrorCode::ENOTFOUND => "not found",
            ErrorCode::ECONFLICT => "conflict",
            ErrorCode::EUNAUTHORIZED => "unauthorized",
            ErrorCode::ENOTIMPLEMENTED => "not implemented",
        }
    }

    /// Returns the error code as an HTTP status code.
    pub fn as_http_status(&self) -> (r: u16)
        ensures
            r == self.http_status(),
    {
        match self {
            ErrorCode::EINTERNAL => 500,
            ErrorCode::EINVALID => 400,
            ErrorCode::EFORBIDDEN => 403,
            ErrorCode::EUNKNOWN => 500,
            ErrorCode::ENOTFOUND => 404,
            ErrorCode::ECONFLICT => 409,
            ErrorCode::EUNAUTHORIZED => 401,
            ErrorCode::ENOTIMPLEMENTED => 501,
        }
    }
}

/// An error of the application: a code and a message for people.
#[derive(Debug, PartialEq)]
pub struct Error {
    pub code: ErrorCode,
    pub message: String,
}

impl Error {
    pub fn new(code: ErrorCode, message: String) -> (r: Error)
        ensures
            r.code == code,
            r.message@ == message@,
    {
        Error { code, message }
    }

    /// Builds an error whose message is the given text.
    pub(crate) fn with_text(code: ErrorCode, message: &str) -> (r: Error)
        ensures
            r.code == code,
            r.message@ == message@,
    {
        Error { code, message: String::from_str(message) }
    }

    /// The text `code='<code>' message='<message>'`.
    pub fn describe(&self) -> (r: String)
        ensures
            r@ == "code='"@ + self.code.text() + "' message='"@ + self.message@ + "'"@,
    {
        let mut s = String::from_str("code='");
        s.append(self.code.as_str());
        s.append("' message='");
        s.append(self.message.as_str());
        s.append("'");
        s
    }
}

} // verus!
