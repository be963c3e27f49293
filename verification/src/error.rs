//! Forge core's errors and how each is answered over HTTP.

use vstd::prelude::*;

verus! {

/// Why a forge core request failed.
#[derive(Debug)]
pub enum ForgeError {
    NotFound(String),
    Validation(String),
    Unauthorized,
    BuildFailed(String),
    RuntimeError(String),
    Internal(String),
}

impl ForgeError {
    /// The text that describes the error.
    pub open spec fn spec_message(&self) -> Seq<char> {
        match self {
            ForgeError::NotFound(m) => "not found: "@ + m@,
            ForgeError::Validation(m) => "validation error: "@ + m@,
            ForgeError::Unauthorized => "unauthorized"@,
            ForgeError::BuildFailed(m) => "build failed: "@ + m@,
            ForgeError::RuntimeError(m) => "runtime error: "@ + m@,
            ForgeError::Internal(m) => "internal error: "@ + m@,
        }
    }

    /// The HTTP status the error is answered with.
    pub open spec fn spec_status(&self) -> u16 {
        match self {
            ForgeError::NotFound(_) => 404,
            ForgeError::Validation(_) => 400,
            ForgeError::Unauthorized => 401,
            _ => 500,
        }
    }

    /// The machine-readable code of the error.
    pub open spec fn spec_code(&self) -> Seq<char> {
        match self {
            ForgeError::NotFound(_) => "NOT_FOUND"@,
            ForgeError::Validation(_) => "VALIDATION_ERROR"@,
            ForgeError::Unauthorized => "UNAUTHORIZED"@,
            ForgeError::BuildFailed(_) => "BUILD_FAILED"@,
            ForgeError::RuntimeError(_) => "RUNTIME_ERROR"@,
            ForgeError::Internal(_) => "INTERNAL_ERROR"@,
        }
    }

    /// The text that describes the error.
    pub fn message(&self) -> (s: String)
        ensures
            s@ == self.spec_message(),
    {
        match self {
            ForgeError::NotFound(m) => String::from_str("not found: ").concat(m.as_str()),
            ForgeError::Validation(m) => String::from_str("validation error: ").concat(m.as_str()),
            ForgeError::Unauthorized => String::from_str("unauthorized"),
            ForgeError::BuildFailed(m) => String::from_str("build failed: ").concat(m.as_str()),
            ForgeError::RuntimeError(m) => String::from_str("runtime error: ").concat(m.as_str()),
            ForgeError::Internal(m) => String::from_str("internal error: ").concat(m.as_str()),
        }
    }

    /// The HTTP status and code the error is answered with; the body is
    /// `{"error": {"code": code, "message": message}}`.
    pub fn status_and_code(&self) -> (r: (u16, &'static str))
        ensures
            r.0 == self.spec_status(),
            r.1@ == self.spec_code(),
    {
        match self {
            ForgeError::NotFound(_) => (404, "NOT_FOUND"),
            ForgeError::Validation(_) => (400, "VALIDATION_ERROR"),
            ForgeError::Unauthorized => (401, "UNAUTHORIZED"),
            ForgeError::BuildFailed(_) => (500, "BUILD_FAILED"),
            ForgeError::RuntimeError(_) => (500, "RUNTIME_ERROR"),
            ForgeError::Internal(_) => (500, "INTERNAL_ERROR"),
        }
    }
}

} // verus!
