//! The JSON envelope every control-plane response is wrapped in, and the
//! process exit codes the CLI reports to agent tooling.

use vstd::prelude::*;

verus! {

/// Stable process exit codes for agent tooling.
#[derive(Debug, Clone, Copy, PartialEq, Eq, Structural)]
pub enum ExitCode {
    Success,
    Usage,
    DesktopUnavailable,
    StateConflict,
    Capture,
    Encode,
    ConfigIo,
}

/// The number each exit code stands for.
pub open spec fn exit_number(c: ExitCode) -> i32 {
    match c {
        ExitCode::Success => 0,
        ExitCode::Usage => 1,
        ExitCode::DesktopUnavailable => 2,
        ExitCode::StateConflict => 3,
        ExitCode::Capture => 4,
        ExitCode::Encode => 5,
        ExitCode::ConfigIo => 6,
    }
}

impl ExitCode {
    pub fn as_i32(self) -> (r: i32)
        ensures
            r == exit_number(self),
    {
        match self {
            ExitCode::Success => 0,
            ExitCode::Usage => 1,
            ExitCode::DesktopUnavailable => 2,
            ExitCode::StateConflict => 3,
            ExitCode::Capture => 4,
            ExitCode::Encode => 5,
            ExitCode::ConfigIo => 6,
        }
    }
}

/// Distinct exit codes report distinct numbers.
pub proof fn lemma_exit_numbers_distinct(a: ExitCode, b: ExitCode)
    ensures
        exit_number(a) == exit_number(b) <==> a == b,
{
}

#[derive(Debug)]
pub struct ApiError {
    pub code: String,
    pub message: String,
}

impl Clone for ApiError {
    fn clone(&self) -> (r: Self)
        ensures
            r == *self,
    {
        ApiError { code: self.code.clone(), message: self.message.clone() }
    }
}

impl ApiError {
    pub fn new(code: &str, message: &str) -> (r: Self)
        ensures
            r.code@ == code@,
            r.message@ == message@,
    {
        ApiError { code: code.to_owned(), message: message.to_owned() }
    }
}

/// `{ ok, data?, error? }`: exactly one of `data` and `error` is present,
/// and `ok` says which.
#[derive(Debug)]
pub struct Envelope<T> {
    pub ok: bool,
    pub data: Option<T>,
    pub error: Option<ApiError>,
}

impl<T> Envelope<T> {
    pub fn ok(data: T) -> (r: Self)
        ensures
            r.ok,
            r.data == Some(data),
            r.error is None,
    {
        Envelope { ok: true, data: Some(data), error: None }
    }

    pub fn err(code: &str, message: &str) -> (r: Envelope<()>)
        ensures
            !r.ok,
            r.data is None,
            r.error matches Some(e) && e.code@ == code@ && e.message@ == message@,
    {
        Envelope { ok: false, data: None, error: Some(ApiError::new(code, message)) }
    }

    pub fn from_result(result: Result<T, ApiError>) -> (r: Self)
        ensures
            r.ok == result is Ok,
            match result {
                Ok(d) => r.data == Some(d) && r.error is None,
                Err(e) => r.data is None && r.error == Some(e),
            },
    {
        match result {
            Ok(data) => Self::ok(data),
            Err(error) => Envelope { ok: false, data: None, error: Some(error) },
        }
    }
}

} // verus!
