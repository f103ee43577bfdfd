//! The server's error: an HTTP status, a code and a message.
use vstd::prelude::*;
use super::json::json_error_text;
use serde_json::Error as JsonError;

verus! {

/// An error answered with the HTTP status `status` and a body holding the
/// code and the message.
#[derive(Debug)]
pub struct Error {
    pub status: u16,
    pub code: u32,
    pub message: String,
}

impl Clone for Error {
    fn clone(&self) -> (r: Self)
        ensures
            r == *self,
    {
        Error { status: self.status, code: self.code, message: self.message.clone() }
    }
}

/// Whether `e` has the status, code and message given.
pub open spec fn is_server_error(e: Error, status: u16, code: u32, message: Seq<char>) -> bool {
    e.status == status && e.code == code && e.message@ == message
}

impl Error {
    /// An error answered with status 500.
    #[allow(non_snake_case)]
    pub fn InternalServerError(code: u32, message: &str) -> (e: Self)
        ensures
            is_server_error(e, 500, code, message@),
    {
        Self::new(code, message, 500)
    }

    /// An error answered with status 400.
    #[allow(non_snake_case)]
    pub fn BadRequest(code: u32, message: &str) -> (e: Self)
        ensures
            is_server_error(e, 400, code, message@),
    {
        Self::new(code, message, 400)
    }

    /// An error answered with status 422.
    #[allow(non_snake_case)]
    pub fn UnprocessableEntity(code: u32, message: &str) -> (e: Self)
        ensures
            is_server_error(e, 422, code, message@),
    {
        Self::new(code, message, 422)
    }

    /// An error with the code, message and status given.
    pub fn new(code: u32, message: &str, status: u16) -> (e: Self)
        ensures
            is_server_error(e, status, code, message@),
    {
        Self { status, code, message: message.to_string() }
    }

    /// The status it is answered with.
    pub fn status_code(&self) -> (s: u16)
        ensures
            s == self.status,
    {
        self.status
    }

    /// A JSON error: status 500, code 500, the error's message.
    pub fn from_json_error(e: JsonError) -> (r: Self)
        ensures
            r.status == 500,
            r.code == 500,
    {
        let text = json_error_text(&e);
        Self::InternalServerError(500, text.as_str())
    }
}

} // verus!
