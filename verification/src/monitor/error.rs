//! The monitor's error: a numeric code and a message.
use vstd::prelude::*;

verus! {

/// An error with an HTTP-like code and a message.
#[derive(Debug)]
pub struct Error {
    pub code: u32,
    pub message: String,
}

impl Clone for Error {
    fn clone(&self) -> (r: Self)
        ensures
            r == *self,
    {
        Error { code: self.code, message: self.message.clone() }
    }
}

/// Whether `r` is the error with `code` and `message`.
pub open spec fn is_error<T>(r: Result<T, Error>, code: u32, message: Seq<char>) -> bool {
    &&& r is Err
    &&& r->Err_0.code == code
    &&& r->Err_0.message@ == message
}

/// The error with code 400 and the given message.
#[allow(non_snake_case)]
pub fn BadRequest<T>(message: &str) -> (r: Result<T, Error>)
    ensures
        is_error(r, 400, message@),
{
    Err(Error { code: 400, message: message.to_string() })
}

/// The error with code 500 and the given message.
#[allow(non_snake_case)]
pub fn InternalServer<T>(message: &str) -> (r: Result<T, Error>)
    ensures
        is_error(r, 500, message@),
{
    Err(Error { code: 500, message: message.to_string() })
}

} // verus!
