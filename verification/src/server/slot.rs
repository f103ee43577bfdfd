//! Slots of the server and the check on a request to add one.
use vstd::prelude::*;
use crate::text::{concat, u64_to_string, decimal};
use super::error::{Error, is_server_error};

verus! {

/// A slot. Times are microseconds since the Unix epoch.
pub struct Slot {
    pub id: u64,
    pub created_at: i64,
    pub updated_at: i64,
    pub media_id: u64,
    pub name: String,
    pub refresh_type: RefreshType,
    pub open_screen: bool,
    pub times: u8,
}

/// When a slot's ad is refreshed: never, on every showing, or daily.
#[derive(Debug, Clone, Copy, PartialEq, Eq, Structural)]
pub enum RefreshType {
    NoRefresh,
    CurrentTime,
    CurrentDay,
}

/// A request to add a slot.
pub struct PostRequest {
    pub media_id: u64,
    pub name: String,
    pub refresh_type: RefreshType,
    pub open_screen: bool,
    pub times: u8,
}

/// The error for a request naming a medium that does not exist: 422
/// `invalid media_id: <id>`.
pub fn media_not_found(media_id: u64) -> (e: Error)
    ensures
        is_server_error(e, 422, 422, "invalid media_id: "@ + decimal(media_id as nat)),
{
    let m = concat("invalid media_id: ", u64_to_string(media_id).as_str());
    Error::UnprocessableEntity(422, m.as_str())
}

impl PostRequest {
    /// An open-screen slot needs at least one round: otherwise the error 400.
    pub fn check_times(&self) -> (r: Result<(), Error>)
        ensures
            !(self.open_screen && self.times == 0) ==> r is Ok,
            self.open_screen && self.times == 0 ==> (r matches Err(e) && is_server_error(
                e,
                400,
                400,
                "times: "@ + decimal(self.times as nat) + " must gt 0 when open_screen is true"@,
            )),
    {
        if self.open_screen && self.times == 0 {
            let s = concat("times: ", u64_to_string(self.times as u64).as_str());
            let s = concat(s.as_str(), " must gt 0 when open_screen is true");
            return Err(Error::BadRequest(400, s.as_str()));
        }
        Ok(())
    }
}

} // verus!
