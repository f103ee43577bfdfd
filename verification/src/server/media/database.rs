//! Media as stored, and the check on a request to add one.
use vstd::prelude::*;
use crate::server::enums::OS;
use crate::server::error::{Error, is_server_error};

verus! {

/// A medium as stored. Times are microseconds since the Unix epoch.
pub struct Media {
    pub id: u64,
    pub created_at: i64,
    pub updated_at: i64,
    pub name: String,
    pub desc: Option<String>,
    pub media_type: MediaType,
    pub site_url: Option<String>,
    pub os: Option<OS>,
    pub package_name: Option<String>,
    pub down_load_url: Option<String>,
}

/// Whether a medium is a web page or an app.
#[derive(Debug, Clone, Copy, PartialEq, Eq, Structural)]
pub enum MediaType {
    WAP,
    APP,
}

impl MediaType {
    /// The name this media type is shown by.
    pub fn to_string(&self) -> (s: String)
        ensures
            s@ == (if *self == MediaType::WAP { "WAP"@ } else { "APP"@ }),
    {
        match self {
            MediaType::WAP => "WAP".to_string(),
            MediaType::APP => "APP".to_string(),
        }
    }
}

/// A request to add a medium.
pub struct PostRequest {
    pub name: String,
    pub desc: Option<String>,
    pub media_type: MediaType,
    pub site_url: Option<String>,
    pub os: Option<OS>,
    pub package_name: Option<String>,
    pub down_load_url: Option<String>,
}

impl PostRequest {
    /// A web page needs its site url; an app needs its OS, package name and
    /// download url, checked in that order. The first missing one is the
    /// error 400 that names it.
    pub fn self_check(&self) -> (r: Result<(), Error>)
        ensures
            self.media_type == MediaType::WAP && self.site_url is None ==> (r matches Err(e)
                && is_server_error(e, 400, 400, "media_type == 'WAP', 'site_url' can't be null"@)),
            self.media_type == MediaType::APP && self.os is None ==> (r matches Err(e)
                && is_server_error(e, 400, 400, "media_type == 'APP', 'os' can't be null"@)),
            self.media_type == MediaType::APP && self.os is Some && self.package_name is None ==> (r matches Err(e)
                && is_server_error(e, 400, 400, "media_type == 'APP', 'package_name' can't be null"@)),
            self.media_type == MediaType::APP && self.os is Some && self.package_name is Some
                && self.down_load_url is None ==> (r matches Err(e)
                && is_server_error(e, 400, 400, "media_type == 'APP', 'down_load_url' can't be null"@)),
            r is Ok <==> (if self.media_type == MediaType::WAP {
                self.site_url is Some
            } else {
                self.os is Some && self.package_name is Some && self.down_load_url is Some
            }),
    {
        match self.media_type {
            MediaType::WAP => {
                if self.site_url.is_none() {
                    return Err(Error::BadRequest(400, "media_type == 'WAP', 'site_url' can't be null"));
                }
            },
            MediaType::APP => {
                if self.os.is_none() {
                    return Err(Error::BadRequest(400, "media_type == 'APP', 'os' can't be null"));
                } else if self.package_name.is_none() {
                    return Err(Error::BadRequest(400, "media_type == 'APP', 'package_name' can't be null"));
                } else if self.down_load_url.is_none() {
                    return Err(Error::BadRequest(400, "media_type == 'APP', 'down_load_url' can't be null"));
                }
            },
        }
        Ok(())
    }
}

} // verus!
