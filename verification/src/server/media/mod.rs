//! Media as the API shows them: an app or a web page with what each needs.
use vstd::prelude::*;
use super::enums::OS;

pub mod database;

verus! {

/// A medium as the API shows it. Times are microseconds since the Unix epoch.
pub struct Media {
    pub id: u64,
    pub created_at: i64,
    pub updated_at: i64,
    pub name: String,
    pub desc: Option<String>,
    pub media_type: MediaType,
}

/// What kind of medium it is, with what that kind needs.
pub enum MediaType {
    Wap { site_url: String },
    App { os: OS, package_name: String, down_load_url: String },
}

/// Whether a stored medium has what its kind needs.
pub open spec fn complete(m: database::Media) -> bool {
    match m.media_type {
        database::MediaType::APP => m.os is Some && m.package_name is Some && m.down_load_url is Some,
        database::MediaType::WAP => m.site_url is Some,
    }
}

impl Media {
    /// The API form of a stored medium that has what its kind needs.
    pub fn from(media: database::Media) -> (r: Media)
        requires
            complete(media),
        ensures
            r.id == media.id,
            r.created_at == media.created_at,
            r.updated_at == media.updated_at,
            r.name == media.name,
            r.desc == media.desc,
            media.media_type == database::MediaType::APP ==> r.media_type == (MediaType::App {
                os: media.os->0,
                package_name: media.package_name->0,
                down_load_url: media.down_load_url->0,
            }),
            media.media_type == database::MediaType::WAP ==> r.media_type == (MediaType::Wap {
                site_url: media.site_url->0,
            }),
    {
        let media_type = match media.media_type {
            database::MediaType::APP => MediaType::App {
                os: media.os.unwrap(),
                package_name: media.package_name.unwrap(),
                down_load_url: media.down_load_url.unwrap(),
            },
            database::MediaType::WAP => MediaType::Wap { site_url: media.site_url.unwrap() },
        };
        Media {
            id: media.id,
            created_at: media.created_at,
            updated_at: media.updated_at,
            name: media.name,
            desc: media.desc,
            media_type,
        }
    }
}

} // verus!
