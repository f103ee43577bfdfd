//! The monitor's shared model: statuses, bid types, OS and device-id kinds,
//! and the `major.minor.micro` version parsed from text.
use vstd::prelude::*;
use crate::text::{split_chars, split_spec, parse_u32, parse_u32_spec, debug_str, debug_text, concat};
use super::error::{Error, InternalServer, is_error};

verus! {

broadcast use vstd::string::group_string_axioms;

/// Whether a plan or slot is in service.
#[derive(Debug, Clone, Copy, PartialEq, Eq, Structural)]
pub enum Status {
    Invalid,
    Valid,
}

impl Status {
    /// The stored number: `Invalid` is 1, `Valid` is 0.
    pub fn code(&self) -> (c: i32)
        ensures
            c == (if *self == Status::Invalid { 1i32 } else { 0i32 }),
    {
        match self {
            Status::Invalid => 1,
            Status::Valid => 0,
        }
    }

    /// The status stored as `code`, if any.
    pub fn from_code(code: i32) -> (r: Option<Status>)
        ensures
            r == (if code == 1 { Some(Status::Invalid) } else if code == 0 { Some(Status::Valid) } else { None::<Status> }),
    {
        if code == 1 { Some(Status::Invalid) } else if code == 0 { Some(Status::Valid) } else { None }
    }
}

impl Default for Status {
    fn default() -> (s: Self)
        ensures
            s == Status::Invalid,
    {
        Status::Invalid
    }
}

/// How a plan is paid for.
#[derive(Debug, Clone, Copy, PartialEq, Eq, Structural)]
pub enum BidType {
    CPT,
    CPM,
    CPC,
}

impl Default for BidType {
    fn default() -> (b: Self)
        ensures
            b == BidType::CPT,
    {
        BidType::CPT
    }
}

/// A device's operating system.
#[derive(Debug, Clone, Copy, PartialEq, Eq, Structural)]
pub enum OSType {
    Unknown,
    Android,
    IOS,
    WP,
}

/// The name that `{:?}` writes for an `OSType`.
pub open spec fn os_type_name(o: OSType) -> Seq<char> {
    match o {
        OSType::Unknown => "Unknown"@,
        OSType::Android => "Android"@,
        OSType::IOS => "IOS"@,
        OSType::WP => "WP"@,
    }
}

impl OSType {
    /// The variant's name, as `{:?}` writes it.
    pub fn debug_name(&self) -> (s: String)
        ensures
            s@ == os_type_name(*self),
    {
        match self {
            OSType::Unknown => "Unknown".to_string(),
            OSType::Android => "Android".to_string(),
            OSType::IOS => "IOS".to_string(),
            OSType::WP => "WP".to_string(),
        }
    }
}

impl Default for OSType {
    fn default() -> (o: Self)
        ensures
            o == OSType::Unknown,
    {
        OSType::Unknown
    }
}

/// A `major.minor.micro` version.
#[derive(Debug, Clone, Copy, PartialEq, Eq, Structural, Default)]
pub struct Version {
    pub major: u32,
    pub minor: u32,
    pub micro: u32,
}

/// The number that piece `k` of `parts` gives, or 0 where it is missing or
/// is no number.
pub open spec fn piece_or_zero(parts: Seq<Seq<char>>, k: int) -> u32 {
    if k < parts.len() && parse_u32_spec(parts[k]) is Some {
        parse_u32_spec(parts[k])->0
    } else {
        0
    }
}

/// The version that `text` names: its pieces between dots are major, minor
/// and micro; the first must be a number, a missing or unreadable minor or
/// micro is 0, and pieces after the third are ignored.
pub open spec fn version_spec(text: Seq<char>) -> Option<Version> {
    let parts = split_spec(text, '.');
    match parse_u32_spec(parts[0]) {
        Some(major) => Some(
            Version { major, minor: piece_or_zero(parts, 1), micro: piece_or_zero(parts, 2) },
        ),
        None => None,
    }
}

impl Version {
    /// Reads a version such as `9.35` (see `version_spec`); text whose first
    /// piece is no number is the error 500 naming the text.
    pub fn try_from(value: &str) -> (r: Result<Version, Error>)
        ensures
            version_spec(value@) matches Some(v) ==> r == Ok::<Version, Error>(v),
            version_spec(value@) is None ==> is_error(
                r,
                500,
                "parse to version error. value: "@ + debug_text(value@),
            ),
    {
        let parts = split_chars(value, '.');
        let ghost views = parts@.map_values(|p: Vec<char>| p@);
        proof {
            crate::text::lemma_split_nonempty(value@, '.');
        }
        assert(views[0] == parts@[0]@);
        if let Some(major) = parse_u32(parts[0].as_slice()) {
            let mut version = Version { major, minor: 0, micro: 0 };
            if parts.len() > 1 {
                assert(views[1] == parts@[1]@);
                if let Some(minor) = parse_u32(parts[1].as_slice()) {
                    version.minor = minor;
                }
            }
            if parts.len() > 2 {
                assert(views[2] == parts@[2]@);
                if let Some(micro) = parse_u32(parts[2].as_slice()) {
                    version.micro = micro;
                }
            }
            return Ok(version);
        }
        let shown = debug_str(value);
        let message = concat("parse to version error. value: ", shown.as_str());
        InternalServer(message.as_str())
    }
}

/// A width and a height.
#[derive(Debug, Clone, Copy, PartialEq, Eq, Structural, Default)]
pub struct Size {
    pub width: i32,
    pub height: i32,
}

/// Whether a medium is an app or a web page.
#[derive(Debug, Clone, Copy, PartialEq, Eq, Structural)]
pub enum MediaType {
    Unknown,
    App,
    Wap,
}

impl Default for MediaType {
    fn default() -> (m: Self)
        ensures
            m == MediaType::Unknown,
    {
        MediaType::Unknown
    }
}

/// A network connection's kind.
#[derive(Debug, Clone, Copy, PartialEq, Eq, Structural)]
pub enum NetworkType {
    Unknown,
    WIFI,
    G2,
    G3,
    G4,
}

impl Default for NetworkType {
    fn default() -> (n: Self)
        ensures
            n == NetworkType::Unknown,
    {
        NetworkType::Unknown
    }
}

/// The kind of client that asks for ads.
#[derive(Debug, Clone, Copy, PartialEq, Eq, Structural)]
pub enum ClientType {
    NativeSDK,
    JSSDK,
    ClientOpenAPI,
    ServerOpenAP,
}

impl Default for ClientType {
    fn default() -> (c: Self)
        ensures
            c == ClientType::NativeSDK,
    {
        ClientType::NativeSDK
    }
}

/// The kind of a device identifier.
#[derive(Debug, Clone, Copy, PartialEq, Eq, Structural, Hash)]
pub enum DeviceIDType {
    Unknown,
    IMEI,
    MAC,
    IDFA,
    AndroidID,
    IDFV,
    OpenUDID,
    LSCookie,
    OAID,
}

impl Default for DeviceIDType {
    fn default() -> (d: Self)
        ensures
            d == DeviceIDType::Unknown,
    {
        DeviceIDType::Unknown
    }
}

} // verus!
