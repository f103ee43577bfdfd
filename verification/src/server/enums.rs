//! The server's shared enums and the names they are shown by.
use vstd::prelude::*;

verus! {

/// The kind of an ad.
#[derive(Debug, Clone, Copy, PartialEq, Eq, Structural)]
pub enum AdType {
    Text,
    Image,
    SmallImageText,
    BigImageText,
    ThreeImages,
    Video,
}

/// The name an `AdType` is shown by (its variant's name).
pub open spec fn ad_type_name(t: AdType) -> Seq<char> {
    match t {
        AdType::Text => "Text"@,
        AdType::Image => "Image"@,
        AdType::SmallImageText => "SmallImageText"@,
        AdType::BigImageText => "BigImageText"@,
        AdType::ThreeImages => "ThreeImages"@,
        AdType::Video => "Video"@,
    }
}

impl AdType {
    /// The name this ad type is shown by.
    pub fn to_string(&self) -> (s: String)
        ensures
            s@ == ad_type_name(*self),
    {
        match self {
            AdType::Text => "Text".to_string(),
            AdType::Image => "Image".to_string(),
            AdType::SmallImageText => "SmallImageText".to_string(),
            AdType::BigImageText => "BigImageText".to_string(),
            AdType::ThreeImages => "ThreeImages".to_string(),
            AdType::Video => "Video".to_string(),
        }
    }
}

impl Default for AdType {
    fn default() -> (t: Self)
        ensures
            t == AdType::Text,
    {
        AdType::Text
    }
}

/// A device's operating system.
#[derive(Debug, Clone, Copy, PartialEq, Eq, Structural)]
pub enum OS {
    Android,
    IOS,
    WindowsPhone,
}

/// The name an `OS` is shown by (its variant's name).
pub open spec fn os_name(o: OS) -> Seq<char> {
    match o {
        OS::Android => "Android"@,
        OS::IOS => "IOS"@,
        OS::WindowsPhone => "WindowsPhone"@,
    }
}

impl OS {
    /// The name this OS is shown by.
    pub fn to_string(&self) -> (s: String)
        ensures
            s@ == os_name(*self),
    {
        match self {
            OS::Android => "Android".to_string(),
            OS::IOS => "IOS".to_string(),
            OS::WindowsPhone => "WindowsPhone".to_string(),
        }
    }
}

/// Whether something is in service.
#[derive(Debug, Clone, Copy, PartialEq, Eq, Structural)]
pub enum Status {
    Invalid,
    Valid,
}

impl Status {
    /// The name this status is shown by.
    pub fn to_string(&self) -> (s: String)
        ensures
            s@ == (if *self == Status::Invalid { "Invalid"@ } else { "Valid"@ }),
    {
        match self {
            Status::Invalid => "Invalid".to_string(),
            Status::Valid => "Valid".to_string(),
        }
    }
}

} // verus!
