//! The WanHui DSP: its bid request, built from an SSP request, and its bid
//! response, read into the server's ads.
use vstd::prelude::*;
use crate::text::{concat, debug_str, debug_text, u64_to_string, decimal, parse_i32_spec};
use crate::server::config::WanHuiDspConfig;
use crate::server::enums::{OS, AdType};
use crate::server::error::{Error, is_server_error};
use crate::server::json::{parse_u8, json_u8};
use crate::server::ssp;
use crate::server::dsp_slot::DspSlot;

verus! {

broadcast use vstd::string::group_string_axioms;

/// The MD5 digest of the UTF-8 bytes of `text`.
pub uninterp spec fn md5_text(text: Seq<char>) -> Seq<u8>;

/// `md5::compute` of the string's bytes: its 16-byte digest.
#[verifier::external_body]
fn md5_digest(text: &str) -> (r: Vec<u8>)
    ensures
        r@ == md5_text(text@),
        r@.len() == 16,
{
    md5::compute(text.as_bytes()).0.to_vec()
}

/// The milliseconds past the current second
/// (`chrono::Local::now().timestamp_subsec_millis()`).
#[verifier::external_body]
fn now_subsec_millis() -> u32 {
    chrono::Local::now().timestamp_subsec_millis()
}

/// The current time in seconds since the Unix epoch
/// (`chrono::Local::now().timestamp()`).
#[verifier::external_body]
fn now_seconds() -> i64 {
    chrono::Local::now().timestamp()
}

/// The text of the `ParseIntError` that `str::parse::<i32>` gives for `text`.
pub uninterp spec fn int_error_text(text: Seq<char>) -> Seq<char>;

/// `str::parse::<i32>`: the number that `text` names (see `parse_i32_spec`,
/// an optional sign and decimal digits that fit), or the text of the error.
#[verifier::external_body]
fn parse_i32_or_text(text: &str) -> (r: Result<i32, String>)
    ensures
        r is Ok <==> parse_i32_spec(text@) is Some,
        r matches Ok(n) ==> parse_i32_spec(text@) == Some(n),
        r matches Err(m) ==> m@ == int_error_text(text@),
{
    match text.parse::<i32>() {
        Ok(n) => Ok(n),
        Err(e) => Err(e.to_string()),
    }
}

/// The lowercase hex digit of `d < 16`.
pub open spec fn hex_digit(d: int) -> char {
    if d < 10 {
        (d + 48) as char
    } else {
        (d + 87) as char
    }
}

/// Two lowercase hex digits per byte, as `{:x}` writes a digest.
pub open spec fn hex_lower(bytes: Seq<u8>) -> Seq<char>
    decreases bytes.len(),
{
    if bytes.len() == 0 {
        Seq::empty()
    } else {
        hex_lower(bytes.drop_last()) + seq![
            hex_digit(bytes.last() as int / 16),
            hex_digit(bytes.last() as int % 16),
        ]
    }
}

fn hex_digit_of(d: u8) -> (c: char)
    requires
        d < 16,
    ensures
        c == hex_digit(d as int),
{
    if d < 10 {
        (d + 48) as char
    } else {
        (d + 87) as char
    }
}

/// The lowercase hex text of the bytes.
pub fn to_hex_lower(bytes: &Vec<u8>) -> (s: String)
    ensures
        s@ == hex_lower(bytes@),
{
    let mut s = String::new();
    let mut i: usize = 0;
    while i < bytes.len()
        invariant
            i <= bytes@.len(),
            s@ == hex_lower(bytes@.take(i as int)),
        decreases bytes@.len() - i,
    {
        let b = bytes[i];
        crate::text::push_char(&mut s, hex_digit_of(b / 16));
        crate::text::push_char(&mut s, hex_digit_of(b % 16));
        assert(bytes@.take(i + 1).drop_last() =~= bytes@.take(i as int));
        assert(s@ =~= hex_lower(bytes@.take(i + 1)));
        i = i + 1;
    }
    assert(bytes@.take(bytes@.len() as int) =~= bytes@);
    s
}

/// The text whose digest is the bid id: the device number (empty) and the
/// package name, each as `{:?}` writes it, then the milliseconds.
pub open spec fn bid_source(package_name: Seq<char>, millis: u32) -> Seq<char> {
    "\"\""@ + debug_text(package_name) + decimal(millis as nat)
}

/// The package name of an app medium; empty for a web page.
pub open spec fn media_package(m: ssp::Media) -> Seq<char> {
    match m {
        ssp::Media::App { package_name, .. } => package_name@,
        ssp::Media::Wap { .. } => Seq::empty(),
    }
}

/// The WanHui DSP with its settings.
pub struct WanHuiDsp<'a> {
    pub config: &'a WanHuiDspConfig,
}

/// The end type that every request names.
pub const DEFAULT_END_TYPE: u8 = 1;

impl<'a> WanHuiDsp<'a> {
    /// The DSP with the given settings.
    pub fn new(config: &'a WanHuiDspConfig) -> (d: Self)
        ensures
            d.config == config,
    {
        Self { config }
    }

    /// The bid id for a package name and a millisecond reading: the MD5
    /// digest of `bid_source` in lowercase hex.
    pub fn bid_for(package_name: &str, millis: u32) -> (bid: String)
        ensures
            bid@ == hex_lower(md5_text(bid_source(package_name@, millis))),
    {
        let s = concat("\"\"", debug_str(package_name).as_str());
        let s = concat(s.as_str(), u64_to_string(millis as u64).as_str());
        proof {
            reveal_strlit("\"\"");
        }
        let digest = md5_digest(s.as_str());
        to_hex_lower(&digest)
    }

    /// The bid id of a request, from its package name and the milliseconds
    /// of the clock reading taken.
    pub fn request_bid(&self, req: &ssp::Request) -> (bid: String)
        ensures
            exists|millis: u32| bid@ == hex_lower(md5_text(bid_source(media_package(req.media), millis))),
    {
        let package_name = match &req.media {
            ssp::Media::App { package_name, .. } => package_name.clone(),
            _ => String::new(),
        };
        let millis = now_subsec_millis();
        let bid = Self::bid_for(package_name.as_str(), millis);
        assert(bid@ == hex_lower(md5_text(bid_source(media_package(req.media), millis))));
        bid
    }
}


/// The bid request sent to WanHui. The GPS position carries the bits of its
/// `f64`s.
pub struct Request {
    pub bid: String,
    pub api_version: String,
    pub end_type: u8,
    pub ua: String,
    pub app: App,
    pub device: Device,
    pub net_work: Network,
    pub gps: Option<GPS>,
    pub adspaces: Vec<Adspace>,
    pub debug: bool,
    pub browser_ua: String,
}

/// The app the ad is for.
pub struct App {
    pub app_id: String,
    pub app_name: Option<String>,
    pub package_name: Option<String>,
    pub app_keywords: Option<String>,
    pub app_version: String,
}

/// The app name that every request names.
pub open spec fn default_app_name() -> Seq<char> {
    "大智慧"@
}

impl App {
    /// The app of an app medium: its package, its version as
    /// `major.minor.micro`, the default app name and an empty app id; a web
    /// page is the error 500 `not app`.
    pub fn try_from(media: ssp::Media) -> (r: Result<App, Error>)
        ensures
            media matches ssp::Media::App { package_name, version } ==> (r matches Ok(a) && {
                &&& a.app_id@ == Seq::<char>::empty()
                &&& a.app_name matches Some(n) && n@ == default_app_name()
                &&& a.package_name == Some(package_name)
                &&& a.app_keywords is None
                &&& a.app_version@ == ssp::version_text(version)
            }),
            media is Wap ==> (r matches Err(e) && is_server_error(e, 500, 500, "not app"@)),
    {
        match media {
            ssp::Media::App { package_name, version } => Ok(App {
                app_name: Some("大智慧".to_string()),
                app_keywords: None,
                app_version: version.to_string(),
                app_id: String::new(),
                package_name: Some(package_name),
            }),
            _ => Err(Error::InternalServerError(500, "not app")),
        }
    }
}

/// The device as WanHui wants it. The screen density is the bits of an
/// `f32` (zero: not sent).
pub struct Device {
    pub device_id: Vec<DeviceID>,
    pub os_type: OSType,
    pub os_version: String,
    pub brand: String,
    pub model: String,
    pub device_type: DeviceType,
    pub language: String,
    pub screen_width: u32,
    pub screen_height: u32,
    pub screen_density: u32,
    pub screen_orientation: ScreenOrientation,
    pub jail_breaked: Option<bool>,
    pub os_api_level: Option<String>,
}

/// The WanHui id of a device id: IMEI, IDFA, MAC, IDFV and OAID keep their
/// id and kind; any other is an empty id of unknown kind.
pub open spec fn device_id_of(d: ssp::DeviceID) -> (Seq<char>, DeviceIDType) {
    match d {
        ssp::DeviceID::IMEI { id, .. } => (id@, DeviceIDType::IMEI),
        ssp::DeviceID::IDFA { id, .. } => (id@, DeviceIDType::IDFA),
        ssp::DeviceID::MAC { id, .. } => (id@, DeviceIDType::MAC),
        ssp::DeviceID::IDFV { id, .. } => (id@, DeviceIDType::IDFV),
        ssp::DeviceID::OAID { id, .. } => (id@, DeviceIDType::OAID),
        _ => (Seq::empty(), DeviceIDType::Unknow),
    }
}

/// The WanHui OS of an OS.
pub open spec fn os_type_of(os: OS) -> OSType {
    match os {
        OS::Android => OSType::Android,
        OS::IOS => OSType::IOS,
        OS::WindowsPhone => OSType::WP,
    }
}

impl Device {
    /// The device as WanHui wants it: its ids converted in order, its OS,
    /// `major.minor` of its OS version, brand, model and screen size; an
    /// unknown device type and orientation, no language or density.
    pub fn from(dev: ssp::Device) -> (d: Device)
        ensures
            d.device_id@.map_values(|i: DeviceID| (i.device_id@, i.device_id_type))
                == dev.ids@.map_values(|i: ssp::DeviceID| device_id_of(i)),
            d.os_type == os_type_of(dev.os_type),
            d.os_version@ == ssp::major_minor_text(dev.os_version),
            d.brand == dev.brand,
            d.model == dev.model,
            d.device_type == DeviceType::Unknown,
            d.language@ == Seq::<char>::empty(),
            d.screen_width == dev.screen_width,
            d.screen_height == dev.screen_height,
            d.screen_density == 0,
            d.screen_orientation == ScreenOrientation::Unknown,
            d.jail_breaked is None,
            d.os_api_level is None,
    {
        let mut ids: Vec<DeviceID> = Vec::new();
        let mut i: usize = 0;
        while i < dev.ids.len()
            invariant
                i <= dev.ids@.len(),
                ids@.map_values(|i: DeviceID| (i.device_id@, i.device_id_type))
                    == dev.ids@.take(i as int).map_values(|i: ssp::DeviceID| device_id_of(i)),
            decreases dev.ids@.len() - i,
        {
            let c = dev.ids[i].clone();
            assert(c == dev.ids@[i as int]);
            let one = DeviceID::from(c);
            let ghost prev = ids@;
            ids.push(one);
            assert(ids@.map_values(|i: DeviceID| (i.device_id@, i.device_id_type))
                =~= prev.map_values(|i: DeviceID| (i.device_id@, i.device_id_type)).push(device_id_of(dev.ids@[i as int])));
            assert(ids@.map_values(|i: DeviceID| (i.device_id@, i.device_id_type))
                =~= dev.ids@.take(i + 1).map_values(|i: ssp::DeviceID| device_id_of(i)));
            i = i + 1;
        }
        assert(dev.ids@.take(dev.ids@.len() as int) =~= dev.ids@);
        let os_version = dev.os_version.major_minor();
        Device {
            device_id: ids,
            os_type: OSType::from(dev.os_type),
            os_version,
            brand: dev.brand,
            model: dev.model,
            device_type: DeviceType::Unknown,
            language: String::new(),
            screen_width: dev.screen_width,
            screen_height: dev.screen_height,
            screen_density: 0,
            screen_orientation: ScreenOrientation::Unknown,
            jail_breaked: None,
            os_api_level: None,
        }
    }
}

/// A device id as WanHui wants it.
pub struct DeviceID {
    pub device_id: String,
    pub device_id_type: DeviceIDType,
}

/// A converted device id keeps its kind and its text: an IMEI, IDFA, MAC,
/// IDFV or OAID id becomes WanHui's id of the same name with the same text;
/// any other becomes an empty id of unknown kind.
pub proof fn lemma_device_id_kind(d: ssp::DeviceID)
    ensures
        d matches ssp::DeviceID::IMEI { id, .. } ==> device_id_of(d) == (id@, DeviceIDType::IMEI),
        d matches ssp::DeviceID::IDFA { id, .. } ==> device_id_of(d) == (id@, DeviceIDType::IDFA),
        d matches ssp::DeviceID::MAC { id, .. } ==> device_id_of(d) == (id@, DeviceIDType::MAC),
        d matches ssp::DeviceID::IDFV { id, .. } ==> device_id_of(d) == (id@, DeviceIDType::IDFV),
        d matches ssp::DeviceID::OAID { id, .. } ==> device_id_of(d) == (id@, DeviceIDType::OAID),
        !(d is IMEI || d is IDFA || d is MAC || d is IDFV || d is OAID) ==> device_id_of(d) == (
            Seq::<char>::empty(),
            DeviceIDType::Unknow,
        ),
{
}

/// The device of a bid request carries the request's ids in order, each
/// with its kind kept (`lemma_device_id_kind`).
pub proof fn lemma_device_ids_kept(req: ssp::Request, k: int)
    requires
        0 <= k < req.device.ids@.len(),
    ensures
        req.device.ids@[k] matches ssp::DeviceID::IDFA { id, .. } ==> req.device.ids@.map_values(
            |i: ssp::DeviceID| device_id_of(i),
        )[k] == (id@, DeviceIDType::IDFA),
        req.device.ids@[k] matches ssp::DeviceID::IMEI { id, .. } ==> req.device.ids@.map_values(
            |i: ssp::DeviceID| device_id_of(i),
        )[k] == (id@, DeviceIDType::IMEI),
        req.device.ids@[k] matches ssp::DeviceID::IDFV { id, .. } ==> req.device.ids@.map_values(
            |i: ssp::DeviceID| device_id_of(i),
        )[k] == (id@, DeviceIDType::IDFV),
{
    lemma_device_id_kind(req.device.ids@[k]);
}

impl DeviceID {
    /// The WanHui id of a device id (`device_id_of`).
    pub fn from(device_id: ssp::DeviceID) -> (d: DeviceID)
        ensures
            (d.device_id@, d.device_id_type) == device_id_of(device_id),
            device_id matches ssp::DeviceID::IMEI { id, .. } ==> d.device_id == id && d.device_id_type == DeviceIDType::IMEI,
            device_id matches ssp::DeviceID::IDFA { id, .. } ==> d.device_id == id && d.device_id_type == DeviceIDType::IDFA,
            device_id matches ssp::DeviceID::MAC { id, .. } ==> d.device_id == id && d.device_id_type == DeviceIDType::MAC,
            device_id matches ssp::DeviceID::IDFV { id, .. } ==> d.device_id == id && d.device_id_type == DeviceIDType::IDFV,
            device_id matches ssp::DeviceID::OAID { id, .. } ==> d.device_id == id && d.device_id_type == DeviceIDType::OAID,
    {
        match device_id {
            ssp::DeviceID::IMEI { id, .. } => Self { device_id: id, device_id_type: DeviceIDType::IMEI },
            ssp::DeviceID::IDFA { id, .. } => Self { device_id: id, device_id_type: DeviceIDType::IDFA },
            ssp::DeviceID::MAC { id, .. } => Self { device_id: id, device_id_type: DeviceIDType::MAC },
            ssp::DeviceID::IDFV { id, .. } => Self { device_id: id, device_id_type: DeviceIDType::IDFV },
            ssp::DeviceID::OAID { id, .. } => Self { device_id: id, device_id_type: DeviceIDType::OAID },
            _ => Self { device_id: String::new(), device_id_type: DeviceIDType::Unknow },
        }
    }
}

/// WanHui's kinds of device id.
#[derive(Debug, Clone, Copy, PartialEq, Eq, Structural)]
pub enum DeviceIDType {
    Unknow,
    IMEI,
    IDFA,
    AAID,
    MAC,
    IDFV,
    M2ID,
    SerialID,
    ImeiSha1,
    OAID,
}

/// The screen's orientation.
#[derive(Debug, Clone, Copy, PartialEq, Eq, Structural)]
pub enum ScreenOrientation {
    Unknown,
    Portrait,
    Landscape,
}

/// WanHui's kinds of device.
#[derive(Debug, Clone, Copy, PartialEq, Eq, Structural)]
pub enum DeviceType {
    Unknown,
    Tablet,
    Phone,
    PC,
}

/// WanHui's operating systems.
#[derive(Debug, Clone, Copy, PartialEq, Eq, Structural)]
pub enum OSType {
    Unknown,
    IOS,
    Android,
    WP,
}

impl OSType {
    /// The WanHui OS of an OS.
    pub fn from(os: OS) -> (o: OSType)
        ensures
            o == os_type_of(os),
    {
        match os {
            OS::Android => Self::Android,
            OS::IOS => Self::IOS,
            OS::WindowsPhone => Self::WP,
        }
    }
}

/// The network as WanHui wants it.
pub struct Network {
    pub ip: Option<String>,
    pub ipv6: Option<String>,
    pub network_type: NetworkType,
    pub carrier_id: CarrierID,
    pub real_carrier_id: Option<String>,
    pub cellular_id: Option<CellularID>,
}

/// The cell that a cellular id text names: its number where it is one,
/// else the default cell; the operator code set for `carrier`.
pub open spec fn cell_of(text: Seq<char>, carrier: CarrierID) -> (i32, i32, i32, i32) {
    let cid = match parse_i32_spec(text) {
        Some(n) => n,
        None => 0i32,
    };
    (460i32, mnc_of(carrier), 0i32, cid)
}

impl Network {
    /// The network as WanHui wants it: its type, an unknown carrier, no
    /// addresses, and the cell its cellular id names.
    pub fn from(network: ssp::Network) -> (n: Network)
        ensures
            n.ip is None,
            n.ipv6 is None,
            n.network_type == network_type_of(network.network_type),
            n.carrier_id == CarrierID::Unknown,
            n.real_carrier_id is None,
            n.cellular_id matches Some(c) && (c.mcc, c.mnc, c.lac, c.cid) == cell_of(network.cellular_id@, CarrierID::Unknown),
    {
        let carrier_id = CarrierID::Unknown;
        let mut cc = match CellularID::try_from(network.cellular_id) {
            Ok(c) => c,
            Err(_) => CellularID::default(),
        };
        cc.set_mnc(&carrier_id);
        Self {
            ip: None,
            ipv6: None,
            network_type: NetworkType::from(network.network_type),
            real_carrier_id: None,
            cellular_id: Some(cc),
            carrier_id,
        }
    }
}

/// A cell: country, operator, area and cell codes.
#[derive(Debug, Clone, Copy, PartialEq, Eq, Structural)]
pub struct CellularID {
    pub mcc: i32,
    pub mnc: i32,
    pub lac: i32,
    pub cid: i32,
}

impl Default for CellularID {
    fn default() -> (c: Self)
        ensures
            c == (CellularID { mcc: 460, mnc: 0, lac: 0, cid: 0 }),
    {
        Self { mcc: 460, mnc: 0, lac: 0, cid: 0 }
    }
}

/// The operator code of a carrier: 0 for China Mobile, 1 for Unicom,
/// otherwise 0.
pub open spec fn mnc_of(c: CarrierID) -> i32 {
    match c {
        CarrierID::ChinaMobile => 0,
        CarrierID::Unicom => 1,
        _ => 0,
    }
}

impl CellularID {
    /// The default cell with the number that `value` names; text that is
    /// no `i32` is the error 400 with the text of the parse error.
    pub fn try_from(value: String) -> (r: Result<CellularID, Error>)
        ensures
            parse_i32_spec(value@) matches Some(n) ==> r == Ok::<CellularID, Error>(CellularID { mcc: 460, mnc: 0, lac: 0, cid: n }),
            parse_i32_spec(value@) is None ==> (r matches Err(e) && is_server_error(e, 400, 400, int_error_text(value@))),
    {
        match parse_i32_or_text(value.as_str()) {
            Ok(n) => {
                let mut cellular_id = Self::default();
                cellular_id.cid = n;
                Ok(cellular_id)
            },
            Err(m) => Err(Error::BadRequest(400, m.as_str())),
        }
    }

    /// Sets the operator code for the carrier (`mnc_of`).
    pub fn set_mnc(&mut self, cid: &CarrierID)
        ensures
            *final(self) == (CellularID { mnc: mnc_of(*cid), ..*old(self) }),
    {
        self.mnc = match cid {
            CarrierID::ChinaMobile => 0,
            CarrierID::Unicom => 1,
            _ => 0,
        };
    }
}

/// A mobile carrier.
#[derive(Debug, Clone, Copy, PartialEq, Eq, Structural)]
pub enum CarrierID {
    Unknown,
    ChinaMobile,
    ChinaTelecom,
    Unicom,
}

/// WanHui's network types.
#[derive(Debug, Clone, Copy, PartialEq, Eq, Structural)]
pub enum NetworkType {
    Unknown,
    WIFI,
    _2G,
    _3G,
    _4G,
    _5G,
}

/// The WanHui network type of a network type.
pub open spec fn network_type_of(n: ssp::NetworkType) -> NetworkType {
    match n {
        ssp::NetworkType::WIFI => NetworkType::WIFI,
        ssp::NetworkType::G2 => NetworkType::_2G,
        ssp::NetworkType::G3 => NetworkType::_3G,
        ssp::NetworkType::G4 => NetworkType::_4G,
        ssp::NetworkType::G5 => NetworkType::_5G,
        _ => NetworkType::Unknown,
    }
}

impl NetworkType {
    /// The WanHui network type of a network type.
    pub fn from(network_type: ssp::NetworkType) -> (n: NetworkType)
        ensures
            n == network_type_of(network_type),
    {
        match network_type {
            ssp::NetworkType::WIFI => Self::WIFI,
            ssp::NetworkType::G2 => Self::_2G,
            ssp::NetworkType::G3 => Self::_3G,
            ssp::NetworkType::G4 => Self::_4G,
            ssp::NetworkType::G5 => Self::_5G,
            _ => Self::Unknown,
        }
    }
}

/// A GPS position: longitude and latitude are the bits of `f64`s, the
/// timestamp in seconds since the Unix epoch.
#[derive(Debug, Clone, Copy, PartialEq, Eq, Structural)]
pub struct GPS {
    pub gps_type: GPSType,
    pub longitude: u64,
    pub latitude: u64,
    pub timestamp: i64,
}

impl GPS {
    /// The position of a location in WGS84, missing coordinates as 0, a
    /// missing timestamp as the clock reading taken.
    pub fn from(loc: &ssp::Location) -> (g: GPS)
        ensures
            g.gps_type == GPSType::WGS84,
            g.longitude == loc.longitude.unwrap_or(0),
            g.latitude == loc.latitude.unwrap_or(0),
            loc.timestamp matches Some(t) ==> g.timestamp == t,
    {
        let timestamp = match loc.timestamp {
            Some(t) => t,
            None => now_seconds(),
        };
        Self {
            gps_type: GPSType::WGS84,
            longitude: match loc.longitude { Some(v) => v, None => 0 },
            latitude: match loc.latitude { Some(v) => v, None => 0 },
            timestamp,
        }
    }
}

/// A coordinate system.
#[derive(Debug, Clone, Copy, PartialEq, Eq, Structural)]
pub enum GPSType {
    WGS84,
    GCJ02,
    BD09,
}

/// An ad space in the request.
pub struct Adspace {
    pub adspace_id: String,
    pub adspace_type: AdspaceType,
    pub adspace_position: Option<AdspacePosition>,
    pub allow_html: bool,
    pub width: u32,
    pub height: u32,
    pub impression_num: u32,
    pub open_type: OpenType,
    pub interaction_type: Vec<InteractionType>,
    pub asset: Option<Asset>,
    pub impression_time: Option<u64>,
}

impl Adspace {
    /// The ad space for a slot: its size, one impression, any opening and
    /// interaction, a banner with an empty id.
    pub fn try_from(slot: ssp::Slot) -> (r: Result<Adspace, Error>)
        ensures
            r matches Ok(a) && {
                &&& a.adspace_id@ == Seq::<char>::empty()
                &&& a.adspace_type == AdspaceType::Banner
                &&& a.adspace_position is None
                &&& !a.allow_html
                &&& a.width == slot.width
                &&& a.height == slot.height
                &&& a.impression_num == 1
                &&& a.open_type == OpenType::All
                &&& a.interaction_type@ == seq![InteractionType::Any]
                &&& a.asset is None
                &&& a.impression_time is None
            },
    {
        let mut interaction_type: Vec<InteractionType> = Vec::new();
        interaction_type.push(InteractionType::Any);
        assert(interaction_type@ =~= seq![InteractionType::Any]);
        Ok(Self {
            adspace_id: String::new(),
            adspace_type: AdspaceType::default(),
            adspace_position: None,
            allow_html: false,
            width: slot.width,
            height: slot.height,
            impression_num: 1,
            open_type: OpenType::All,
            interaction_type,
            asset: None,
            impression_time: None,
        })
    }
}

/// Kinds of ad space: banner (1), opening (2), interstitial (3), native (4).
#[derive(Debug, Clone, Copy, PartialEq, Eq, Structural)]
pub enum AdspaceType {
    Banner,
    Opening,
    Interstitial,
    Native,
}

/// The name an `AdspaceType` is shown by (its variant's name).
pub open spec fn adspace_type_name(t: AdspaceType) -> Seq<char> {
    match t {
        AdspaceType::Banner => "Banner"@,
        AdspaceType::Opening => "Opening"@,
        AdspaceType::Interstitial => "Interstitial"@,
        AdspaceType::Native => "Native"@,
    }
}

/// The ad space type of a number: 1 to 4.
pub open spec fn adspace_type_of(n: u8) -> Option<AdspaceType> {
    if n == 1 {
        Some(AdspaceType::Banner)
    } else if n == 2 {
        Some(AdspaceType::Opening)
    } else if n == 3 {
        Some(AdspaceType::Interstitial)
    } else if n == 4 {
        Some(AdspaceType::Native)
    } else {
        None
    }
}

/// The ad space type that a text names: by name, else by its JSON number.
pub open spec fn adspace_type_from_text(s: Seq<char>) -> Option<AdspaceType> {
    if s == "Banner"@ {
        Some(AdspaceType::Banner)
    } else if s == "Opening"@ {
        Some(AdspaceType::Opening)
    } else if s == "Interstitial"@ {
        Some(AdspaceType::Interstitial)
    } else if s == "Native"@ {
        Some(AdspaceType::Native)
    } else {
        match json_u8(s) {
            Ok(n) => adspace_type_of(n),
            Err(_) => None,
        }
    }
}

impl AdspaceType {
    /// The name this type is shown by.
    pub fn to_string(&self) -> (s: String)
        ensures
            s@ == adspace_type_name(*self),
    {
        match self {
            AdspaceType::Banner => "Banner".to_string(),
            AdspaceType::Opening => "Opening".to_string(),
            AdspaceType::Interstitial => "Interstitial".to_string(),
            AdspaceType::Native => "Native".to_string(),
        }
    }

    /// The type a text names (`adspace_type_from_text`): by name, else as a
    /// JSON number 1 to 4; anything else is an error 500.
    pub fn from_str(s: &str) -> (r: Result<AdspaceType, Error>)
        ensures
            adspace_type_from_text(s@) matches Some(t) ==> r == Ok::<AdspaceType, Error>(t),
            adspace_type_from_text(s@) is None ==> (r matches Err(e) && e.status == 500 && e.code == 500),
            adspace_type_from_text(s@) is None && json_u8(s@) is Ok ==> (r matches Err(e) && e.message@
                == "invalid value: "@ + decimal(json_u8(s@)->Ok_0 as nat) + ", expected one of: 1, 2, 3, 4"@),
            adspace_type_from_text(s@) is None ==> (json_u8(s@) matches Err(m) ==> (r matches Err(e) && e.message@ == m)),
    {
        let text = s.to_string();
        proof {
            reveal_strlit("Banner");
            reveal_strlit("Opening");
            reveal_strlit("Interstitial");
            reveal_strlit("Native");
        }
        if text == "Banner".to_string() {
            return Ok(AdspaceType::Banner);
        }
        if text == "Opening".to_string() {
            return Ok(AdspaceType::Opening);
        }
        if text == "Interstitial".to_string() {
            return Ok(AdspaceType::Interstitial);
        }
        if text == "Native".to_string() {
            return Ok(AdspaceType::Native);
        }
        match parse_u8(s) {
            Ok(n) => {
                if n == 1 {
                    Ok(AdspaceType::Banner)
                } else if n == 2 {
                    Ok(AdspaceType::Opening)
                } else if n == 3 {
                    Ok(AdspaceType::Interstitial)
                } else if n == 4 {
                    Ok(AdspaceType::Native)
                } else {
                    let m = concat("invalid value: ", u64_to_string(n as u64).as_str());
                    let m = concat(m.as_str(), ", expected one of: 1, 2, 3, 4");
                    Err(Error::InternalServerError(500, m.as_str()))
                }
            },
            Err(m) => Err(Error::InternalServerError(500, m.as_str())),
        }
    }
}

impl Default for AdspaceType {
    fn default() -> (t: Self)
        ensures
            t == AdspaceType::Banner,
    {
        Self::Banner
    }
}

/// Where an ad space is on the page.
#[derive(Debug, Clone, Copy, PartialEq, Eq, Structural)]
pub enum AdspacePosition {
    Unknown,
    FirstPosition,
    Others,
}

/// Where a click may open.
#[derive(Debug, Clone, Copy, PartialEq, Eq, Structural)]
pub enum OpenType {
    All,
    Inner,
    Outer,
}

/// Interactions an ad space allows.
#[derive(Debug, Clone, Copy, PartialEq, Eq, Structural)]
pub enum InteractionType {
    Any,
    NoInteraction,
    Browser,
    Download,
    Video,
    Deeplink,
}

impl Default for InteractionType {
    fn default() -> (t: Self)
        ensures
            t == InteractionType::Any,
    {
        Self::Any
    }
}

/// Assets an ad space requires.
#[derive(Debug, Clone, Copy, PartialEq, Eq, Structural)]
pub enum Asset {
    Title,
    Text,
    IconImage,
    MainImage,
}


/// The ad space type that a DSP slot names: the type its slot type text
/// names, a banner where it names none or has none.
pub open spec fn slot_adspace_type(slot: DspSlot) -> AdspaceType {
    match slot.slot_type {
        Some(v) => match adspace_type_from_text(v@) {
            Some(t) => t,
            None => AdspaceType::Banner,
        },
        None => AdspaceType::Banner,
    }
}

/// The package name sent: the DSP slot's, else the app's.
pub open spec fn sent_package(slot: DspSlot, media: ssp::Media) -> Seq<char> {
    match slot.package {
        Some(p) => p@,
        None => media_package(media),
    }
}

impl<'a> WanHuiDsp<'a> {
    /// The bid request for an SSP request and a DSP slot: the app (with the
    /// configured app id and the slot's package if it has one), the device,
    /// network and position converted, one ad space with the configured id
    /// and the slot's type, the request's user agent; a web medium is the
    /// error 500 `not app`.
    pub fn new_request(&self, req: &ssp::Request, slot: &DspSlot) -> (r: Result<Request, Error>)
        ensures
            req.media is Wap ==> (r matches Err(e) && is_server_error(e, 500, 500, "not app"@)),
            req.media matches ssp::Media::App { package_name, version } ==> (r matches Ok(q) && {
                &&& exists|millis: u32| q.bid@ == hex_lower(md5_text(bid_source(package_name@, millis)))
                &&& q.api_version == self.config.api_version
                &&& q.end_type == DEFAULT_END_TYPE
                &&& q.ua == req.user_agent
                &&& q.app.app_id == self.config.app_id
                &&& q.app.app_name matches Some(n) && n@ == default_app_name()
                &&& q.app.package_name matches Some(p) && p@ == sent_package(*slot, req.media)
                &&& q.app.app_keywords is None
                &&& q.app.app_version@ == ssp::version_text(version)
                &&& q.device.device_id@.map_values(|i: DeviceID| (i.device_id@, i.device_id_type))
                    == req.device.ids@.map_values(|i: ssp::DeviceID| device_id_of(i))
                &&& q.device.os_type == os_type_of(req.device.os_type)
                &&& q.device.os_version@ == ssp::major_minor_text(req.device.os_version)
                &&& q.device.brand == req.device.brand
                &&& q.device.model == req.device.model
                &&& q.device.screen_width == req.device.screen_width
                &&& q.device.screen_height == req.device.screen_height
                &&& q.net_work.network_type == network_type_of(req.network.network_type)
                &&& q.net_work.carrier_id == CarrierID::Unknown
                &&& q.net_work.cellular_id matches Some(c) && (c.mcc, c.mnc, c.lac, c.cid) == cell_of(req.network.cellular_id@, CarrierID::Unknown)
                &&& q.gps matches Some(g) && g.gps_type == GPSType::WGS84
                    && g.longitude == req.location.longitude.unwrap_or(0)
                    && g.latitude == req.location.latitude.unwrap_or(0)
                    && (req.location.timestamp matches Some(t) ==> g.timestamp == t)
                &&& q.adspaces@.len() == 1
                &&& q.adspaces@[0].adspace_id == self.config.adspace_id
                &&& q.adspaces@[0].adspace_type == slot_adspace_type(*slot)
                &&& q.adspaces@[0].width == req.slot.width
                &&& q.adspaces@[0].height == req.slot.height
                &&& !q.debug
                &&& q.browser_ua == req.user_agent
            }),
    {
        let mut app = App::try_from(req.media.clone())?;
        app.app_id = self.config.app_id.clone();
        app.package_name = match &slot.package {
            Some(p) => Some(p.clone()),
            None => match &app.package_name {
                Some(p) => Some(p.clone()),
                None => None,
            },
        };
        let mut adspace = Adspace::try_from(req.slot)?;
        adspace.adspace_id = self.config.adspace_id.clone();
        adspace.adspace_type = match &slot.slot_type {
            Some(v) => match AdspaceType::from_str(v.as_str()) {
                Ok(t) => t,
                Err(_) => AdspaceType::default(),
            },
            None => AdspaceType::default(),
        };
        let mut adspaces: Vec<Adspace> = Vec::new();
        adspaces.push(adspace);
        let bid = self.request_bid(req);
        Ok(Request {
            bid,
            api_version: self.config.api_version.clone(),
            end_type: DEFAULT_END_TYPE,
            ua: req.user_agent.clone(),
            app,
            device: Device::from(req.device.clone()),
            net_work: Network::from(req.network.clone()),
            gps: Some(GPS::from(&req.location)),
            adspaces,
            debug: false,
            browser_ua: req.user_agent.clone(),
        })
    }
}


/// WanHui's bid response.
pub struct Response {
    pub bid: String,
    pub ads: Option<Vec<Ad>>,
    pub error_code: Option<i64>,
    pub error_msg: Option<String>,
}

/// An ad of the response: its ad space and creatives.
pub struct Ad {
    pub adspace_id: String,
    pub creative: Vec<Creative>,
}

/// A creative of an ad.
pub struct Creative {
    pub banner_id: String,
    pub open_type: OpenType,
    pub interaction_type: Option<InteractionType>,
    pub interacton_object: Option<InteractionObject>,
    pub adm_type: AdmType,
    pub adm: Adm,
    pub event_track: Vec<EventTrack>,
    pub download: Option<Download>,
}

/// A download offered by a creative.
pub struct Download {
    pub md5: String,
    pub url: String,
    pub package_name: Option<String>,
    pub size: Option<i32>,
    pub app_version: Option<String>,
}

/// An event to report, and where.
pub struct EventTrack {
    pub event_type: EventType,
    pub notify_url: String,
}

/// Kinds of event.
#[derive(Debug, Clone, Copy, PartialEq, Eq, Structural)]
pub enum EventType {
    Pattern,
}

/// A creative's markup.
pub struct Adm {
    pub source: String,
    pub nativ: Native,
    pub style: AdmStyle,
}

/// Styles of markup.
#[derive(Debug, Clone, Copy, PartialEq, Eq, Structural)]
pub enum AdmStyle {
    OpenscreenDef,
    InfoflowOnePic,
    InfoFlowThreePic,
    InfoFlowLeftPic,
    InfoFlowRightPic,
    InfoFlowTopPic,
    InfoFlowBottomPic,
    BannerDef,
}

/// A native creative.
pub struct Native {
    pub img: Img,
    pub title: Title,
    pub desc: Option<String>,
    pub source: Option<String>,
    pub button_txt: Option<String>,
    pub img_list: Option<Vec<Img>>,
}

/// An image of a creative.
pub struct Img {
    pub url: String,
    pub width: Option<u32>,
    pub height: Option<u32>,
    pub md5: String,
    pub img_type: ImgType,
}

/// Kinds of image.
#[derive(Debug, Clone, Copy, PartialEq, Eq, Structural)]
pub enum ImgType {
    Master,
    Icon,
    Button,
}

/// A creative's title.
pub struct Title {
    pub text: String,
}

/// Where a click leads.
pub struct InteractionObject {
    pub url: String,
    pub deeplink: Option<String>,
}

/// Kinds of markup.
#[derive(Debug, Clone, Copy, PartialEq, Eq, Structural)]
pub enum AdmType {
    PIC,
    HTML,
    NATIVE,
}

/// The server's image for a creative's image: missing sizes as 0.
pub open spec fn image_of(img: Img) -> ssp::Image {
    ssp::Image { url: img.url, width: img.width.unwrap_or(0), height: img.height.unwrap_or(0) }
}

/// The server's interaction for WanHui's.
pub open spec fn interaction_of(t: InteractionType) -> ssp::InteractionType {
    match t {
        InteractionType::NoInteraction => ssp::InteractionType::NoInteraction,
        InteractionType::Download => ssp::InteractionType::Download,
        InteractionType::Deeplink => ssp::InteractionType::DeepLink,
        _ => ssp::InteractionType::Surfing,
    }
}

/// The ad that a native creative gives: its image and image list.
pub open spec fn native_ad(n: Native) -> ssp::AdView {
    (Seq::empty(), AdType::Text, ssp::InteractionType::Surfing, None, None, Some(image_of(n.img)),
        match n.img_list {
            Some(l) => Some(l@.map_values(|i: Img| image_of(i))),
            None => None,
        })
}

/// The ad that a creative gives: its native ad as an image ad with its
/// interaction, and its click target's links where it has one.
pub open spec fn creative_ad(c: Creative) -> ssp::AdView {
    let base = native_ad(c.adm.nativ);
    let it = interaction_of(c.interaction_type.unwrap_or(InteractionType::Any));
    match c.interacton_object {
        Some(o) => (base.0, AdType::Image, it, o.deeplink, Some(o.url), base.5, base.6),
        None => (base.0, AdType::Image, it, base.3, base.4, base.5, base.6),
    }
}

impl Img {
    /// The server's image for this image (`image_of`).
    pub fn into_image(self) -> (i: ssp::Image)
        ensures
            i == image_of(self),
    {
        ssp::Image {
            url: self.url,
            width: match self.width { Some(w) => w, None => 0 },
            height: match self.height { Some(h) => h, None => 0 },
        }
    }
}

/// An ad keeps WanHui's interaction where the server has one: no
/// interaction stays none, a download a download, a deep link a deep link;
/// every other kind is a link to open.
pub proof fn lemma_interaction_kept(t: InteractionType)
    ensures
        t == InteractionType::NoInteraction ==> interaction_of(t) == ssp::InteractionType::NoInteraction,
        t == InteractionType::Download ==> interaction_of(t) == ssp::InteractionType::Download,
        t == InteractionType::Deeplink ==> interaction_of(t) == ssp::InteractionType::DeepLink,
        t == InteractionType::Any || t == InteractionType::Browser || t == InteractionType::Video
            ==> interaction_of(t) == ssp::InteractionType::Surfing,
{
}

/// The ad a creative gives has the interaction of the creative's kind
/// (`lemma_interaction_kept`); a creative without one is a link to open.
pub proof fn lemma_creative_interaction(c: Creative)
    ensures
        c.interaction_type == Some(InteractionType::NoInteraction) ==> creative_ad(c).2 == ssp::InteractionType::NoInteraction,
        c.interaction_type == Some(InteractionType::Download) ==> creative_ad(c).2 == ssp::InteractionType::Download,
        c.interaction_type == Some(InteractionType::Deeplink) ==> creative_ad(c).2 == ssp::InteractionType::DeepLink,
        c.interaction_type is None ==> creative_ad(c).2 == ssp::InteractionType::Surfing,
{
}

impl InteractionType {
    /// The server's interaction for this one (`interaction_of`).
    pub fn into_interaction(self) -> (t: ssp::InteractionType)
        ensures
            t == interaction_of(self),
            self == InteractionType::NoInteraction ==> t == ssp::InteractionType::NoInteraction,
            self == InteractionType::Download ==> t == ssp::InteractionType::Download,
            self == InteractionType::Deeplink ==> t == ssp::InteractionType::DeepLink,
            self != InteractionType::NoInteraction && self != InteractionType::Download
                && self != InteractionType::Deeplink ==> t == ssp::InteractionType::Surfing,
    {
        match self {
            InteractionType::NoInteraction => ssp::InteractionType::NoInteraction,
            InteractionType::Download => ssp::InteractionType::Download,
            InteractionType::Deeplink => ssp::InteractionType::DeepLink,
            _ => ssp::InteractionType::Surfing,
        }
    }
}

impl AdmType {
    /// The ad type for any markup: an image ad.
    pub fn into_ad_type(self) -> (t: AdType)
        ensures
            t == AdType::Image,
    {
        AdType::Image
    }
}

impl Native {
    /// The ad that this creative gives (`native_ad`).
    pub fn into_ad(self) -> (a: ssp::Ad)
        ensures
            a@ == native_ad(self),
    {
        let mut ad = ssp::Ad::default();
        let ghost list = self.img_list;
        ad.image = Some(self.img.into_image());
        ad.images = match self.img_list {
            Some(imgs) => {
                let ghost src = imgs@;
                let mut imgs = imgs;
                let mut out: Vec<ssp::Image> = Vec::new();
                let mut rest: Vec<Img> = Vec::new();
                // Move the images out from the back, then restore their order.
                while imgs.len() > 0
                    invariant
                        imgs@ == src.take(imgs@.len() as int),
                        imgs@.len() <= src.len(),
                        out@ == src.skip(imgs@.len() as int).map_values(|i: Img| image_of(i)).reverse(),
                    decreases imgs@.len(),
                {
                    let ghost n = imgs@.len();
                    let img = imgs.pop().unwrap();
                    assert(img == src[n - 1]);
                    out.push(img.into_image());
                    assert(src.take(n - 1) =~= imgs@);
                    assert(src.skip(n - 1).map_values(|i: Img| image_of(i)).reverse()
                        =~= src.skip(n as int).map_values(|i: Img| image_of(i)).reverse().push(image_of(src[n - 1])));
                }
                let mut ordered: Vec<ssp::Image> = Vec::new();
                let ghost rev = out@;
                while out.len() > 0
                    invariant
                        rev == src.map_values(|i: Img| image_of(i)).reverse(),
                        out@ == rev.take(out@.len() as int),
                        out@.len() <= rev.len(),
                        ordered@ == rev.skip(out@.len() as int).reverse(),
                    decreases out@.len(),
                {
                    let ghost n = out@.len();
                    let one = out.pop().unwrap();
                    ordered.push(one);
                    assert(rev.take(n - 1) =~= out@);
                    assert(rev.skip(n - 1).reverse() =~= rev.skip(n as int).reverse().push(rev[n - 1]));
                }
                assert(src.skip(0) =~= src);
                assert(rev.skip(0) =~= rev);
                assert(ordered@ =~= src.map_values(|i: Img| image_of(i)));
                Some(ordered)
            },
            None => None,
        };
        ad
    }
}

impl Creative {
    /// The ad that this creative gives (`creative_ad`).
    pub fn into_ad(self) -> (a: ssp::Ad)
        ensures
            a@ == creative_ad(self),
    {
        let mut ad = self.adm.nativ.into_ad();
        ad.adtype = self.adm_type.into_ad_type();
        let it = match self.interaction_type {
            Some(t) => t,
            None => InteractionType::default(),
        };
        ad.interaction_type = it.into_interaction();
        if let Some(inter) = self.interacton_object {
            ad.deeplink_url = inter.deeplink;
            ad.click_url = Some(inter.url);
        }
        ad
    }
}

impl Ad {
    /// The ad of its first creative with the ad space's id; without
    /// creatives, the error 500 `require creative`.
    pub fn try_into_ad(self) -> (r: Result<ssp::Ad, Error>)
        ensures
            self.creative@.len() == 0 ==> (r matches Err(e) && is_server_error(e, 500, 500, "require creative"@)),
            self.creative@.len() > 0 ==> (r matches Ok(a) && {
                let c = creative_ad(self.creative@[0]);
                a@ == (self.adspace_id@, c.1, c.2, c.3, c.4, c.5, c.6)
            }),
    {
        if self.creative.len() == 0 {
            return Err(Error::InternalServerError(500, "require creative"));
        }
        let mut creatives = self.creative;
        let creative = creatives.remove(0);
        let mut ad = creative.into_ad();
        ad.ad_id = self.adspace_id;
        Ok(ad)
    }
}

/// The ad of a response ad that has a creative.
pub open spec fn response_ad(a: Ad) -> ssp::AdView {
    let c = creative_ad(a.creative@[0]);
    (a.adspace_id@, c.1, c.2, c.3, c.4, c.5, c.6)
}

/// The ads of a response: those with a creative, converted, in order.
pub open spec fn response_ads(ads: Seq<Ad>) -> Seq<ssp::AdView>
    decreases ads.len(),
{
    if ads.len() == 0 {
        Seq::empty()
    } else {
        let rest = response_ads(ads.drop_last());
        if ads.last().creative@.len() > 0 {
            rest.push(response_ad(ads.last()))
        } else {
            rest
        }
    }
}

impl Response {
    /// The ads of the response (`response_ads`; none where it has none).
    pub fn into_ads(self) -> (ads: Vec<ssp::Ad>)
        ensures
            ads@.map_values(|a: ssp::Ad| a@) == (match self.ads {
                Some(v) => response_ads(v@),
                None => Seq::<ssp::AdView>::empty(),
            }),
    {
        let list = match self.ads {
            Some(v) => v,
            None => Vec::new(),
        };
        let ghost src = list@;
        let mut list = list;
        // Take the ads from the front by reversing once.
        let mut stack: Vec<Ad> = Vec::new();
        while list.len() > 0
            invariant
                list@ == src.take(list@.len() as int),
                list@.len() <= src.len(),
                stack@ == src.skip(list@.len() as int).reverse(),
            decreases list@.len(),
        {
            let ghost n = list@.len();
            let a = list.pop().unwrap();
            stack.push(a);
            assert(src.take(n - 1) =~= list@);
            assert(src.skip(n - 1).reverse() =~= src.skip(n as int).reverse().push(src[n - 1]));
        }
        assert(src.skip(0) =~= src);
        let total = stack.len();
        assert(src.len() == total);
        let mut ads: Vec<ssp::Ad> = Vec::new();
        let mut done: usize = 0;
        while stack.len() > 0
            invariant
                stack@ == src.reverse().take(stack@.len() as int),
                stack@.len() + done == src.len(),
                src.len() <= usize::MAX,
                ads@.map_values(|a: ssp::Ad| a@) == response_ads(src.take(done as int)),
            decreases stack@.len(),
        {
            let ghost n = stack@.len();
            let a = stack.pop().unwrap();
            assert(a == src[done as int]);
            assert(src.take(done + 1).drop_last() =~= src.take(done as int));
            assert(src.reverse().take(n - 1) =~= stack@);
            let ghost prev = ads@;
            match a.try_into_ad() {
                Ok(ad) => {
                    ads.push(ad);
                    assert(ads@.map_values(|a: ssp::Ad| a@) =~= prev.map_values(|a: ssp::Ad| a@).push(response_ad(src[done as int])));
                },
                Err(_) => {},
            }
            done = done + 1;
        }
        assert(src.take(src.len() as int) =~= src);
        ads
    }

    /// The ads of a successful response; a positive error code is the error
    /// 500 with that code (truncated to 32 bits) and the error message.
    pub fn into_result(self) -> (r: Result<Vec<ssp::Ad>, Error>)
        ensures
            self.error_code is Some && self.error_code->0 > 0 ==> (r matches Err(e) && e.status == 500
                && e.code == self.error_code->0 as u32
                && e.message@ == (match self.error_msg {
                    Some(m) => m@,
                    None => Seq::<char>::empty(),
                })),
            !(self.error_code is Some && self.error_code->0 > 0) ==> (r matches Ok(ads)
                && ads@.map_values(|a: ssp::Ad| a@) == (match self.ads {
                    Some(v) => response_ads(v@),
                    None => Seq::<ssp::AdView>::empty(),
                })),
    {
        if let Some(code) = self.error_code {
            if code > 0 {
                let msg = match &self.error_msg {
                    Some(m) => m.clone(),
                    None => String::new(),
                };
                return Err(Error::InternalServerError(code as u32, msg.as_str()));
            }
        }
        Ok(self.into_ads())
    }

    /// The error for a response with a failing status: its error code
    /// (0 if none, truncated to 32 bits) and message (empty if none).
    pub fn into_error(self, status: u16) -> (e: Error)
        ensures
            e.status == status,
            e.code == (match self.error_code {
                Some(c) => c as u32,
                None => 0u32,
            }),
            e.message@ == (match self.error_msg {
                Some(m) => m@,
                None => Seq::<char>::empty(),
            }),
    {
        let code: i64 = match self.error_code {
            Some(c) => c,
            None => 0,
        };
        let msg = match &self.error_msg {
            Some(m) => m.clone(),
            None => String::new(),
        };
        Error::new(code as u32, msg.as_str(), status)
    }
}

} // verus!
