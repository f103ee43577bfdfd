//! The SSP request model and the values a request offers to trigger rules.
use vstd::prelude::*;
use crate::text::{concat, u64_to_string, decimal};
use crate::monitor::report::{key_index, assoc_insert, keys_distinct, lemma_assoc_insert_lookup, lemma_assoc_insert_distinct};
use super::enums::{OS, os_name, AdType};
use super::json::json_string_list;
use super::strategy::TriggerRule;

verus! {

broadcast use vstd::string::group_string_axioms;

/// An ad request: what the client sends, and what the server adds from the
/// HTTP request (ip, user agent, host).
pub struct Request {
    pub slot: Slot,
    pub media: Media,
    pub device: Device,
    pub network: Network,
    pub location: Location,
    pub ip: String,
    pub user_agent: String,
    pub host: String,
}

/// The requested slot and its size.
#[derive(Debug, Clone, Copy, PartialEq, Eq, Structural)]
pub struct Slot {
    pub id: u64,
    pub width: u32,
    pub height: u32,
}

/// Where the device is: longitude and latitude are the bits of `f64`s, the
/// timestamp is in seconds since the Unix epoch.
pub struct Location {
    pub longitude: Option<u64>,
    pub latitude: Option<u64>,
    pub timestamp: Option<i64>,
    pub source: Option<String>,
}

/// The device's network.
pub struct Network {
    pub network_type: NetworkType,
    pub imsi: String,
    pub cellular_id: String,
    pub cellular_operator: String,
}

/// A network connection's kind.
#[derive(Debug, Clone, Copy, PartialEq, Eq, Structural)]
pub enum NetworkType {
    Unknown,
    WIFI,
    G2,
    G3,
    G4,
    G5,
}

/// The name a `NetworkType` is shown by (its variant's name).
pub open spec fn network_type_name(n: NetworkType) -> Seq<char> {
    match n {
        NetworkType::Unknown => "Unknown"@,
        NetworkType::WIFI => "WIFI"@,
        NetworkType::G2 => "G2"@,
        NetworkType::G3 => "G3"@,
        NetworkType::G4 => "G4"@,
        NetworkType::G5 => "G5"@,
    }
}

impl NetworkType {
    /// The name this network type is shown by.
    pub fn to_string(&self) -> (s: String)
        ensures
            s@ == network_type_name(*self),
    {
        match self {
            NetworkType::Unknown => "Unknown".to_string(),
            NetworkType::WIFI => "WIFI".to_string(),
            NetworkType::G2 => "G2".to_string(),
            NetworkType::G3 => "G3".to_string(),
            NetworkType::G4 => "G4".to_string(),
            NetworkType::G5 => "G5".to_string(),
        }
    }
}

/// The device: the screen density is held as the bits of an `f32`.
pub struct Device {
    pub os_type: OS,
    pub os_version: Version,
    pub brand: String,
    pub model: String,
    pub screen_width: u32,
    pub screen_height: u32,
    pub screen_density: u32,
    pub ids: Vec<DeviceID>,
}

/// A device id of some kind, and whether it is given as an MD5 digest.
pub enum DeviceID {
    Unknown,
    IMEI { id: String, md5: bool },
    MAC { id: String, md5: bool },
    IDFA { id: String, md5: bool },
    AndroidID { id: String, md5: bool },
    IDFV { id: String, md5: bool },
    OpenUDID { id: String, md5: bool },
    LSCookie { id: String, md5: bool },
    OAID { id: String, md5: bool },
}

impl Clone for DeviceID {
    fn clone(&self) -> (r: Self)
        ensures
            r == *self,
    {
        match self {
            DeviceID::Unknown => DeviceID::Unknown,
            DeviceID::IMEI { id, md5 } => DeviceID::IMEI { id: id.clone(), md5: *md5 },
            DeviceID::MAC { id, md5 } => DeviceID::MAC { id: id.clone(), md5: *md5 },
            DeviceID::IDFA { id, md5 } => DeviceID::IDFA { id: id.clone(), md5: *md5 },
            DeviceID::AndroidID { id, md5 } => DeviceID::AndroidID { id: id.clone(), md5: *md5 },
            DeviceID::IDFV { id, md5 } => DeviceID::IDFV { id: id.clone(), md5: *md5 },
            DeviceID::OpenUDID { id, md5 } => DeviceID::OpenUDID { id: id.clone(), md5: *md5 },
            DeviceID::LSCookie { id, md5 } => DeviceID::LSCookie { id: id.clone(), md5: *md5 },
            DeviceID::OAID { id, md5 } => DeviceID::OAID { id: id.clone(), md5: *md5 },
        }
    }
}

impl Clone for Location {
    fn clone(&self) -> (r: Self)
        ensures
            r == *self,
    {
        Location {
            longitude: self.longitude,
            latitude: self.latitude,
            timestamp: self.timestamp,
            source: match &self.source {
                Some(s) => Some(s.clone()),
                None => None,
            },
        }
    }
}

impl Clone for Network {
    fn clone(&self) -> (r: Self)
        ensures
            r == *self,
    {
        Network {
            network_type: self.network_type,
            imsi: self.imsi.clone(),
            cellular_id: self.cellular_id.clone(),
            cellular_operator: self.cellular_operator.clone(),
        }
    }
}

impl Clone for Device {
    fn clone(&self) -> (r: Self)
        ensures
            r.os_type == self.os_type,
            r.os_version == self.os_version,
            r.brand == self.brand,
            r.model == self.model,
            r.screen_width == self.screen_width,
            r.screen_height == self.screen_height,
            r.screen_density == self.screen_density,
            r.ids@ == self.ids@,
    {
        let mut ids: Vec<DeviceID> = Vec::new();
        let mut i: usize = 0;
        while i < self.ids.len()
            invariant
                i <= self.ids@.len(),
                ids@ == self.ids@.take(i as int),
            decreases self.ids@.len() - i,
        {
            ids.push(self.ids[i].clone());
            assert(ids@ =~= self.ids@.take(i + 1));
            i = i + 1;
        }
        assert(ids@ =~= self.ids@);
        Device {
            os_type: self.os_type,
            os_version: self.os_version,
            brand: self.brand.clone(),
            model: self.model.clone(),
            screen_width: self.screen_width,
            screen_height: self.screen_height,
            screen_density: self.screen_density,
            ids,
        }
    }
}

/// The medium: an app or a web page.
pub enum Media {
    App { package_name: String, version: Version },
    Wap { domain: String, url: String, title: String, keywords: Vec<String> },
}

impl Clone for Media {
    fn clone(&self) -> (r: Self)
        ensures
            *self matches Media::App { .. } ==> r == *self,
            *self matches Media::Wap { domain, url, title, keywords } ==> (r matches Media::Wap {
                domain: d2, url: u2, title: t2, keywords: k2 } && d2 == domain && u2 == url && t2 == title
                && k2@ == keywords@),
    {
        match self {
            Media::App { package_name, version } => Media::App {
                package_name: package_name.clone(),
                version: *version,
            },
            Media::Wap { domain, url, title, keywords } => Media::Wap {
                domain: domain.clone(),
                url: url.clone(),
                title: title.clone(),
                keywords: crate::text::clone_strings(keywords),
            },
        }
    }
}

/// A `major.minor.micro` version.
#[derive(Debug, Clone, Copy, PartialEq, Eq, Structural)]
pub struct Version {
    pub major: u8,
    pub minor: u8,
    pub micro: u8,
}

/// `major.minor`.
pub open spec fn major_minor_text(v: Version) -> Seq<char> {
    decimal(v.major as nat) + "."@ + decimal(v.minor as nat)
}

/// `major.minor.micro`, as the version is shown.
pub open spec fn version_text(v: Version) -> Seq<char> {
    decimal(v.major as nat) + "."@ + decimal(v.minor as nat) + "."@ + decimal(v.micro as nat)
}

impl Version {
    /// `major.minor`.
    pub fn major_minor(&self) -> (s: String)
        ensures
            s@ == major_minor_text(*self),
    {
        let s = concat(u64_to_string(self.major as u64).as_str(), ".");
        concat(s.as_str(), u64_to_string(self.minor as u64).as_str())
    }

    /// `major.minor.micro`, as the version is shown.
    pub fn to_string(&self) -> (s: String)
        ensures
            s@ == version_text(*self),
    {
        let s = concat(self.major_minor().as_str(), ".");
        concat(s.as_str(), u64_to_string(self.micro as u64).as_str())
    }
}

/// The answer to an ad request.
pub struct Response {}

/// An ad that a DSP answered with.
pub struct Ad {
    pub ad_id: String,
    pub adtype: AdType,
    pub interaction_type: InteractionType,
    pub deeplink_url: Option<String>,
    pub click_url: Option<String>,
    pub image: Option<Image>,
    pub images: Option<Vec<Image>>,
}

/// The view of an ad: its fields, the image list as a sequence.
pub type AdView = (Seq<char>, AdType, InteractionType, Option<String>, Option<String>, Option<Image>, Option<Seq<Image>>);

impl View for Ad {
    type V = AdView;

    open spec fn view(&self) -> AdView {
        (self.ad_id@, self.adtype, self.interaction_type, self.deeplink_url, self.click_url, self.image,
            match self.images {
                Some(v) => Some(v@),
                None => None,
            })
    }
}

impl Ad {
    /// An empty ad: no id, text, browsing, no links or images.
    pub fn default() -> (a: Ad)
        ensures
            a@ == (Seq::<char>::empty(), AdType::Text, InteractionType::Surfing, None::<String>, None::<String>,
                None::<Image>, None::<Seq<Image>>),
    {
        Ad {
            ad_id: String::new(),
            adtype: AdType::Text,
            interaction_type: InteractionType::Surfing,
            deeplink_url: None,
            click_url: None,
            image: None,
            images: None,
        }
    }
}

/// An image of an ad.
pub struct Image {
    pub url: String,
    pub width: u32,
    pub height: u32,
}

/// What a click on an ad does.
#[derive(Debug, Clone, Copy, PartialEq, Eq, Structural)]
pub enum InteractionType {
    Surfing,
    NoInteraction,
    Download,
    DeepLink,
}

/// A lookup table of rule keys and request values, each key once.
pub struct MatchRule(pub Vec<(String, String)>);

/// The view of a lookup table.
pub type TableView = Seq<(Seq<char>, Seq<char>)>;

impl View for MatchRule {
    type V = TableView;

    open spec fn view(&self) -> TableView {
        self.0@.map_values(|e: (String, String)| (e.0@, e.1@))
    }
}

/// The value stored under `key`, if any.
pub open spec fn lookup(m: TableView, key: Seq<char>) -> Option<Seq<char>> {
    if key_index(m, key) >= 0 {
        Some(m[key_index(m, key)].1)
    } else {
        None
    }
}

/// The table after the device ids: each IMEI, IDFA, Android id and IDFV
/// stored under its key, a later id of a kind replacing an earlier one.
pub open spec fn with_device_ids(m: TableView, ids: Seq<DeviceID>) -> TableView
    decreases ids.len(),
{
    if ids.len() == 0 {
        m
    } else {
        let rest = with_device_ids(m, ids.drop_last());
        match ids.last() {
            DeviceID::IMEI { id, .. } => assoc_insert(rest, "imei"@, id@),
            DeviceID::IDFA { id, .. } => assoc_insert(rest, "idfa"@, id@),
            DeviceID::AndroidID { id, .. } => assoc_insert(rest, "android_id"@, id@),
            DeviceID::IDFV { id, .. } => assoc_insert(rest, "idfv"@, id@),
            _ => rest,
        }
    }
}

/// The values a request offers to trigger rules: OS, network type, media
/// type, device ids, for an app its package and version, the ip, and empty
/// browser, country, province and city.
pub open spec fn request_table(req: Request) -> TableView {
    let base = seq![
        ("os_type"@, os_name(req.device.os_type)),
        ("network_type"@, network_type_name(req.network.network_type)),
        ("media_type"@, match req.media {
            Media::App { .. } => "APP"@,
            Media::Wap { .. } => "WAP"@,
        }),
    ];
    let with_ids = with_device_ids(base, req.device.ids@);
    let with_app = match req.media {
        Media::App { package_name, version } => assoc_insert(
            assoc_insert(with_ids, "package_name"@, package_name@),
            "app_version"@,
            version_text(version),
        ),
        Media::Wap { .. } => with_ids,
    };
    assoc_insert(
        assoc_insert(
            assoc_insert(
                assoc_insert(assoc_insert(with_app, "ip"@, req.ip@), "browser"@, Seq::empty()),
                "country"@,
                Seq::empty(),
            ),
            "province"@,
            Seq::empty(),
        ),
        "city"@,
        Seq::empty(),
    )
}

/// Whether a trigger rule matches: the request offers a value under its
/// key and the rule's JSON array of strings holds it.
pub open spec fn rule_matches(m: TableView, key: Seq<char>, value: Seq<char>) -> bool {
    &&& lookup(m, key) is Some
    &&& json_string_list(value) is Ok
    &&& json_string_list(value)->Ok_0.contains(lookup(m, key)->0)
}

/// The error for a request whose slot does not exist: 400
/// `invalid slot.id: <id>`.
pub fn slot_not_found(id: u64) -> (e: super::error::Error)
    ensures
        super::error::is_server_error(e, 400, 400, "invalid slot.id: "@ + decimal(id as nat)),
{
    let m = concat("invalid slot.id: ", u64_to_string(id).as_str());
    super::error::Error::BadRequest(400, m.as_str())
}

/// The table as a map: after storing `value` under `key`, a lookup of
/// `key` gives `value` and a lookup of any other key gives what it gave
/// before.
pub proof fn lemma_lookup_after_insert(m: TableView, key: Seq<char>, value: Seq<char>, other: Seq<char>)
    ensures
        lookup(assoc_insert(m, key, value), key) == Some(value),
        other != key ==> lookup(assoc_insert(m, key, value), other) == lookup(m, other),
{
    lemma_assoc_insert_lookup(m, key, value, other);
}

proof fn lemma_with_ids_distinct(m: TableView, ids: Seq<DeviceID>)
    requires
        keys_distinct(m),
    ensures
        keys_distinct(with_device_ids(m, ids)),
    decreases ids.len(),
{
    if ids.len() > 0 {
        lemma_with_ids_distinct(m, ids.drop_last());
        let rest = with_device_ids(m, ids.drop_last());
        match ids.last() {
            DeviceID::IMEI { id, .. } => lemma_assoc_insert_distinct(rest, "imei"@, id@),
            DeviceID::IDFA { id, .. } => lemma_assoc_insert_distinct(rest, "idfa"@, id@),
            DeviceID::AndroidID { id, .. } => lemma_assoc_insert_distinct(rest, "android_id"@, id@),
            DeviceID::IDFV { id, .. } => lemma_assoc_insert_distinct(rest, "idfv"@, id@),
            _ => {},
        }
    }
}

proof fn lemma_with_ids_lookup(m: TableView, ids: Seq<DeviceID>, key: Seq<char>)
    requires
        key != "imei"@,
        key != "idfa"@,
        key != "android_id"@,
        key != "idfv"@,
    ensures
        lookup(with_device_ids(m, ids), key) == lookup(m, key),
    decreases ids.len(),
{
    if ids.len() > 0 {
        lemma_with_ids_lookup(m, ids.drop_last(), key);
        let rest = with_device_ids(m, ids.drop_last());
        match ids.last() {
            DeviceID::IMEI { id, .. } => lemma_lookup_after_insert(rest, "imei"@, id@, key),
            DeviceID::IDFA { id, .. } => lemma_lookup_after_insert(rest, "idfa"@, id@, key),
            DeviceID::AndroidID { id, .. } => lemma_lookup_after_insert(rest, "android_id"@, id@, key),
            DeviceID::IDFV { id, .. } => lemma_lookup_after_insert(rest, "idfv"@, id@, key),
            _ => {},
        }
    }
}

/// After the first three entries (OS, network type, media type), the table
/// of a request stores only device ids, the app's package and version, the
/// ip, and the browser and place keys: a lookup of any other key gives what
/// those first three entries give.
proof fn lemma_request_table_keeps(req: Request, key: Seq<char>)
    requires
        key != "imei"@,
        key != "idfa"@,
        key != "android_id"@,
        key != "idfv"@,
        key != "package_name"@,
        key != "app_version"@,
        key != "ip"@,
        key != "browser"@,
        key != "country"@,
        key != "province"@,
        key != "city"@,
    ensures
        lookup(request_table(req), key) == lookup(
            seq![
                ("os_type"@, os_name(req.device.os_type)),
                ("network_type"@, network_type_name(req.network.network_type)),
                ("media_type"@, match req.media {
                    Media::App { .. } => "APP"@,
                    Media::Wap { .. } => "WAP"@,
                }),
            ],
            key,
        ),
{
    let base = seq![
        ("os_type"@, os_name(req.device.os_type)),
        ("network_type"@, network_type_name(req.network.network_type)),
        ("media_type"@, match req.media {
            Media::App { .. } => "APP"@,
            Media::Wap { .. } => "WAP"@,
        }),
    ];
    lemma_with_ids_lookup(base, req.device.ids@, key);
    let with_ids = with_device_ids(base, req.device.ids@);
    let with_app = match req.media {
        Media::App { package_name, version } => {
            lemma_lookup_after_insert(with_ids, "package_name"@, package_name@, key);
            let a = assoc_insert(with_ids, "package_name"@, package_name@);
            lemma_lookup_after_insert(a, "app_version"@, version_text(version), key);
            assoc_insert(a, "app_version"@, version_text(version))
        },
        Media::Wap { .. } => with_ids,
    };
    lemma_lookup_after_insert(with_app, "ip"@, req.ip@, key);
    let t1 = assoc_insert(with_app, "ip"@, req.ip@);
    lemma_lookup_after_insert(t1, "browser"@, Seq::empty(), key);
    let t2 = assoc_insert(t1, "browser"@, Seq::empty());
    lemma_lookup_after_insert(t2, "country"@, Seq::empty(), key);
    let t3 = assoc_insert(t2, "country"@, Seq::empty());
    lemma_lookup_after_insert(t3, "province"@, Seq::empty(), key);
    let t4 = assoc_insert(t3, "province"@, Seq::empty());
    lemma_lookup_after_insert(t4, "city"@, Seq::empty(), key);
}

/// What a request offers for its OS, network and media: under "media_type"
/// the table gives "APP" exactly when the medium is an app and "WAP" exactly
/// when it is a web page; under "os_type" the OS's name, under
/// "network_type" the network type's name, whatever ids the device carries.
pub proof fn lemma_request_table_kinds(req: Request)
    ensures
        lookup(request_table(req), "media_type"@) == Some(
            if req.media is App { "APP"@ } else { "WAP"@ },
        ),
        req.media is App <==> lookup(request_table(req), "media_type"@) == Some("APP"@),
        req.media is Wap <==> lookup(request_table(req), "media_type"@) == Some("WAP"@),
        lookup(request_table(req), "os_type"@) == Some(os_name(req.device.os_type)),
        lookup(request_table(req), "network_type"@) == Some(network_type_name(req.network.network_type)),
{
    reveal_strlit("os_type");
    reveal_strlit("network_type");
    reveal_strlit("media_type");
    reveal_strlit("APP");
    reveal_strlit("WAP");
    reveal_strlit("imei");
    reveal_strlit("idfa");
    reveal_strlit("android_id");
    reveal_strlit("idfv");
    reveal_strlit("package_name");
    reveal_strlit("app_version");
    reveal_strlit("ip");
    reveal_strlit("browser");
    reveal_strlit("country");
    reveal_strlit("province");
    reveal_strlit("city");
    assert("APP"@ != "WAP"@) by { assert("APP"@[0] != "WAP"@[0]); }
    let media = if req.media is App { "APP"@ } else { "WAP"@ };
    let base = seq![
        ("os_type"@, os_name(req.device.os_type)),
        ("network_type"@, network_type_name(req.network.network_type)),
        ("media_type"@, match req.media {
            Media::App { .. } => "APP"@,
            Media::Wap { .. } => "WAP"@,
        }),
    ];
    let b1 = base.drop_last();
    let b0 = b1.drop_last();
    assert(b1 =~= seq![base[0], base[1]]);
    assert(b0 =~= seq![base[0]]);
    assert(b0.drop_last() =~= Seq::<(Seq<char>, Seq<char>)>::empty());
    assert("os_type"@ != "media_type"@) by { assert("os_type"@.len() != "media_type"@.len()); }
    assert("os_type"@ != "network_type"@) by { assert("os_type"@.len() != "network_type"@.len()); }
    assert("network_type"@ != "media_type"@) by { assert("network_type"@.len() != "media_type"@.len()); }

    let k = "media_type"@;
    assert(k != "imei"@) by { assert(k[0] != "imei"@[0]); }
    assert(k != "idfa"@) by { assert(k[0] != "idfa"@[0]); }
    assert(k != "android_id"@) by { assert(k[0] != "android_id"@[0]); }
    assert(k != "idfv"@) by { assert(k[0] != "idfv"@[0]); }
    assert(k != "package_name"@) by { assert(k.len() != "package_name"@.len()); }
    assert(k != "app_version"@) by { assert(k[0] != "app_version"@[0]); }
    assert(k != "ip"@) by { assert(k.len() != "ip"@.len()); }
    assert(k != "browser"@) by { assert(k[0] != "browser"@[0]); }
    assert(k != "country"@) by { assert(k[0] != "country"@[0]); }
    assert(k != "province"@) by { assert(k[0] != "province"@[0]); }
    assert(k != "city"@) by { assert(k[0] != "city"@[0]); }
    lemma_request_table_keeps(req, k);
    assert(key_index(base, k) == 2);
    assert(lookup(request_table(req), k) == Some(media));

    let k = "network_type"@;
    assert(k != "imei"@) by { assert(k[0] != "imei"@[0]); }
    assert(k != "idfa"@) by { assert(k[0] != "idfa"@[0]); }
    assert(k != "android_id"@) by { assert(k[0] != "android_id"@[0]); }
    assert(k != "idfv"@) by { assert(k[0] != "idfv"@[0]); }
    assert(k != "package_name"@) by { assert(k[0] != "package_name"@[0]); }
    assert(k != "app_version"@) by { assert(k[0] != "app_version"@[0]); }
    assert(k != "ip"@) by { assert(k.len() != "ip"@.len()); }
    assert(k != "browser"@) by { assert(k[0] != "browser"@[0]); }
    assert(k != "country"@) by { assert(k[0] != "country"@[0]); }
    assert(k != "province"@) by { assert(k[0] != "province"@[0]); }
    assert(k != "city"@) by { assert(k[0] != "city"@[0]); }
    lemma_request_table_keeps(req, k);
    assert(key_index(b1, k) == 1);
    assert(key_index(base, k) == 1);
    assert(lookup(request_table(req), k) == Some(network_type_name(req.network.network_type)));

    let k = "os_type"@;
    assert(k != "imei"@) by { assert(k[0] != "imei"@[0]); }
    assert(k != "idfa"@) by { assert(k[0] != "idfa"@[0]); }
    assert(k != "android_id"@) by { assert(k[0] != "android_id"@[0]); }
    assert(k != "idfv"@) by { assert(k[0] != "idfv"@[0]); }
    assert(k != "package_name"@) by { assert(k[0] != "package_name"@[0]); }
    assert(k != "app_version"@) by { assert(k[0] != "app_version"@[0]); }
    assert(k != "ip"@) by { assert(k.len() != "ip"@.len()); }
    assert(k != "browser"@) by { assert(k[0] != "browser"@[0]); }
    assert(k != "country"@) by { assert(k[0] != "country"@[0]); }
    assert(k != "province"@) by { assert(k[0] != "province"@[0]); }
    assert(k != "city"@) by { assert(k[0] != "city"@[0]); }
    lemma_request_table_keeps(req, k);
    assert(key_index(b0, k) == 0);
    assert(key_index(b1, k) == 0);
    assert(key_index(base, k) == 0);
    assert(lookup(request_table(req), k) == Some(os_name(req.device.os_type)));
}

/// The table of a request is a map: no key occurs in it twice, whatever ids
/// the device carries.
pub proof fn lemma_request_table_keys_distinct(req: Request)
    ensures
        keys_distinct(request_table(req)),
{
    reveal_strlit("os_type");
    reveal_strlit("network_type");
    reveal_strlit("media_type");
    let base = seq![
        ("os_type"@, os_name(req.device.os_type)),
        ("network_type"@, network_type_name(req.network.network_type)),
        ("media_type"@, match req.media {
            Media::App { .. } => "APP"@,
            Media::Wap { .. } => "WAP"@,
        }),
    ];
    assert(keys_distinct(base)) by {
        assert("os_type"@.len() != "network_type"@.len());
        assert("os_type"@.len() != "media_type"@.len());
        assert("network_type"@.len() != "media_type"@.len());
    }
    lemma_with_ids_distinct(base, req.device.ids@);
    let with_ids = with_device_ids(base, req.device.ids@);
    let with_app = match req.media {
        Media::App { package_name, version } => {
            lemma_assoc_insert_distinct(with_ids, "package_name"@, package_name@);
            let a = assoc_insert(with_ids, "package_name"@, package_name@);
            lemma_assoc_insert_distinct(a, "app_version"@, version_text(version));
            assoc_insert(a, "app_version"@, version_text(version))
        },
        Media::Wap { .. } => with_ids,
    };
    lemma_assoc_insert_distinct(with_app, "ip"@, req.ip@);
    let t1 = assoc_insert(with_app, "ip"@, req.ip@);
    lemma_assoc_insert_distinct(t1, "browser"@, Seq::empty());
    let t2 = assoc_insert(t1, "browser"@, Seq::empty());
    lemma_assoc_insert_distinct(t2, "country"@, Seq::empty());
    let t3 = assoc_insert(t2, "country"@, Seq::empty());
    lemma_assoc_insert_distinct(t3, "province"@, Seq::empty());
    let t4 = assoc_insert(t3, "province"@, Seq::empty());
    lemma_assoc_insert_distinct(t4, "city"@, Seq::empty());
}

impl MatchRule {
    /// Stores `value` under `key`, replacing a value stored there.
    pub fn insert(&mut self, key: &str, value: String)
        ensures
            final(self)@ == assoc_insert(old(self)@, key@, value@),
    {
        let k = key.to_string();
        let ghost before = self@;
        let mut i: usize = self.0.len();
        assert(before.take(i as int) =~= before);
        while i > 0
            invariant
                i <= self.0@.len(),
                self@ == before,
                before == old(self)@,
                k@ == key@,
                key_index(before, key@) == key_index(before.take(i as int), key@),
            decreases i,
        {
            assert(before.take(i as int).drop_last() =~= before.take(i - 1));
            if self.0[i - 1].0 == k {
                assert(key_index(before, key@) == i - 1);
                self.0.set(i - 1, (k, value));
                assert(self@ =~= before.update(i - 1, (key@, value@)));
                return;
            }
            i = i - 1;
        }
        assert(before.take(0) =~= Seq::<(Seq<char>, Seq<char>)>::empty());
        self.0.push((k, value));
        assert(self@ =~= before.push((key@, value@)));
    }

    /// The value stored under `key`, if any.
    pub fn get(&self, key: &str) -> (r: Option<&String>)
        ensures
            lookup(self@, key@) is None ==> r is None,
            lookup(self@, key@) matches Some(v) ==> (r matches Some(s) && s@ == v),
    {
        let k = key.to_string();
        let ghost m = self@;
        let mut i: usize = self.0.len();
        assert(m.take(i as int) =~= m);
        while i > 0
            invariant
                i <= self.0@.len(),
                m == self@,
                k@ == key@,
                key_index(m, key@) == key_index(m.take(i as int), key@),
            decreases i,
        {
            assert(m.take(i as int).drop_last() =~= m.take(i - 1));
            if self.0[i - 1].0 == k {
                return Some(&self.0[i - 1].1);
            }
            i = i - 1;
        }
        None
    }

    /// The values the request offers to trigger rules (`request_table`).
    pub fn new(req: &Request) -> (m: MatchRule)
        ensures
            m@ == request_table(*req),
            lookup(m@, "media_type"@) == Some(if req.media is App { "APP"@ } else { "WAP"@ }),
            lookup(m@, "os_type"@) == Some(os_name(req.device.os_type)),
            lookup(m@, "network_type"@) == Some(network_type_name(req.network.network_type)),
    {
        proof {
            lemma_request_table_kinds(*req);
        }
        proof {
            reveal_strlit("os_type");
            reveal_strlit("network_type");
            reveal_strlit("media_type");
        }
        let mut m = MatchRule(Vec::new());
        m.0.push(("os_type".to_string(), req.device.os_type.to_string()));
        m.0.push(("network_type".to_string(), req.network.network_type.to_string()));
        let media_type = match &req.media {
            Media::App { .. } => "APP".to_string(),
            Media::Wap { .. } => "WAP".to_string(),
        };
        m.0.push(("media_type".to_string(), media_type));
        let ghost base = m@;
        assert(base =~= seq![
            ("os_type"@, os_name(req.device.os_type)),
            ("network_type"@, network_type_name(req.network.network_type)),
            ("media_type"@, match req.media {
                Media::App { .. } => "APP"@,
                Media::Wap { .. } => "WAP"@,
            }),
        ]);
        let mut i: usize = 0;
        while i < req.device.ids.len()
            invariant
                i <= req.device.ids@.len(),
                m@ == with_device_ids(base, req.device.ids@.take(i as int)),
            decreases req.device.ids@.len() - i,
        {
            assert(req.device.ids@.take(i + 1).drop_last() =~= req.device.ids@.take(i as int));
            assert(req.device.ids@.take(i + 1).last() == req.device.ids@[i as int]);
            match &req.device.ids[i] {
                DeviceID::IMEI { id, .. } => {
                    m.insert("imei", id.clone());
                },
                DeviceID::IDFA { id, .. } => {
                    m.insert("idfa", id.clone());
                },
                DeviceID::AndroidID { id, .. } => {
                    m.insert("android_id", id.clone());
                },
                DeviceID::IDFV { id, .. } => {
                    m.insert("idfv", id.clone());
                },
                _ => {},
            }
            proof {
                reveal_strlit("imei");
                reveal_strlit("idfa");
                reveal_strlit("android_id");
                reveal_strlit("idfv");
            }
            i = i + 1;
        }
        assert(req.device.ids@.take(req.device.ids@.len() as int) =~= req.device.ids@);
        if let Media::App { package_name, version } = &req.media {
            m.insert("package_name", package_name.clone());
            m.insert("app_version", version.to_string());
        }
        m.insert("ip", req.ip.clone());
        m.insert("browser", String::new());
        m.insert("country", String::new());
        m.insert("province", String::new());
        m.insert("city", String::new());
        m
    }

    /// Whether every rule matches.
    pub fn match_trigger_rules(&self, rules: &Vec<TriggerRule>) -> (b: bool)
        ensures
            b == forall|k: int| 0 <= k < rules@.len() ==> rule_matches(self@, #[trigger] rules@[k].key@, rules@[k].value@),
    {
        let mut i: usize = 0;
        while i < rules.len()
            invariant
                i <= rules@.len(),
                forall|k: int| 0 <= k < i ==> rule_matches(self@, #[trigger] rules@[k].key@, rules@[k].value@),
            decreases rules@.len() - i,
        {
            if !self.match_trigger_rule(&rules[i]) {
                return false;
            }
            i = i + 1;
        }
        true
    }

    /// Whether the rule matches: a value is offered under its key and its
    /// JSON array holds it (a rule that is no such array matches nothing).
    pub fn match_trigger_rule(&self, rule: &TriggerRule) -> (b: bool)
        ensures
            b == rule_matches(self@, rule.key@, rule.value@),
    {
        match self.get(rule.key.as_str()) {
            None => false,
            Some(value) => match rule.contains(value.as_str()) {
                Ok(b) => b,
                Err(_) => false,
            },
        }
    }
}

} // verus!
