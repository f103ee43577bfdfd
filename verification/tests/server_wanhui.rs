use advert::server::config::WanHuiDspConfig;
use advert::server::dsp::wanhui::{
    to_hex_lower, Ad as WhAd, Adm, AdmStyle, AdmType, AdspaceType, App, CarrierID, CellularID,
    Creative, Device as WhDevice, DeviceIDType, Img, ImgType, InteractionObject, InteractionType,
    Native, NetworkType as WhNetworkType, OSType as WhOSType, OpenType, Response, Title, WanHuiDsp,
    GPS, GPSType,
};
use advert::server::dsp_slot::DspSlot;
use advert::server::enums::{AdType, OS};
use advert::server::ssp::{
    Device, DeviceID, Location, MatchRule, Media, Network, NetworkType, Request, Slot, Version,
    InteractionType as SspInteraction,
};
use advert::server::strategy::TriggerRule;

fn request(media: Media) -> Request {
    Request {
        slot: Slot { id: 12, width: 640, height: 100 },
        media,
        device: Device {
            os_type: OS::Android,
            os_version: Version { major: 11, minor: 2, micro: 7 },
            brand: "brand".to_string(),
            model: "model".to_string(),
            screen_width: 1080,
            screen_height: 2340,
            screen_density: 0,
            ids: vec![
                DeviceID::IMEI { id: "imei-1".to_string(), md5: false },
                DeviceID::AndroidID { id: "aid".to_string(), md5: false },
                DeviceID::OAID { id: "oaid".to_string(), md5: true },
                DeviceID::IMEI { id: "imei-2".to_string(), md5: false },
            ],
        },
        network: Network {
            network_type: NetworkType::G4,
            imsi: String::new(),
            cellular_id: "4321".to_string(),
            cellular_operator: String::new(),
        },
        location: Location { longitude: Some(11), latitude: None, timestamp: Some(1_600_000_000), source: None },
        ip: "10.0.0.1".to_string(),
        user_agent: "ua".to_string(),
        host: "h".to_string(),
    }
}

fn app_media() -> Media {
    Media::App { package_name: "com.example".to_string(), version: Version { major: 9, minor: 35, micro: 1 } }
}

fn config() -> WanHuiDspConfig {
    WanHuiDspConfig {
        adspace_id: "space".to_string(),
        app_id: "app".to_string(),
        api_version: "1.0".to_string(),
        key: String::new(),
        iv: String::new(),
        location: String::new(),
        user_id: 1,
    }
}

fn dsp_slot(slot_type: Option<&str>, package: Option<&str>) -> DspSlot {
    DspSlot {
        id: 1,
        created_at: 0,
        updated_at: 0,
        media_id: None,
        slot_id: Some(12),
        slot_type: slot_type.map(|s| s.to_string()),
        os: Some(OS::Android),
        package: package.map(|s| s.to_string()),
        width: 640,
        height: 100,
    }
}

#[test]
fn bid_id_is_md5_hex() {
    let bid = WanHuiDsp::bid_for("com.example", 42);
    let expected = format!("{:x}", md5::compute("\"\"\"com.example\"42".as_bytes()));
    assert_eq!(bid, expected);
    assert_eq!(bid.len(), 32);
    assert_eq!(to_hex_lower(&vec![0, 15, 16, 255]), "000f10ff");
    assert_eq!(to_hex_lower(&vec![]), "");
}

#[test]
fn new_request_maps_the_ssp_request() {
    let config = config();
    let dsp = WanHuiDsp::new(&config);
    let req = request(app_media());
    let q = dsp.new_request(&req, &dsp_slot(Some("2"), None)).unwrap();
    assert_eq!(q.api_version, "1.0");
    assert_eq!(q.end_type, 1);
    assert_eq!(q.ua, "ua");
    assert_eq!(q.browser_ua, "ua");
    assert!(!q.debug);
    assert_eq!(q.app.app_id, "app");
    assert_eq!(q.app.app_name.as_deref(), Some("大智慧"));
    assert_eq!(q.app.package_name.as_deref(), Some("com.example"));
    assert_eq!(q.app.app_version, "9.35.1");
    assert_eq!(q.device.os_type, WhOSType::Android);
    assert_eq!(q.device.os_version, "11.2");
    let ids: Vec<(String, DeviceIDType)> =
        q.device.device_id.iter().map(|d| (d.device_id.clone(), d.device_id_type)).collect();
    assert_eq!(
        ids,
        vec![
            ("imei-1".to_string(), DeviceIDType::IMEI),
            (String::new(), DeviceIDType::Unknow),
            ("oaid".to_string(), DeviceIDType::OAID),
            ("imei-2".to_string(), DeviceIDType::IMEI),
        ]
    );
    assert_eq!(q.net_work.network_type, WhNetworkType::_4G);
    assert_eq!(q.net_work.carrier_id, CarrierID::Unknown);
    assert_eq!(q.net_work.cellular_id, Some(CellularID { mcc: 460, mnc: 0, lac: 0, cid: 4321 }));
    assert_eq!(q.gps, Some(GPS { gps_type: GPSType::WGS84, longitude: 11, latitude: 0, timestamp: 1_600_000_000 }));
    assert_eq!(q.adspaces.len(), 1);
    assert_eq!(q.adspaces[0].adspace_id, "space");
    assert_eq!(q.adspaces[0].adspace_type, AdspaceType::Opening);
    assert_eq!((q.adspaces[0].width, q.adspaces[0].height), (640, 100));
    // the bid id is the digest of the package name and some millisecond reading
    assert!((0..1000u32).any(|m| WanHuiDsp::bid_for("com.example", m) == q.bid));
    // the DSP slot's package wins
    let q = dsp.new_request(&req, &dsp_slot(Some("Native"), Some("other.pkg"))).unwrap();
    assert_eq!(q.app.package_name.as_deref(), Some("other.pkg"));
    assert_eq!(q.adspaces[0].adspace_type, AdspaceType::Native);
    let q = dsp.new_request(&req, &dsp_slot(Some("9"), None)).unwrap();
    assert_eq!(q.adspaces[0].adspace_type, AdspaceType::Banner);
}

#[test]
fn new_request_needs_an_app() {
    let config = config();
    let dsp = WanHuiDsp::new(&config);
    let req = request(Media::Wap { domain: "d".to_string(), url: "u".to_string(), title: "t".to_string(), keywords: vec![] });
    let e = match dsp.new_request(&req, &dsp_slot(None, None)) {
        Ok(_) => panic!("expected an error"),
        Err(e) => e,
    };
    assert_eq!((e.status, e.code, e.message.as_str()), (500, 500, "not app"));
    assert!(App::try_from(app_media()).is_ok());
}

#[test]
fn cellular_ids_and_adspace_types() {
    assert_eq!(CellularID::try_from("77".to_string()).unwrap().cid, 77);
    let e = CellularID::try_from("x".to_string()).unwrap_err();
    assert_eq!((e.status, e.code), (400, 400));
    assert_eq!(e.message, "invalid digit found in string");
    let e = CellularID::try_from(String::new()).unwrap_err();
    assert_eq!(e.message, "cannot parse integer from empty string");
    assert_eq!(CellularID::try_from("-5".to_string()).unwrap().cid, -5);
    let mut c = CellularID::default();
    c.set_mnc(&CarrierID::Unicom);
    assert_eq!(c, CellularID { mcc: 460, mnc: 1, lac: 0, cid: 0 });
    c.set_mnc(&CarrierID::ChinaTelecom);
    assert_eq!(c.mnc, 0);

    assert_eq!(AdspaceType::from_str("Interstitial").unwrap(), AdspaceType::Interstitial);
    assert_eq!(AdspaceType::from_str("3").unwrap(), AdspaceType::Interstitial);
    assert_eq!(AdspaceType::from_str("1").unwrap(), AdspaceType::Banner);
    let e = AdspaceType::from_str("5").unwrap_err();
    assert_eq!(e.status, 500);
    assert_eq!(e.message, "invalid value: 5, expected one of: 1, 2, 3, 4");
    let e = AdspaceType::from_str("banner").unwrap_err();
    assert_eq!((e.status, e.code), (500, 500));
    assert_eq!(e.message, serde_json::from_str::<u8>("banner").unwrap_err().to_string());
    assert_eq!(AdspaceType::from_str(" 4 ").unwrap(), AdspaceType::Native);
    assert_eq!(AdspaceType::Opening.to_string(), "Opening");
}

fn img(url: &str, width: Option<u32>) -> Img {
    Img { url: url.to_string(), width, height: Some(50), md5: String::new(), img_type: ImgType::Master }
}

fn creative(interaction: Option<InteractionType>, object: Option<InteractionObject>) -> Creative {
    Creative {
        banner_id: "b".to_string(),
        open_type: OpenType::All,
        interaction_type: interaction,
        interacton_object: object,
        adm_type: AdmType::NATIVE,
        adm: Adm {
            source: String::new(),
            nativ: Native {
                img: img("main", None),
                title: Title { text: "t".to_string() },
                desc: None,
                source: None,
                button_txt: None,
                img_list: Some(vec![img("a", Some(1)), img("b", Some(2))]),
            },
            style: AdmStyle::BannerDef,
        },
        event_track: vec![],
        download: None,
    }
}

#[test]
fn response_ads_from_first_creatives() {
    let resp = Response {
        bid: "x".to_string(),
        ads: Some(vec![
            WhAd {
                adspace_id: "s1".to_string(),
                creative: vec![creative(
                    Some(InteractionType::Deeplink),
                    Some(InteractionObject { url: "click".to_string(), deeplink: Some("deep".to_string()) }),
                )],
            },
            WhAd { adspace_id: "empty".to_string(), creative: vec![] },
            WhAd { adspace_id: "s2".to_string(), creative: vec![creative(None, None)] },
        ]),
        error_code: Some(0),
        error_msg: None,
    };
    let ads = resp.into_result().unwrap();
    assert_eq!(ads.len(), 2);
    assert_eq!(ads[0].ad_id, "s1");
    assert_eq!(ads[0].adtype, AdType::Image);
    assert_eq!(ads[0].interaction_type, SspInteraction::DeepLink);
    assert_eq!(ads[0].click_url.as_deref(), Some("click"));
    assert_eq!(ads[0].deeplink_url.as_deref(), Some("deep"));
    let main = ads[0].image.as_ref().unwrap();
    assert_eq!((main.url.as_str(), main.width, main.height), ("main", 0, 50));
    let list: Vec<String> = ads[0].images.as_ref().unwrap().iter().map(|i| i.url.clone()).collect();
    assert_eq!(list, vec!["a", "b"]);
    assert_eq!(ads[1].ad_id, "s2");
    assert_eq!(ads[1].interaction_type, SspInteraction::Surfing);
    assert!(ads[1].click_url.is_none());
}

#[test]
fn response_errors() {
    let resp = Response { bid: String::new(), ads: None, error_code: Some(1002), error_msg: Some("no fill".to_string()) };
    let e = match resp.into_result() {
        Ok(_) => panic!("expected an error"),
        Err(e) => e,
    };
    assert_eq!((e.status, e.code, e.message.as_str()), (500, 1002, "no fill"));
    let empty = Response { bid: String::new(), ads: None, error_code: None, error_msg: None };
    assert!(empty.into_result().unwrap().is_empty());
    let failed = Response { bid: String::new(), ads: None, error_code: Some(3), error_msg: None };
    let e = failed.into_error(502);
    assert_eq!((e.status, e.code, e.message.as_str()), (502, 3, ""));
    let ad = WhAd { adspace_id: "a".to_string(), creative: vec![] };
    let e = match ad.try_into_ad() {
        Ok(_) => panic!("expected an error"),
        Err(e) => e,
    };
    assert_eq!(e.message, "require creative");
}

#[test]
fn device_conversion() {
    let req = request(app_media());
    let d = WhDevice::from(req.device.clone());
    assert_eq!(d.device_id.len(), 4);
    assert_eq!(d.screen_density, 0);
    assert_eq!(d.os_version, "11.2");
    assert_eq!(WhOSType::from(OS::IOS), WhOSType::IOS);
    assert_eq!(WhNetworkType::from(NetworkType::WIFI), WhNetworkType::WIFI);
    assert_eq!(WhNetworkType::from(NetworkType::Unknown), WhNetworkType::Unknown);
    assert_eq!(InteractionType::Download.into_interaction(), SspInteraction::Download);
    let g = GPS::from(&Location { longitude: None, latitude: Some(3), timestamp: Some(5), source: None });
    assert_eq!((g.longitude, g.latitude, g.timestamp), (0, 3, 5));
    assert_eq!(Version { major: 1, minor: 2, micro: 3 }.to_string(), "1.2.3");
    assert_eq!(Version { major: 1, minor: 2, micro: 3 }.major_minor(), "1.2");
}

fn trigger(key: &str, value: &str) -> TriggerRule {
    TriggerRule { id: 0, created_at: 0, updated_at: 0, config_id: 0, key: key.to_string(), value: value.to_string() }
}

#[test]
fn match_rule_table_of_a_request() {
    let req = request(app_media());
    let m = MatchRule::new(&req);
    assert_eq!(m.get("os_type").map(|s| s.as_str()), Some("Android"));
    assert_eq!(m.get("network_type").map(|s| s.as_str()), Some("G4"));
    assert_eq!(m.get("media_type").map(|s| s.as_str()), Some("APP"));
    // the later IMEI replaces the earlier one
    assert_eq!(m.get("imei").map(|s| s.as_str()), Some("imei-2"));
    assert_eq!(m.get("android_id").map(|s| s.as_str()), Some("aid"));
    assert_eq!(m.get("idfa"), None);
    assert_eq!(m.get("package_name").map(|s| s.as_str()), Some("com.example"));
    assert_eq!(m.get("app_version").map(|s| s.as_str()), Some("9.35.1"));
    assert_eq!(m.get("ip").map(|s| s.as_str()), Some("10.0.0.1"));
    assert_eq!(m.get("city").map(|s| s.as_str()), Some(""));
    let keys: Vec<&str> = m.0.iter().map(|e| e.0.as_str()).collect();
    let mut unique = keys.clone();
    unique.sort();
    unique.dedup();
    assert_eq!(unique.len(), keys.len());

    assert!(m.match_trigger_rule(&trigger("os_type", "[\"IOS\",\"Android\"]")));
    assert!(!m.match_trigger_rule(&trigger("os_type", "[\"IOS\"]")));
    assert!(!m.match_trigger_rule(&trigger("unknown_key", "[\"x\"]")));
    assert!(!m.match_trigger_rule(&trigger("os_type", "oops")));
    assert!(m.match_trigger_rules(&vec![trigger("media_type", "[\"APP\"]"), trigger("city", "[\"\"]")]));
    assert!(!m.match_trigger_rules(&vec![trigger("media_type", "[\"APP\"]"), trigger("city", "[\"x\"]")]));
    assert!(m.match_trigger_rules(&vec![]));

    let mut m2 = MatchRule(vec![]);
    m2.insert("k", "1".to_string());
    m2.insert("j", "2".to_string());
    m2.insert("k", "3".to_string());
    assert_eq!(m2.0.len(), 2);
    assert_eq!(m2.get("k").map(|s| s.as_str()), Some("3"));
    assert_eq!(m2.get("j").map(|s| s.as_str()), Some("2"));

    let me = advert::server::dsp::medsp::MatchRule::new(&req);
    assert_eq!(me.0, vec![("slot_id".to_string(), "12".to_string()), ("os".to_string(), "Android".to_string())]);
}

#[test]
fn test1() {
    // the serde round trip of an asset belongs to the JSON layer; the ad space
    // type reads back the name it is shown by
    let asset = advert::server::dsp::wanhui::Asset::IconImage;
    println!("{:?}", asset);

    let at = AdspaceType::from_str(&AdspaceType::Interstitial.to_string()).unwrap();
    println!("{:?}", at);
    assert_eq!(at, AdspaceType::Interstitial);
}
