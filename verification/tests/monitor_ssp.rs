use advert::monitor::model::{
    BidType, ClientType, DeviceIDType, MediaType, NetworkType, OSType, Size, Status, Version,
};
use advert::monitor::plan::{AdConfig, AdConfigRule, AdConfigVec, Plan};
use advert::monitor::ssp::{
    check_device_os, tmpl_for_config, AdSlot, Client, Device, DeviceID, DeviceIDs, Location, Media,
    MediaApp, Network, PlanMatcherResult, PlanRuleMatcher, PlanRuleMatcherKey, SspMonitor, Tmpl,
    TmplArg, KV, SSP_CHECK_DSP_SLOT_ID,
};
use advert::monitor::strategy::{StrategyConfig, StrategyConfigRules};
use advert::monitor::supe::Mng;

fn tmpl(os: OSType, scode: &str) -> Tmpl {
    Tmpl {
        media: Media {
            typ: MediaType::App,
            app: Some(MediaApp {
                package_name: "com.example".to_string(),
                channel_id: "c1".to_string(),
                version: Version { major: 1, minor: 0, micro: 0 },
            }),
            site: None,
        },
        device: Device {
            typ: 1,
            ids: DeviceIDs(vec![]),
            os_type: os,
            os_version: Version { major: 14, minor: 2, micro: 0 },
            brand: "b".to_string(),
            model: "m".to_string(),
            screen_size: Size { width: 1080, height: 1920 },
            screen_density: 0,
            dzh_user: String::new(),
        },
        network: Network { typ: NetworkType::WIFI, imsi: None, cellular_id: None, cellular_operator: None },
        client: Client { typ: ClientType::NativeSDK, version: Version::default() },
        location: Location::default(),
        adslot: AdSlot {
            id: 7,
            size: Size { width: 640, height: 100 },
            need_render: 0,
            scode: scode.to_string(),
            tags: vec![],
            rules: vec![],
        },
    }
}

fn rule(key: &str, values: &[&str]) -> AdConfigRule {
    AdConfigRule { key: key.to_string(), values: values.iter().map(|v| v.to_string()).collect() }
}

fn plan(id: i32, configs: Vec<Vec<AdConfigRule>>) -> Plan {
    Plan {
        id,
        status: Status::Valid,
        created_at: 0,
        updated_at: 0,
        name: String::new(),
        user_id: 0,
        budget: 0,
        bid_type: BidType::CPC,
        bid_price: 1,
        weekday: "1".to_string(),
        hour: "1".to_string(),
        adconfig: AdConfigVec(configs.into_iter().map(|rules| AdConfig { ideas: vec![], rules }).collect()),
        begin_time: None,
        end_time: None,
        closed_time: None,
        closed_reason: None,
    }
}

fn id_texts(t: &Tmpl) -> Vec<(String, DeviceIDType)> {
    t.device.ids.0.iter().map(|d| (d.id.clone(), d.typ)).collect()
}

#[test]
fn device_ids_behave_as_a_set() {
    let mut ids = DeviceIDs(vec![]);
    assert!(ids.insert(DeviceID { id: "a".to_string(), typ: DeviceIDType::IMEI }));
    assert!(!ids.insert(DeviceID { id: "a".to_string(), typ: DeviceIDType::IMEI }));
    assert!(ids.insert(DeviceID { id: "a".to_string(), typ: DeviceIDType::IDFA }));
    assert_eq!(ids.0.len(), 2);
}

#[test]
fn matcher_holds_slot_os_and_scode() {
    let t = tmpl(OSType::IOS, "sc9");
    let m = PlanRuleMatcher::new(&t, SSP_CHECK_DSP_SLOT_ID);
    assert_eq!(m.0.len(), 3);
    assert_eq!(m.0[0].0, PlanRuleMatcherKey::SlotID);
    assert_eq!(m.0[0].1, "336583");
    assert_eq!(m.0[1].0, PlanRuleMatcherKey::OS);
    assert_eq!(m.0[1].1, "IOS");
    assert_eq!(m.0[2].0, PlanRuleMatcherKey::Scode);
    assert_eq!(m.0[2].1, "sc9");
    assert_eq!(PlanRuleMatcherKey::Location.as_ref(), "location");
}

#[test]
fn match_plans_keeps_configs_whose_every_rule_is_admitted() {
    let t = tmpl(OSType::Android, "sc");
    let m = PlanRuleMatcher::new(&t, 42);
    let plans = vec![
        plan(1, vec![
            vec![rule("slotid", &["42"]), rule("tag", &["\"t1\""])],
            vec![rule("slotid", &["43"])],
        ]),
        plan(2, vec![vec![rule("os", &["\"Android\""])]]),
        plan(3, vec![vec![]]),
    ];
    assert!(m.match_adconfig_rule(&rule("slotid", &["1", "42"])));
    assert!(m.match_adconfig_rule(&rule("os", &["Android"])));
    assert!(!m.match_adconfig_rule(&rule("os", &["\"Android\""])));
    assert!(m.match_adconfig_rule(&rule("scode", &["sc"])));
    let results = m.match_plans(plans);
    let ids: Vec<i32> = results.iter().map(|r| r.plan.id).collect();
    assert_eq!(ids, vec![1, 3]);
    assert_eq!(results[0].tag_rules.len(), 1);
    assert_eq!(results[0].tag_rules[0].values, vec!["\"t1\""]);
    assert!(results[1].tag_rules.is_empty());
}

#[test]
fn gen_tmpls_adds_one_device_id_per_tag() {
    let t = tmpl(OSType::Android, "sc");
    let r = PlanMatcherResult {
        plan: plan(1, vec![]),
        tag_rules: vec![rule("tag", &["\"x\"", "5"]), rule("os", &["1"]), rule("tag", &["y"])],
    };
    let out = r.gen_tmpls(&t, "dev-");
    assert_eq!(out.len(), 3);
    assert_eq!(id_texts(&out[0]), vec![("dev-\"x\"".to_string(), DeviceIDType::IMEI)]);
    assert_eq!(id_texts(&out[1]), vec![("dev-5".to_string(), DeviceIDType::IMEI)]);
    assert_eq!(id_texts(&out[2]), vec![("dev-y".to_string(), DeviceIDType::IMEI)]);
    assert_eq!(out[2].adslot.scode, "sc");

    let none = PlanMatcherResult { plan: plan(1, vec![]), tag_rules: vec![] };
    let out = none.gen_tmpls(&t, "dev-");
    assert_eq!(out.len(), 1);
    assert!(out[0].device.ids.0.is_empty());

    let ios = tmpl(OSType::IOS, "sc");
    let out = r.gen_tmpls(&ios, "p");
    assert_eq!(out[0].device.ids.0[0].typ, DeviceIDType::IDFA);
    assert_eq!(PlanMatcherResult::device_id(&"z".to_string(), "p", DeviceIDType::MAC).id, "pz");
}

#[test]
fn tmpl_from_arg() {
    let ios = tmpl(OSType::IOS, "i");
    let android = tmpl(OSType::Android, "a");
    let t = Tmpl::try_from(TmplArg { slot_id: 99, os_type: OSType::Android }, &ios, &android).unwrap();
    assert_eq!(t.adslot.id, 99);
    assert_eq!(t.adslot.scode, "a");
    assert_eq!(t.device.os_type, OSType::Android);
    let e = match Tmpl::try_from(TmplArg { slot_id: 1, os_type: OSType::WP }, &ios, &android) {
        Ok(_) => panic!("expected an error"),
        Err(e) => e,
    };
    assert_eq!(e.code, 500);
    assert_eq!(e.message, "invalid os_type: WP");
    assert!(Tmpl::try_from_os_type(OSType::IOS, &ios, &android).is_ok());
}

#[test]
fn device_os_must_match_media_os() {
    let t = tmpl(OSType::IOS, "s");
    assert!(check_device_os(OSType::IOS, &t).is_ok());
    let e = check_device_os(OSType::Android, &t).unwrap_err();
    assert_eq!(e.code, 400);
    assert_eq!(e.message, "invalid device.os_type: IOS");
    assert_eq!(t.device.device_id_type(), DeviceIDType::IDFA);
    assert_eq!(SspMonitor {}.name(), "SSP");
}

#[test]
fn tmpl_takes_app_version_of_config() {
    let t = tmpl(OSType::IOS, "s");
    let data = StrategyConfig {
        distributions: vec![],
        rules: StrategyConfigRules(vec![KV { key: "appv".to_string(), value: "9.40".to_string() }]),
    };
    let r = tmpl_for_config(&t, &data);
    let app = r.media.app.as_ref().unwrap();
    assert_eq!(app.version, Version { major: 9, minor: 40, micro: 0 });
    assert_eq!(app.package_name, "com.example");
    let plain = StrategyConfig { distributions: vec![], rules: StrategyConfigRules(vec![]) };
    let r = tmpl_for_config(&t, &plain);
    assert_eq!(r.media.app.as_ref().unwrap().version, Version { major: 1, minor: 0, micro: 0 });
}

#[test]
fn mng_slot_number() {
    let mut m = Mng {
        id: 1,
        dsp_id: 2,
        media_id: String::new(),
        media_name: String::new(),
        dsp_slot_id: "-12".to_string(),
        dsp_slot_name: String::new(),
        channel_id: String::new(),
        quota: 0,
        slot_type: 0,
        package: String::new(),
        os_type: OSType::Android,
        comment: String::new(),
        width: 0,
        height: 0,
        cache_time: 0,
    };
    assert_eq!(m.dsp_slot_number(), Some(-12));
    m.dsp_slot_id = "x1".to_string();
    assert_eq!(m.dsp_slot_number(), None);
    let kv = KV { key: "k".to_string(), value: "v\"".to_string() };
    assert_eq!(kv.debug_text(), "KV { key: \"k\", value: \"v\\\"\" }");
}
