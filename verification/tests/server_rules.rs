use advert::server::admin::admin::{GetAdminRequest, PutAdminRequest};
use advert::server::admin::role::{GetRequest, PutRequest};
use advert::server::dsp::dsp_kind;
use advert::server::dsp::idea::Idea;
use advert::server::dsp::medsp::plan::{BidType, Plan, PlanConfig, PlanConfigRule};
use advert::server::dsp::medsp::{first_supported_idea, group_by_bid_type, supported_ideas, PlanIdeaIDs};
use advert::server::dsp::slot::Slot as DspAppSlot;
use advert::server::dsp::DspKind;
use advert::server::enums::{AdType, Status, OS};
use advert::server::error::Error;
use advert::server::media::database::{MediaType, PostRequest as MediaPost};
use advert::server::slot::{PostRequest as SlotPost, RefreshType};
use advert::server::strategy::{contains_value, id_group, BindDsp, TriggerRule, TriggerTarget};
use advert::server::weight::{pick_by_weight, random, total_weight};

fn bind(id: u64, percent: u8) -> BindDsp {
    BindDsp { id, created_at: 0, updated_at: 0, percent, dsp_provider: "WanHui".to_string(), dsp_slot_id: 1 }
}

#[test]
fn weighted_pick_by_running_total() {
    let items = vec![bind(1, 10), bind(2, 0), bind(3, 30), bind(4, 60)];
    assert_eq!(total_weight(&items), 100);
    assert_eq!(pick_by_weight(&items, 0), 0);
    assert_eq!(pick_by_weight(&items, 9), 0);
    // a zero weight is never picked
    assert_eq!(pick_by_weight(&items, 10), 2);
    assert_eq!(pick_by_weight(&items, 39), 2);
    assert_eq!(pick_by_weight(&items, 40), 3);
    assert_eq!(pick_by_weight(&items, 99), 3);
}

#[test]
fn random_choice_never_takes_a_zero_weight() {
    let items = vec![bind(1, 0), bind(2, 5), bind(3, 0)];
    for _ in 0..50 {
        assert_eq!(random(&items).id, 2);
    }
    let single = vec![bind(7, 0)];
    assert_eq!(random(&single).id, 7);
    let two = vec![bind(1, 1), bind(2, 1)];
    let mut seen = [false, false];
    for _ in 0..200 {
        seen[(random(&two).id - 1) as usize] = true;
    }
    assert!(seen[0] && seen[1]);
}

#[test]
fn trigger_rules_read_json_lists() {
    let rule = TriggerRule {
        id: 1,
        created_at: 0,
        updated_at: 0,
        config_id: 1,
        key: "os_type".to_string(),
        value: "[\"Android\",\"IOS\"]".to_string(),
    };
    assert!(rule.contains("IOS").unwrap());
    assert!(!rule.contains("WindowsPhone").unwrap());
    let bad = TriggerRule { value: "not json".to_string(), ..rule };
    let e = bad.contains("IOS").unwrap_err();
    assert_eq!(e.status, 500);
    assert_eq!(e.code, 500);
    let expected = serde_json::from_str::<Vec<String>>("not json").unwrap_err().to_string();
    assert_eq!(e.message, expected);
    assert!(contains_value(&vec!["a".to_string(), "b".to_string()], "b"));
    assert!(!contains_value(&vec![], "b"));
}

#[test]
fn target_groups_are_json_id_lists() {
    let t = TriggerTarget {
        id: 1,
        created_at: 0,
        updated_at: 0,
        config_id: 2,
        percent: 50,
        group1: "[3, 1, 2]".to_string(),
        group2: "[]".to_string(),
    };
    assert_eq!(t.group1().unwrap(), vec![3, 1, 2]);
    assert!(t.group2().unwrap().is_empty());
    assert!(id_group("[1, -2]").is_err());
    let e = id_group("x").unwrap_err();
    assert_eq!(e.status_code(), 500);
    assert_eq!(e.message, serde_json::from_str::<Vec<u64>>("x").unwrap_err().to_string());
}

#[test]
fn errors_carry_status_and_code() {
    let e = Error::BadRequest(400, "bad");
    assert_eq!((e.status, e.code, e.message.as_str()), (400, 400, "bad"));
    let e = Error::InternalServerError(7, "x");
    assert_eq!(e.status_code(), 500);
    let e = Error::UnprocessableEntity(422, "u");
    assert_eq!(e.status, 422);
    let e = Error::new(1, "m", 404);
    assert_eq!((e.status, e.code), (404, 1));
}

fn media_post(media_type: MediaType) -> MediaPost {
    MediaPost {
        name: "m".to_string(),
        desc: None,
        media_type,
        site_url: None,
        os: None,
        package_name: None,
        down_load_url: None,
    }
}

#[test]
fn media_self_check() {
    let e = media_post(MediaType::WAP).self_check().unwrap_err();
    assert_eq!(e.status, 400);
    assert_eq!(e.message, "media_type == 'WAP', 'site_url' can't be null");
    let mut wap = media_post(MediaType::WAP);
    wap.site_url = Some("http://a".to_string());
    assert!(wap.self_check().is_ok());

    let mut app = media_post(MediaType::APP);
    assert_eq!(app.self_check().unwrap_err().message, "media_type == 'APP', 'os' can't be null");
    app.os = Some(OS::Android);
    assert_eq!(app.self_check().unwrap_err().message, "media_type == 'APP', 'package_name' can't be null");
    app.package_name = Some("p".to_string());
    assert_eq!(app.self_check().unwrap_err().message, "media_type == 'APP', 'down_load_url' can't be null");
    app.down_load_url = Some("d".to_string());
    assert!(app.self_check().is_ok());
    assert_eq!(MediaType::APP.to_string(), "APP");
}

#[test]
fn slot_times_when_open_screen() {
    let mut p = SlotPost { media_id: 1, name: "s".to_string(), refresh_type: RefreshType::NoRefresh, open_screen: true, times: 0 };
    let e = p.check_times().unwrap_err();
    assert_eq!(e.status, 400);
    assert_eq!(e.message, "times: 0 must gt 0 when open_screen is true");
    p.times = 3;
    assert!(p.check_times().is_ok());
    p.times = 0;
    p.open_screen = false;
    assert!(p.check_times().is_ok());
}

#[test]
fn names_of_enums() {
    assert_eq!(AdType::ThreeImages.to_string(), "ThreeImages");
    assert_eq!(OS::WindowsPhone.to_string(), "WindowsPhone");
    assert_eq!(Status::Valid.to_string(), "Valid");
    assert!(matches!(dsp_kind("A"), DspKind::A));
    assert!(matches!(dsp_kind("WanHui"), DspKind::WanHui));
    match dsp_kind("me") {
        DspKind::Me(name) => assert_eq!(name, "me"),
        _ => panic!("expected the own DSP"),
    }
}

fn pii(id: u64, bid_type: BidType, price: u32) -> PlanIdeaIDs {
    PlanIdeaIDs {
        plan: Plan {
            id,
            created_at: 0,
            updated_at: 0,
            name: String::new(),
            budget: 0,
            bid_type,
            bid_price: price,
            weekdays: String::new(),
            hours: String::new(),
            begin_at: None,
            end_at: None,
        },
        idea_ids: vec![id * 10],
    }
}

#[test]
fn plans_grouped_by_bid_type_and_price() {
    let v = vec![
        pii(1, BidType::CPM, 5),
        pii(2, BidType::CPT, 3),
        pii(3, BidType::CPM, 9),
        pii(4, BidType::CPM, 5),
        pii(5, BidType::CPC, 1),
    ];
    let (cpt, cpm, cpc) = group_by_bid_type(&v);
    let ids = |g: &Vec<PlanIdeaIDs>| g.iter().map(|p| p.plan.id).collect::<Vec<u64>>();
    assert_eq!(ids(&cpt), vec![2]);
    assert_eq!(ids(&cpm), vec![3, 1, 4]);
    assert_eq!(ids(&cpc), vec![5]);
    assert_eq!(cpm[0].idea_ids, vec![30]);
}

#[test]
fn plan_config_ids_and_rules() {
    let c = PlanConfig { id: 1, created_at: 0, updated_at: 0, plan_id: 1, idea_ids: Some(vec![Some(4), None, Some(2)]) };
    assert_eq!(c.idea_ids().unwrap(), vec![4, 2]);
    let none = PlanConfig { idea_ids: None, ..c };
    assert!(none.idea_ids().unwrap().is_empty());
    let r = PlanConfigRule {
        id: 1,
        created_at: 0,
        updated_at: 0,
        config_id: 1,
        key: "os".to_string(),
        value: Some(vec![None, Some("IOS".to_string())]),
    };
    assert!(r.contains("IOS"));
    assert!(!r.contains("Android"));
}

#[test]
fn ideas_that_a_slot_accepts() {
    let slot = DspAppSlot {
        id: 1,
        created_at: 0,
        updated_at: 0,
        name: String::new(),
        accept_ad_type: Some(vec!["Image".to_string(), "Video".to_string()]),
        min_price_cpt: 0,
        min_price_cpm: 0,
        min_price_cpc: 0,
        width: 0,
        height: 0,
    };
    let idea = |id: u64, ad_type: AdType| Idea { id, created_at: 0, updated_at: 0, ad_type };
    let ideas = vec![idea(1, AdType::Text), idea(2, AdType::Video), idea(3, AdType::Image)];
    assert!(slot.support_ad_type(AdType::Image));
    assert!(!slot.support_ad_type(AdType::Text));
    let ok: Vec<u64> = supported_ideas(&ideas, &slot).iter().map(|i| i.id).collect();
    assert_eq!(ok, vec![2, 3]);
    assert_eq!(first_supported_idea(&ideas, &slot).id, 2);
}

#[test]
fn role_and_admin_sql() {
    assert_eq!(GetRequest { name: None }.sql(), "select * from role where 1 = 1");
    assert_eq!(
        GetRequest { name: Some("a\"b".to_string()) }.sql(),
        "select * from role where 1 = 1 and name = \"a\\\"b\""
    );
    assert_eq!(PutRequest { name: Some("x".to_string()) }.sql(9), "update role set id = id, name = \"x\" where id = 9");
    assert_eq!(PutRequest::default().sql(1), "update role set id = id where id = 1");

    let get = GetAdminRequest {
        admin_id: Some(3),
        role_id: None,
        began_at: Some(0),
        ended_at: Some(1_500_000),
        username: Some("u".to_string()),
    };
    assert_eq!(
        get.sql(),
        "select * from admin where 1=1 and id = 3 and created_at >= \"1970-01-01 00:00:00\" and created_at <= \"1970-01-01 00:00:01.500\" and username = \"u\""
    );
    assert_eq!(GetAdminRequest::default().sql(), "select * from admin where 1=1");
    let put = PutAdminRequest { role_id: Some(2), username: None, password: Some("p".to_string()) };
    assert_eq!(put.sql(5), "update admin set id = id, role_id = 2, password = \"p\" where id = 5");
}

#[test]
fn each_item_is_picked_by_as_many_numbers_as_its_weight() {
    let items = vec![bind(1, 3), bind(2, 0), bind(3, 5), bind(4, 2)];
    let total = total_weight(&items);
    let mut counts = vec![0u32; items.len()];
    for rd in 0..total {
        counts[pick_by_weight(&items, rd)] += 1;
    }
    assert_eq!(counts, vec![3, 0, 5, 2]);
}
