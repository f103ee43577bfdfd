use advert::monitor::model::{OSType, Status, Version};
use advert::monitor::ssp::KV;
use advert::monitor::strategy::{
    pick_strategy, Strategy, StrategyConfig, StrategyConfigDistribution,
    StrategyConfigDistributionDspInfo, StrategyConfigDistributionDspInfos, StrategyConfigRules,
    StrategyConfigs, STRATEGY_CONFIG_DATA_RULE_KEY_APPV,
};

#[test]
fn version_try_from() {
    let version = Version::try_from("9.35").unwrap();
    assert_eq!(version.major, 9);
    assert_eq!(version.minor, 35);
    assert_eq!(version.micro, 0);

    let version = Version::try_from("9.").unwrap();
    assert_eq!(version.major, 9);
    assert_eq!(version.minor, 0);
    assert_eq!(version.micro, 0);

    let version = Version::try_from("9").unwrap();
    assert_eq!(version.major, 9);
    assert_eq!(version.minor, 0);
    assert_eq!(version.micro, 0);

    let version = Version::try_from("a");
    assert!(version.is_err());
}

#[test]
fn strategy_config_rule_app_versions() {
    let kv = KV {
        key: STRATEGY_CONFIG_DATA_RULE_KEY_APPV.to_owned(),
        value: "9.35,9.36,9.37,9.38,9.39,9.40,9.41,9.42,9.43,9.44,9.45".to_owned(),
    };
    let app_versions = StrategyConfigRules::app_versions(&kv);
    assert_eq!(
        app_versions.unwrap()[0],
        Version {
            major: 9,
            minor: 35,
            micro: 0
        }
    )
}

#[test]
fn version_three_pieces_and_extra() {
    let v = Version::try_from("1.2.3.4").unwrap();
    assert_eq!(v, Version { major: 1, minor: 2, micro: 3 });
    let v = Version::try_from("7.x.5").unwrap();
    assert_eq!(v, Version { major: 7, minor: 0, micro: 5 });
}

#[test]
fn version_error_names_the_text() {
    let e = Version::try_from("a.1").unwrap_err();
    assert_eq!(e.code, 500);
    assert_eq!(e.message, "parse to version error. value: \"a.1\"");
    let e = Version::try_from("").unwrap_err();
    assert_eq!(e.message, "parse to version error. value: \"\"");
}

#[test]
fn app_versions_skips_unreadable_pieces() {
    let kv = KV { key: "appv".to_string(), value: "x,3.4,,5".to_string() };
    let vs = StrategyConfigRules::app_versions(&kv).unwrap();
    assert_eq!(
        vs,
        vec![Version { major: 3, minor: 4, micro: 0 }, Version { major: 5, minor: 0, micro: 0 }]
    );
}

#[test]
fn app_versions_of_another_rule_is_an_error() {
    let kv = KV { key: "os".to_string(), value: "ios".to_string() };
    let e = StrategyConfigRules::app_versions(&kv).unwrap_err();
    assert_eq!(e.code, 500);
    assert_eq!(e.message, "not app. rule: KV { key: \"os\", value: \"ios\" }");
}

#[test]
fn rules_app_version_takes_first_appv_rule_with_versions() {
    let rules = StrategyConfigRules(vec![
        KV { key: "os".to_string(), value: "1".to_string() },
        KV { key: "appv".to_string(), value: "x".to_string() },
        KV { key: "appv".to_string(), value: "8.1,8.2".to_string() },
    ]);
    assert_eq!(rules.app_version().unwrap(), Version { major: 8, minor: 1, micro: 0 });

    let none = StrategyConfigRules(vec![KV { key: "os".to_string(), value: "1".to_string() }]);
    let e = none.app_version().unwrap_err();
    assert_eq!(e.code, 500);
    assert_eq!(e.message, "no app rule.");
}

#[test]
fn config_app_version_error_lists_rules() {
    let config = StrategyConfig {
        distributions: vec![],
        rules: StrategyConfigRules(vec![KV { key: "a".to_string(), value: "b".to_string() }]),
    };
    let e = config.app_version().unwrap_err();
    assert_eq!(e.code, 500);
    assert_eq!(
        e.message,
        "no app rule. rules: StrategyConfigRules([KV { key: \"a\", value: \"b\" }])"
    );
    let debug = config.rules.debug_text();
    assert_eq!(debug, "StrategyConfigRules([KV { key: \"a\", value: \"b\" }])");
}

fn info(dsp_id: i32, mng: i32) -> StrategyConfigDistributionDspInfo {
    StrategyConfigDistributionDspInfo {
        dsp_id,
        dsp_cpm: 1,
        dsp_percent: 50,
        dsp_mng_id: mng,
        config: String::new(),
    }
}

#[test]
fn find_dsp_infos_keeps_both_tiers_in_order() {
    let d = StrategyConfigDistribution {
        percent: 100,
        first_dsp_infos: StrategyConfigDistributionDspInfos(vec![info(1, 10), info(2, 20), info(1, 11)]),
        second_dsp_infos: StrategyConfigDistributionDspInfos(vec![info(3, 30), info(1, 12)]),
    };
    let found = d.find_dsp_infos(1);
    assert_eq!(found.mng_ids(), vec![10, 11, 12]);
    let only_first = StrategyConfigDistribution::do_find_dsp_infos(&d.first_dsp_infos, 2);
    assert_eq!(only_first.mng_ids(), vec![20]);
    assert!(d.find_dsp_infos(9).0.is_empty());
}

fn strategy(id: i32) -> Strategy {
    Strategy {
        id,
        status: Status::Valid,
        config: StrategyConfigs { data: vec![] },
        comment: String::new(),
        created_at: 0,
        updated_at: 0,
    }
}

#[test]
fn pick_strategy_prefers_slot_then_media() {
    assert_eq!(pick_strategy(Some(strategy(1)), Some(strategy(2)), 5, 6).unwrap().id, 1);
    assert_eq!(pick_strategy(None, Some(strategy(2)), 5, 6).unwrap().id, 2);
    let e = match pick_strategy(None, None, 5, -6) {
        Ok(_) => panic!("expected an error"),
        Err(e) => e,
    };
    assert_eq!(e.code, 500);
    assert_eq!(e.message, "invalid slot_id: 5 or media_id: -6");
}

#[test]
fn status_codes_round_trip() {
    assert_eq!(Status::Invalid.code(), 1);
    assert_eq!(Status::Valid.code(), 0);
    assert_eq!(Status::from_code(1), Some(Status::Invalid));
    assert_eq!(Status::from_code(0), Some(Status::Valid));
    assert_eq!(Status::from_code(2), None);
    assert_eq!(OSType::IOS.debug_name(), "IOS");
    assert_eq!(OSType::Unknown.debug_name(), "Unknown");
}
