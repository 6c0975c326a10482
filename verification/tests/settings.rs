use ddns::config::{check_cache, handle_path, with_defaults, Args, DDNSConfig, Skip};

fn args(config: Option<&str>, cache: Option<&str>) -> Args {
    Args { config_path: config.map(|s| s.to_string()), cache_path: cache.map(|s| s.to_string()) }
}

#[test]
fn a_changed_address_goes_ahead() {
    assert_eq!(check_cache(false, "1.2.3.3", "1.2.3.4".to_string()), Ok("1.2.3.4".to_string()));
    assert_eq!(check_cache(false, "", "1.2.3.4".to_string()), Ok("1.2.3.4".to_string()));
}

#[test]
fn an_unchanged_address_is_skipped() {
    assert_eq!(check_cache(false, "1.2.3.4", "1.2.3.4".to_string()), Err(Skip::Unchanged));
}

#[test]
fn a_forced_update_goes_ahead_whatever_the_cache() {
    assert_eq!(check_cache(true, "1.2.3.4", "1.2.3.4".to_string()), Ok("1.2.3.4".to_string()));
    assert_eq!(check_cache(true, "1.2.3.3", "1.2.3.4".to_string()), Ok("1.2.3.4".to_string()));
}

#[test]
fn the_skip_notice() {
    assert_eq!(Skip::Unchanged.message(), "SKIP: Cache IP not changed, skip update");
}

#[test]
fn given_paths_stand() {
    let given = args(Some("/etc/ddns.json"), Some("/var/cache/ddns.txt"));
    assert_eq!(handle_path(given.clone(), Some("/home/u/.config".to_string())), given);
    assert_eq!(handle_path(given.clone(), None), given);
}

#[test]
fn missing_paths_fall_below_the_configuration_directory() {
    let settled = handle_path(args(None, None), Some("/home/u/.config".to_string()));
    let dir = std::path::Path::new("/home/u/.config");
    assert_eq!(
        settled.config_path,
        Some(dir.join("ddns/ddns_config.json").to_string_lossy().to_string())
    );
    assert_eq!(
        settled.cache_path,
        Some(dir.join("ddns/ddns_cache.txt").to_string_lossy().to_string())
    );
    assert_ne!(settled.config_path, Some("/home/u/.config".to_string()));
    assert_ne!(settled.config_path, Some("ddns/ddns_config.json".to_string()));
    assert!(settled.config_path.unwrap().ends_with("ddns_config.json"));
    assert!(settled.cache_path.unwrap().ends_with("ddns_cache.txt"));
}

#[test]
fn default_paths_on_a_platform_with_slashes() {
    if std::path::MAIN_SEPARATOR == '/' {
        let settled = handle_path(args(None, None), Some("/home/u/.config".to_string()));
        assert_eq!(settled.config_path, Some("/home/u/.config/ddns/ddns_config.json".to_string()));
        assert_eq!(settled.cache_path, Some("/home/u/.config/ddns/ddns_cache.txt".to_string()));
        let settled = handle_path(args(None, None), Some("/home/u/.config/".to_string()));
        assert_eq!(settled.config_path, Some("/home/u/.config/ddns/ddns_config.json".to_string()));
    }
}

#[test]
fn each_path_is_settled_on_its_own() {
    let settled = handle_path(args(Some("c.json"), None), Some("/x".to_string()));
    assert_eq!(settled.config_path, Some("c.json".to_string()));
    assert_eq!(
        settled.cache_path,
        Some(std::path::Path::new("/x").join("ddns/ddns_cache.txt").to_string_lossy().to_string())
    );
}

#[test]
fn without_a_configuration_directory_missing_paths_stay_missing() {
    assert_eq!(handle_path(args(None, None), None), args(None, None));
    assert_eq!(handle_path(args(None, Some("c")), None), args(None, Some("c")));
}

#[test]
fn defaults_fill_only_what_is_missing() {
    let filled = with_defaults(args(None, Some("mine")), Some("a".to_string()), Some("b".to_string()));
    assert_eq!(filled, args(Some("a"), Some("mine")));
    let filled = with_defaults(args(None, None), None, Some("b".to_string()));
    assert_eq!(filled, args(None, Some("b")));
}

#[test]
fn a_finished_run_spends_the_forced_update() {
    let config = DDNSConfig {
        secret_id: "id".to_string(),
        secret_key: "key".to_string(),
        domain: "example.com".to_string(),
        sub_domain: vec!["home".to_string(), "lab".to_string()],
        force_update: true,
    };
    let mut expected = config.clone();
    expected.force_update = false;
    assert_eq!(config.settled(), expected);
    assert_eq!(expected.clone().settled(), expected);
}
