use sway::config::{
    config_directory, default_http, default_port, default_socks, default_true, id_of,
    is_former_form, is_migrated, new_id, search_on, AppConfig, AppSettings, AuthMethod,
    ConfigError, HostProfile, LegacyConfig, Search, TunnelRequest,
};

fn profile(id: &str, name: &str, host: &str, user: &str) -> HostProfile {
    let mut p = HostProfile::with_id(id.to_string());
    p.name = name.to_string();
    p.host = host.to_string();
    p.username = user.to_string();
    p
}

#[test]
fn new_profile_has_defaults() {
    let p = HostProfile::default();
    assert!(p.id.starts_with("host-"));
    assert_eq!(p.name, "新主机");
    assert_eq!(p.port, 22);
    assert_eq!(p.auth_method, AuthMethod::Password);
    assert!(p.host.is_empty() && p.username.is_empty() && p.password.is_empty());
}

#[test]
fn ids_are_made_of_the_time() {
    assert_eq!(id_of(0), "host-0");
    assert_eq!(id_of(1700000000000000000), "host-1700000000000000000");
    assert_ne!(id_of(12), id_of(21));
    let id = new_id();
    assert!(id["host-".len()..].chars().all(|c| c.is_ascii_digit()));
    assert!(id["host-".len()..].parse::<u128>().unwrap() > 1_600_000_000_000_000_000);
}

#[test]
fn labels_of_profiles() {
    assert_eq!(profile("a", "香港", "1.2.3.4", "root").display_label(), "香港 (1.2.3.4)");
    assert_eq!(profile("a", "香港", " ", "root").display_label(), "香港");
    assert_eq!(profile("a", "新主机", " h ", " root ").display_label(), "root@h");
    assert_eq!(profile("a", "  ", "h", " ").display_label(), "h");
    assert_eq!(profile("a", "新主机", "", "root").display_label(), "未命名主机");
}

#[test]
fn each_problem_of_a_profile() {
    let mut p = profile("a", "n", "h", "u");
    p.password = "x".to_string();
    assert_eq!(p.validate_ssh(false), Ok(()));
    p.host = " ".to_string();
    assert_eq!(p.validate_ssh(false), Err(ConfigError::MissingHost));
    p.host = "h".to_string();
    p.username = "".to_string();
    assert_eq!(p.validate_ssh(false), Err(ConfigError::MissingUser));
    p.username = "u".to_string();
    p.port = 0;
    assert_eq!(p.validate_ssh(false), Err(ConfigError::BadSshPort));
    p.port = 22;
    p.password = "".to_string();
    assert_eq!(p.validate_ssh(false), Err(ConfigError::MissingPassword));
    p.auth_method = AuthMethod::PrivateKey;
    assert_eq!(p.validate_ssh(true), Err(ConfigError::MissingKeyFile));
    p.private_key_path = "/k".to_string();
    assert_eq!(p.validate_ssh(false), Err(ConfigError::KeyFileNotFound));
    assert_eq!(p.validate_ssh(true), Ok(()));
}

#[test]
fn each_problem_of_the_settings() {
    let mut s = AppSettings::default();
    assert_eq!((s.socks_port, s.http_port, s.auto_set_system_proxy), (1080, 7890, true));
    assert_eq!(s.validate(), Ok(()));
    s.http_port = 1080;
    assert_eq!(s.validate(), Err(ConfigError::SamePorts));
    s.http_port = 0;
    assert_eq!(s.validate(), Err(ConfigError::BadLocalPort));
}

#[test]
fn errors_have_their_texts() {
    assert_eq!(ConfigError::MissingHost.message(), "请填写 SSH 主机地址");
    assert_eq!(ConfigError::MissingUser.message(), "请填写用户名");
    assert_eq!(ConfigError::BadSshPort.message(), "SSH 端口无效");
    assert_eq!(
        ConfigError::MissingPassword.message(),
        "请填写密码（密码仅保存在内存，切换后需重填）"
    );
    assert_eq!(ConfigError::MissingKeyFile.message(), "请选择私钥文件");
    assert_eq!(ConfigError::KeyFileNotFound.message(), "私钥文件不存在");
    assert_eq!(ConfigError::BadLocalPort.message(), "本地代理端口无效");
    assert_eq!(ConfigError::SamePorts.message(), "SOCKS 与 HTTP 端口不能相同");
    assert_eq!(ConfigError::LastProfile.message(), "至少保留一个主机");
}

#[test]
fn a_request_takes_profile_and_settings() {
    let mut p = profile("a", "n", " h ", "u");
    p.password = "x".to_string();
    let q = TunnelRequest::from_profile(&p, &AppSettings::default(), false).unwrap();
    assert_eq!(q.host, " h ");
    assert_eq!((q.port, q.socks_port, q.http_port), (22, 1080, 7890));
    assert_eq!(q.password, "x");
    let bad = AppSettings { socks_port: 1, http_port: 1, auto_set_system_proxy: true };
    assert_eq!(
        TunnelRequest::from_profile(&p, &bad, false).unwrap_err(),
        ConfigError::SamePorts
    );
    p.host = "".to_string();
    assert_eq!(
        TunnelRequest::from_profile(&p, &bad, false).unwrap_err(),
        ConfigError::MissingHost
    );
}

fn config_of(ids: &[&str], active: &str) -> AppConfig {
    AppConfig {
        profiles: ids.iter().map(|i| profile(i, i, "h", "u")).collect(),
        active_profile_id: active.to_string(),
        settings: AppSettings::default(),
    }
}

#[test]
fn the_profile_in_use() {
    let mut c = config_of(&["a", "b", "b"], "b");
    assert_eq!(c.active_index(), 1);
    assert!(c.set_active("a"));
    assert_eq!(c.active_profile().id, "a");
    assert!(!c.set_active("x"));
    assert_eq!(c.active_profile_id, "a");
    c.active_profile_id = "gone".to_string();
    assert_eq!(c.active_index(), 0);
    c.active_profile_mut().host = "changed".to_string();
    assert_eq!(c.profiles[0].host, "changed");
    assert_eq!(c.profiles[1].host, "h");
}

#[test]
fn adding_copying_and_removing() {
    let mut c = config_of(&["a"], "a");
    c.profiles[0].password = "secret".to_string();
    let id = c.add_profile();
    assert_eq!(c.profiles[1].name, "主机 2");
    assert_eq!(c.active_profile_id, id);
    assert!(c.set_active("a"));
    let copy = c.duplicate_active().unwrap();
    assert_eq!(c.active_profile_id, copy);
    assert_eq!(c.active_profile().name, "a (副本)");
    assert_eq!(c.active_profile().password, "");
    assert_eq!(c.active_profile().host, "h");
    assert_eq!(c.remove_active(), Ok(()));
    assert_eq!(c.active_profile_id, id);
    assert_eq!(c.remove_active(), Ok(()));
    assert_eq!(c.active_profile_id, "a");
    assert_eq!(c.remove_active(), Err(ConfigError::LastProfile));
    assert_eq!(c.profiles.len(), 1);
}

#[test]
fn removing_the_first_uses_the_next() {
    let mut c = config_of(&["a", "b", "c"], "a");
    assert_eq!(c.remove_active(), Ok(()));
    assert_eq!(c.active_profile_id, "b");
}

#[test]
fn normalizing_fills_in() {
    let mut c = config_of(&["a", " "], "nobody");
    c.profiles[0].port = 0;
    c.profiles[1].name = "  ".to_string();
    let n = c.normalized();
    assert_eq!(n.active_profile_id, "a");
    assert_eq!(n.profiles[0].port, 22);
    assert!(n.profiles[1].id.starts_with("host-"));
    assert_eq!(n.profiles[1].name, "u@h");
    let empty = AppConfig {
        profiles: Vec::new(),
        active_profile_id: "".to_string(),
        settings: AppSettings::default(),
    };
    let n = empty.normalized();
    assert_eq!(n.profiles.len(), 1);
    assert_eq!(n.active_profile_id, n.profiles[0].id);
}

#[test]
fn a_blank_active_id_is_found_before_it_is_replaced() {
    let n = config_of(&[""], "").normalized();
    assert_eq!(n.active_profile_id, "");
    assert!(n.profiles[0].id.starts_with("host-"));
}

#[test]
fn passwords_are_not_saved() {
    let mut c = config_of(&["a", "b"], "a");
    c.profiles[1].password = "secret".to_string();
    let saved = c.to_save();
    assert!(saved.profiles.iter().all(|p| p.password.is_empty()));
    assert_eq!(saved.profiles[1].id, "b");
    assert_eq!(c.profiles[1].password, "secret");
}

fn keys(list: &[&str]) -> Vec<String> {
    list.iter().map(|s| s.to_string()).collect()
}

fn legacy(host: &str) -> LegacyConfig {
    LegacyConfig {
        host: host.to_string(),
        port: 0,
        username: "u".to_string(),
        auth_method: AuthMethod::PrivateKey,
        private_key_path: "/k".to_string(),
        socks_port: 1,
        http_port: 2,
        auto_set_system_proxy: false,
    }
}

#[test]
fn the_former_form_is_taken_over() {
    let c = AppConfig::load_by_keys(&keys(&["host", "port"]), Some(config_of(&[], "")), Some(legacy("h")));
    assert_eq!(c.profiles.len(), 1);
    assert_eq!(c.active_profile_id, c.profiles[0].id);
    assert_eq!(c.profiles[0].name, "h");
    assert_eq!(c.profiles[0].port, 22);
    assert_eq!(c.profiles[0].auth_method, AuthMethod::PrivateKey);
    assert_eq!((c.settings.socks_port, c.settings.http_port), (1, 2));
    assert!(!c.settings.auto_set_system_proxy);
    assert_eq!(legacy("").into_app_config().profiles[0].name, "默认主机");
}

#[test]
fn the_present_form_goes_first() {
    let present = keys(&["host", "profiles"]);
    let c = AppConfig::load_by_keys(&present, Some(config_of(&["a"], "a")), Some(legacy("h")));
    assert_eq!(c.profiles[0].id, "a");
    let c = AppConfig::load_by_keys(&present, None, Some(legacy("h")));
    assert_eq!(c.profiles[0].host, "h");
    let c = AppConfig::load_by_keys(&[], None, None);
    assert_eq!(c.profiles.len(), 1);
    assert_eq!(c.profiles[0].name, "新主机");
}

#[test]
fn what_is_saved_is_read_back() {
    let mut c = config_of(&["a", "b"], "b");
    c.profiles[0].password = "secret".to_string();
    let saved = c.to_save();
    let read = AppConfig::load_by_keys(&keys(&["profiles"]), Some(c.to_save()), None);
    assert_eq!(read.active_profile_id, "b");
    for (r, s) in read.profiles.iter().zip(&saved.profiles) {
        assert_eq!((&r.id, &r.name, &r.host, r.port), (&s.id, &s.name, &s.host, s.port));
        assert_eq!(r.password, "");
    }
    assert_eq!(read.profiles.len(), 2);
}

#[test]
fn the_content_tells_the_form() {
    let former = "host = \"h\"\nport = 22\n";
    let c = AppConfig::load(Some(former), Some(config_of(&[], "")), Some(legacy("h")));
    assert_eq!(c.profiles[0].host, "h");
    let present = "active_profile_id = \"a\"\n[settings]\nhttp_port = 1\n";
    let c = AppConfig::load(Some(present), Some(config_of(&["a"], "a")), Some(legacy("h")));
    assert_eq!(c.profiles[0].id, "a");
    let c = AppConfig::load(Some("no toml"), None, None);
    assert_eq!(c.profiles[0].name, "新主机");
    let c = AppConfig::load(Some(""), Some(config_of(&["b"], "b")), Some(legacy("h")));
    assert_eq!(c.profiles[0].id, "b");
}

#[test]
fn forms_of_a_configuration() {
    assert!(is_former_form(&keys(&["username"])));
    assert!(is_former_form(&keys(&["other", "auto_set_system_proxy"])));
    assert!(!is_former_form(&keys(&["host", "settings"])));
    assert!(!is_former_form(&keys(&["active_profile_id", "port"])));
    assert!(!is_former_form(&keys(&["other"])));
    assert!(!is_former_form(&[]));
}

#[test]
fn defaults_of_the_former_form() {
    assert_eq!((default_port(), default_socks(), default_http(), default_true()), (22, 1080, 7890, true));
}

#[test]
fn places_to_look_for_a_configuration() {
    assert_eq!(config_directory(0), Some("sway"));
    assert_eq!(config_directory(1), Some("sslink"));
    assert_eq!(config_directory(2), Some("sshtools"));
    assert_eq!(config_directory(3), None);
    assert!(!is_migrated(0));
    assert!(is_migrated(1));
    assert!(is_migrated(2));
}

/// What the search comes to, and whether it is copied.
fn searched(files: [Option<&str>; 3]) -> Option<(String, bool)> {
    let mut search = Search::Look(0);
    loop {
        search = match search {
            Search::Look(tried) => search_on(tried, files[tried].map(str::to_string)),
            Search::Found { content, copy } => return Some((content, copy)),
            Search::Nothing => return None,
        };
    }
}

#[test]
fn a_configuration_is_searched_for() {
    let found = |text: &str, copy| Some((text.to_string(), copy));
    assert_eq!(searched([Some("a"), Some("b"), Some("c")]), found("a", false));
    assert_eq!(searched([None, Some(" b\r\n"), Some("c")]), found(" b\r\n", true));
    assert_eq!(searched([None, None, Some("c")]), found("c", true));
    assert_eq!(searched([Some(" b\r\n"), Some(" b\r\n"), Some("c")]), found(" b\r\n", false));
    assert_eq!(searched([None, None, None]), None);
    assert!(matches!(search_on(usize::MAX, None), Search::Nothing));
}

#[test]
fn without_a_file_there_is_a_new_configuration() {
    let c = AppConfig::load(None, None, None);
    assert_eq!(c.profiles.len(), 1);
    assert_eq!(c.profiles[0].name, "新主机");
    assert!(c.profiles[0].id.starts_with("host-"));
    assert_eq!(c.active_profile_id, c.profiles[0].id);
    assert_eq!((c.settings.socks_port, c.settings.http_port), (1080, 7890));
    assert!(c.settings.auto_set_system_proxy);
}

#[test]
fn a_loaded_configuration_loads_back() {
    let present = "active_profile_id = \"b\"\n[settings]\nhttp_port = 1\n";
    let mut c = config_of(&["", "b"], "b");
    c.profiles[0].port = 0;
    c.profiles[0].name = " ".to_string();
    let c = AppConfig::load(Some(present), Some(c), None);
    let again = AppConfig::load(Some(present), Some(c.to_save()), Some(legacy("h")));
    assert_eq!(format!("{again:?}"), format!("{:?}", c.to_save()));
    assert_eq!(again.profiles[0].port, 22);
    assert_eq!(again.active_profile_id, "b");
}

#[test]
fn a_copy_of_a_configuration_is_the_same() {
    let mut c = config_of(&["a", "b"], "b");
    c.profiles[1].password = "x".to_string();
    c.settings.http_port = 8;
    let copy = c.clone();
    assert_eq!(format!("{copy:?}"), format!("{c:?}"));
    assert_eq!(copy.profiles[1].password, "x");
}
