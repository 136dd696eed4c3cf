use std::time::Duration;
use sway::config::{AppConfig, AppSettings, AuthMethod, HostProfile};
use sway::session::{
    held_after_clearing, held_after_setting, proxy_not_set, proxy_to_clear, proxy_to_set,
    ConnState, Link, Page, ProxyApp, RateWindow, CONNECT_LIMIT, RATE_WINDOW, TOAST_LIMIT,
};
use sway::stats::TrafficSnapshot;

fn profile(id: &str) -> HostProfile {
    let mut p = HostProfile::with_id(id.to_string());
    p.name = id.to_string();
    p.host = " h ".to_string();
    p.username = " u ".to_string();
    p.password = "x".to_string();
    p
}

fn app() -> ProxyApp {
    let config = AppConfig {
        profiles: vec![profile("a"), profile("b")],
        active_profile_id: "a".to_string(),
        settings: AppSettings::default(),
    };
    ProxyApp::new(config, false, 0)
}

fn note(app: &ProxyApp) -> &str {
    match &app.toast {
        Some(t) => &t.text,
        None => "",
    }
}

#[test]
fn the_state_at_the_start() {
    let a = app();
    assert_eq!(a.status_text, "未连接");
    assert_eq!((a.state, a.page), (ConnState::Off, Page::Connect));
    assert!(a.toast.is_none() && a.connected_profile_id.is_none() && !a.show_password);
    let b = ProxyApp::new(a.config, true, 0);
    assert_eq!(b.status_text, "已清除上次残留的系统代理");
    assert_eq!(b.endpoints().http_url(), "http://127.0.0.1:7890");
}

#[test]
fn connecting_and_connected() {
    let mut a = app();
    let plan = a.start(false, 7).unwrap();
    assert_eq!(plan.request.host, " h ");
    assert_eq!(plan.bypass, ["h"]);
    assert!(plan.auto_proxy);
    assert_eq!(plan.endpoints.socks_port, 1080);
    assert_eq!(a.state, ConnState::Connecting);
    assert_eq!(a.status_text, "正在连接 a (h)…");
    assert_eq!(a.connected_profile_id.as_deref(), Some("a"));
    assert!(a.start(false, 8).is_none());
    a.sync_state_from_tunnel(None, None, 9);
    assert_eq!(a.state, ConnState::Connecting);
    a.sync_state_from_tunnel(None, Some(true), 10);
    assert_eq!(a.state, ConnState::On);
    assert_eq!(a.status_text, "已连接 · a (h) · HTTP :7890 / SOCKS :1080");
    assert_eq!(note(&a), "已连接 a (h)");
    a.sync_state_from_tunnel(Some("代理失败".to_string()), Some(true), 11);
    assert_eq!((a.state, a.status_text.as_str()), (ConnState::On, "代理失败"));
    a.sync_state_from_tunnel(None, Some(false), 12);
    assert_eq!((a.state, a.status_text.as_str()), (ConnState::Off, "连接已结束"));
    assert!(a.connected_profile_id.is_none());
}

#[test]
fn connecting_fails() {
    let mut a = app();
    a.start(false, 0);
    a.sync_state_from_tunnel(Some("x".to_string()), Some(true), 1);
    assert_eq!((a.state, a.status_text.as_str()), (ConnState::Error, "连接失败: x"));
    a.sync_state_from_tunnel(Some("y".to_string()), Some(false), 1);
    assert_eq!(a.status_text, "连接失败: x");
}

#[test]
fn connecting_takes_too_long() {
    let mut a = app();
    a.start(false, 100);
    a.sync_state_from_tunnel(None, Some(false), 100 + CONNECT_LIMIT);
    assert_eq!(a.state, ConnState::Connecting);
    a.sync_state_from_tunnel(None, Some(false), 101 + CONNECT_LIMIT);
    assert_eq!(a.state, ConnState::Error);
    assert_eq!(a.status_text, "连接超时，请检查主机与认证信息");
}

#[test]
fn what_cannot_be_started_shows_where_to_mend_it() {
    let mut a = app();
    a.config.settings.http_port = 1080;
    assert!(a.start(false, 0).is_none());
    assert_eq!((a.state, a.page), (ConnState::Error, Page::Settings));
    assert_eq!(a.status_text, "配置错误: SOCKS 与 HTTP 端口不能相同");
    let mut a = app();
    a.config.profiles[0].port = 0;
    a.start(false, 0);
    assert_eq!(a.page, Page::Settings);
    let mut a = app();
    a.config.profiles[0].password.clear();
    a.start(false, 0);
    assert_eq!(a.page, Page::Hosts);
    let mut a = app();
    a.config.profiles[0].auth_method = AuthMethod::PrivateKey;
    a.config.profiles[0].private_key_path = "/k".to_string();
    a.start(false, 0);
    assert_eq!((a.page, a.status_text.as_str()), (Page::Hosts, "配置错误: 私钥文件不存在"));
    assert!(a.start(true, 0).is_some());
}

#[test]
fn disconnecting() {
    let mut a = app();
    assert!(!a.stop_if_busy());
    a.start(false, 0);
    a.set_rates(5, 6);
    assert!(a.stop_if_busy());
    assert_eq!((a.state, a.status_text.as_str()), (ConnState::Off, "已断开"));
    assert_eq!((a.up_rate, a.down_rate), (0, 0));
}

#[test]
fn switching_profiles() {
    let mut a = app();
    assert!(!a.switch_profile("a", 0));
    assert_eq!(a.status_text, "未连接");
    assert!(!a.switch_profile("b", 0));
    assert_eq!(a.status_text, "已切换到 b (h)");
    assert!(!a.switch_profile("gone", 0));
    assert_eq!(a.config.active_profile_id, "b");
    a.start(false, 0);
    assert!(!a.switch_profile("b", 1));
    assert_eq!(a.state, ConnState::Connecting);
    assert!(a.switch_profile("a", 2));
    assert_eq!(a.state, ConnState::Off);
    assert_eq!(note(&a), "已断开当前连接，可重新开启代理");
    assert_eq!(a.status_text, "已切换到 a (h)");
}

#[test]
fn hosts_are_added_copied_and_removed() {
    let mut a = app();
    a.start(false, 0);
    assert!(a.add_host(1));
    assert_eq!((note(&a), a.config.profiles.len()), ("已新建主机", 3));
    assert_eq!(a.config.profiles[2].name, "主机 3");
    assert!(!a.copy_host(2));
    assert_eq!((note(&a), a.config.profiles.len()), ("已复制主机", 4));
    for left in [3, 2, 1] {
        assert!(!a.remove_host(3));
        assert_eq!((note(&a), a.config.profiles.len()), ("已删除主机", left));
    }
    a.remove_host(4);
    assert_eq!((note(&a), a.config.profiles.len()), ("至少保留一个主机", 1));
    a.add_host_as("x".to_string(), 5);
    a.copy_host_as("y".to_string(), 5);
    assert_eq!(a.config.active_profile_id, "y");
}

#[test]
fn saving_the_configuration() {
    let mut a = app();
    a.save_config(Ok(()), 0);
    assert_eq!((note(&a), a.status_text.as_str()), ("配置已保存", "未连接"));
    a.save_config(Err("x".to_string()), 0);
    assert_eq!((note(&a), a.status_text.as_str()), ("保存失败: x", "保存失败: x"));
    a.page = Page::Hosts;
    assert!(a.save_and_connect(Ok(()), false, 1).is_some());
    assert_eq!((a.page, a.state), (Page::Connect, ConnState::Connecting));
    assert_eq!(note(&a), "配置已保存");
}

#[test]
fn saving_the_settings() {
    let mut a = app();
    assert!(a.check_settings(0));
    assert!(a.toast.is_none());
    a.config.settings.socks_port = 0;
    assert!(!a.check_settings(0));
    assert_eq!(note(&a), "设置无效: 本地代理端口无效");
    a.toggle_system_proxy();
    assert!(!a.config.settings.auto_set_system_proxy);
    a.force_cleared(Ok(()), 0);
    assert_eq!(note(&a), "已清除系统代理与相关环境变量");
    a.force_cleared(Err("x".to_string()), 0);
    assert_eq!(note(&a), "清除失败: x");
}

#[test]
fn keys_for_the_profile_in_use() {
    let mut a = app();
    assert_eq!(a.key_comment(), "u@h");
    a.config.profiles[0].host = " ".to_string();
    assert_eq!(a.key_comment(), "u");
    a.config.profiles[0].username = "".to_string();
    assert_eq!(a.key_comment(), "sway");
    a.create_keypair_for_active(Err("x".to_string()), 0);
    assert_eq!(note(&a), "生成失败: x");
    a.create_keypair_for_active(Ok(("/k".to_string(), "/k".to_string())), 0);
    assert_eq!(note(&a), "已生成密钥对：/k");
    assert_eq!(a.config.profiles[0].private_key_path, "/k");
    assert_eq!(a.config.profiles[0].auth_method, AuthMethod::PrivateKey);
    assert_eq!(a.config.profiles[1].auth_method, AuthMethod::Password);
}

fn figures(up: u64, down: u64) -> TrafficSnapshot {
    let mut s = TrafficSnapshot::default();
    s.bytes_up = up;
    s.bytes_down = down;
    s
}

#[test]
fn rates_are_told_after_a_while() {
    let mut a = app();
    assert_eq!(a.refresh_traffic(figures(10, 20), RATE_WINDOW - 1), None);
    assert_eq!(a.cached_snap.bytes_up, 10);
    assert_eq!(
        a.refresh_traffic(figures(30, 50), RATE_WINDOW),
        Some(RateWindow { up: 30, down: 50, nanos: RATE_WINDOW })
    );
    assert_eq!(
        a.refresh_traffic(figures(40, 0), 3 * RATE_WINDOW),
        Some(RateWindow { up: 10, down: 0, nanos: 2 * RATE_WINDOW })
    );
}

#[test]
fn limits_agree_with_floating_point() {
    assert!(Duration::from_nanos(RATE_WINDOW).as_secs_f64() >= 0.4);
    assert!(Duration::from_nanos(RATE_WINDOW - 1).as_secs_f64() < 0.4);
    assert!(Duration::from_nanos(TOAST_LIMIT).as_secs_f32() >= 2.4);
    assert!(Duration::from_nanos(TOAST_LIMIT - 1).as_secs_f32() < 2.4);
}

#[test]
fn notes_fade() {
    let mut a = app();
    a.show_toast("n".to_string(), 5);
    a.fade_toast(4 + TOAST_LIMIT);
    assert_eq!(note(&a), "n");
    a.fade_toast(5 + TOAST_LIMIT);
    assert!(a.toast.is_none());
    a.fade_toast(0);
}

#[test]
fn stations_of_the_way() {
    let mut a = app();
    assert_eq!(a.path_nodes(), ["本机", "HTTP:7890 / SOCKS:1080", "u@h:22", "目标站点"]);
    a.config.profiles[0].username.clear();
    assert_eq!(a.path_nodes()[2], "SSH");
}

#[test]
fn the_system_proxy_at_the_end() {
    assert!(proxy_to_clear(true, false) && proxy_to_clear(false, true));
    assert!(!proxy_to_clear(false, false));
    assert!(held_after_clearing(true, true));
    assert!(!held_after_clearing(true, false) && !held_after_clearing(false, true));
    assert_eq!(proxy_not_set("x"), "隧道已建立，但设置系统代理失败: x");
}

#[test]
fn the_system_proxy_at_the_start() {
    assert!(proxy_to_set(true, true));
    assert!(!proxy_to_set(true, false) && !proxy_to_set(false, true));
    assert!(held_after_setting(false, true, false) && held_after_setting(true, true, true));
    assert!(held_after_setting(true, false, false));
    assert!(!held_after_setting(false, true, true) && !held_after_setting(false, false, false));
}

fn nothing() -> Link {
    Link { tunnel: false, held: false, failure: None }
}

#[test]
fn a_tunnel_with_the_system_proxy() {
    let mut link = nothing();
    assert!(link.tunnel_settled(None, true));
    assert!(link.tunnel && !link.held);
    link.proxy_settled(None);
    assert!(link.tunnel && link.held && link.failure.is_none());
    link.end_settled(true);
    assert!(!link.tunnel && link.held);
    link.end_settled(false);
    assert!(!link.tunnel && !link.held);
}

#[test]
fn a_tunnel_without_the_system_proxy() {
    let mut link = nothing();
    assert!(!link.tunnel_settled(None, false));
    assert!(link.tunnel && !link.held && link.failure.is_none());
    let mut link = nothing();
    assert!(link.tunnel_settled(None, true));
    link.proxy_settled(Some("x".to_string()));
    assert!(link.tunnel && !link.held);
    assert_eq!(link.failure.unwrap(), "隧道已建立，但设置系统代理失败: x");
}

#[test]
fn a_start_without_a_tunnel() {
    let mut link = nothing();
    assert!(!link.tunnel_settled(Some("x".to_string()), true));
    assert!(!link.tunnel && !link.held);
    assert_eq!(link.failure.unwrap(), "x");
}
