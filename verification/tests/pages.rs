use sway::config::{AppConfig, AppSettings, AuthMethod, HostProfile};
use sway::fonts::{load_system_cjk_font, system_font_candidates, FontStep};
use sway::pages::{connect_page, hosts_page, settings_page, state_label};
use sway::proxy::Platform;
use sway::session::{ConnState, ProxyApp};
use sway::startup::{show_startup_error, startup_body, startup_detail};
use sway::stats::TrafficStats;

fn app() -> ProxyApp {
    let mut profiles = Vec::new();
    for id in ["a", "b"] {
        let mut p = HostProfile::with_id(id.to_string());
        p.name = format!("名 {id}");
        p.host = "h".to_string();
        p.username = "u".to_string();
        p.password = "x".to_string();
        profiles.push(p);
    }
    let config = AppConfig {
        profiles,
        active_profile_id: "b".to_string(),
        settings: AppSettings::default(),
    };
    ProxyApp::new(config, false, 0)
}

#[test]
fn words_for_the_states() {
    assert_eq!(state_label(ConnState::Off), "未连接");
    assert_eq!(state_label(ConnState::Connecting), "连接中");
    assert_eq!(state_label(ConnState::On), "已连接");
    assert_eq!(state_label(ConnState::Error), "错误");
}

#[test]
fn the_page_for_connecting_while_off() {
    let mut a = app();
    let p = connect_page(&a, 0);
    assert_eq!(p.current, "名 b (h)");
    assert_eq!(p.hosts.len(), 2);
    assert_eq!((p.hosts[0].id.as_str(), p.hosts[0].label.as_str()), ("a", "名 a (h)"));
    assert_eq!((p.hosts[0].selected, p.hosts[1].selected), (false, true));
    assert!(p.asks_password && p.switch_enabled && !p.switch_on && !p.path_active);
    assert_eq!(p.switch_label, "连接");
    assert_eq!(p.addresses, "本地  HTTP 127.0.0.1:7890  ·  SOCKS 127.0.0.1:1080");
    assert_eq!(p.path[2], "u@h:22");
    assert_eq!(p.uptime, "--:--");
    assert_eq!(p.note, Some("连接后将显示经过代理的目标地址"));
    assert!(p.rows.is_empty());
    a.config.active_profile_id = "gone".to_string();
    assert_eq!(connect_page(&a, 0).current, "未选择");
}

#[test]
fn the_page_for_connecting_while_on() {
    let mut a = app();
    a.start(false, 0);
    let p = connect_page(&a, 0);
    assert!(!p.switch_enabled && p.switch_on);
    assert_eq!(p.switch_label, "连接中");
    a.sync_state_from_tunnel(None, Some(true), 0);
    assert_eq!(connect_page(&a, 0).note, Some("暂无流量，打开浏览器或使用 curl 试试"));
    let mut s = TrafficStats::new();
    s.mark_connected_at(0);
    s.begin_flow_at("HTTPS", "x:443", 1_000_000_000);
    s.begin_flow_at("SOCKS5", "y:1", 60_000_000_000);
    s.fail_flow();
    s.add_up(2048);
    s.add_down(1024);
    a.refresh_traffic(s.snapshot_at(75_000_000_000), 75_000_000_000);
    a.set_rates(10, -1);
    let p = connect_page(&a, 75_000_000_000);
    assert_eq!(p.switch_label, "已连接");
    assert_eq!(p.uptime, "01:15");
    assert_eq!(p.note, None);
    let metrics: Vec<(&str, &str)> =
        p.metrics.iter().map(|m| (m.title.as_str(), m.value.as_str())).collect();
    assert_eq!(
        metrics,
        [
            ("上行", "2.0 KB\n10 B/s"),
            ("下行", "1.0 KB\n0 B/s"),
            ("合计", "3.0 KB"),
            ("连接", "活跃 1\n累计 2 / 失败 1"),
        ]
    );
    assert_eq!(p.rows.len(), 2);
    assert_eq!((p.rows[0].age.as_str(), p.rows[0].proto.as_str()), ("15s", "[SOCKS5]"));
    assert_eq!((p.rows[1].age.as_str(), p.rows[1].target.as_str()), (" 1m", "x:443"));
}

#[test]
fn the_page_for_the_hosts() {
    let mut a = app();
    let p = hosts_page(&a);
    assert!(p.can_connect && !p.in_use && p.asks_password);
    assert_eq!(p.hosts[1].label, "名 b");
    assert!(p.hosts[1].selected);
    a.start(false, 0);
    assert_eq!(hosts_page(&a).hosts[1].label, "名 b");
    a.sync_state_from_tunnel(None, Some(true), 0);
    let p = hosts_page(&a);
    assert!(!p.can_connect && p.in_use);
    assert_eq!((p.hosts[0].label.as_str(), p.hosts[1].label.as_str()), ("名 a", "● 名 b"));
    a.config.profiles[1].auth_method = AuthMethod::PrivateKey;
    assert!(!hosts_page(&a).asks_password);
}

#[test]
fn the_page_for_the_settings() {
    let mut a = app();
    let p = settings_page(&a);
    assert!(!p.locked && p.auto_on);
    assert_eq!(p.auto_label, "开");
    assert_eq!((p.http_address.as_str(), p.socks_address.as_str()), ("127.0.0.1:7890", "127.0.0.1:1080"));
    a.toggle_system_proxy();
    a.start(false, 0);
    let p = settings_page(&a);
    assert!(p.locked && !p.auto_on);
    assert_eq!(p.auto_label, "关");
}

#[test]
fn places_of_fonts() {
    let windows = system_font_candidates(Platform::Windows, Some(r"D:\W"));
    assert_eq!(windows.len(), 11);
    assert_eq!(windows[0], r"D:\W\Fonts\simhei.ttf");
    assert_eq!(windows[10], r"D:\W\Fonts\SourceHanSansSC-Regular.otf");
    assert_eq!(
        system_font_candidates(Platform::Windows, None)[5],
        r"C:\Windows\Fonts\msyh.ttc"
    );
    let mac = system_font_candidates(Platform::MacOs, None);
    assert_eq!((mac.len(), mac[0].as_str()), (4, "/System/Library/Fonts/PingFang.ttc"));
    let linux = system_font_candidates(Platform::Linux, None);
    assert_eq!(linux.len(), 5);
    assert_eq!(linux[4], "/usr/share/fonts/truetype/droid/DroidSansFallbackFull.ttf");
    assert!(system_font_candidates(Platform::Other, None).is_empty());
}

#[test]
fn the_first_font_that_can_be_read() {
    assert_eq!(load_system_cjk_font(3, 0, None), FontStep::Try(1));
    assert_eq!(load_system_cjk_font(3, 1, Some(0)), FontStep::Try(2));
    assert_eq!(load_system_cjk_font(3, 2, Some(9)), FontStep::Use);
    assert_eq!(load_system_cjk_font(3, 2, None), FontStep::GiveUp);
}

#[test]
fn what_is_told_without_a_window() {
    assert_eq!(startup_detail(Some("a"), "b"), "wgpu: a\nglow: b");
    assert_eq!(startup_detail(None, "b"), "b");
    assert_eq!(show_startup_error("x"), "Sway 启动失败: x");
    assert!(startup_body("x").starts_with("无法创建图形界面。\n\n常见原因："));
    assert!(startup_body("x").ends_with("\n\n详情：\nx"));
}
