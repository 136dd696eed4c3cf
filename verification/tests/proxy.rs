use sway::macos_proxy;
use sway::macos_proxy::{
    command_failed, listed_services, proxy_enabled_on, query_finds_proxy, NetworkSetupError,
    Settled,
};
use sway::proxy::{
    cleanup_stale_local_proxy, disable_system_proxy, enable_system_proxy, hosts_to_name, list_text,
    Platform, ProxyEndpoints, ProxyError, ProxyPlan,
};
use sway::windows_proxy;
use sway::windows_proxy::{OnFailure, RegistryAction, RegistryStep};

fn texts(list: &[&str]) -> Vec<String> {
    list.iter().map(|s| s.to_string()).collect()
}

#[test]
fn urls_of_the_endpoints() {
    let ep = ProxyEndpoints::local(7890, 1080);
    assert_eq!(ep.http_url(), "http://127.0.0.1:7890");
    assert_eq!(ep.socks_url(), "socks5://127.0.0.1:1080");
    assert_eq!(ep.windows_proxy_server(), "http=127.0.0.1:7890;https=127.0.0.1:7890");
    assert_eq!(ep.clone().http_address(), "127.0.0.1:7890");
    assert_eq!(ep.socks_address(), "127.0.0.1:1080");
}

#[test]
fn hosts_around_the_proxy() {
    let hosts = hosts_to_name(&texts(&[" a ", "", "  ", "b"]));
    assert_eq!(hosts, ["a", "b"]);
    assert_eq!(list_text("x", ';', &hosts), "x;a;b");
    assert_eq!(list_text("x", ';', &[]), "x");
}

fn steps(plan: ProxyPlan) -> Vec<RegistryStep> {
    match plan {
        ProxyPlan::Registry(steps) => steps,
        _ => panic!("not a registry plan"),
    }
}

fn written(steps: &[RegistryStep], wanted: &str) -> Option<String> {
    steps.iter().find_map(|s| match &s.action {
        RegistryAction::SetText(name, value) if name == wanted => Some(value.clone()),
        _ => None,
    })
}

#[test]
fn windows_is_set() {
    let ep = ProxyEndpoints::local(7890, 1080);
    let plan = enable_system_proxy(Platform::Windows, &ep, &texts(&[" 1.2.3.4 "])).unwrap();
    let steps = steps(plan);
    assert_eq!(steps.len(), 15);
    assert!(matches!(&steps[0].action, RegistryAction::Open(k)
        if k == r"Software\Microsoft\Windows\CurrentVersion\Internet Settings"));
    assert!(matches!(&steps[1].action, RegistryAction::SetNumber(n, 1) if n == "ProxyEnable"));
    assert!(matches!(&steps[1].on_failure, OnFailure::StopWith(t) if t == "写入 ProxyEnable 失败"));
    assert!(matches!(&steps[3].on_failure, OnFailure::Ignore));
    assert!(matches!(&steps[4].action, RegistryAction::NotifyProxy));
    assert!(matches!(&steps[5].action, RegistryAction::Open(k) if k == "Environment"));
    assert!(matches!(&steps[14].action, RegistryAction::NotifyEnvironment));
    assert_eq!(written(&steps, "ProxyServer").unwrap(), ep.windows_proxy_server());
    assert_eq!(
        written(&steps, "ProxyOverride").unwrap(),
        "localhost;127.*;10.*;192.168.*;<local>;1.2.3.4"
    );
    for name in ["HTTP_PROXY", "HTTPS_PROXY", "http_proxy", "https_proxy"] {
        assert_eq!(written(&steps, name).unwrap(), "http://127.0.0.1:7890");
    }
    assert_eq!(written(&steps, "ALL_PROXY").unwrap(), "socks5://127.0.0.1:1080");
    assert_eq!(written(&steps, "all_proxy").unwrap(), "socks5://127.0.0.1:1080");
    assert_eq!(written(&steps, "NO_PROXY").unwrap(), "localhost,127.0.0.1,::1,1.2.3.4");
    assert_eq!(written(&steps, "no_proxy").unwrap(), "localhost,127.0.0.1,::1,1.2.3.4");
}

#[test]
fn windows_is_cleared() {
    let steps = steps(disable_system_proxy(Platform::Windows));
    assert!(matches!(&steps[1].action, RegistryAction::SetNumber(n, 0) if n == "ProxyEnable"));
    assert!(matches!(&steps[1].on_failure, OnFailure::StopWith(t) if t == "关闭 ProxyEnable 失败"));
    let removed: Vec<&str> = steps
        .iter()
        .filter_map(|s| match &s.action {
            RegistryAction::Remove(name) => Some(name.as_str()),
            _ => None,
        })
        .collect();
    assert_eq!(
        removed,
        [
            "ProxyServer",
            "HTTP_PROXY",
            "HTTPS_PROXY",
            "ALL_PROXY",
            "http_proxy",
            "https_proxy",
            "all_proxy",
            "NO_PROXY",
            "no_proxy"
        ]
    );
}

#[test]
fn windows_needs_endpoints_to_be_set() {
    let steps = windows_proxy::set_proxy(true, None, &[]);
    assert_eq!(steps.len(), 2);
    assert!(matches!(&steps[1].action, RegistryAction::Refuse(t) if t == "启用代理时需要 endpoints"));
}

#[test]
fn other_systems_are_left_alone() {
    let ep = ProxyEndpoints::local(1, 2);
    for platform in [Platform::Linux, Platform::Other] {
        let error = enable_system_proxy(platform, &ep, &[]).unwrap_err();
        assert_eq!(error, ProxyError::Unsupported);
        assert_eq!(
            error.message(),
            "当前平台尚未实现系统代理自动设置，请手动配置 HTTP/SOCKS 代理"
        );
        assert!(matches!(disable_system_proxy(platform), ProxyPlan::Nothing));
    }
    assert!(matches!(enable_system_proxy(Platform::MacOs, &ep, &[]), Ok(ProxyPlan::Services)));
    assert!(matches!(disable_system_proxy(Platform::MacOs), ProxyPlan::Services));
}

#[test]
fn what_windows_was_left_with() {
    let ep = ProxyEndpoints::local(7890, 1080);
    let stale = |enable, server: Option<&str>, vars: &[Option<String>]| {
        windows_proxy::is_stale_local_proxy(&ep, enable, server, vars)
    };
    assert!(stale(Some(1), Some(&ep.windows_proxy_server()), &[]));
    assert!(stale(Some(1), Some("HTTP=127.0.0.1:1080"), &[]));
    assert!(!stale(Some(0), Some(&ep.windows_proxy_server()), &[]));
    assert!(!stale(None, Some(&ep.windows_proxy_server()), &[]));
    assert!(!stale(Some(1), Some("proxy.example:3128"), &[]));
    assert!(!stale(Some(1), None, &[]));
    assert!(stale(None, None, &[None, Some("http://LOCALHOST:7890".to_string())]));
    assert!(stale(None, None, &[Some(ep.socks_url())]));
    assert!(!stale(None, None, &[Some("http://10.0.0.1:7890".to_string()), None]));
    assert_eq!(
        windows_proxy::names_to_look_at(),
        ["HTTP_PROXY", "HTTPS_PROXY", "http_proxy", "https_proxy", "ALL_PROXY", "all_proxy"]
    );
    assert!(windows_proxy::env_points_to(&ep, "127.0.0.1:1080"));
    assert!(!windows_proxy::server_points_to(&ep, ""));
}

#[test]
fn windows_with_other_ports_is_left_alone() {
    let ep = ProxyEndpoints::local(7890, 1080);
    let other = ProxyEndpoints::local(10800, 10800);
    let server = |text: &str| windows_proxy::is_stale_local_proxy(&ep, Some(1), Some(text), &[]);
    let variable = |text: &str| {
        windows_proxy::is_stale_local_proxy(&ep, None, None, &[Some(text.to_string())])
    };
    assert!(!server("http=127.0.0.1:10800;https=127.0.0.1:10800"));
    assert!(!server(&other.windows_proxy_server()));
    assert!(!server("x127.0.0.1:1080") && !server("10.127.0.0.1:7890"));
    assert!(server("http=127.0.0.1:10800;socks=127.0.0.1:1080"));
    assert!(server("127.0.0.1:1080") && server("127.0.0.1:7890/"));
    assert!(!variable("http://127.0.0.1:10800") && !variable("localhost:78901"));
    assert!(!variable(&other.http_url()) && !variable(&other.socks_url()));
    assert!(!variable("http://mylocalhost:7890") && !variable("my-localhost:7890"));
    assert!(variable("http://user@localhost:7890/") && variable("socks5://127.0.0.1:1080"));
}

#[test]
fn services_of_macos() {
    let list = "An asterisk (*) denotes that a network service is disabled.\n*Bluetooth\n Wi-Fi \r\n\nUSB 10/100\n";
    assert_eq!(macos_proxy::network_services(list), ["Wi-Fi", "USB 10/100"]);
    assert_eq!(listed_services(true, list.as_bytes(), b"").unwrap().len(), 2);
    let error = listed_services(false, b"", b"bad \xff\n").unwrap_err();
    assert_eq!(error.message(), "networksetup 失败: bad \u{fffd}\n");
}

#[test]
fn macos_is_set_and_cleared() {
    let ep = ProxyEndpoints::local(7890, 1080);
    let on = macos_proxy::enable_for_service("Wi-Fi", &ep, &texts(&["s", " "]));
    assert_eq!(on.len(), 7);
    assert_eq!(on[0], ["-setwebproxy", "Wi-Fi", "127.0.0.1", "7890"]);
    assert_eq!(on[1], ["-setsecurewebproxy", "Wi-Fi", "127.0.0.1", "7890"]);
    assert_eq!(on[2], ["-setsocksfirewallproxy", "Wi-Fi", "127.0.0.1", "1080"]);
    assert_eq!(on[3], ["-setwebproxystate", "Wi-Fi", "on"]);
    assert_eq!(
        on[6],
        ["-setproxybypassdomains", "Wi-Fi", "127.0.0.1", "localhost", "*.local", "s"]
    );
    let off = macos_proxy::disable_for_service("Wi-Fi");
    assert_eq!(off.len(), 3);
    assert_eq!(off[2], ["-setsocksfirewallproxystate", "Wi-Fi", "off"]);
}

#[test]
fn macos_counts_what_was_changed() {
    assert_eq!(macos_proxy::set_proxy(&[]), Settled::NoServices);
    assert_eq!(macos_proxy::set_proxy(&[false, true, false]), Settled::Done);
    assert_eq!(macos_proxy::set_proxy(&[false, false]), Settled::Failed(1));
}

#[test]
fn what_macos_was_left_with() {
    let shown = "Enabled: Yes\nServer: 127.0.0.1\nPort: 7890\nAuthenticated Proxy Enabled: 0\n";
    assert!(proxy_enabled_on(shown, 7890));
    assert!(!proxy_enabled_on(shown, 1080));
    assert!(!proxy_enabled_on("Enabled: No\nServer: 127.0.0.1\nPort: 7890\n", 7890));
    assert!(!proxy_enabled_on("Enabled: Yes\nServer: 10.0.0.1\nPort: 7890\n", 7890));
    assert!(query_finds_proxy(true, shown.as_bytes(), 7890));
    assert!(!query_finds_proxy(false, shown.as_bytes(), 7890));
    let ep = ProxyEndpoints::local(7890, 1080);
    let queries = macos_proxy::is_stale_local_proxy("Wi-Fi", &ep);
    assert_eq!(queries.len(), 3);
    assert_eq!(queries[1].arguments, ["-getsecurewebproxy", "Wi-Fi"]);
    assert_eq!((queries[0].port, queries[2].port), (7890, 1080));
}

#[test]
fn macos_with_other_ports_is_left_alone() {
    let on = |server: &str, port: &str| format!("Enabled: Yes\nServer: {server}\nPort: {port}\n");
    assert!(!proxy_enabled_on(&on("127.0.0.1", "10800"), 1080));
    assert!(!proxy_enabled_on(&on("127.0.0.1", "1080"), 10800));
    assert!(!proxy_enabled_on(&on("127.0.0.1", "1080"), 80));
    assert!(!proxy_enabled_on(&on("127.0.0.10", "1080"), 1080));
    assert!(!proxy_enabled_on(&on("10.127.0.0.1", "1080"), 1080));
    assert!(!proxy_enabled_on(&on("mylocalhost", "1080"), 1080));
    assert!(!proxy_enabled_on(&on("", ""), 1080));
    assert!(proxy_enabled_on(&on("LocalHost ", " 1080"), 1080));
    assert!(proxy_enabled_on(&on("127.0.0.1", "1080\r"), 1080));
    assert!(proxy_enabled_on(&on("http://127.0.0.1", "7890"), 7890));
    assert!(proxy_enabled_on(&on("user@LOCALHOST/", "7890"), 7890));
    assert!(!proxy_enabled_on(&on("http://127.0.0.1.example", "7890"), 7890));
    assert!(!proxy_enabled_on(&on("localhost-2", "7890"), 7890));
}

#[test]
fn texts_of_networksetup_errors() {
    assert_eq!(NetworkSetupError::CannotRun.message(), "无法执行 networksetup");
    assert_eq!(NetworkSetupError::NoServices.message(), "未找到可用的 macOS 网络服务");
    let failed = command_failed(&texts(&["-setwebproxy", "x"]), b" denied\n");
    assert_eq!(failed.message(), "networksetup -setwebproxy 失败: denied");
    assert_eq!(command_failed(&[], b"x").message(), "networksetup  失败: x");
}

#[test]
fn what_came_of_clearing() {
    assert_eq!(cleanup_stale_local_proxy(false, None), Ok(false));
    assert_eq!(cleanup_stale_local_proxy(false, Some("x".to_string())), Ok(false));
    assert_eq!(cleanup_stale_local_proxy(true, None), Ok(true));
    assert_eq!(cleanup_stale_local_proxy(true, Some("x".to_string())), Err("x".to_string()));
}
