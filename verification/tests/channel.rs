use sway::channel::{
    before_lookup, collect_ipv4, ipv4_string, probe_egress, resolve_ipv4, worth_another_try, Answer,
    ChannelOpening, Failure, HostKind, Ipv4, Lookup, OpenAction, OpenNews, OpenStep,
};

fn refused(message: &str) -> OpenNews {
    OpenNews::NotOpened { message: message.to_string(), detail: format!("{message}!") }
}

fn asked(opening: &ChannelOpening) -> String {
    match opening.action() {
        OpenAction::Ask(host) => host,
        OpenAction::Resolve => "?".to_string(),
    }
}

#[test]
fn the_name_is_tried_first() {
    let mut o = ChannelOpening::start("example.org", 443);
    assert_eq!(asked(&o), "example.org");
    assert!(matches!(o.advance(OpenNews::Opened), OpenStep::Opened));
}

#[test]
fn another_failure_is_final() {
    let mut o = ChannelOpening::start("h", 1);
    let OpenStep::Failed(f) = o.advance(refused("Prohibited")) else { panic!("not failed") };
    assert_eq!(f.message, "无法通过 SSH 打开到 h:1 的通道");
    assert_eq!(f.full(), "无法通过 SSH 打开到 h:1 的通道: Prohibited!");
}

#[test]
fn addresses_are_tried_in_turn() {
    let mut o = ChannelOpening::start("h", 1);
    assert!(matches!(o.advance(refused("x ConnectFailed")), OpenStep::More));
    assert_eq!(asked(&o), "?");
    let ips = vec![Ipv4(1, 2, 3, 4), Ipv4(5, 6, 7, 8)];
    assert!(matches!(o.advance(OpenNews::Resolved(ips)), OpenStep::More));
    assert_eq!(asked(&o), "1.2.3.4");
    assert!(matches!(o.advance(refused("a")), OpenStep::More));
    assert_eq!(asked(&o), "5.6.7.8");
    let OpenStep::Failed(f) = o.advance(refused("b")) else { panic!("not failed") };
    assert_eq!(
        f.full(),
        "无法通过 SSH 打开到 h:1 的通道（远端 ConnectFailed）。请在 SSH 服务器上执行: curl -vI https://h 或 nc -vz h 1；并确认 sshd_config 中 AllowTcpForwarding yes: b!"
    );
}

#[test]
fn an_address_that_opens_counts() {
    let mut o = ChannelOpening::start("h", 1);
    o.advance(refused("connect failed"));
    o.advance(OpenNews::Resolved(vec![Ipv4(1, 1, 1, 1)]));
    assert!(matches!(o.advance(OpenNews::Opened), OpenStep::Opened));
}

#[test]
fn a_host_without_addresses_fails() {
    let mut o = ChannelOpening::start("h", 1);
    o.advance(refused("ConnectFailed"));
    let why = Failure { message: "m".to_string(), cause: None };
    let OpenStep::Failed(f) = o.advance(OpenNews::NotResolved(why)) else { panic!("not failed") };
    assert_eq!(f.full(), "m");
    let mut o = ChannelOpening::start("h", 1);
    o.advance(refused("ConnectFailed"));
    let OpenStep::Failed(f) = o.advance(OpenNews::Resolved(Vec::new())) else {
        panic!("not failed")
    };
    assert_eq!(f.cause.unwrap(), "无可用 IPv4 地址");
}

#[test]
fn failures_worth_another_try() {
    assert!(worth_another_try("Failed to open channel (ConnectFailed)"));
    assert!(worth_another_try("connect failed"));
    assert!(!worth_another_try("Connect failed"));
}

#[test]
fn hosts_that_need_no_name_server() {
    assert!(matches!(before_lookup(HostKind::V4(Ipv4(1, 2, 3, 4))), Lookup::Known(Ipv4(1, 2, 3, 4))));
    assert!(matches!(before_lookup(HostKind::Name), Lookup::Ask));
    let Lookup::Refused(f) = before_lookup(HostKind::V6) else { panic!("not refused") };
    assert_eq!(f.full(), "暂不支持纯 IPv6 目标");
}

#[test]
fn answers_of_a_name_server() {
    let a = Ipv4(1, 2, 3, 4);
    let b = Ipv4(9, 9, 9, 9);
    let answers = [Answer::V6, Answer::V4(b), Answer::V4(a), Answer::V4(b), Answer::V6];
    assert_eq!(collect_ipv4(&answers), [b, a]);
    assert_eq!(resolve_ipv4("h", Ok(answers.to_vec())).unwrap(), [b, a]);
    let none = resolve_ipv4("h", Ok(vec![Answer::V6])).unwrap_err();
    assert_eq!(none.full(), "本机未能解析到 h 的 IPv4 地址");
    let failed = resolve_ipv4("h", Err("no net".to_string())).unwrap_err();
    assert_eq!(failed.full(), "本机 DNS 解析失败: h: no net");
    assert_eq!(ipv4_string(&a), "1.2.3.4");
}

#[test]
fn ways_out_that_are_tried() {
    assert_eq!(probe_egress(0), Some(("www.baidu.com", 443)));
    assert_eq!(probe_egress(1), Some(("1.1.1.1", 443)));
    assert_eq!(probe_egress(2), Some(("www.google.com", 443)));
    assert_eq!(probe_egress(3), None);
}
