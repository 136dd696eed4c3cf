use sway::flow::{Flow, FlowAction, FlowNews, FlowRequest, Pump, PumpNews, Stage};
use sway::http_proxy::{plan_request, bad_gateway_response};
use sway::stats::TrafficStats;

fn socks() -> FlowRequest {
    FlowRequest::Socks5 { host: "h".to_string(), port: 80 }
}

fn http(head: &[u8]) -> FlowRequest {
    FlowRequest::Http(plan_request(head).unwrap())
}

fn counts(s: &TrafficStats) -> (u64, u64, u64) {
    let snap = s.snapshot();
    (snap.active_conns, snap.total_conns, snap.failed_conns)
}

#[test]
fn a_socks_flow_goes_through() {
    let mut s = TrafficStats::new();
    let mut f = Flow::begin(socks(), &mut s);
    assert_eq!(counts(&s), (1, 1, 0));
    assert_eq!(s.snapshot().recent[0].target, "h:80");
    assert_eq!(s.snapshot().recent[0].proto, "SOCKS5");
    let FlowAction::TellClient(reply) = f.advance(FlowNews::Opened, &mut s) else {
        panic!("client not told")
    };
    assert_eq!(reply, [5, 0, 0, 1, 0, 0, 0, 0, 0, 0]);
    assert!(matches!(f.advance(FlowNews::Sent, &mut s), FlowAction::Relay));
    assert!(matches!(f.advance(FlowNews::Ended, &mut s), FlowAction::Finish));
    assert_eq!(f.stage, Stage::Over);
    assert_eq!(counts(&s), (0, 1, 0));
}

#[test]
fn a_socks_flow_that_cannot_be_opened() {
    let mut s = TrafficStats::new();
    let mut f = Flow::begin_at(socks(), &mut s, 3);
    let news = FlowNews::NotOpened("x".to_string());
    let FlowAction::TurnAway(Some(reply)) = f.advance(news, &mut s) else {
        panic!("not turned away")
    };
    assert_eq!(reply, [5, 5, 0, 1, 0, 0, 0, 0, 0, 0]);
    assert_eq!(counts(&s), (0, 1, 1));
}

#[test]
fn a_flow_whose_client_left_stays_counted() {
    let mut s = TrafficStats::new();
    let mut f = Flow::begin(socks(), &mut s);
    f.advance(FlowNews::Opened, &mut s);
    assert!(matches!(f.advance(FlowNews::NotSent, &mut s), FlowAction::GiveUp));
    assert_eq!(counts(&s), (1, 1, 0));
}

#[test]
fn a_tunnel_over_http() {
    let mut s = TrafficStats::new();
    let mut f = Flow::begin(http(b"CONNECT h:443 HTTP/1.1\r\n\r\n"), &mut s);
    let FlowAction::TellClient(reply) = f.advance(FlowNews::Opened, &mut s) else {
        panic!("client not told")
    };
    assert_eq!(reply, b"HTTP/1.1 200 Connection Established\r\n\r\n");
    assert!(matches!(f.advance(FlowNews::Sent, &mut s), FlowAction::Relay));
    let mut f = Flow::begin(http(b"CONNECT h:443 HTTP/1.1\r\n\r\n"), &mut s);
    let FlowAction::TurnAway(Some(reply)) = f.advance(FlowNews::NotOpened("原因".to_string()), &mut s)
    else {
        panic!("not turned away")
    };
    assert_eq!(reply, bad_gateway_response("原因").into_bytes());
}

#[test]
fn a_request_is_passed_on() {
    let mut s = TrafficStats::new();
    let mut f = Flow::begin(http(b"POST http://h/p HTTP/1.1\r\n\r\nbody"), &mut s);
    assert_eq!(s.snapshot().recent[0].proto, "HTTP");
    let FlowAction::SendAhead(head) = f.advance(FlowNews::Opened, &mut s) else {
        panic!("nothing sent ahead")
    };
    assert_eq!(head, b"POST /p HTTP/1.1\r\n\r\nbody");
    assert_eq!(s.snapshot().bytes_up, 0);
    let FlowAction::SendAhead(body) = f.advance(FlowNews::Sent, &mut s) else {
        panic!("body not sent ahead")
    };
    assert_eq!(body, b"body");
    assert_eq!(s.snapshot().bytes_up, (head.len() + body.len()) as u64);
    assert!(matches!(f.advance(FlowNews::Sent, &mut s), FlowAction::Relay));
    assert_eq!(s.snapshot().bytes_up, (head.len() + body.len()) as u64);
    assert!(matches!(f.advance(FlowNews::Ended, &mut s), FlowAction::Finish));
    assert_eq!(counts(&s), (0, 1, 0));
}

#[test]
fn a_request_without_a_body_is_passed_on() {
    let mut s = TrafficStats::new();
    let mut f = Flow::begin(http(b"GET http://h/p HTTP/1.1\r\n\r\n"), &mut s);
    f.advance(FlowNews::Opened, &mut s);
    assert!(matches!(f.advance(FlowNews::Sent, &mut s), FlowAction::Relay));
    let mut f = Flow::begin(http(b"GET http://h/p HTTP/1.1\r\n\r\n"), &mut s);
    let news = FlowNews::NotOpened("x".to_string());
    assert!(matches!(f.advance(news, &mut s), FlowAction::TurnAway(None)));
}

#[test]
fn written_bytes_are_counted() {
    let mut p = Pump::Reading;
    assert_eq!(p.advance(PumpNews::Read(100)), 0);
    assert_eq!(p, Pump::Writing(100));
    assert_eq!(p.advance(PumpNews::Wrote), 100);
    assert_eq!(p.advance(PumpNews::Read(7)), 0);
    assert_eq!(p.advance(PumpNews::NotWritten), 0);
    assert_eq!(p, Pump::Closing);
    let mut p = Pump::Reading;
    assert_eq!(p.advance(PumpNews::Read(0)), 0);
    assert_eq!(p, Pump::Closing);
    let mut p = Pump::Reading;
    assert_eq!(p.advance(PumpNews::NotRead), 0);
    assert_eq!(p, Pump::Closing);
}
