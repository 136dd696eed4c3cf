use sway::config::{AuthMethod, TunnelRequest};
use sway::stats::TrafficStats;
use sway::tunnel::{
    connect_and_listen, is_benign_disconnect, serve, setup_action, start_tunnel, ErrorReport,
    FrontEnd, IoCause, IoKind, Readiness, ServeNews, ServeStep, SetupAction, SetupNews, SetupStep,
    Stage,
};

fn request(auth_method: AuthMethod) -> TunnelRequest {
    TunnelRequest {
        host: " h ".to_string(),
        port: 22,
        username: " u ".to_string(),
        auth_method,
        password: " p ".to_string(),
        private_key_path: " /k ".to_string(),
        socks_port: 1080,
        http_port: 7890,
    }
}

fn next(q: &TunnelRequest, stage: Stage) -> Stage {
    match connect_and_listen(q, stage, SetupNews::Done) {
        SetupStep::Next(stage) => stage,
        SetupStep::Stop { .. } => panic!("stopped"),
    }
}

fn stop(q: &TunnelRequest, stage: Stage, news: SetupNews) -> (String, bool) {
    match connect_and_listen(q, stage, news) {
        SetupStep::Next(_) => panic!("went on"),
        SetupStep::Stop { failure, told } => (failure.full(), told),
    }
}

#[test]
fn stages_with_a_password() {
    let q = request(AuthMethod::Password);
    let mut stage = Stage::Connect;
    let mut seen = vec![stage];
    while stage != Stage::Serve {
        stage = next(&q, stage);
        seen.push(stage);
    }
    assert_eq!(
        seen,
        [Stage::Connect, Stage::Password, Stage::ListenSocks, Stage::ListenHttp, Stage::Serve]
    );
}

#[test]
fn stages_with_a_key() {
    let q = request(AuthMethod::PrivateKey);
    let mut stage = Stage::Connect;
    let mut seen = vec![stage];
    while stage != Stage::Serve {
        stage = next(&q, stage);
        seen.push(stage);
    }
    assert_eq!(
        seen,
        [
            Stage::Connect,
            Stage::LoadKey,
            Stage::AgreeOnHash,
            Stage::PublicKey,
            Stage::ListenSocks,
            Stage::ListenHttp,
            Stage::Serve
        ]
    );
}

#[test]
fn what_is_done_at_each_stage() {
    let q = request(AuthMethod::Password);
    assert!(matches!(setup_action(&q, Stage::Connect), SetupAction::Connect(a) if a == "h:22"));
    assert!(matches!(setup_action(&q, Stage::Password),
        SetupAction::LogInWithPassword(u, p) if u == "u" && p == " p "));
    assert!(matches!(setup_action(&q, Stage::LoadKey), SetupAction::LoadKey(p) if p == " /k "));
    assert!(matches!(setup_action(&q, Stage::AgreeOnHash), SetupAction::AgreeOnHash));
    assert!(matches!(setup_action(&q, Stage::PublicKey), SetupAction::LogInWithKey(u) if u == "u"));
    assert!(matches!(setup_action(&q, Stage::ListenSocks),
        SetupAction::Listen(h, 1080) if h == "127.0.0.1"));
    assert!(matches!(setup_action(&q, Stage::ListenHttp),
        SetupAction::Listen(h, 7890) if h == "127.0.0.1"));
    assert!(matches!(setup_action(&q, Stage::Serve), SetupAction::Serve));
}

#[test]
fn failures_at_each_stage() {
    let q = request(AuthMethod::Password);
    let failed = |stage| stop(&q, stage, SetupNews::Failed("x".to_string()));
    assert_eq!(failed(Stage::Connect), ("无法连接 SSH 服务器 h:22: x".to_string(), true));
    assert_eq!(failed(Stage::Password), ("密码认证失败: x".to_string(), true));
    assert_eq!(failed(Stage::LoadKey), ("读取/解析私钥失败: x".to_string(), false));
    assert_eq!(failed(Stage::AgreeOnHash), ("协商 RSA 哈希算法失败: x".to_string(), false));
    assert_eq!(failed(Stage::PublicKey), ("公钥认证失败: x".to_string(), true));
    assert_eq!(failed(Stage::ListenSocks), ("无法绑定 SOCKS 端口 1080: x".to_string(), true));
    assert_eq!(failed(Stage::ListenHttp), ("无法绑定 HTTP 端口 7890: x".to_string(), true));
    for stage in [Stage::Password, Stage::PublicKey] {
        assert_eq!(stop(&q, stage, SetupNews::Denied), ("SSH 认证被拒绝".to_string(), true));
    }
}

#[test]
fn waiting_for_a_tunnel() {
    let mut s = TrafficStats::new();
    assert_eq!(start_tunnel(Readiness::Failed("x".to_string()), &mut s), Err("x".to_string()));
    assert_eq!(
        start_tunnel(Readiness::Silent, &mut s),
        Err("隧道任务意外结束".to_string())
    );
    assert_eq!(s.snapshot_at(u64::MAX).uptime_secs, 0);
    assert_eq!(start_tunnel(Readiness::Ready, &mut s), Ok(()));
    assert!(s.snapshot_at(u64::MAX).uptime_secs > 0);
}

#[test]
fn serving_ends_by_wish_alone() {
    assert_eq!(serve(ServeNews::Stop(true)), ServeStep::Stop);
    assert_eq!(serve(ServeNews::Stop(false)), ServeStep::Wait);
    assert_eq!(serve(ServeNews::Client(FrontEnd::Http)), ServeStep::Serve(FrontEnd::Http));
    assert_eq!(serve(ServeNews::NoClient(FrontEnd::Socks)), ServeStep::Wait);
}

fn report(causes: Vec<IoCause>, message: &str) -> ErrorReport {
    ErrorReport { causes, message: message.to_string() }
}

#[test]
fn clients_that_went_away() {
    let other = IoCause { kind: IoKind::Other, code: None };
    for kind in [
        IoKind::ConnectionReset,
        IoKind::ConnectionAborted,
        IoKind::BrokenPipe,
        IoKind::UnexpectedEof,
        IoKind::NotConnected,
        IoKind::TimedOut,
    ] {
        let causes = vec![other, IoCause { kind, code: None }];
        assert!(is_benign_disconnect(&report(causes, ""), false));
    }
    for code in [10053, 10054, 10058] {
        let causes = vec![IoCause { kind: IoKind::Other, code: Some(code) }];
        assert!(is_benign_disconnect(&report(causes, ""), true));
        let causes = vec![IoCause { kind: IoKind::Other, code: Some(code) }];
        assert!(!is_benign_disconnect(&report(causes, ""), false));
    }
    assert!(!is_benign_disconnect(&report(vec![other], "无法通过 SSH 打开"), true));
    for message in [
        "os error 10053",
        "os error 10054",
        "connection aborted",
        "connection reset by peer",
        "你的主机中的软件中止了一个已建立的连接。",
        "远程主机强制关闭了一个现有的连接。",
    ] {
        assert!(is_benign_disconnect(&report(vec![], message), false));
    }
    assert!(!is_benign_disconnect(&report(vec![], "os error 10058"), true));
}
