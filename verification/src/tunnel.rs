//! The life of an SSH tunnel: logging in, listening, and ending.
use vstd::prelude::*;

use crate::channel::{Failure, FailureModel};
use crate::config::{AuthMethod, TunnelModel, TunnelRequest};
use crate::stats::TrafficStats;
use crate::text;
use crate::text::trimmed;

verus! {

/// The seconds between two signs of life, so that a silent connection is not cut.
pub const KEEPALIVE_SECS: u64 = 15;

/// How many signs of life may go unanswered.
pub const KEEPALIVE_MAX: usize = 6;

/// The window of the SSH connection, in bytes.
pub const WINDOW_SIZE: u32 = 8388608;

/// How many messages of a channel are held.
pub const CHANNEL_BUFFER_SIZE: usize = 128;

/// How many bytes are relayed at a time.
pub const RELAY_BUFFER: usize = 65536;

// ----- setting up -----

/// How far setting a tunnel up has come.
#[derive(Debug, Clone, Copy, PartialEq, Eq, Structural)]
pub enum Stage {
    /// Connecting to the server.
    Connect,
    /// Logging in with a password.
    Password,
    /// Reading the key file.
    LoadKey,
    /// Agreeing on the hash for an RSA key.
    AgreeOnHash,
    /// Logging in with the key.
    PublicKey,
    /// Listening for SOCKS clients.
    ListenSocks,
    /// Listening for HTTP clients.
    ListenHttp,
    /// Serving clients.
    Serve,
}

/// What has to be done at a stage.
#[derive(Debug)]
pub enum SetupAction {
    /// Connect to this address.
    Connect(String),
    /// Log in with a name and a password.
    LogInWithPassword(String, String),
    /// Read the key file.
    LoadKey(String),
    /// Agree on the hash for an RSA key.
    AgreeOnHash,
    /// Log in with a name and the key.
    LogInWithKey(String),
    /// Listen at this host and port.
    Listen(String, u16),
    /// Tell that the tunnel is ready, try the way out, and serve clients.
    Serve,
}

/// What has to be done at a stage, as plain text.
#[verifier::ext_equal]
pub enum ActionModel {
    Connect(Seq<char>),
    LogInWithPassword(Seq<char>, Seq<char>),
    LoadKey(Seq<char>),
    AgreeOnHash,
    LogInWithKey(Seq<char>),
    Listen(Seq<char>, u16),
    Serve,
}

impl View for SetupAction {
    type V = ActionModel;

    open spec fn view(&self) -> ActionModel {
        match self {
            SetupAction::Connect(a) => ActionModel::Connect(a@),
            SetupAction::LogInWithPassword(u, p) => ActionModel::LogInWithPassword(u@, p@),
            SetupAction::LoadKey(p) => ActionModel::LoadKey(p@),
            SetupAction::AgreeOnHash => ActionModel::AgreeOnHash,
            SetupAction::LogInWithKey(u) => ActionModel::LogInWithKey(u@),
            SetupAction::Listen(h, p) => ActionModel::Listen(h@, *p),
            SetupAction::Serve => ActionModel::Serve,
        }
    }
}

/// What came of it.
#[derive(Debug)]
pub enum SetupNews {
    /// It was done.
    Done,
    /// The server did not accept the login.
    Denied,
    /// It failed.
    Failed(String),
}

/// What came of it, as plain text.
pub enum NewsModel {
    Done,
    Denied,
    Failed(Seq<char>),
}

impl View for SetupNews {
    type V = NewsModel;

    open spec fn view(&self) -> NewsModel {
        match self {
            SetupNews::Done => NewsModel::Done,
            SetupNews::Denied => NewsModel::Denied,
            SetupNews::Failed(why) => NewsModel::Failed(why@),
        }
    }
}

/// What follows from it.
#[derive(Debug)]
pub enum SetupStep {
    /// The next stage begins.
    Next(Stage),
    /// The tunnel cannot be set up. Whoever waits for it is told why, or only that it ended.
    Stop { failure: Failure, told: bool },
}

/// What follows from it, as plain text.
#[verifier::ext_equal]
pub enum SetupStepModel {
    Next(Stage),
    Stop { failure: FailureModel, told: bool },
}

impl View for SetupStep {
    type V = SetupStepModel;

    open spec fn view(&self) -> SetupStepModel {
        match self {
            SetupStep::Next(stage) => SetupStepModel::Next(*stage),
            SetupStep::Stop { failure, told } => SetupStepModel::Stop {
                failure: failure@,
                told: *told,
            },
        }
    }
}

/// The address of the server.
pub open spec fn server_address(q: TunnelModel) -> Seq<char> {
    text::address(trimmed(q.host), q.port)
}

/// What has to be done at a stage.
pub open spec fn action_at(q: TunnelModel, stage: Stage) -> ActionModel {
    match stage {
        Stage::Connect => ActionModel::Connect(server_address(q)),
        Stage::Password => ActionModel::LogInWithPassword(trimmed(q.username), q.password),
        Stage::LoadKey => ActionModel::LoadKey(q.private_key_path),
        Stage::AgreeOnHash => ActionModel::AgreeOnHash,
        Stage::PublicKey => ActionModel::LogInWithKey(trimmed(q.username)),
        Stage::ListenSocks => ActionModel::Listen("127.0.0.1"@, q.socks_port),
        Stage::ListenHttp => ActionModel::Listen("127.0.0.1"@, q.http_port),
        Stage::Serve => ActionModel::Serve,
    }
}

/// The stage that follows once a stage is done.
pub open spec fn stage_after(q: TunnelModel, stage: Stage) -> Stage {
    match stage {
        Stage::Connect => match q.auth_method {
            AuthMethod::Password => Stage::Password,
            AuthMethod::PrivateKey => Stage::LoadKey,
        },
        Stage::LoadKey => Stage::AgreeOnHash,
        Stage::AgreeOnHash => Stage::PublicKey,
        Stage::Password | Stage::PublicKey => Stage::ListenSocks,
        Stage::ListenSocks => Stage::ListenHttp,
        Stage::ListenHttp | Stage::Serve => Stage::Serve,
    }
}

/// The message for a stage that failed.
pub open spec fn failure_at(q: TunnelModel, stage: Stage) -> Seq<char> {
    match stage {
        Stage::Connect => "无法连接 SSH 服务器 "@ + server_address(q),
        Stage::Password => "密码认证失败"@,
        Stage::LoadKey => "读取/解析私钥失败"@,
        Stage::AgreeOnHash => "协商 RSA 哈希算法失败"@,
        Stage::PublicKey => "公钥认证失败"@,
        Stage::ListenSocks => "无法绑定 SOCKS 端口 "@ + text::decimal(q.socks_port as nat),
        Stage::ListenHttp => "无法绑定 HTTP 端口 "@ + text::decimal(q.http_port as nat),
        Stage::Serve => Seq::empty(),
    }
}

/// Whether a failure at the stage is told to whoever waits for the tunnel.
pub open spec fn is_told(stage: Stage) -> bool {
    stage != Stage::LoadKey && stage != Stage::AgreeOnHash
}

impl Stage {
    /// Whether the news is what the stage can bring.
    pub open spec fn fits(self, news: NewsModel) -> bool {
        &&& self != Stage::Serve
        &&& news is Denied ==> self == Stage::Password || self == Stage::PublicKey
    }
}

/// What follows for a tunnel from the news at a stage.
pub open spec fn setup_after(q: TunnelModel, stage: Stage, news: NewsModel) -> SetupStepModel {
    match news {
        NewsModel::Done => SetupStepModel::Next(stage_after(q, stage)),
        NewsModel::Denied => SetupStepModel::Stop {
            failure: FailureModel { message: "SSH 认证被拒绝"@, cause: None },
            told: true,
        },
        NewsModel::Failed(why) => SetupStepModel::Stop {
            failure: FailureModel { message: failure_at(q, stage), cause: Some(why) },
            told: is_told(stage),
        },
    }
}

fn server_address_of(q: &TunnelRequest) -> (r: String)
    ensures
        r@ == server_address(q@),
{
    text::address_string(text::trim(q.host.as_str()), q.port)
}

/// What has to be done at a stage.
pub fn setup_action(q: &TunnelRequest, stage: Stage) -> (r: SetupAction)
    ensures
        r@ == action_at(q@, stage),
{
    match stage {
        Stage::Connect => SetupAction::Connect(server_address_of(q)),
        Stage::Password => SetupAction::LogInWithPassword(
            text::trim(q.username.as_str()).to_owned(),
            q.password.clone(),
        ),
        Stage::LoadKey => SetupAction::LoadKey(q.private_key_path.clone()),
        Stage::AgreeOnHash => SetupAction::AgreeOnHash,
        Stage::PublicKey => SetupAction::LogInWithKey(
            text::trim(q.username.as_str()).to_owned(),
        ),
        Stage::ListenSocks => SetupAction::Listen("127.0.0.1".to_owned(), q.socks_port),
        Stage::ListenHttp => SetupAction::Listen("127.0.0.1".to_owned(), q.http_port),
        Stage::Serve => SetupAction::Serve,
    }
}

fn failure_text(q: &TunnelRequest, stage: Stage) -> (r: String)
    requires
        stage != Stage::Serve,
    ensures
        r@ == failure_at(q@, stage),
{
    match stage {
        Stage::Connect => text::join("无法连接 SSH 服务器 ", server_address_of(q).as_str()),
        Stage::Password => "密码认证失败".to_owned(),
        Stage::LoadKey => "读取/解析私钥失败".to_owned(),
        Stage::AgreeOnHash => "协商 RSA 哈希算法失败".to_owned(),
        Stage::PublicKey => "公钥认证失败".to_owned(),
        Stage::ListenSocks => text::join(
            "无法绑定 SOCKS 端口 ",
            text::decimal_string(q.socks_port as u128).as_str(),
        ),
        _ => text::join(
            "无法绑定 HTTP 端口 ",
            text::decimal_string(q.http_port as u128).as_str(),
        ),
    }
}

/// What follows for a tunnel from the news at a stage. Setting up starts at
/// [`Stage::Connect`]; whoever waits for the tunnel is told of it at [`Stage::Serve`].
pub fn connect_and_listen(q: &TunnelRequest, stage: Stage, news: SetupNews) -> (r: SetupStep)
    requires
        stage.fits(news@),
    ensures
        r@ == setup_after(q@, stage, news@),
{
    match news {
        SetupNews::Done => SetupStep::Next(
            match stage {
                Stage::Connect => match q.auth_method {
                    AuthMethod::Password => Stage::Password,
                    AuthMethod::PrivateKey => Stage::LoadKey,
                },
                Stage::LoadKey => Stage::AgreeOnHash,
                Stage::AgreeOnHash => Stage::PublicKey,
                Stage::Password | Stage::PublicKey => Stage::ListenSocks,
                Stage::ListenSocks => Stage::ListenHttp,
                Stage::ListenHttp | Stage::Serve => Stage::Serve,
            },
        ),
        SetupNews::Denied => SetupStep::Stop {
            failure: Failure { message: "SSH 认证被拒绝".to_owned(), cause: None },
            told: true,
        },
        SetupNews::Failed(why) => SetupStep::Stop {
            failure: Failure { message: failure_text(q, stage), cause: Some(why) },
            told: stage != Stage::LoadKey && stage != Stage::AgreeOnHash,
        },
    }
}

// ----- waiting for the tunnel -----

/// What whoever waits for a tunnel learns.
#[derive(Debug)]
pub enum Readiness {
    /// It is ready.
    Ready,
    /// It could not be set up.
    Failed(String),
    /// It ended without a word.
    Silent,
}

/// Why a tunnel could not be started, if it could not.
pub open spec fn start_failure(readiness: Readiness) -> Option<Seq<char>> {
    match readiness {
        Readiness::Ready => None,
        Readiness::Failed(why) => Some(why@),
        Readiness::Silent => Some("隧道任务意外结束"@),
    }
}

/// The outcome of starting a tunnel. Its figures count from the moment in which it is ready.
pub fn start_tunnel(readiness: Readiness, stats: &mut TrafficStats) -> (r: Result<(), String>)
    ensures
        match readiness {
            Readiness::Ready => r is Ok && exists|now: u64|
                final(stats)@ == #[trigger] old(stats)@.connected(now),
            Readiness::Failed(why) => r matches Err(e) && e@ == why@ && final(stats)@ == old(
                stats,
            )@,
            Readiness::Silent => r matches Err(e) && e@ == "隧道任务意外结束"@ && final(stats)@
                == old(stats)@,
        },
        start_failure(readiness) == (match r {
            Ok(_) => None,
            Err(e) => Some(e@),
        }),
{
    match readiness {
        Readiness::Ready => {
            stats.mark_connected();
            Ok(())
        },
        Readiness::Failed(why) => Err(why),
        Readiness::Silent => Err("隧道任务意外结束".to_owned()),
    }
}

// ----- serving -----

/// A local front end.
#[derive(Debug, Clone, Copy, PartialEq, Eq, Structural)]
pub enum FrontEnd {
    Socks,
    Http,
}

/// What happens while clients are served.
#[derive(Debug, Clone, Copy, PartialEq, Eq, Structural)]
pub enum ServeNews {
    /// The wish to stop has changed to this.
    Stop(bool),
    /// A client came to a front end.
    Client(FrontEnd),
    /// A client could not be taken in.
    NoClient(FrontEnd),
}

/// What follows from it.
#[derive(Debug, Clone, Copy, PartialEq, Eq, Structural)]
pub enum ServeStep {
    /// Stop serving.
    Stop,
    /// Serve the client beside the others.
    Serve(FrontEnd),
    /// Wait for what comes next.
    Wait,
}

/// What follows from what happens while clients are served.
pub open spec fn serving_after(news: ServeNews) -> ServeStep {
    match news {
        ServeNews::Stop(true) => ServeStep::Stop,
        ServeNews::Client(front) => ServeStep::Serve(front),
        _ => ServeStep::Wait,
    }
}

/// What follows from what happens while clients are served: only the wish to stop ends it.
pub fn serve(news: ServeNews) -> (r: ServeStep)
    ensures
        r == serving_after(news),
        r == (match news {
            ServeNews::Stop(true) => ServeStep::Stop,
            ServeNews::Client(front) => ServeStep::Serve(front),
            _ => ServeStep::Wait,
        }),
{
    match news {
        ServeNews::Stop(wish) => {
            if wish {
                ServeStep::Stop
            } else {
                ServeStep::Wait
            }
        },
        ServeNews::Client(front) => ServeStep::Serve(front),
        ServeNews::NoClient(_) => ServeStep::Wait,
    }
}

// ----- connections that end -----

/// The kinds of input or output errors that are told apart.
#[derive(Debug, Clone, Copy, PartialEq, Eq, Structural)]
pub enum IoKind {
    ConnectionReset,
    ConnectionAborted,
    BrokenPipe,
    UnexpectedEof,
    NotConnected,
    TimedOut,
    Other,
}

/// An input or output error behind another error, with its number on the system if it has one.
#[derive(Debug, Clone, Copy, PartialEq, Eq, Structural)]
pub struct IoCause {
    pub kind: IoKind,
    pub code: Option<i32>,
}

/// What is known of the error with which a connection ended.
#[derive(Debug)]
pub struct ErrorReport {
    /// The input or output errors behind it.
    pub causes: Vec<IoCause>,
    /// Its message.
    pub message: String,
}

impl IoCause {
    /// Whether such an error comes about when a client goes away.
    pub open spec fn is_benign(self, windows: bool) -> bool {
        ||| self.kind != IoKind::Other
        ||| windows && (self.code == Some(10053i32) || self.code == Some(10054i32) || self.code
            == Some(10058i32))
    }

    /// Whether such an error comes about when a client goes away.
    pub fn benign(&self, windows: bool) -> (r: bool)
        ensures
            r == self.is_benign(windows),
    {
        let by_kind = match self.kind {
            IoKind::Other => false,
            _ => true,
        };
        let by_code = match self.code {
            Some(n) => windows && (n == 10053 || n == 10054 || n == 10058),
            None => false,
        };
        by_kind || by_code
    }
}

/// Whether a message tells that a client went away.
pub open spec fn tells_of_disconnect(message: Seq<char>) -> bool {
    ||| text::contains(message, "10053"@)
    ||| text::contains(message, "10054"@)
    ||| text::contains(message, "connection abort"@)
    ||| text::contains(message, "connection reset"@)
    ||| text::contains(message, "中止了一个已建立的连接"@)
    ||| text::contains(message, "强制关闭了一个现有的连接"@)
}

/// Whether an error comes about when a client goes away, by the errors behind it or by its
/// message.
pub open spec fn benign_report(report: ErrorReport, windows: bool) -> bool {
    ||| exists|i: int|
        0 <= i < report.causes@.len() && (#[trigger] report.causes@[i]).is_benign(windows)
    ||| tells_of_disconnect(report.message@)
}

/// Whether an error comes about when a client goes away.
pub fn is_benign_disconnect(report: &ErrorReport, windows: bool) -> (r: bool)
    ensures
        r == benign_report(*report, windows),
{
    let mut i: usize = 0;
    while i < report.causes.len()
        invariant
            i <= report.causes@.len(),
            forall|k: int| 0 <= k < i ==> !(#[trigger] report.causes@[k]).is_benign(windows),
        decreases report.causes@.len() - i,
    {
        if report.causes[i].benign(windows) {
            return true;
        }
        i = i + 1;
    }
    let message = report.message.as_str();
    text::has_text(message, "10053") || text::has_text(message, "10054") || text::has_text(
        message,
        "connection abort",
    ) || text::has_text(message, "connection reset") || text::has_text(
        message,
        "中止了一个已建立的连接",
    ) || text::has_text(message, "强制关闭了一个现有的连接")
}

// ----- laws -----

/// Where setting up stands after so many stages were done.
pub open spec fn stage_reached(q: TunnelModel, done: nat) -> Stage
    decreases done,
{
    if done == 0 {
        Stage::Connect
    } else {
        stage_after(q, stage_reached(q, (done - 1) as nat))
    }
}

/// The stages come in their order: connecting, logging in by the method of the profile,
/// listening for SOCKS and then for HTTP clients, and serving.
pub proof fn law_stages_in_order(q: TunnelModel)
    ensures
        q.auth_method == AuthMethod::Password ==> {
            &&& stage_reached(q, 0) == Stage::Connect
            &&& stage_reached(q, 1) == Stage::Password
            &&& stage_reached(q, 2) == Stage::ListenSocks
            &&& stage_reached(q, 3) == Stage::ListenHttp
            &&& stage_reached(q, 4) == Stage::Serve
        },
        q.auth_method == AuthMethod::PrivateKey ==> {
            &&& stage_reached(q, 0) == Stage::Connect
            &&& stage_reached(q, 1) == Stage::LoadKey
            &&& stage_reached(q, 2) == Stage::AgreeOnHash
            &&& stage_reached(q, 3) == Stage::PublicKey
            &&& stage_reached(q, 4) == Stage::ListenSocks
            &&& stage_reached(q, 5) == Stage::ListenHttp
            &&& stage_reached(q, 6) == Stage::Serve
        },
{
    reveal_with_fuel(stage_reached, 7);
}

/// A tunnel goes on only by a stage that is done; what fails or is denied ends it.
pub proof fn law_only_done_stages_go_on(q: TunnelModel, stage: Stage, news: NewsModel)
    requires
        stage.fits(news),
    ensures
        setup_after(q, stage, news) is Next <==> news is Done,
{
}

/// Nobody listens before the server has accepted the login: the stages of listening follow
/// only a login that is done.
pub proof fn law_listening_follows_the_login(q: TunnelModel, stage: Stage)
    requires
        stage_after(q, stage) == Stage::ListenSocks,
    ensures
        stage == Stage::Password || stage == Stage::PublicKey,
{
}

/// Only this machine can use the proxy: whatever stage listens, it listens at the address and a
/// port that the endpoints name.
pub proof fn law_listens_on_this_machine_only(q: TunnelModel, stage: Stage)
    ensures
        action_at(q, stage) matches ActionModel::Listen(host, port) ==> {
            let ep = crate::proxy::local_endpoints(q.http_port, q.socks_port);
            &&& host == "127.0.0.1"@
            &&& stage == Stage::ListenSocks ==> host == ep.socks_host && port == ep.socks_port
            &&& stage == Stage::ListenHttp ==> host == ep.http_host && port == ep.http_port
        },
        action_at(q, stage) is Listen <==> stage == Stage::ListenSocks || stage
            == Stage::ListenHttp,
{
}

/// A login that is not accepted is told to whoever waits, in one sentence for both methods.
pub proof fn law_denied_login_is_told(q: TunnelModel, stage: Stage)
    requires
        stage == Stage::Password || stage == Stage::PublicKey,
    ensures
        setup_after(q, stage, NewsModel::Denied) == (SetupStepModel::Stop {
            failure: FailureModel { message: "SSH 认证被拒绝"@, cause: None },
            told: true,
        }),
{
}

/// What is done to set a tunnel up uses what the request holds: the server is reached at its host
/// and port, without white space around the host, and the login is that of the user, with the
/// password or the key of the request as it stands.
pub proof fn law_actions_use_the_request(q: TunnelModel)
    ensures
        action_at(q, Stage::Connect) matches ActionModel::Connect(a) && {
            &&& a.take(trimmed(q.host).len() as int) == trimmed(q.host)
            &&& a[trimmed(q.host).len() as int] == ':'
            &&& text::all_digits(a.skip(trimmed(q.host).len() + 1int))
            &&& text::digits_value(a.skip(trimmed(q.host).len() + 1int)) == q.port
        },
        action_at(q, Stage::Password) == ActionModel::LogInWithPassword(
            trimmed(q.username),
            q.password,
        ),
        action_at(q, Stage::LoadKey) == ActionModel::LoadKey(q.private_key_path),
        action_at(q, Stage::AgreeOnHash) == ActionModel::AgreeOnHash,
        action_at(q, Stage::PublicKey) == ActionModel::LogInWithKey(trimmed(q.username)),
        action_at(q, Stage::ListenSocks) == ActionModel::Listen("127.0.0.1"@, q.socks_port),
        action_at(q, Stage::ListenHttp) == ActionModel::Listen("127.0.0.1"@, q.http_port),
        action_at(q, Stage::Serve) == ActionModel::Serve,
{
    text::law_address_reads_back(trimmed(q.host), q.port, trimmed(q.host), q.port);
}

/// The password is used only where the profile logs in by password, and the key only where it
/// logs in by key.
pub proof fn law_login_is_that_of_the_profile(q: TunnelModel, done: nat)
    ensures
        q.auth_method == AuthMethod::Password ==> !(action_at(q, stage_reached(q, done)) is LoadKey)
            && !(action_at(q, stage_reached(q, done)) is LogInWithKey),
        q.auth_method == AuthMethod::PrivateKey ==> !(action_at(
            q,
            stage_reached(q, done),
        ) is LogInWithPassword),
        done >= 6 ==> stage_reached(q, done) == Stage::Serve,
    decreases done,
{
    lemma_stages_of_the_login(q, done);
    law_stages_in_order(q);
    if done > 6 {
        law_login_is_that_of_the_profile(q, (done - 1) as nat);
    } else if done == 6 {
        reveal_with_fuel(stage_reached, 7);
    }
}

proof fn lemma_stages_of_the_login(q: TunnelModel, done: nat)
    ensures
        q.auth_method == AuthMethod::Password ==> {
            let s = stage_reached(q, done);
            s == Stage::Connect || s == Stage::Password || s == Stage::ListenSocks || s
                == Stage::ListenHttp || s == Stage::Serve
        },
        q.auth_method == AuthMethod::PrivateKey ==> stage_reached(q, done) != Stage::Password,
    decreases done,
{
    if done > 0 {
        lemma_stages_of_the_login(q, (done - 1) as nat);
    }
}

/// A stage that fails ends setting up with its own message and the cause as it came; whoever waits
/// is told, unless it is about the key file or the hash for it.
pub proof fn law_failed_stage_is_told_with_its_cause(q: TunnelModel, stage: Stage, why: Seq<char>)
    requires
        stage != Stage::Serve,
    ensures
        stage.fits(NewsModel::Failed(why)),
        setup_after(q, stage, NewsModel::Failed(why)) matches SetupStepModel::Stop {
            failure,
            told,
        } && {
            &&& failure.cause == Some(why)
            &&& crate::keys::ends_with(failure.full(), ": "@ + why)
            &&& told <==> stage != Stage::LoadKey && stage != Stage::AgreeOnHash
            &&& stage == Stage::Connect ==> crate::keys::ends_with(
                failure.message,
                text::address(trimmed(q.host), q.port),
            )
            &&& stage == Stage::ListenSocks ==> crate::keys::ends_with(
                failure.message,
                text::decimal(q.socks_port as nat),
            )
            &&& stage == Stage::ListenHttp ==> crate::keys::ends_with(
                failure.message,
                text::decimal(q.http_port as nat),
            )
        },
{
    let message = failure_at(q, stage);
    let full = message + ": "@ + why;
    let end = ": "@ + why;
    assert(full.skip(full.len() - end.len()) =~= end);
    let start = match stage {
        Stage::Connect => "无法连接 SSH 服务器 "@,
        Stage::ListenSocks => "无法绑定 SOCKS 端口 "@,
        _ => "无法绑定 HTTP 端口 "@,
    };
    let tail = match stage {
        Stage::Connect => text::address(trimmed(q.host), q.port),
        Stage::ListenSocks => text::decimal(q.socks_port as nat),
        _ => text::decimal(q.http_port as nat),
    };
    assert((start + tail).skip((start + tail).len() - tail.len()) =~= tail);
}

/// Only the wish to stop ends serving, and each client is served by the front end it came to;
/// what fails for one client ends nothing.
pub proof fn law_serving_goes_on(front: FrontEnd)
    ensures
        serving_after(ServeNews::Stop(true)) == ServeStep::Stop,
        serving_after(ServeNews::Stop(false)) == ServeStep::Wait,
        serving_after(ServeNews::Client(front)) == ServeStep::Serve(front),
        serving_after(ServeNews::NoClient(front)) == ServeStep::Wait,
{
}

/// An error counts as a client that went away as soon as one error behind it does; more errors
/// behind it never change that.
pub proof fn law_one_benign_cause_is_enough(report: ErrorReport, windows: bool, i: int)
    requires
        0 <= i < report.causes@.len(),
    ensures
        report.causes@[i].kind != IoKind::Other ==> benign_report(report, windows),
        windows && (report.causes@[i].code == Some(10053i32) || report.causes@[i].code == Some(
            10054i32,
        ) || report.causes@[i].code == Some(10058i32)) ==> benign_report(report, windows),
        benign_report(report, false) ==> benign_report(report, true),
{
    let cause = report.causes@[i];
    if cause.is_benign(windows) {
        assert(report.causes@[i].is_benign(windows));
    }
    if benign_report(report, false) && !tells_of_disconnect(report.message@) {
        let k = choose|k: int|
            0 <= k < report.causes@.len() && (#[trigger] report.causes@[k]).is_benign(false);
        assert(report.causes@[k].is_benign(true));
    }
}

/// An error with nothing of the kind behind it, and whose message tells nothing of the kind, is
/// a failure.
pub proof fn law_other_errors_are_failures(report: ErrorReport, windows: bool)
    requires
        forall|i: int|
            0 <= i < report.causes@.len() ==> (#[trigger] report.causes@[i]).kind == IoKind::Other,
        forall|i: int|
            0 <= i < report.causes@.len() ==> (#[trigger] report.causes@[i]).code is None
                || !windows,
        !text::contains(report.message@, "10053"@),
        !text::contains(report.message@, "10054"@),
        !text::contains(report.message@, "connection abort"@),
        !text::contains(report.message@, "connection reset"@),
        !text::contains(report.message@, "中止了一个已建立的连接"@),
        !text::contains(report.message@, "强制关闭了一个现有的连接"@),
    ensures
        !benign_report(report, windows),
{
}

/// A message that holds one of the words for a client that went away, wherever it stands in it,
/// tells so.
pub proof fn law_message_tells_of_disconnect(before: Seq<char>, word: Seq<char>, after: Seq<char>)
    requires
        word == "10053"@ || word == "10054"@ || word == "connection abort"@ || word
            == "connection reset"@ || word == "中止了一个已建立的连接"@ || word
            == "强制关闭了一个现有的连接"@,
    ensures
        tells_of_disconnect(before + word + after),
{
    let whole = before + word + after;
    let i = before.len() as int;
    assert(whole.subrange(i, i + word.len()) =~= word);
    assert(text::occurs_at(whole, word, i));
}

/// A silent connection is kept up by a sign of life every fifteen seconds, and given up after six
/// that went unanswered; its window is eight megabytes.
pub proof fn law_signs_of_life()
    ensures
        KEEPALIVE_SECS == 15,
        KEEPALIVE_MAX == 6,
        WINDOW_SIZE == 8 * 1024 * 1024,
        CHANNEL_BUFFER_SIZE == 128,
        RELAY_BUFFER == 64 * 1024,
{
}

/// A tunnel is started exactly where it is ready; a reason that came is handed on as it is, and
/// an end without a word is told too.
pub proof fn law_only_a_ready_tunnel_is_started(readiness: Readiness)
    ensures
        start_failure(readiness) is None <==> readiness is Ready,
        readiness matches Readiness::Failed(why) ==> start_failure(readiness) == Some(why@),
        readiness is Silent ==> start_failure(readiness) is Some && start_failure(
            readiness,
        )->0.len() > 0,
{
    reveal_strlit("隧道任务意外结束");
}

} // verus!
