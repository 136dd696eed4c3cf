//! The state behind the window: what is connected, what is shown, and how both change.
use vstd::prelude::*;
use vstd::string::StringExecFns;

use crate::config::{
    AppConfig, AuthMethod, ConfigError, ConfigModel, ProfileModel, TunnelModel, TunnelRequest,
};
use crate::config;
use crate::proxy;
use crate::proxy::{EndpointsModel, ProxyEndpoints};
use crate::stats;
use crate::stats::{SnapshotModel, TrafficSnapshot};
use crate::text;
use crate::text::{blank, trimmed};

verus! {

/// How long connecting may take, in nanoseconds.
pub const CONNECT_LIMIT: u64 = 45_000_000_000;

/// How long a note is shown, in nanoseconds: the shortest time that single precision takes for
/// 2.4 seconds.
pub const TOAST_LIMIT: u64 = 2_399_999_953;

/// How long traffic is watched at least before its rate is told, in nanoseconds.
pub const RATE_WINDOW: u64 = 400_000_000;

// ----- the state -----

/// Whether there is a connection.
#[derive(Debug, Clone, Copy, PartialEq, Eq, Structural)]
pub enum ConnState {
    Off,
    Connecting,
    On,
    Error,
}

/// A page of the window.
#[derive(Debug, Clone, Copy, PartialEq, Eq, Structural)]
pub enum Page {
    Connect,
    Hosts,
    Settings,
}

/// A note that is shown for a while.
#[derive(Debug)]
pub struct Toast {
    pub text: String,
    /// The reading of the clock when it was first shown.
    pub at: u64,
}

/// The state behind the window. Moments are readings of one clock, in nanoseconds.
#[derive(Debug)]
pub struct ProxyApp {
    pub config: AppConfig,
    pub page: Page,
    pub state: ConnState,
    pub status_text: String,
    pub connect_started_at: Option<u64>,
    pub connected_profile_id: Option<String>,
    pub show_password: bool,
    pub rate_prev: TrafficSnapshot,
    pub rate_prev_at: u64,
    /// Bytes per second, rounded down.
    pub up_rate: i128,
    /// Bytes per second, rounded down.
    pub down_rate: i128,
    pub cached_snap: TrafficSnapshot,
    pub toast: Option<Toast>,
}

/// A note, as plain text.
#[verifier::ext_equal]
pub struct ToastModel {
    pub text: Seq<char>,
    pub at: u64,
}

/// The state behind the window, as plain text.
#[verifier::ext_equal]
pub struct SessionModel {
    pub config: ConfigModel,
    pub page: Page,
    pub state: ConnState,
    pub status_text: Seq<char>,
    pub connect_started_at: Option<u64>,
    pub connected_profile_id: Option<Seq<char>>,
    pub show_password: bool,
    pub rate_prev: SnapshotModel,
    pub rate_prev_at: u64,
    pub up_rate: i128,
    pub down_rate: i128,
    pub cached_snap: SnapshotModel,
    pub toast: Option<ToastModel>,
}

/// The view of a text that may be missing.
pub open spec fn text_view(o: Option<String>) -> Option<Seq<char>> {
    match o {
        Some(s) => Some(s@),
        None => None,
    }
}

impl View for ProxyApp {
    type V = SessionModel;

    open spec fn view(&self) -> SessionModel {
        SessionModel {
            config: self.config@,
            page: self.page,
            state: self.state,
            status_text: self.status_text@,
            connect_started_at: self.connect_started_at,
            connected_profile_id: text_view(self.connected_profile_id),
            show_password: self.show_password,
            rate_prev: self.rate_prev@,
            rate_prev_at: self.rate_prev_at,
            up_rate: self.up_rate,
            down_rate: self.down_rate,
            cached_snap: self.cached_snap@,
            toast: match self.toast {
                Some(t) => Some(ToastModel { text: t.text@, at: t.at }),
                None => None,
            },
        }
    }
}

/// What a tunnel is started with, and what is done once it is there.
#[derive(Debug)]
pub struct StartPlan {
    pub request: TunnelRequest,
    pub endpoints: ProxyEndpoints,
    /// The hosts that go around the proxy: the server.
    pub bypass: Vec<String>,
    /// Whether the system is made to use the proxy.
    pub auto_proxy: bool,
}

/// What a tunnel is started with, as plain text.
#[verifier::ext_equal]
pub struct StartModel {
    pub request: TunnelModel,
    pub endpoints: EndpointsModel,
    pub bypass: Seq<Seq<char>>,
    pub auto_proxy: bool,
}

impl View for StartPlan {
    type V = StartModel;

    open spec fn view(&self) -> StartModel {
        StartModel {
            request: self.request@,
            endpoints: self.endpoints@,
            bypass: text::views(self.bypass@),
            auto_proxy: self.auto_proxy,
        }
    }
}

/// The view of a plan that may be missing.
pub open spec fn plan_view(o: Option<StartPlan>) -> Option<StartModel> {
    match o {
        Some(p) => Some(p@),
        None => None,
    }
}

/// The bytes that went each way in a stretch of time.
#[derive(Debug, Clone, Copy, PartialEq, Eq, Structural)]
pub struct RateWindow {
    pub up: u64,
    pub down: u64,
    pub nanos: u64,
}

// ----- what the state becomes -----

impl SessionModel {
    /// Whether there is a profile to use.
    pub open spec fn wf(self) -> bool {
        self.config.profiles.len() > 0
    }

    /// Whether there is a connection, or one being made.
    pub open spec fn busy(self) -> bool {
        self.state == ConnState::Connecting || self.state == ConnState::On
    }

    /// The local endpoints by the settings.
    pub open spec fn endpoints(self) -> EndpointsModel {
        proxy::local_endpoints(self.config.settings.http_port, self.config.settings.socks_port)
    }

    /// With a note.
    pub open spec fn noted(self, note: Seq<char>, now: u64) -> SessionModel {
        SessionModel { toast: Some(ToastModel { text: note, at: now }), ..self }
    }

    /// After an attempt to save the configuration.
    pub open spec fn saved(self, failure: Option<Seq<char>>, now: u64) -> SessionModel {
        match failure {
            None => self.noted("配置已保存"@, now),
            Some(why) => (SessionModel { status_text: "保存失败: "@ + why, ..self }).noted(
                "保存失败: "@ + why,
                now,
            ),
        }
    }

    /// What a tunnel would be started with, or why it cannot be.
    pub open spec fn request(self, key_file_exists: bool) -> Result<TunnelModel, ConfigError> {
        config::tunnel_request(self.config.active_profile(), self.config.settings, key_file_exists)
    }

    /// After the wish to connect.
    pub open spec fn started(self, key_file_exists: bool, now: u64) -> SessionModel {
        if self.busy() {
            self
        } else {
            match self.request(key_file_exists) {
                Err(e) => SessionModel {
                    state: ConnState::Error,
                    status_text: "配置错误: "@ + e.text(),
                    page: if text::contains(e.text(), "端口"@) {
                        Page::Settings
                    } else {
                        Page::Hosts
                    },
                    ..self
                },
                Ok(_) => SessionModel {
                    state: ConnState::Connecting,
                    status_text: "正在连接 "@ + self.config.active_profile().label() + "…"@,
                    connect_started_at: Some(now),
                    connected_profile_id: Some(self.config.active_profile().id),
                    up_rate: 0,
                    down_rate: 0,
                    cached_snap: stats::empty_snapshot(),
                    rate_prev: stats::empty_snapshot(),
                    rate_prev_at: now,
                    ..self
                },
            }
        }
    }

    /// What the wish to connect starts.
    pub open spec fn start_plan(self, key_file_exists: bool) -> Option<StartModel> {
        if self.busy() {
            None
        } else {
            match self.request(key_file_exists) {
                Err(_) => None,
                Ok(request) => Some(
                    StartModel {
                        request,
                        endpoints: self.endpoints(),
                        bypass: seq![trimmed(self.config.active_profile().host)],
                        auto_proxy: self.config.settings.auto_set_system_proxy,
                    },
                ),
            }
        }
    }

    /// After the wish to disconnect.
    pub open spec fn stopped(self) -> SessionModel {
        SessionModel {
            state: ConnState::Off,
            status_text: "已断开"@,
            connected_profile_id: None,
            up_rate: 0,
            down_rate: 0,
            ..self
        }
    }

    /// Disconnected, where there was a connection.
    pub open spec fn stopped_if_busy(self) -> SessionModel {
        if self.busy() {
            self.stopped()
        } else {
            self
        }
    }

    /// With another profile in use. A connection ends first.
    pub open spec fn switched(self, id: Seq<char>, now: u64) -> SessionModel {
        if id == self.config.active_profile_id {
            self
        } else {
            let s = if self.busy() {
                self.stopped().noted("已断开当前连接，可重新开启代理"@, now)
            } else {
                self
            };
            if config::has_id(s.config.profiles, id) {
                let c = s.config.with_active(id);
                SessionModel {
                    config: c,
                    status_text: "已切换到 "@ + c.active_profile().label(),
                    ..s
                }
            } else {
                s
            }
        }
    }

    /// The stretch of time since the last rate, if it is long enough.
    pub open spec fn window(self, snap: SnapshotModel, now: u64) -> Option<RateWindow> {
        if now.saturating_sub(self.rate_prev_at) >= RATE_WINDOW {
            Some(
                RateWindow {
                    up: snap.bytes_up.saturating_sub(self.rate_prev.bytes_up),
                    down: snap.bytes_down.saturating_sub(self.rate_prev.bytes_down),
                    nanos: now.saturating_sub(self.rate_prev_at),
                },
            )
        } else {
            None
        }
    }

    /// With new figures.
    pub open spec fn refreshed(self, snap: SnapshotModel, now: u64) -> SessionModel {
        if self.window(snap, now) is Some {
            SessionModel { rate_prev: snap, rate_prev_at: now, cached_snap: snap, ..self }
        } else {
            SessionModel { cached_snap: snap, ..self }
        }
    }

    /// With new rates, in bytes per second.
    pub open spec fn with_rates(self, up: i128, down: i128) -> SessionModel {
        SessionModel { up_rate: up, down_rate: down, ..self }
    }

    /// On the page for connecting, after an attempt to save the configuration.
    pub open spec fn saved_to_connect(self, failure: Option<Seq<char>>, now: u64) -> SessionModel {
        SessionModel { page: Page::Connect, ..self.saved(failure, now) }
    }

    /// After a failure of the tunnel is heard of.
    pub open spec fn heard(self, failure: Option<Seq<char>>) -> SessionModel {
        match failure {
            Some(why) => if self.state == ConnState::Connecting {
                SessionModel {
                    state: ConnState::Error,
                    status_text: "连接失败: "@ + why,
                    connect_started_at: None,
                    connected_profile_id: None,
                    ..self
                }
            } else if self.state == ConnState::On {
                SessionModel { status_text: why, ..self }
            } else {
                self
            },
            None => self,
        }
    }

    /// The status of a connection that was made.
    pub open spec fn connected_status(self) -> Seq<char> {
        "已连接 · "@ + self.config.active_profile().label() + " · HTTP :"@ + text::decimal(
            self.config.settings.http_port as nat,
        ) + " / SOCKS :"@ + text::decimal(self.config.settings.socks_port as nat)
    }

    /// Whether connecting takes too long.
    pub open spec fn is_late(self, now: u64) -> bool {
        self.connect_started_at matches Some(t) && now.saturating_sub(t) > CONNECT_LIMIT
    }

    /// After it is seen whether there is a tunnel.
    pub open spec fn seen(self, present: Option<bool>, now: u64) -> SessionModel {
        match (self.state, present) {
            (ConnState::Connecting, Some(true)) => (SessionModel {
                state: ConnState::On,
                connect_started_at: None,
                status_text: self.connected_status(),
                rate_prev_at: now,
                ..self
            }).noted("已连接 "@ + self.config.active_profile().label(), now),
            (ConnState::On, Some(false)) => SessionModel {
                state: ConnState::Off,
                status_text: "连接已结束"@,
                connected_profile_id: None,
                ..self
            },
            (ConnState::Connecting, Some(false)) => if self.is_late(now) {
                SessionModel {
                    state: ConnState::Error,
                    status_text: "连接超时，请检查主机与认证信息"@,
                    connect_started_at: None,
                    connected_profile_id: None,
                    ..self
                }
            } else {
                self
            },
            _ => self,
        }
    }

    /// After a look at the tunnel: a failure that ends the attempt to connect counts before
    /// anything else. What cannot be looked at right now is passed over.
    pub open spec fn synced(
        self,
        failure: Option<Seq<char>>,
        present: Option<bool>,
        now: u64,
    ) -> SessionModel {
        if failure is Some && self.state == ConnState::Connecting {
            self.heard(failure)
        } else {
            self.heard(failure).seen(present, now)
        }
    }

    /// After a key pair was made for the profile in use, or was not.
    pub open spec fn keyed(
        self,
        made: Result<(Seq<char>, Seq<char>), Seq<char>>,
        now: u64,
    ) -> SessionModel {
        match made {
            Ok((path, shown)) => {
                let p = self.config.active_profile();
                (SessionModel {
                    config: ConfigModel {
                        profiles: self.config.profiles.update(
                            self.config.active_index(),
                            ProfileModel {
                                private_key_path: path,
                                auth_method: AuthMethod::PrivateKey,
                                ..p
                            },
                        ),
                        ..self.config
                    },
                    ..self
                }).noted("已生成密钥对："@ + shown, now)
            },
            Err(why) => self.noted("生成失败: "@ + why, now),
        }
    }

    /// The comment in a key for the profile in use.
    pub open spec fn key_comment(self) -> Seq<char> {
        let user = trimmed(self.config.active_profile().username);
        let host = trimmed(self.config.active_profile().host);
        if user.len() > 0 && host.len() > 0 {
            user + "@"@ + host
        } else if user.len() > 0 {
            user
        } else {
            "sway"@
        }
    }

    /// The stations from this machine to the target.
    pub open spec fn path_nodes(self) -> Seq<Seq<char>> {
        let p = self.config.active_profile();
        let s = self.config.settings;
        seq![
            "本机"@,
            "HTTP:"@ + text::decimal(s.http_port as nat) + " / SOCKS:"@ + text::decimal(
                s.socks_port as nat,
            ),
            if blank(p.username) || blank(p.host) {
                "SSH"@
            } else {
                trimmed(p.username) + "@"@ + text::address(trimmed(p.host), p.port)
            },
            "目标站点"@,
        ]
    }

    /// With a new profile of the given identifier. A connection ends first.
    pub open spec fn host_added(self, id: Seq<char>, now: u64) -> SessionModel {
        let s = self.stopped_if_busy();
        (SessionModel { config: s.config.with_new_profile(id), ..s }).noted("已新建主机"@, now)
    }

    /// With a copy of the profile in use under the given identifier. A connection ends first.
    pub open spec fn host_copied(self, id: Seq<char>, now: u64) -> SessionModel {
        let s = self.stopped_if_busy();
        (SessionModel { config: s.config.with_duplicate(id), ..s }).noted("已复制主机"@, now)
    }

    /// Without the profile in use, unless it is the last. A connection ends first.
    pub open spec fn host_removed(self, now: u64) -> SessionModel {
        let s = self.stopped_if_busy();
        if s.config.profiles.len() <= 1 {
            s.noted(ConfigError::LastProfile.text(), now)
        } else {
            (SessionModel { config: s.config.without_active(), ..s }).noted("已删除主机"@, now)
        }
    }

    /// After the wish to save the settings: with a note, where they cannot be used.
    pub open spec fn settings_checked(self, now: u64) -> SessionModel {
        match self.config.settings.problem() {
            Some(e) => self.noted("设置无效: "@ + e.text(), now),
            None => self,
        }
    }

    /// With the choice changed of whether connecting makes the system use the proxy.
    pub open spec fn toggled(self) -> SessionModel {
        SessionModel {
            config: ConfigModel {
                settings: config::AppSettings {
                    auto_set_system_proxy: !self.config.settings.auto_set_system_proxy,
                    ..self.config.settings
                },
                ..self.config
            },
            ..self
        }
    }

    /// After the system proxy was cleared by hand, or could not be.
    pub open spec fn cleared(self, failure: Option<Seq<char>>, now: u64) -> SessionModel {
        match failure {
            None => self.noted("已清除系统代理与相关环境变量"@, now),
            Some(why) => self.noted("清除失败: "@ + why, now),
        }
    }

    /// Without a note that was shown long enough.
    pub open spec fn faded(self, now: u64) -> SessionModel {
        match self.toast {
            Some(t) => if now.saturating_sub(t.at) >= TOAST_LIMIT {
                SessionModel { toast: None, ..self }
            } else {
                self
            },
            None => self,
        }
    }
}

/// The state at the start.
pub open spec fn initial_session(config: ConfigModel, cleared: bool, now: u64) -> SessionModel {
    SessionModel {
        config,
        page: Page::Connect,
        state: ConnState::Off,
        status_text: if cleared {
            "已清除上次残留的系统代理"@
        } else {
            "未连接"@
        },
        connect_started_at: None,
        connected_profile_id: None,
        show_password: false,
        rate_prev: stats::empty_snapshot(),
        rate_prev_at: now,
        up_rate: 0,
        down_rate: 0,
        cached_snap: stats::empty_snapshot(),
        toast: None,
    }
}

// ----- how it becomes so -----

impl ProxyApp {
    /// The state at the start. `cleared` says whether a proxy that was left behind was cleared.
    pub fn new(config: AppConfig, cleared: bool, now: u64) -> (r: Self)
        ensures
            r@ == initial_session(config@, cleared, now),
            r@ == (SessionModel {
                config: config@,
                page: Page::Connect,
                state: ConnState::Off,
                status_text: if cleared {
                    "已清除上次残留的系统代理"@
                } else {
                    "未连接"@
                },
                connect_started_at: None,
                connected_profile_id: None,
                show_password: false,
                rate_prev: stats::empty_snapshot(),
                rate_prev_at: now,
                up_rate: 0,
                down_rate: 0,
                cached_snap: stats::empty_snapshot(),
                toast: None,
            }),
            config@.profiles.len() > 0 ==> r@.consistent(),
    {
        ProxyApp {
            config,
            page: Page::Connect,
            state: ConnState::Off,
            status_text: if cleared {
                "已清除上次残留的系统代理".to_owned()
            } else {
                "未连接".to_owned()
            },
            connect_started_at: None,
            connected_profile_id: None,
            show_password: false,
            rate_prev: TrafficSnapshot::default(),
            rate_prev_at: now,
            up_rate: 0,
            down_rate: 0,
            cached_snap: TrafficSnapshot::default(),
            toast: None,
        }
    }

    /// The local endpoints by the settings.
    pub fn endpoints(&self) -> (r: ProxyEndpoints)
        ensures
            r@ == self@.endpoints(),
    {
        ProxyEndpoints::local(self.config.settings.http_port, self.config.settings.socks_port)
    }

    /// Shows a note.
    pub fn show_toast(&mut self, note: String, now: u64)
        ensures
            final(self)@ == old(self)@.noted(note@, now),
    {
        self.toast = Some(Toast { text: note, at: now });
    }

    /// Takes in whether the configuration could be saved.
    pub fn save_config(&mut self, outcome: Result<(), String>, now: u64)
        ensures
            final(self)@ == old(self)@.saved(
                match outcome {
                    Ok(_) => None,
                    Err(why) => Some(why@),
                },
                now,
            ),
    {
        match outcome {
            Ok(_) => self.show_toast("配置已保存".to_owned(), now),
            Err(why) => {
                let note = text::join("保存失败: ", why.as_str());
                self.status_text = note.clone();
                self.show_toast(note, now);
            },
        }
    }

    /// Whether there is a connection, or one being made.
    pub fn is_busy(&self) -> (r: bool)
        ensures
            r == self@.busy(),
    {
        self.state == ConnState::Connecting || self.state == ConnState::On
    }

    /// Takes in the wish to connect; `key_file_exists` says whether the key file of the profile
    /// in use exists. Gives what to start a tunnel with, where one is to be started.
    pub fn start(&mut self, key_file_exists: bool, now: u64) -> (r: Option<StartPlan>)
        requires
            old(self)@.wf(),
        ensures
            final(self)@ == old(self)@.started(key_file_exists, now),
            plan_view(r) == old(self)@.start_plan(key_file_exists),
    {
        if self.is_busy() {
            return None;
        }
        let settings = self.config.settings;
        let profile = self.config.active_profile();
        let request = match TunnelRequest::from_profile(profile, &settings, key_file_exists) {
            Ok(q) => q,
            Err(e) => {
                let message = e.message();
                self.state = ConnState::Error;
                self.page = if text::has_text(message.as_str(), "端口") {
                    Page::Settings
                } else {
                    Page::Hosts
                };
                self.status_text = text::join("配置错误: ", message.as_str());
                return None;
            },
        };
        let mut status = text::join("正在连接 ", profile.display_label().as_str());
        status.append("…");
        let id = profile.id.clone();
        let bypass: Vec<String> = vec![text::trim(profile.host.as_str()).to_owned()];
        let ghost server = trimmed(profile.host@);
        assert(text::views(bypass@) =~= seq![server]);
        let endpoints = self.endpoints();
        self.state = ConnState::Connecting;
        self.status_text = status;
        self.connect_started_at = Some(now);
        self.connected_profile_id = Some(id);
        self.up_rate = 0;
        self.down_rate = 0;
        self.cached_snap = TrafficSnapshot::default();
        self.rate_prev = TrafficSnapshot::default();
        self.rate_prev_at = now;
        Some(
            StartPlan { request, endpoints, bypass, auto_proxy: settings.auto_set_system_proxy },
        )
    }

    /// Takes in the wish to disconnect.
    pub fn stop(&mut self)
        ensures
            final(self)@ == old(self)@.stopped(),
    {
        self.state = ConnState::Off;
        self.status_text = "已断开".to_owned();
        self.connected_profile_id = None;
        self.up_rate = 0;
        self.down_rate = 0;
    }

    /// Disconnects, where there is a connection; says whether there was one, so that the tunnel
    /// has to be ended.
    pub fn stop_if_busy(&mut self) -> (r: bool)
        ensures
            final(self)@ == old(self)@.stopped_if_busy(),
            r == old(self)@.busy(),
    {
        if self.is_busy() {
            self.stop();
            true
        } else {
            false
        }
    }

    /// Puts another profile to use; says whether the tunnel has to be ended.
    pub fn switch_profile(&mut self, id: &str, now: u64) -> (r: bool)
        requires
            old(self)@.wf(),
        ensures
            final(self)@ == old(self)@.switched(id@, now),
            r == (id@ != old(self)@.config.active_profile_id && old(self)@.busy()),
    {
        if text::same_text(id, self.config.active_profile_id.as_str()) {
            return false;
        }
        let ended = self.is_busy();
        if ended {
            self.stop();
            self.show_toast("已断开当前连接，可重新开启代理".to_owned(), now);
        }
        if self.config.set_active(id) {
            let label = self.config.active_profile().display_label();
            self.status_text = text::join("已切换到 ", label.as_str());
        }
        ended
    }

    /// Takes in new figures. Where it is time for new rates, gives what they are made of.
    pub fn refresh_traffic(&mut self, snap: TrafficSnapshot, now: u64) -> (r: Option<RateWindow>)
        ensures
            final(self)@ == old(self)@.refreshed(snap@, now),
            r == old(self)@.window(snap@, now),
    {
        let nanos: u64 = now.saturating_sub(self.rate_prev_at);
        let window = if nanos >= RATE_WINDOW {
            let w = RateWindow {
                up: snap.bytes_up.saturating_sub(self.rate_prev.bytes_up),
                down: snap.bytes_down.saturating_sub(self.rate_prev.bytes_down),
                nanos,
            };
            self.rate_prev = snap.clone();
            self.rate_prev_at = now;
            Some(w)
        } else {
            None
        };
        self.cached_snap = snap;
        window
    }

    /// Takes in new rates, in bytes per second.
    pub fn set_rates(&mut self, up: i128, down: i128)
        ensures
            final(self)@ == (SessionModel { up_rate: up, down_rate: down, ..old(self)@ }),
            final(self)@ == old(self)@.with_rates(up, down),
    {
        self.up_rate = up;
        self.down_rate = down;
    }

    /// Takes in a look at the tunnel: a failure that was left there, and whether there is a
    /// tunnel, where that can be told right now.
    pub fn sync_state_from_tunnel(
        &mut self,
        failure: Option<String>,
        present: Option<bool>,
        now: u64,
    )
        requires
            old(self)@.wf(),
        ensures
            final(self)@ == old(self)@.synced(text_view(failure), present, now),
    {
        if let Some(why) = failure {
            if self.state == ConnState::Connecting {
                self.state = ConnState::Error;
                self.status_text = text::join("连接失败: ", why.as_str());
                self.connect_started_at = None;
                self.connected_profile_id = None;
                return;
            } else if self.state == ConnState::On {
                self.status_text = why;
            }
        }
        let there = match present {
            Some(b) => b,
            None => {
                return;
            },
        };
        if self.state == ConnState::Connecting && there {
            let label = self.config.active_profile().display_label();
            let mut status = text::join("已连接 · ", label.as_str());
            status.append(" · HTTP :");
            status.append(
                text::decimal_string(self.config.settings.http_port as u128).as_str(),
            );
            status.append(" / SOCKS :");
            status.append(
                text::decimal_string(self.config.settings.socks_port as u128).as_str(),
            );
            self.state = ConnState::On;
            self.connect_started_at = None;
            self.status_text = status;
            self.rate_prev_at = now;
            self.show_toast(text::join("已连接 ", label.as_str()), now);
        } else if self.state == ConnState::On && !there {
            self.state = ConnState::Off;
            self.status_text = "连接已结束".to_owned();
            self.connected_profile_id = None;
        } else if self.state == ConnState::Connecting {
            if let Some(t) = self.connect_started_at {
                if now.saturating_sub(t) > CONNECT_LIMIT {
                    self.state = ConnState::Error;
                    self.status_text = "连接超时，请检查主机与认证信息".to_owned();
                    self.connect_started_at = None;
                    self.connected_profile_id = None;
                }
            }
        }
    }

    /// The comment in a key for the profile in use.
    pub fn key_comment(&self) -> (r: String)
        requires
            self@.wf(),
        ensures
            r@ == self@.key_comment(),
    {
        let p = self.config.active_profile();
        let user = text::trim(p.username.as_str());
        let host = text::trim(p.host.as_str());
        if !user.is_empty() && !host.is_empty() {
            let mut out = text::join(user, "@");
            out.append(host);
            out
        } else if !user.is_empty() {
            user.to_owned()
        } else {
            "sway".to_owned()
        }
    }

    /// Takes in whether a key pair was made: its path and how that is shown, or the failure.
    pub fn create_keypair_for_active(&mut self, made: Result<(String, String), String>, now: u64)
        requires
            old(self)@.wf(),
        ensures
            final(self)@ == old(self)@.keyed(
                match made {
                    Ok(m) => Ok((m.0@, m.1@)),
                    Err(why) => Err(why@),
                },
                now,
            ),
    {
        match made {
            Ok((path, shown)) => {
                let note = text::join("已生成密钥对：", shown.as_str());
                let ghost before = self.config.profiles@;
                let ghost i = self.config@.active_index();
                proof {
                    config::law_position_of_id(self@.config.profiles, self@.config.active_profile_id);
                }
                let p = self.config.active_profile_mut();
                p.private_key_path = path;
                p.auth_method = AuthMethod::PrivateKey;
                assert(self@.config.profiles =~= config::profile_views(before).update(
                    i,
                    self.config.profiles@[i]@,
                ));
                self.show_toast(note, now);
            },
            Err(why) => self.show_toast(text::join("生成失败: ", why.as_str()), now),
        }
    }

    /// The stations from this machine to the target.
    pub fn path_nodes(&self) -> (r: Vec<String>)
        requires
            self@.wf(),
        ensures
            text::views(r@) == self@.path_nodes(),
    {
        let p = self.config.active_profile();
        let user = text::trim(p.username.as_str());
        let host = text::trim(p.host.as_str());
        let ssh = if user.is_empty() || host.is_empty() {
            "SSH".to_owned()
        } else {
            let mut out = text::join(user, "@");
            out.append(text::address_string(host, p.port).as_str());
            assert(out@ =~= user@ + "@"@ + text::address(host@, p.port));
            out
        };
        let mut ports = text::join(
            "HTTP:",
            text::decimal_string(self.config.settings.http_port as u128).as_str(),
        );
        ports.append(" / SOCKS:");
        ports.append(text::decimal_string(self.config.settings.socks_port as u128).as_str());
        let r: Vec<String> = vec!["本机".to_owned(), ports, ssh, "目标站点".to_owned()];
        assert(text::views(r@) =~= self@.path_nodes());
        r
    }

    /// Adds a profile with the given identifier; says whether the tunnel has to be ended.
    pub fn add_host_as(&mut self, id: String, now: u64) -> (r: bool)
        ensures
            final(self)@ == old(self)@.host_added(id@, now),
            r == old(self)@.busy(),
    {
        let ended = self.stop_if_busy();
        let _id = self.config.add_profile_as(id);
        self.show_toast("已新建主机".to_owned(), now);
        ended
    }

    /// Adds a profile; says whether the tunnel has to be ended.
    pub fn add_host(&mut self, now: u64) -> (r: bool)
        ensures
            exists|id: Seq<char>|
                config::is_host_id(id) && final(self)@ == #[trigger] old(self)@.host_added(id, now),
            r == old(self)@.busy(),
    {
        self.add_host_as(config::new_id(), now)
    }

    /// Copies the profile in use under the given identifier; says whether the tunnel has to be
    /// ended.
    pub fn copy_host_as(&mut self, id: String, now: u64) -> (r: bool)
        requires
            old(self)@.wf(),
        ensures
            final(self)@ == old(self)@.host_copied(id@, now),
            r == old(self)@.busy(),
    {
        let ended = self.stop_if_busy();
        let _id = self.config.duplicate_active_as(id);
        self.show_toast("已复制主机".to_owned(), now);
        ended
    }

    /// Copies the profile in use; says whether the tunnel has to be ended.
    pub fn copy_host(&mut self, now: u64) -> (r: bool)
        requires
            old(self)@.wf(),
        ensures
            exists|id: Seq<char>|
                config::is_host_id(id) && final(self)@ == #[trigger] old(self)@.host_copied(id, now),
            r == old(self)@.busy(),
    {
        self.copy_host_as(config::new_id(), now)
    }

    /// Removes the profile in use, unless it is the last; says whether the tunnel has to be
    /// ended.
    pub fn remove_host(&mut self, now: u64) -> (r: bool)
        ensures
            final(self)@ == old(self)@.host_removed(now),
            r == old(self)@.busy(),
    {
        let ended = self.stop_if_busy();
        match self.config.remove_active() {
            Ok(_) => self.show_toast("已删除主机".to_owned(), now),
            Err(e) => self.show_toast(e.message(), now),
        }
        ended
    }

    /// Takes in the wish to save the configuration and to connect: the outcome of saving, and
    /// then what to start a tunnel with, where one is to be started.
    pub fn save_and_connect(
        &mut self,
        outcome: Result<(), String>,
        key_file_exists: bool,
        now: u64,
    ) -> (r: Option<StartPlan>)
        requires
            old(self)@.wf(),
        ensures
            ({
                let failure = match outcome {
                    Ok(_) => None,
                    Err(why) => Some(why@),
                };
                let before = SessionModel {
                    page: Page::Connect,
                    ..old(self)@.saved(failure, now)
                };
                &&& final(self)@ == before.started(key_file_exists, now)
                &&& plan_view(r) == before.start_plan(key_file_exists)
                &&& final(self)@ == old(self)@.saved_to_connect(failure, now).started(
                    key_file_exists,
                    now,
                )
                &&& plan_view(r) == old(self)@.saved_to_connect(failure, now).start_plan(
                    key_file_exists,
                )
            }),
    {
        self.save_config(outcome, now);
        self.page = Page::Connect;
        self.start(key_file_exists, now)
    }

    /// Takes in the wish to save the settings; says whether they are to be saved.
    pub fn check_settings(&mut self, now: u64) -> (r: bool)
        ensures
            final(self)@ == old(self)@.settings_checked(now),
            r == old(self)@.config.settings.problem() is None,
    {
        match self.config.settings.validate() {
            Ok(_) => true,
            Err(e) => {
                self.show_toast(text::join("设置无效: ", e.message().as_str()), now);
                false
            },
        }
    }

    /// Changes whether connecting makes the system use the proxy.
    pub fn toggle_system_proxy(&mut self)
        ensures
            final(self)@ == old(self)@.toggled(),
    {
        self.config.settings.auto_set_system_proxy = !self.config.settings.auto_set_system_proxy;
    }

    /// Takes in whether the system proxy could be cleared by hand.
    pub fn force_cleared(&mut self, outcome: Result<(), String>, now: u64)
        ensures
            final(self)@ == old(self)@.cleared(
                match outcome {
                    Ok(_) => None,
                    Err(why) => Some(why@),
                },
                now,
            ),
    {
        match outcome {
            Ok(_) => self.show_toast("已清除系统代理与相关环境变量".to_owned(), now),
            Err(why) => self.show_toast(text::join("清除失败: ", why.as_str()), now),
        }
    }

    /// Takes away a note that was shown long enough.
    pub fn fade_toast(&mut self, now: u64)
        ensures
            final(self)@ == old(self)@.faded(now),
    {
        let over = match &self.toast {
            Some(t) => now.saturating_sub(t.at) >= TOAST_LIMIT,
            None => false,
        };
        if over {
            self.toast = None;
        }
    }
}

// ----- the system proxy -----

/// What is left of a start: whether there is a tunnel, with the statistics that it keeps,
/// whether the system proxy counts as set here, and the last failure.
#[verifier::ext_equal]
pub struct LinkModel {
    pub tunnel: bool,
    pub held: bool,
    pub failure: Option<Seq<char>>,
}

/// What is told where the tunnel is there and the system proxy could not be set.
pub open spec fn not_set(why: Seq<char>) -> Seq<char> {
    "隧道已建立，但设置系统代理失败: "@ + why
}

impl LinkModel {
    /// After a tunnel was there, or was not there for a reason.
    pub open spec fn with_tunnel(self, failure: Option<Seq<char>>) -> LinkModel {
        match failure {
            None => LinkModel { tunnel: true, ..self },
            Some(why) => LinkModel { tunnel: false, failure: Some(why), ..self },
        }
    }

    /// After the system proxy was set, or was not set for a reason.
    pub open spec fn with_proxy(self, failure: Option<Seq<char>>) -> LinkModel {
        match failure {
            None => LinkModel { held: true, ..self },
            Some(why) => LinkModel { failure: Some(not_set(why)), ..self },
        }
    }

    /// After a start: the system proxy is tried only for a tunnel that is there, and if the
    /// settings say so.
    pub open spec fn started(
        self,
        tunnel_failure: Option<Seq<char>>,
        auto_proxy: bool,
        proxy_failure: Option<Seq<char>>,
    ) -> LinkModel {
        let settled = self.with_tunnel(tunnel_failure);
        if tunnel_failure is None && auto_proxy {
            settled.with_proxy(proxy_failure)
        } else {
            settled
        }
    }

    /// After the system proxy was to be cleared: it still counts as set here only where that
    /// failed.
    pub open spec fn cleared(self, failed: bool) -> LinkModel {
        LinkModel { held: self.held && failed, ..self }
    }

    /// After the end of a tunnel, with whether clearing the system proxy failed.
    pub open spec fn ended(self, failed: bool) -> LinkModel {
        LinkModel { tunnel: false, ..self.cleared(failed) }
    }
}

/// What is left of a start.
#[derive(Debug)]
pub struct Link {
    /// Whether there is a tunnel; its statistics are shown exactly then.
    pub tunnel: bool,
    /// Whether the system proxy was set here, and has to be cleared.
    pub held: bool,
    /// The last failure.
    pub failure: Option<String>,
}

impl View for Link {
    type V = LinkModel;

    open spec fn view(&self) -> LinkModel {
        LinkModel { tunnel: self.tunnel, held: self.held, failure: text_view(self.failure) }
    }
}

/// What is told where the tunnel is there and the system proxy could not be set.
pub fn proxy_not_set(why: &str) -> (r: String)
    ensures
        r@ == not_set(why@),
{
    text::join("隧道已建立，但设置系统代理失败: ", why)
}

/// Whether the system proxy has to be set after a start.
pub open spec fn sets_proxy(ready: bool, auto_proxy: bool) -> bool {
    ready && auto_proxy
}

/// Whether the system proxy counts as set here after a start.
pub open spec fn held_once_set(held: bool, tried: bool, failed: bool) -> bool {
    held || (tried && !failed)
}

/// Whether the system proxy has to be cleared at the end of a tunnel.
pub open spec fn clears_proxy(held: bool, stale: bool) -> bool {
    held || stale
}

/// Whether the system proxy still counts as set here after it was to be cleared.
pub open spec fn held_once_cleared(held: bool, failed: bool) -> bool {
    held && failed
}

/// Whether the system proxy has to be set after a start: there is a tunnel, and the settings say
/// so.
pub fn proxy_to_set(ready: bool, auto_proxy: bool) -> (r: bool)
    ensures
        r == (ready && auto_proxy),
        r == sets_proxy(ready, auto_proxy),
{
    ready && auto_proxy
}

/// Whether the system proxy counts as set here after a start: if it already did, or if it was
/// tried and did not fail.
pub fn held_after_setting(held: bool, tried: bool, failed: bool) -> (r: bool)
    ensures
        r == (held || (tried && !failed)),
        r == held_once_set(held, tried, failed),
{
    held || (tried && !failed)
}

impl Link {
    /// Takes in that there is a tunnel, or why there is none; says whether the system proxy is
    /// to be set now.
    pub fn tunnel_settled(&mut self, failure: Option<String>, auto_proxy: bool) -> (r: bool)
        ensures
            final(self)@ == old(self)@.with_tunnel(text_view(failure)),
            r == (failure is None && auto_proxy),
            r == sets_proxy(failure is None, auto_proxy),
    {
        let ready = failure.is_none();
        self.tunnel = ready;
        if let Some(why) = failure {
            self.failure = Some(why);
        }
        proxy_to_set(ready, auto_proxy)
    }

    /// Takes in that the system proxy was set, or why it was not.
    pub fn proxy_settled(&mut self, failure: Option<String>)
        ensures
            final(self)@ == old(self)@.with_proxy(text_view(failure)),
    {
        self.held = held_after_setting(self.held, true, failure.is_some());
        if let Some(why) = failure {
            self.failure = Some(proxy_not_set(why.as_str()));
        }
    }

    /// Takes in the end of the tunnel, with whether clearing the system proxy failed.
    pub fn end_settled(&mut self, failed: bool)
        ensures
            final(self)@ == old(self)@.ended(failed),
    {
        self.tunnel = false;
        self.held = held_after_clearing(self.held, failed);
    }
}

/// Whether the system proxy has to be cleared at the end of a tunnel: it was set here, or it
/// was left behind.
pub fn proxy_to_clear(held: bool, stale: bool) -> (r: bool)
    ensures
        r == (held || stale),
        r == clears_proxy(held, stale),
{
    held || stale
}

/// Whether the system proxy still counts as set here after it was to be cleared: if it was, and
/// clearing failed.
pub fn held_after_clearing(held: bool, failed: bool) -> (r: bool)
    ensures
        r == (held && failed),
        r == held_once_cleared(held, failed),
{
    held && failed
}

// ----- laws -----

/// The system proxy is only ever set for a tunnel that is there, where the settings say so, and
/// counts as set here from then on exactly if that did not fail.
pub proof fn law_proxy_is_set_for_a_tunnel_only(
    link: LinkModel,
    tunnel_failure: Option<Seq<char>>,
    auto_proxy: bool,
    proxy_failure: Option<Seq<char>>,
)
    requires
        !link.held,
    ensures
        link.started(tunnel_failure, auto_proxy, proxy_failure).held <==> tunnel_failure is None
            && auto_proxy && proxy_failure is None,
{
}

/// A tunnel stays where the system proxy could not be set, and the reason is told; where there is
/// no tunnel, the reason for that is told and the system proxy stays as it was.
pub proof fn law_tunnel_does_not_need_the_proxy(
    link: LinkModel,
    tunnel_failure: Option<Seq<char>>,
    auto_proxy: bool,
    proxy_failure: Option<Seq<char>>,
)
    ensures
        ({
            let after = link.started(tunnel_failure, auto_proxy, proxy_failure);
            &&& after.tunnel <==> tunnel_failure is None
            &&& tunnel_failure is Some ==> after.held == link.held && after.failure
                == tunnel_failure
            &&& tunnel_failure is None && auto_proxy && proxy_failure is Some ==> after.failure
                == Some(not_set(proxy_failure->0))
            &&& tunnel_failure is None && (!auto_proxy || proxy_failure is None)
                ==> after.failure == link.failure
        }),
{
}

/// A system proxy that was set here is cleared with the tunnel: it still counts as set here only
/// where clearing it failed, so that the next end tries again.
pub proof fn law_set_proxy_is_cleared_at_the_end(
    link: LinkModel,
    tunnel_failure: Option<Seq<char>>,
    auto_proxy: bool,
    proxy_failure: Option<Seq<char>>,
    failed: bool,
)
    ensures
        ({
            let up = link.started(tunnel_failure, auto_proxy, proxy_failure);
            let down = up.ended(failed);
            &&& !down.tunnel
            &&& down.held <==> up.held && failed
            &&& !down.ended(false).held
        }),
{
}

impl SessionModel {
    /// Whether the state is of one piece: there is a profile to use, and a profile counts as
    /// connected exactly while there is a connection or one being made, namely the one in use.
    pub open spec fn consistent(self) -> bool {
        &&& self.wf()
        &&& self.busy() <==> self.connected_profile_id is Some
        &&& self.busy() ==> self.connected_profile_id == Some(self.config.active_profile().id)
    }
}

/// Connecting and disconnecting keep the state of one piece.
pub proof fn law_connecting_keeps_consistency(s: SessionModel, key_file_exists: bool, now: u64)
    requires
        s.consistent(),
    ensures
        s.started(key_file_exists, now).consistent(),
        s.stopped().consistent(),
        s.stopped_if_busy().consistent(),
        !s.stopped_if_busy().busy(),
{
}

/// A look at the tunnel keeps the state of one piece, and so do new figures.
pub proof fn law_looking_keeps_consistency(
    s: SessionModel,
    failure: Option<Seq<char>>,
    present: Option<bool>,
    snap: SnapshotModel,
    now: u64,
)
    requires
        s.consistent(),
    ensures
        s.synced(failure, present, now).consistent(),
        s.refreshed(snap, now).consistent(),
        s.faded(now).consistent(),
{
}

/// What comes of saving, of making a key pair and of clearing the proxy keeps the state of one
/// piece.
pub proof fn law_outcomes_keep_consistency(
    s: SessionModel,
    failure: Option<Seq<char>>,
    made: Result<(Seq<char>, Seq<char>), Seq<char>>,
    now: u64,
)
    requires
        s.consistent(),
    ensures
        s.saved(failure, now).consistent(),
        s.cleared(failure, now).consistent(),
        s.settings_checked(now).consistent(),
        s.keyed(made, now).consistent(),
{
    if made is Ok {
        config::law_position_of_id(s.config.profiles, s.config.active_profile_id);
        config::lemma_same_ids(
            s.config.profiles,
            s.keyed(made, now).config.profiles,
            s.config.active_profile_id,
        );
    }
}

/// Changing the profiles keeps the state of one piece, and ends a connection.
pub proof fn law_changing_hosts_ends_the_connection(s: SessionModel, id: Seq<char>, now: u64)
    requires
        s.consistent(),
    ensures
        s.host_added(id, now).consistent(),
        s.host_copied(id, now).consistent(),
        s.host_removed(now).consistent(),
        !s.host_added(id, now).busy(),
        !s.host_copied(id, now).busy(),
        !s.host_removed(now).busy(),
{
    config::law_position_of_id(s.config.profiles, s.config.active_profile_id);
}

/// Another profile in use ends the connection; the one that is in use already does not.
pub proof fn law_switching_ends_the_connection(s: SessionModel, id: Seq<char>, now: u64)
    requires
        s.consistent(),
    ensures
        s.switched(id, now).consistent(),
        id != s.config.active_profile_id ==> !s.switched(id, now).busy(),
        id == s.config.active_profile_id ==> s.switched(id, now) == s,
        config::has_id(s.config.profiles, id) ==> s.switched(id, now).config.active_profile_id
            == id,
{
}

/// While there is a connection or one being made, the wish to connect changes nothing and
/// starts nothing.
pub proof fn law_one_connection_at_a_time(s: SessionModel, key_file_exists: bool, now: u64)
    requires
        s.busy(),
    ensures
        s.started(key_file_exists, now) == s,
        s.start_plan(key_file_exists) is None,
{
}

/// A tunnel is started exactly where the state comes to connecting.
pub proof fn law_started_means_connecting(s: SessionModel, key_file_exists: bool, now: u64)
    requires
        !s.busy(),
    ensures
        s.start_plan(key_file_exists) is Some <==> s.started(key_file_exists, now).state
            == ConnState::Connecting,
        s.start_plan(key_file_exists) is None <==> s.started(key_file_exists, now).state
            == ConnState::Error,
{
}

/// A connection counts as made only where the tunnel was seen while connecting, and no failure
/// was heard of.
pub proof fn law_connected_only_with_a_tunnel(
    s: SessionModel,
    failure: Option<Seq<char>>,
    present: Option<bool>,
    now: u64,
)
    requires
        s.state != ConnState::On,
        s.synced(failure, present, now).state == ConnState::On,
    ensures
        s.state == ConnState::Connecting,
        present == Some(true),
        failure is None,
{
}

/// Connecting ends in an error once it takes too long, and not before.
pub proof fn law_connecting_is_limited(s: SessionModel, since: u64, now: u64)
    requires
        s.state == ConnState::Connecting,
        s.connect_started_at == Some(since),
        since <= now,
    ensures
        s.synced(None, Some(false), now).state == ConnState::Error <==> now - since > CONNECT_LIMIT,
{
}

/// A note is gone once it was shown long enough, and stays until it was.
pub proof fn law_notes_fade(s: SessionModel, note: Seq<char>, at: u64, now: u64)
    requires
        at <= now,
    ensures
        s.noted(note, at).faded(now).toast is None <==> now - at >= TOAST_LIMIT,
        now - at < TOAST_LIMIT ==> s.noted(note, at).faded(now) == s.noted(note, at),
{
}

/// Whether the error is one of a port.
pub open spec fn is_port_error(e: ConfigError) -> bool {
    e == ConfigError::BadSshPort || e == ConfigError::BadLocalPort || e == ConfigError::SamePorts
}

proof fn lemma_without(s: Seq<char>)
    requires
        forall|i: int| 0 <= i < s.len() ==> s[i] != '端',
    ensures
        !text::contains(s, "端口"@),
{
    reveal_strlit("端口");
    assert forall|i: int| !text::occurs_at(s, "端口"@, i) by {
        if text::occurs_at(s, "端口"@, i) {
            assert(s.subrange(i, i + 2)[0] == '端');
            assert(s[i] == '端');
        }
    }
}

proof fn lemma_with(s: Seq<char>, i: int)
    requires
        0 <= i,
        i + 2 <= s.len(),
        s[i] == '端',
        s[i + 1] == '口',
    ensures
        text::contains(s, "端口"@),
{
    reveal_strlit("端口");
    assert(s.subrange(i, i + 2) =~= "端口"@);
    assert(text::occurs_at(s, "端口"@, i));
}

/// Where a tunnel cannot be started because of a port of this machine or the server's, the
/// settings are shown; for anything else, the hosts.
pub proof fn law_page_for_the_error(s: SessionModel, key_file_exists: bool, now: u64, e: ConfigError)
    requires
        !s.busy(),
        s.request(key_file_exists) == Err::<TunnelModel, ConfigError>(e),
    ensures
        s.started(key_file_exists, now).page == (if is_port_error(e) {
            Page::Settings
        } else {
            Page::Hosts
        }),
{
    reveal_strlit("请填写 SSH 主机地址");
    reveal_strlit("请填写用户名");
    reveal_strlit("SSH 端口无效");
    reveal_strlit("请填写密码（密码仅保存在内存，切换后需重填）");
    reveal_strlit("请选择私钥文件");
    reveal_strlit("私钥文件不存在");
    reveal_strlit("本地代理端口无效");
    reveal_strlit("SOCKS 与 HTTP 端口不能相同");
    reveal_strlit("至少保留一个主机");
    match e {
        ConfigError::BadSshPort => lemma_with(e.text(), 4),
        ConfigError::BadLocalPort => lemma_with(e.text(), 4),
        ConfigError::SamePorts => lemma_with(e.text(), 13),
        _ => lemma_without(e.text()),
    }
}

// ----- what starting and stopping do -----

/// What a tunnel is started with is what the profile in use and the settings hold: the server and
/// the login of the profile, the ports of the settings at this machine, and the server alone goes
/// around the proxy.
pub proof fn law_plan_carries_profile_and_settings(s: SessionModel, key_file_exists: bool)
    requires
        s.wf(),
    ensures
        s.start_plan(key_file_exists) matches Some(plan) ==> {
            let p = s.config.active_profile();
            let settings = s.config.settings;
            &&& plan.request.host == p.host
            &&& plan.request.port == p.port
            &&& plan.request.username == p.username
            &&& plan.request.auth_method == p.auth_method
            &&& plan.request.password == p.password
            &&& plan.request.private_key_path == p.private_key_path
            &&& plan.request.socks_port == settings.socks_port
            &&& plan.request.http_port == settings.http_port
            &&& plan.endpoints.http_host == "127.0.0.1"@
            &&& plan.endpoints.socks_host == "127.0.0.1"@
            &&& plan.endpoints.http_port == settings.http_port
            &&& plan.endpoints.socks_port == settings.socks_port
            &&& plan.bypass.len() == 1
            &&& plan.bypass[0] == trimmed(p.host)
            &&& plan.auto_proxy == settings.auto_set_system_proxy
        },
{
}

/// The wish to connect leaves the configuration as it is. Where a tunnel is started, everything
/// about the connection begins anew at that moment, for the profile in use; where none can be,
/// the reason is told.
pub proof fn law_connecting_begins_anew(s: SessionModel, key_file_exists: bool, now: u64)
    requires
        s.wf(),
        !s.busy(),
    ensures
        ({
            let after = s.started(key_file_exists, now);
            &&& after.config == s.config
            &&& after.toast == s.toast
            &&& after.show_password == s.show_password
            &&& s.request(key_file_exists) is Ok <==> s.start_plan(key_file_exists) is Some
            &&& s.start_plan(key_file_exists) is Some ==> {
                &&& after.state == ConnState::Connecting
                &&& after.page == s.page
                &&& after.connect_started_at == Some(now)
                &&& after.rate_prev_at == now
                &&& after.connected_profile_id == Some(s.config.active_profile().id)
                &&& after.up_rate == 0
                &&& after.down_rate == 0
                &&& after.cached_snap.bytes_up == 0
                &&& after.cached_snap.bytes_down == 0
                &&& after.cached_snap.active_conns == 0
                &&& after.cached_snap.total_conns == 0
                &&& after.cached_snap.failed_conns == 0
                &&& after.cached_snap.uptime_secs == 0
                &&& after.cached_snap.recent.len() == 0
                &&& after.rate_prev == after.cached_snap
                &&& text::contains(after.status_text, s.config.active_profile().label())
            }
            &&& s.request(key_file_exists) matches Err(e) ==> {
                &&& after.state == ConnState::Error
                &&& crate::keys::ends_with(after.status_text, e.text())
                &&& after == (SessionModel {
                    state: ConnState::Error,
                    status_text: after.status_text,
                    page: after.page,
                    ..s
                })
            }
        }),
{
    let label = s.config.active_profile().label();
    let start = "正在连接 "@;
    let status = start + label + "…"@;
    let n = start.len() as int;
    assert(status.subrange(n, n + label.len()) =~= label);
    assert(text::occurs_at(status, label, n));
    if let Err(e) = s.request(key_file_exists) {
        let told = "配置错误: "@ + e.text();
        assert(told.skip(told.len() - e.text().len()) =~= e.text());
    }
}

/// Disconnecting ends the connection and its rates; the configuration, the page, the figures and
/// any note stay.
pub proof fn law_disconnecting_keeps_all_else(s: SessionModel)
    ensures
        s.stopped().state == ConnState::Off,
        s.stopped().connected_profile_id is None,
        s.stopped().up_rate == 0,
        s.stopped().down_rate == 0,
        s.stopped().config == s.config,
        s.stopped().page == s.page,
        s.stopped().toast == s.toast,
        s.stopped().cached_snap == s.cached_snap,
        s.stopped().show_password == s.show_password,
        s.stopped().status_text == "已断开"@,
        s.stopped() == (SessionModel {
            state: ConnState::Off,
            status_text: s.stopped().status_text,
            connected_profile_id: None,
            up_rate: 0,
            down_rate: 0,
            ..s
        }),
        s.busy() ==> s.stopped_if_busy() == s.stopped(),
        !s.busy() ==> s.stopped_if_busy() == s,
{
}

/// Whether there is a connection or one being made is told by the state alone.
pub proof fn law_busy_means_connecting_or_connected(s: SessionModel)
    ensures
        s.busy() <==> s.state == ConnState::Connecting || s.state == ConnState::On,
        s.busy() <==> s.state != ConnState::Off && s.state != ConnState::Error,
{
}

// ----- what a look at the tunnel does -----

/// A tunnel that is seen while connecting makes the connection: the attempt is over, rates count
/// from that moment, and the status and a note name the host. The configuration stays.
pub proof fn law_seen_tunnel_makes_the_connection(s: SessionModel, now: u64)
    requires
        s.state == ConnState::Connecting,
    ensures
        ({
            let after = s.synced(None, Some(true), now);
            let label = s.config.active_profile().label();
            &&& after.state == ConnState::On
            &&& after.connect_started_at is None
            &&& after.connected_profile_id == s.connected_profile_id
            &&& after.rate_prev_at == now
            &&& after.config == s.config
            &&& after == (SessionModel {
                state: ConnState::On,
                connect_started_at: None,
                rate_prev_at: now,
                status_text: after.status_text,
                toast: after.toast,
                ..s
            })
            &&& text::contains(after.status_text, label)
            &&& crate::keys::ends_with(
                after.status_text,
                text::decimal(s.config.settings.socks_port as nat),
            )
            &&& text::contains(
                after.status_text,
                ":"@ + text::decimal(s.config.settings.http_port as nat) + " "@,
            )
            &&& after.toast matches Some(t) && t.at == now && crate::keys::ends_with(t.text, label)
        }),
{
    let label = s.config.active_profile().label();
    let http = text::decimal(s.config.settings.http_port as nat);
    let socks = text::decimal(s.config.settings.socks_port as nat);
    let start = "已连接 · "@;
    let status = start + label + " · HTTP :"@ + http + " / SOCKS :"@ + socks;
    reveal_strlit(" · HTTP :");
    reveal_strlit(" / SOCKS :");
    reveal_strlit(":");
    reveal_strlit(" ");
    let n = start.len() as int;
    assert(status.subrange(n, n + label.len()) =~= label);
    assert(text::occurs_at(status, label, n));
    assert(status.skip(status.len() - socks.len()) =~= socks);
    let part = ":"@ + http + " "@;
    let k = n + label.len() + 8;
    assert(status.subrange(k, k + part.len()) =~= part);
    assert(text::occurs_at(status, part, k));
    let note = "已连接 "@ + label;
    assert(note.skip(note.len() - label.len()) =~= label);
}

/// A tunnel that is gone while connected ends the connection; one that is there, or cannot be
/// looked at, leaves it; and without a connection nothing comes of a look.
pub proof fn law_gone_tunnel_ends_the_connection(s: SessionModel, present: Option<bool>, now: u64)
    ensures
        s.state == ConnState::On ==> {
            &&& s.synced(None, Some(false), now).state == ConnState::Off
            &&& s.synced(None, Some(false), now).connected_profile_id is None
            &&& s.synced(None, Some(false), now) == (SessionModel {
                state: ConnState::Off,
                status_text: "连接已结束"@,
                connected_profile_id: None,
                ..s
            })
            &&& s.synced(None, Some(true), now) == s
            &&& s.synced(None, None, now) == s
        },
        !s.busy() ==> s.synced(None, present, now) == s,
        s.state == ConnState::Connecting ==> s.synced(None, None, now) == s,
{
}

/// A failure that is heard of ends the attempt to connect and is told; while connected it is told
/// and nothing more, unless the tunnel is gone: then the connection ends as it does without it.
pub proof fn law_failure_ends_the_attempt(
    s: SessionModel,
    why: Seq<char>,
    present: Option<bool>,
    now: u64,
)
    ensures
        s.state == ConnState::Connecting ==> {
            let after = s.synced(Some(why), present, now);
            &&& after.state == ConnState::Error
            &&& crate::keys::ends_with(after.status_text, why)
            &&& after == (SessionModel {
                state: ConnState::Error,
                status_text: after.status_text,
                connected_profile_id: None,
                connect_started_at: None,
                ..s
            })
        },
        s.state == ConnState::On ==> s.synced(Some(why), Some(true), now) == (SessionModel {
            status_text: why,
            ..s
        }),
        s.state == ConnState::On ==> s.synced(Some(why), Some(false), now) == s.synced(
            None,
            Some(false),
            now,
        ) && s.synced(Some(why), Some(false), now).state == ConnState::Off,
        !s.busy() ==> s.synced(Some(why), present, now) == s,
{
    let told = "连接失败: "@ + why;
    assert(told.skip(told.len() - why.len()) =~= why);
}

/// Connecting is given up after forty-five seconds, and not before; then no profile counts as
/// connected.
pub proof fn law_connecting_is_given_up_after_45_seconds(s: SessionModel, since: u64, now: u64)
    requires
        s.state == ConnState::Connecting,
        s.connect_started_at == Some(since),
        since <= now,
    ensures
        now - since > 45_000_000_000 ==> {
            let after = s.synced(None, Some(false), now);
            &&& after.state == ConnState::Error
            &&& after == (SessionModel {
                state: ConnState::Error,
                status_text: "连接超时，请检查主机与认证信息"@,
                connected_profile_id: None,
                connect_started_at: None,
                ..s
            })
        },
        now - since <= 45_000_000_000 ==> s.synced(None, Some(false), now) == s,
{
}

/// A note is shown for 2.4 seconds, to within what single precision tells apart.
pub proof fn law_note_is_shown_for_its_time(s: SessionModel, note: Seq<char>, at: u64, now: u64)
    requires
        at <= now,
    ensures
        s.noted(note, at).toast matches Some(t) && t.text == note && t.at == at,
        s.noted(note, at) == (SessionModel { toast: s.noted(note, at).toast, ..s }),
        now - at >= 2_400_000_000 ==> s.noted(note, at).faded(now).toast is None,
        now - at <= 2_399_999_900 ==> s.noted(note, at).faded(now) == s.noted(note, at),
        s.faded(now) == (SessionModel { toast: s.faded(now).toast, ..s }),
{
}

// ----- figures -----

/// New figures are always shown. A rate is told once at least 0.4 seconds passed since the last,
/// for the bytes that went each way in between; then the next one counts from there.
pub proof fn law_rates_are_of_what_passed_in_between(s: SessionModel, snap: SnapshotModel, now: u64)
    requires
        s.rate_prev_at <= now,
        s.rate_prev.bytes_up <= snap.bytes_up,
        s.rate_prev.bytes_down <= snap.bytes_down,
    ensures
        s.refreshed(snap, now).cached_snap == snap,
        s.window(snap, now) is Some <==> now - s.rate_prev_at >= 400_000_000,
        s.window(snap, now) matches Some(w) ==> {
            &&& w.up == snap.bytes_up - s.rate_prev.bytes_up
            &&& w.down == snap.bytes_down - s.rate_prev.bytes_down
            &&& w.nanos == now - s.rate_prev_at
            &&& s.refreshed(snap, now).rate_prev == snap
            &&& s.refreshed(snap, now).rate_prev_at == now
        },
        s.window(snap, now) is None ==> s.refreshed(snap, now).rate_prev == s.rate_prev
            && s.refreshed(snap, now).rate_prev_at == s.rate_prev_at,
        s.refreshed(snap, now) == (SessionModel {
            cached_snap: snap,
            rate_prev: s.refreshed(snap, now).rate_prev,
            rate_prev_at: s.refreshed(snap, now).rate_prev_at,
            ..s
        }),
{
}

/// Figures that start again below those from before give no rate rather than a wrong one.
pub proof fn law_figures_that_start_again_give_no_rate(
    s: SessionModel,
    snap: SnapshotModel,
    now: u64,
)
    requires
        snap.bytes_up <= s.rate_prev.bytes_up,
        snap.bytes_down <= s.rate_prev.bytes_down,
    ensures
        s.window(snap, now) matches Some(w) ==> w.up == 0 && w.down == 0 && w.nanos > 0,
        now <= s.rate_prev_at ==> s.window(snap, now) is None,
{
}

// ----- hosts, keys and settings -----

/// Another profile is put to use by its identifier and its label is told; what no profile has is
/// not, and then nothing of the configuration changes.
pub proof fn law_switching_puts_the_profile_to_use(s: SessionModel, id: Seq<char>, now: u64)
    requires
        s.wf(),
        id != s.config.active_profile_id,
    ensures
        ({
            let after = s.switched(id, now);
            &&& after.config.profiles == s.config.profiles
            &&& after.config.settings == s.config.settings
            &&& config::has_id(s.config.profiles, id) ==> {
                &&& after.config.active_profile_id == id
                &&& after.config.active_profile().id == id
                &&& crate::keys::ends_with(
                    after.status_text,
                    after.config.active_profile().label(),
                )
            }
            &&& !config::has_id(s.config.profiles, id) ==> after.config == s.config
            &&& !s.busy() ==> after.toast == s.toast
            &&& s.busy() ==> after.toast is Some && after.toast->0.at == now
            &&& after == (SessionModel {
                config: after.config,
                status_text: after.status_text,
                toast: after.toast,
                ..s.stopped_if_busy()
            })
        }),
{
    if config::has_id(s.config.profiles, id) {
        config::law_set_active_is_seen(s.config, id);
        let label = s.config.with_active(id).active_profile().label();
        let told = "已切换到 "@ + label;
        assert(told.skip(told.len() - label.len()) =~= label);
    }
}

/// Adding, copying and removing a host changes the configuration as the configuration says, and
/// tells so; the last host stays, and the reason is told.
pub proof fn law_hosts_change_as_the_configuration_says(s: SessionModel, id: Seq<char>, now: u64)
    ensures
        s.host_added(id, now).config == s.config.with_new_profile(id),
        s.host_copied(id, now).config == s.config.with_duplicate(id),
        s.config.profiles.len() > 1 ==> s.host_removed(now).config == s.config.without_active(),
        s.config.profiles.len() <= 1 ==> s.host_removed(now).config == s.config
            && s.host_removed(now).toast == Some(
            ToastModel { text: "至少保留一个主机"@, at: now },
        ),
        s.host_added(id, now).toast matches Some(t) && t.at == now,
        s.host_copied(id, now).toast matches Some(t) && t.at == now,
        s.host_removed(now).toast matches Some(t) && t.at == now,
        ({
            let ended = s.stopped_if_busy();
            let added = s.host_added(id, now);
            let copied = s.host_copied(id, now);
            let removed = s.host_removed(now);
            &&& added == (SessionModel { config: added.config, toast: added.toast, ..ended })
            &&& copied == (SessionModel { config: copied.config, toast: copied.toast, ..ended })
            &&& removed == (SessionModel { config: removed.config, toast: removed.toast, ..ended })
        }),
{
}

/// A key pair that was made is what the profile in use logs in with from then on; nothing else of
/// it changes, nor any other profile. One that was not made changes nothing, and the reason is
/// told.
pub proof fn law_new_key_belongs_to_the_profile_in_use(
    s: SessionModel,
    path: Seq<char>,
    shown: Seq<char>,
    why: Seq<char>,
    now: u64,
    i: int,
)
    requires
        s.wf(),
        0 <= i < s.config.profiles.len(),
    ensures
        ({
            let after = s.keyed(Ok((path, shown)), now);
            let k = s.config.active_index();
            let p = after.config.profiles[k];
            let q = s.config.profiles[k];
            &&& after.config.profiles.len() == s.config.profiles.len()
            &&& i != k ==> after.config.profiles[i] == s.config.profiles[i]
            &&& p.private_key_path == path
            &&& p.auth_method == AuthMethod::PrivateKey
            &&& p.id == q.id
            &&& p.name == q.name
            &&& p.host == q.host
            &&& p.port == q.port
            &&& p.username == q.username
            &&& p.password == q.password
            &&& after.config.active_profile_id == s.config.active_profile_id
            &&& after.config.settings == s.config.settings
            &&& after == (SessionModel { toast: after.toast, config: after.config, ..s })
            &&& after.toast matches Some(t) && t.at == now && crate::keys::ends_with(t.text, shown)
        }),
        ({
            let after = s.keyed(Err(why), now);
            &&& after.config == s.config
            &&& after == (SessionModel { toast: after.toast, ..s })
            &&& after.toast matches Some(t) && t.at == now && crate::keys::ends_with(t.text, why)
        }),
{
    config::law_profile_in_use(s.config);
    let made = "已生成密钥对："@ + shown;
    assert(made.skip(made.len() - shown.len()) =~= shown);
    let failed = "生成失败: "@ + why;
    assert(failed.skip(failed.len() - why.len()) =~= why);
}

/// The comment in a key is the user and the host of the profile in use, without white space around
/// them; the user alone where there is no host, and the name of the program where there is no
/// user. It is never blank.
pub proof fn law_key_comment_names_user_and_host(s: SessionModel)
    ensures
        ({
            let user = trimmed(s.config.active_profile().username);
            let host = trimmed(s.config.active_profile().host);
            let c = s.key_comment();
            &&& user.len() > 0 && host.len() > 0 ==> {
                &&& text::starts_with(c, user)
                &&& c[user.len() as int] == '@'
                &&& c.skip(user.len() + 1int) == host
            }
            &&& user.len() > 0 && host.len() == 0 ==> c == user
            &&& user.len() == 0 ==> c == "sway"@
            &&& !blank(c)
        }),
{
    let p = s.config.active_profile();
    let user = trimmed(p.username);
    let host = trimmed(p.host);
    let c = s.key_comment();
    reveal_strlit("@");
    reveal_strlit("sway");
    text::law_trimmed_has_no_outer_white_space(p.username);
    if user.len() > 0 && host.len() > 0 {
        assert(c.subrange(0, user.len() as int) =~= user);
        assert(c.skip(user.len() + 1int) =~= host);
    }
    text::lemma_not_blank(c, 0);
}

/// The stations show the ports of the settings, and the user, the host and the port of the profile
/// in use where it has a user and a host.
pub proof fn law_stations_show_ports_and_server(s: SessionModel)
    ensures
        ({
            let p = s.config.active_profile();
            let user = trimmed(p.username);
            let host = trimmed(p.host);
            let nodes = s.path_nodes();
            &&& nodes.len() == 4
            &&& text::starts_with(
                nodes[1],
                "HTTP:"@ + text::decimal(s.config.settings.http_port as nat) + " "@,
            )
            &&& crate::keys::ends_with(
                nodes[1],
                " SOCKS:"@ + text::decimal(s.config.settings.socks_port as nat),
            )
            &&& user.len() > 0 && host.len() > 0 ==> {
                &&& text::starts_with(nodes[2], user)
                &&& nodes[2][user.len() as int] == '@'
                &&& nodes[2].skip(user.len() + 1int) == text::address(host, p.port)
            }
            &&& user.len() == 0 || host.len() == 0 ==> nodes[2] == "SSH"@
        }),
{
    let p = s.config.active_profile();
    let user = trimmed(p.username);
    let host = trimmed(p.host);
    let http = text::decimal(s.config.settings.http_port as nat);
    let socks = text::decimal(s.config.settings.socks_port as nat);
    let ports = "HTTP:"@ + http + " / SOCKS:"@ + socks;
    reveal_strlit("HTTP:");
    reveal_strlit(" / SOCKS:");
    reveal_strlit(" SOCKS:");
    reveal_strlit(" ");
    reveal_strlit("@");
    let first = "HTTP:"@ + http + " "@;
    assert(ports.subrange(0, first.len() as int) =~= first);
    let last = " SOCKS:"@ + socks;
    assert(ports.skip(ports.len() - last.len()) =~= last);
    let node = user + "@"@ + text::address(host, p.port);
    assert(node.subrange(0, user.len() as int) =~= user);
    assert(node.skip(user.len() + 1int) =~= text::address(host, p.port));
}

/// The choice of whether the system is made to use the proxy changes to the other and back, and
/// nothing else changes.
pub proof fn law_toggling_twice_changes_nothing(s: SessionModel)
    ensures
        s.toggled().config.settings.auto_set_system_proxy
            == !s.config.settings.auto_set_system_proxy,
        s.toggled().config.settings.http_port == s.config.settings.http_port,
        s.toggled().config.settings.socks_port == s.config.settings.socks_port,
        s.toggled().config.profiles == s.config.profiles,
        s.toggled() == (SessionModel { config: s.toggled().config, ..s }),
        s.toggled().config.active_profile_id == s.config.active_profile_id,
        s.toggled().toggled() == s,
{
}

/// Settings are taken exactly where both ports are there and differ; otherwise the reason is told,
/// and nothing else changes.
pub proof fn law_settings_are_checked(s: SessionModel, now: u64)
    ensures
        ({
            let settings = s.config.settings;
            let usable = settings.http_port > 0 && settings.socks_port > 0 && settings.http_port
                != settings.socks_port;
            &&& settings.problem() is None <==> usable
            &&& usable ==> s.settings_checked(now) == s
            &&& !usable ==> s.settings_checked(now).config == s.config && s.settings_checked(
                now,
            ).toast is Some && s.settings_checked(now).toast->0.at == now
                && crate::keys::ends_with(
                s.settings_checked(now).toast->0.text,
                settings.problem()->0.text(),
            )
        }),
{
    if let Some(e) = s.config.settings.problem() {
        let told = "设置无效: "@ + e.text();
        assert(told.skip(told.len() - e.text().len()) =~= e.text());
    }
}

/// What comes of saving and of clearing the proxy by hand is told, with the reason where it
/// failed; the configuration and the connection stay.
pub proof fn law_outcomes_are_told(s: SessionModel, why: Seq<char>, now: u64)
    ensures
        s.saved(None, now).toast matches Some(t) && t.at == now,
        s.saved(Some(why), now).toast matches Some(t) && t.at == now && crate::keys::ends_with(
            t.text,
            why,
        ) && s.saved(Some(why), now).status_text == t.text,
        s.saved(None, now).status_text == s.status_text,
        s.saved(None, now) == (SessionModel { toast: s.saved(None, now).toast, ..s }),
        s.saved(Some(why), now) == (SessionModel {
            toast: s.saved(Some(why), now).toast,
            status_text: s.saved(Some(why), now).status_text,
            ..s
        }),
        s.cleared(None, now).toast matches Some(t) && t.at == now,
        s.cleared(Some(why), now).toast matches Some(t) && t.at == now && crate::keys::ends_with(
            t.text,
            why,
        ),
        s.cleared(None, now).toast != s.cleared(Some(why), now).toast,
        s.cleared(None, now) == (SessionModel { toast: s.cleared(None, now).toast, ..s }),
        s.cleared(Some(why), now) == (SessionModel { toast: s.cleared(Some(why), now).toast, ..s }),
{
    let a = "保存失败: "@ + why;
    assert(a.skip(a.len() - why.len()) =~= why);
    let b = "清除失败: "@ + why;
    assert(b.skip(b.len() - why.len()) =~= why);
    reveal_strlit("清除失败: ");
    reveal_strlit("已清除系统代理与相关环境变量");
    assert(b[0] == '清');
    assert("已清除系统代理与相关环境变量"@[0] == '已');
    assert(b != "已清除系统代理与相关环境变量"@);
}

/// What is told of a tunnel whose system proxy could not be set ends with the reason.
pub proof fn law_unset_proxy_is_told_with_its_reason(why: Seq<char>)
    ensures
        crate::keys::ends_with(not_set(why), why),
        not_set(why).len() > why.len(),
{
    reveal_strlit("隧道已建立，但设置系统代理失败: ");
    assert(not_set(why).skip(not_set(why).len() - why.len()) =~= why);
}

/// At the start nothing is connected and nothing was counted; the configuration is the given one,
/// and the status says whether a proxy that was left behind was cleared.
pub proof fn law_nothing_is_connected_at_the_start(config: ConfigModel, cleared: bool, now: u64)
    ensures
        ({
            let s = initial_session(config, cleared, now);
            &&& s.config == config
            &&& s.page == Page::Connect
            &&& s.state == ConnState::Off
            &&& !s.busy()
            &&& s.connected_profile_id is None
            &&& s.connect_started_at is None
            &&& s.toast is None
            &&& !s.show_password
            &&& s.up_rate == 0
            &&& s.down_rate == 0
            &&& s.rate_prev_at == now
            &&& s.rate_prev == s.cached_snap
            &&& s.cached_snap.bytes_up == 0
            &&& s.cached_snap.bytes_down == 0
            &&& s.cached_snap.active_conns == 0
            &&& s.cached_snap.total_conns == 0
            &&& s.cached_snap.failed_conns == 0
            &&& s.cached_snap.recent.len() == 0
            &&& s.status_text == "未连接"@ <==> !cleared
        }),
{
    reveal_strlit("未连接");
    reveal_strlit("已清除上次残留的系统代理");
    assert("未连接"@.len() != "已清除上次残留的系统代理"@.len());
}

/// New rates are those that are given, each way its own; nothing else changes.
pub proof fn law_rates_are_taken_as_they_are(s: SessionModel, up: i128, down: i128)
    ensures
        s.with_rates(up, down).up_rate == up,
        s.with_rates(up, down).down_rate == down,
        s.with_rates(up, down).with_rates(s.up_rate, s.down_rate) == s,
{
}

/// Saving and connecting does what saving and then connecting does, on the page for connecting:
/// also where saving failed, a tunnel is started.
pub proof fn law_saving_does_not_stop_connecting(
    s: SessionModel,
    failure: Option<Seq<char>>,
    key_file_exists: bool,
    now: u64,
)
    requires
        s.wf(),
    ensures
        ({
            let before = s.saved_to_connect(failure, now);
            let after = before.started(key_file_exists, now);
            &&& before.page == Page::Connect
            &&& before.config == s.config
            &&& before.state == s.state
            &&& before.start_plan(key_file_exists) == s.start_plan(key_file_exists)
            &&& after.toast is Some && after.toast->0.at == now
            &&& s.start_plan(key_file_exists) is Some ==> after.page == Page::Connect && after.state
                == ConnState::Connecting
            &&& s.busy() ==> after == before
        }),
{
}

/// The system proxy is set only for a tunnel that is there and where the settings say so, and is
/// cleared wherever it was set here or left behind. It counts as set here once it was set, and no
/// longer once it was cleared.
pub proof fn law_proxy_is_set_and_cleared_in_turn(
    link: LinkModel,
    tunnel_failure: Option<Seq<char>>,
    auto_proxy: bool,
    proxy_failure: Option<Seq<char>>,
    stale: bool,
    failed: bool,
)
    ensures
        ({
            let sets = sets_proxy(tunnel_failure is None, auto_proxy);
            let up = link.started(tunnel_failure, auto_proxy, proxy_failure);
            &&& sets ==> tunnel_failure is None
            &&& sets ==> auto_proxy
            &&& tunnel_failure is None && auto_proxy ==> sets
            &&& up.held == held_once_set(link.held, sets, proxy_failure is Some)
            &&& link.held ==> up.held
            &&& up.held && !link.held ==> sets && proxy_failure is None
            &&& up.held ==> clears_proxy(up.held, stale)
            &&& stale ==> clears_proxy(up.held, stale)
            &&& !up.held && !stale ==> !clears_proxy(up.held, stale)
            &&& up.ended(failed).held == held_once_cleared(up.held, failed)
            &&& !held_once_cleared(up.held, false)
            &&& up.held ==> held_once_cleared(up.held, true)
            &&& held_once_cleared(up.held, failed) ==> up.held
            &&& up.ended(failed).failure == up.failure
        }),
{
}

} // verus!
