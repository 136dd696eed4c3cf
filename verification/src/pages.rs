//! What the pages of the window show.
use vstd::prelude::*;
use vstd::string::StringExecFns;

use crate::config::{AuthMethod, ProfileModel};
use crate::session::{ConnState, ProxyApp, SessionModel};
use crate::stats;
use crate::stats::{FlowModel, SnapshotModel};
use crate::text;
use crate::text::views;

verus! {

// ----- on every page -----

/// The word for a state.
pub open spec fn state_word(state: ConnState) -> Seq<char> {
    match state {
        ConnState::Off => "未连接"@,
        ConnState::Connecting => "连接中"@,
        ConnState::On => "已连接"@,
        ConnState::Error => "错误"@,
    }
}

/// The word for a state.
pub fn state_label(state: ConnState) -> (r: &'static str)
    ensures
        r@ == state_word(state),
{
    match state {
        ConnState::Off => "未连接",
        ConnState::Connecting => "连接中",
        ConnState::On => "已连接",
        ConnState::Error => "错误",
    }
}

// ----- the page for connecting -----

/// A profile to choose.
#[derive(Debug)]
pub struct Choice {
    pub id: String,
    pub label: String,
    pub selected: bool,
}

/// A profile to choose, as plain text.
#[verifier::ext_equal]
pub struct ChoiceModel {
    pub id: Seq<char>,
    pub label: Seq<char>,
    pub selected: bool,
}

impl View for Choice {
    type V = ChoiceModel;

    open spec fn view(&self) -> ChoiceModel {
        ChoiceModel { id: self.id@, label: self.label@, selected: self.selected }
    }
}

/// The views of a list of choices.
pub open spec fn choice_views(v: Seq<Choice>) -> Seq<ChoiceModel> {
    v.map_values(|c: Choice| c@)
}

/// A figure with its title.
#[derive(Debug)]
pub struct Metric {
    pub title: String,
    pub value: String,
}

/// A figure with its title, as plain text.
#[verifier::ext_equal]
pub struct MetricModel {
    pub title: Seq<char>,
    pub value: Seq<char>,
}

impl View for Metric {
    type V = MetricModel;

    open spec fn view(&self) -> MetricModel {
        MetricModel { title: self.title@, value: self.value@ }
    }
}

/// A row of the list of recent flows.
#[derive(Debug)]
pub struct FlowRow {
    pub age: String,
    pub proto: String,
    pub target: String,
}

/// A row of the list of recent flows, as plain text.
#[verifier::ext_equal]
pub struct RowModel {
    pub age: Seq<char>,
    pub proto: Seq<char>,
    pub target: Seq<char>,
}

impl View for FlowRow {
    type V = RowModel;

    open spec fn view(&self) -> RowModel {
        RowModel { age: self.age@, proto: self.proto@, target: self.target@ }
    }
}

/// What the page for connecting shows.
#[derive(Debug)]
pub struct ConnectPage {
    /// The profiles, by how they are labelled.
    pub hosts: Vec<Choice>,
    /// The profile in use.
    pub current: String,
    /// Whether a password is asked for.
    pub asks_password: bool,
    /// What stands on the switch.
    pub switch_label: &'static str,
    /// Whether pressing the switch disconnects.
    pub switch_on: bool,
    /// Whether the switch can be pressed.
    pub switch_enabled: bool,
    /// Where the proxy listens.
    pub addresses: String,
    /// The stations from this machine to the target.
    pub path: Vec<String>,
    /// Whether they are connected.
    pub path_active: bool,
    pub metrics: Vec<Metric>,
    pub uptime: String,
    /// What is shown in place of the recent flows, where there are none.
    pub note: Option<&'static str>,
    pub rows: Vec<FlowRow>,
}

/// What the page for connecting shows, as plain text.
#[verifier::ext_equal]
pub struct ConnectModel {
    pub hosts: Seq<ChoiceModel>,
    pub current: Seq<char>,
    pub asks_password: bool,
    pub switch_label: Seq<char>,
    pub switch_on: bool,
    pub switch_enabled: bool,
    pub addresses: Seq<char>,
    pub path: Seq<Seq<char>>,
    pub path_active: bool,
    pub metrics: Seq<MetricModel>,
    pub uptime: Seq<char>,
    pub note: Option<Seq<char>>,
    pub rows: Seq<RowModel>,
}

impl View for ConnectPage {
    type V = ConnectModel;

    open spec fn view(&self) -> ConnectModel {
        ConnectModel {
            hosts: choice_views(self.hosts@),
            current: self.current@,
            asks_password: self.asks_password,
            switch_label: self.switch_label@,
            switch_on: self.switch_on,
            switch_enabled: self.switch_enabled,
            addresses: self.addresses@,
            path: views(self.path@),
            path_active: self.path_active,
            metrics: self.metrics@.map_values(|m: Metric| m@),
            uptime: self.uptime@,
            note: match self.note {
                Some(n) => Some(n@),
                None => None,
            },
            rows: self.rows@.map_values(|r: FlowRow| r@),
        }
    }
}

/// The choice for a profile, by its label.
pub open spec fn labelled(p: ProfileModel, active: Seq<char>) -> ChoiceModel {
    ChoiceModel { id: p.id, label: p.label(), selected: p.id == active }
}

/// The label of the profile in use, where there is one.
pub open spec fn current_label(s: SessionModel) -> Seq<char> {
    match crate::config::position_of_id(s.config.profiles, s.config.active_profile_id) {
        Some(i) => s.config.profiles[i].label(),
        None => "未选择"@,
    }
}

/// What stands on the switch.
pub open spec fn switch_word(state: ConnState) -> Seq<char> {
    match state {
        ConnState::On => "已连接"@,
        ConnState::Connecting => "连接中"@,
        _ => "连接"@,
    }
}

/// Where the proxy listens.
pub open spec fn addresses_text(http_port: u16, socks_port: u16) -> Seq<char> {
    "本地  HTTP "@ + text::address("127.0.0.1"@, http_port) + "  ·  SOCKS "@ + text::address(
        "127.0.0.1"@,
        socks_port,
    )
}

/// An amount, and its rate below it.
pub open spec fn amount_and_rate(amount: u64, rate: i128) -> Seq<char> {
    stats::bytes_text(amount) + "\n"@ + stats::rate_text(rate)
}

/// The numbers of connections.
pub open spec fn connection_counts(snap: SnapshotModel) -> Seq<char> {
    "活跃 "@ + text::decimal(snap.active_conns as nat) + "\n累计 "@ + text::decimal(
        snap.total_conns as nat,
    ) + " / 失败 "@ + text::decimal(snap.failed_conns as nat)
}

/// The figures of the traffic.
pub open spec fn metrics_of(s: SessionModel) -> Seq<MetricModel> {
    let snap = s.cached_snap;
    seq![
        MetricModel { title: "上行"@, value: amount_and_rate(snap.bytes_up, s.up_rate) },
        MetricModel { title: "下行"@, value: amount_and_rate(snap.bytes_down, s.down_rate) },
        MetricModel {
            title: "合计"@,
            value: stats::bytes_text(snap.bytes_up.saturating_add(snap.bytes_down)),
        },
        MetricModel { title: "连接"@, value: connection_counts(snap) },
    ]
}

/// The row for a flow.
pub open spec fn row_of(flow: FlowModel, now: u64) -> RowModel {
    RowModel {
        age: stats::age_text(stats::seconds_between(flow.at, now)),
        proto: "["@ + flow.proto + "]"@,
        target: flow.target,
    }
}

/// What the page for connecting shows.
pub open spec fn connect_page_of(s: SessionModel, now: u64) -> ConnectModel {
    ConnectModel {
        hosts: s.config.profiles.map_values(
            |p: ProfileModel| labelled(p, s.config.active_profile_id),
        ),
        current: current_label(s),
        asks_password: s.config.active_profile().auth_method == AuthMethod::Password,
        switch_label: switch_word(s.state),
        switch_on: s.busy(),
        switch_enabled: s.state != ConnState::Connecting,
        addresses: addresses_text(s.config.settings.http_port, s.config.settings.socks_port),
        path: s.path_nodes(),
        path_active: s.state == ConnState::On,
        metrics: metrics_of(s),
        uptime: if s.state == ConnState::On {
            stats::duration_text(s.cached_snap.uptime_secs)
        } else {
            "--:--"@
        },
        note: if s.cached_snap.recent.len() > 0 {
            None
        } else if s.state == ConnState::On {
            Some("暂无流量，打开浏览器或使用 curl 试试"@)
        } else {
            Some("连接后将显示经过代理的目标地址"@)
        },
        rows: s.cached_snap.recent.map_values(|f: FlowModel| row_of(f, now)),
    }
}

fn labelled_hosts(app: &ProxyApp) -> (r: Vec<Choice>)
    ensures
        choice_views(r@) == app@.config.profiles.map_values(
            |p: ProfileModel| labelled(p, app@.config.active_profile_id),
        ),
{
    let mut out: Vec<Choice> = Vec::new();
    let mut i: usize = 0;
    while i < app.config.profiles.len()
        invariant
            i <= app.config.profiles@.len(),
            out@.len() == i,
            forall|k: int|
                0 <= k < i ==> (#[trigger] out@[k])@ == labelled(
                    app.config.profiles@[k]@,
                    app@.config.active_profile_id,
                ),
        decreases app.config.profiles@.len() - i,
    {
        let p = &app.config.profiles[i];
        out.push(
            Choice {
                id: p.id.clone(),
                label: p.display_label(),
                selected: text::same_text(p.id.as_str(), app.config.active_profile_id.as_str()),
            },
        );
        i = i + 1;
    }
    assert(choice_views(out@) =~= app@.config.profiles.map_values(
        |p: ProfileModel| labelled(p, app@.config.active_profile_id),
    ));
    out
}

fn current_of(app: &ProxyApp, hosts: &Vec<Choice>) -> (r: String)
    requires
        choice_views(hosts@) == app@.config.profiles.map_values(
            |p: ProfileModel| labelled(p, app@.config.active_profile_id),
        ),
    ensures
        r@ == current_label(app@),
{
    let ghost profiles = app@.config.profiles;
    let ghost active = app@.config.active_profile_id;
    let ghost all = profiles.map_values(|p: ProfileModel| labelled(p, active));
    assert(choice_views(hosts@).len() == profiles.len());
    let mut i: usize = 0;
    while i < hosts.len()
        invariant
            i <= hosts@.len(),
            hosts@.len() == profiles.len(),
            profiles == app@.config.profiles,
            active == app@.config.active_profile_id,
            all == profiles.map_values(|p: ProfileModel| labelled(p, active)),
            choice_views(hosts@) == all,
            forall|k: int| 0 <= k < i ==> (#[trigger] profiles[k]).id != active,
        decreases hosts@.len() - i,
    {
        assert(choice_views(hosts@)[i as int] == hosts@[i as int]@);
        assert(all[i as int] == labelled(profiles[i as int], active));
        if hosts[i].selected {
            proof {
                crate::config::lemma_position_of_id(profiles, active, i as int);
            }
            return hosts[i].label.clone();
        }
        i = i + 1;
    }
    proof {
        crate::config::lemma_position_of_id(profiles, active, i as int);
    }
    "未选择".to_owned()
}

fn amount_and_rate_text(amount: u64, rate: i128) -> (r: String)
    ensures
        r@ == amount_and_rate(amount, rate),
{
    let mut out = text::join(stats::format_bytes(amount).as_str(), "\n");
    out.append(stats::format_rate(rate).as_str());
    out
}

fn metric(title: &str, value: String) -> (r: Metric)
    ensures
        r@ == (MetricModel { title: title@, value: value@ }),
{
    Metric { title: title.to_owned(), value }
}

fn metrics(app: &ProxyApp) -> (r: Vec<Metric>)
    ensures
        r@.map_values(|m: Metric| m@) == metrics_of(app@),
{
    let snap = &app.cached_snap;
    let mut counts = text::join("活跃 ", text::decimal_string(snap.active_conns as u128).as_str());
    counts.append("\n累计 ");
    counts.append(text::decimal_string(snap.total_conns as u128).as_str());
    counts.append(" / 失败 ");
    counts.append(text::decimal_string(snap.failed_conns as u128).as_str());
    let r: Vec<Metric> = vec![
        metric("上行", amount_and_rate_text(snap.bytes_up, app.up_rate)),
        metric("下行", amount_and_rate_text(snap.bytes_down, app.down_rate)),
        metric("合计", stats::format_bytes(snap.bytes_up.saturating_add(snap.bytes_down))),
        metric("连接", counts),
    ];
    assert(r@.map_values(|m: Metric| m@) =~= metrics_of(app@));
    r
}

fn rows(app: &ProxyApp, now: u64) -> (r: Vec<FlowRow>)
    ensures
        r@.map_values(|w: FlowRow| w@) == app@.cached_snap.recent.map_values(
            |f: FlowModel| row_of(f, now),
        ),
{
    let recent = &app.cached_snap.recent;
    let mut out: Vec<FlowRow> = Vec::new();
    let mut i: usize = 0;
    while i < recent.len()
        invariant
            i <= recent@.len(),
            out@.len() == i,
            forall|k: int| 0 <= k < i ==> (#[trigger] out@[k])@ == row_of(recent@[k]@, now),
        decreases recent@.len() - i,
    {
        let flow = &recent[i];
        let mut proto = text::join("[", flow.proto.as_str());
        proto.append("]");
        out.push(
            FlowRow {
                age: stats::format_age(stats::elapsed_seconds(flow.at, now)),
                proto,
                target: flow.target.clone(),
            },
        );
        i = i + 1;
    }
    assert(out@.map_values(|w: FlowRow| w@) =~= app@.cached_snap.recent.map_values(
        |f: FlowModel| row_of(f, now),
    ));
    out
}

/// What the page for connecting shows at the given reading of the clock.
pub fn connect_page(app: &ProxyApp, now: u64) -> (r: ConnectPage)
    requires
        app@.wf(),
    ensures
        r@ == connect_page_of(app@, now),
{
    let hosts = labelled_hosts(app);
    let current = current_of(app, &hosts);
    let asks_password = match app.config.active_profile().auth_method {
        AuthMethod::Password => true,
        AuthMethod::PrivateKey => false,
    };
    let switch_label = match app.state {
        ConnState::On => "已连接",
        ConnState::Connecting => "连接中",
        _ => "连接",
    };
    let settings = app.config.settings;
    let mut addresses = text::join(
        "本地  HTTP ",
        text::address_string("127.0.0.1", settings.http_port).as_str(),
    );
    addresses.append("  ·  SOCKS ");
    addresses.append(text::address_string("127.0.0.1", settings.socks_port).as_str());
    let on = app.state == ConnState::On;
    let uptime = if on {
        stats::format_duration(app.cached_snap.uptime_secs)
    } else {
        "--:--".to_owned()
    };
    let note = if app.cached_snap.recent.len() > 0 {
        None
    } else if on {
        Some("暂无流量，打开浏览器或使用 curl 试试")
    } else {
        Some("连接后将显示经过代理的目标地址")
    };
    let connecting = app.state == ConnState::Connecting;
    ConnectPage {
        hosts,
        current,
        asks_password,
        switch_label,
        switch_on: app.is_busy(),
        switch_enabled: !connecting,
        addresses,
        path: app.path_nodes(),
        path_active: on,
        metrics: metrics(app),
        uptime,
        note,
        rows: rows(app, now),
    }
}

// ----- the page for the hosts -----

/// What the page for the hosts shows.
#[derive(Debug)]
pub struct HostsPage {
    /// The profiles, by their titles.
    pub hosts: Vec<Choice>,
    /// Whether saving and connecting is offered.
    pub can_connect: bool,
    /// Whether the profile in use is connected, so that changes count only later.
    pub in_use: bool,
    /// Whether a password is asked for, rather than a key file.
    pub asks_password: bool,
}

/// What the page for the hosts shows, as plain text.
#[verifier::ext_equal]
pub struct HostsModel {
    pub hosts: Seq<ChoiceModel>,
    pub can_connect: bool,
    pub in_use: bool,
    pub asks_password: bool,
}

impl View for HostsPage {
    type V = HostsModel;

    open spec fn view(&self) -> HostsModel {
        HostsModel {
            hosts: choice_views(self.hosts@),
            can_connect: self.can_connect,
            in_use: self.in_use,
            asks_password: self.asks_password,
        }
    }
}

/// The choice for a profile, by its title; a dot marks the one that is connected.
pub open spec fn titled(p: ProfileModel, s: SessionModel) -> ChoiceModel {
    ChoiceModel {
        id: p.id,
        label: if s.state == ConnState::On && s.connected_profile_id == Some(p.id) {
            "● "@ + p.title()
        } else {
            p.title()
        },
        selected: p.id == s.config.active_profile_id,
    }
}

/// What the page for the hosts shows.
pub open spec fn hosts_page_of(s: SessionModel) -> HostsModel {
    HostsModel {
        hosts: s.config.profiles.map_values(|p: ProfileModel| titled(p, s)),
        can_connect: !s.busy(),
        in_use: s.busy() && s.connected_profile_id == Some(s.config.active_profile_id),
        asks_password: s.config.active_profile().auth_method == AuthMethod::Password,
    }
}

fn is_connected_id(app: &ProxyApp, id: &str) -> (r: bool)
    ensures
        r == (app@.connected_profile_id == Some(id@)),
{
    match &app.connected_profile_id {
        Some(c) => text::same_text(c.as_str(), id),
        None => false,
    }
}

fn titled_hosts(app: &ProxyApp) -> (r: Vec<Choice>)
    ensures
        choice_views(r@) == app@.config.profiles.map_values(|p: ProfileModel| titled(p, app@)),
{
    let mut out: Vec<Choice> = Vec::new();
    let mut i: usize = 0;
    while i < app.config.profiles.len()
        invariant
            i <= app.config.profiles@.len(),
            out@.len() == i,
            forall|k: int|
                0 <= k < i ==> (#[trigger] out@[k])@ == titled(app.config.profiles@[k]@, app@),
        decreases app.config.profiles@.len() - i,
    {
        let p = &app.config.profiles[i];
        let title = p.list_title();
        let label = if app.state == ConnState::On && is_connected_id(app, p.id.as_str()) {
            text::join("● ", title.as_str())
        } else {
            title
        };
        out.push(
            Choice {
                id: p.id.clone(),
                label,
                selected: text::same_text(p.id.as_str(), app.config.active_profile_id.as_str()),
            },
        );
        i = i + 1;
    }
    assert(choice_views(out@) =~= app@.config.profiles.map_values(
        |p: ProfileModel| titled(p, app@),
    ));
    out
}

/// What the page for the hosts shows.
pub fn hosts_page(app: &ProxyApp) -> (r: HostsPage)
    requires
        app@.wf(),
    ensures
        r@ == hosts_page_of(app@),
{
    let busy = app.is_busy();
    let asks_password = match app.config.active_profile().auth_method {
        AuthMethod::Password => true,
        AuthMethod::PrivateKey => false,
    };
    HostsPage {
        hosts: titled_hosts(app),
        can_connect: !busy,
        in_use: busy && is_connected_id(app, app.config.active_profile_id.as_str()),
        asks_password,
    }
}

// ----- the page for the settings -----

/// What the page for the settings shows.
#[derive(Debug)]
pub struct SettingsPage {
    /// Whether the ports cannot be changed now.
    pub locked: bool,
    pub http_address: String,
    pub socks_address: String,
    /// Whether connecting makes the system use the proxy.
    pub auto_on: bool,
    /// The word for that.
    pub auto_label: &'static str,
}

/// What the page for the settings shows, as plain text.
#[verifier::ext_equal]
pub struct SettingsModel {
    pub locked: bool,
    pub http_address: Seq<char>,
    pub socks_address: Seq<char>,
    pub auto_on: bool,
    pub auto_label: Seq<char>,
}

impl View for SettingsPage {
    type V = SettingsModel;

    open spec fn view(&self) -> SettingsModel {
        SettingsModel {
            locked: self.locked,
            http_address: self.http_address@,
            socks_address: self.socks_address@,
            auto_on: self.auto_on,
            auto_label: self.auto_label@,
        }
    }
}

/// What the page for the settings shows.
pub open spec fn settings_page_of(s: SessionModel) -> SettingsModel {
    SettingsModel {
        locked: s.busy(),
        http_address: text::address("127.0.0.1"@, s.config.settings.http_port),
        socks_address: text::address("127.0.0.1"@, s.config.settings.socks_port),
        auto_on: s.config.settings.auto_set_system_proxy,
        auto_label: if s.config.settings.auto_set_system_proxy {
            "开"@
        } else {
            "关"@
        },
    }
}

/// What the page for the settings shows.
pub fn settings_page(app: &ProxyApp) -> (r: SettingsPage)
    ensures
        r@ == settings_page_of(app@),
{
    let settings = app.config.settings;
    SettingsPage {
        locked: app.is_busy(),
        http_address: text::address_string("127.0.0.1", settings.http_port),
        socks_address: text::address_string("127.0.0.1", settings.socks_port),
        auto_on: settings.auto_set_system_proxy,
        auto_label: if settings.auto_set_system_proxy {
            "开"
        } else {
            "关"
        },
    }
}

// ----- laws -----

/// At most profiles with the connected identifier are marked as connected, and only while there
/// is a connection.
pub proof fn law_only_the_connected_host_is_marked(s: SessionModel, i: int)
    requires
        0 <= i < s.config.profiles.len(),
        hosts_page_of(s).hosts[i].label != s.config.profiles[i].title(),
    ensures
        s.state == ConnState::On,
        s.connected_profile_id == Some(s.config.profiles[i].id),
{
}

/// The ports cannot be changed and connecting is not offered exactly while the switch is on.
pub proof fn law_pages_agree_on_being_busy(s: SessionModel, now: u64)
    ensures
        settings_page_of(s).locked == connect_page_of(s, now).switch_on,
        hosts_page_of(s).can_connect == !connect_page_of(s, now).switch_on,
{
}

/// Both lists show each profile once, in order, under its own identifier; the one in use is
/// selected, and no other.
pub proof fn law_each_profile_can_be_chosen(s: SessionModel, now: u64, i: int)
    requires
        0 <= i < s.config.profiles.len(),
    ensures
        ({
            let p = s.config.profiles[i];
            let by_label = connect_page_of(s, now).hosts;
            let by_title = hosts_page_of(s).hosts;
            &&& by_label.len() == s.config.profiles.len()
            &&& by_title.len() == s.config.profiles.len()
            &&& by_label[i].id == p.id
            &&& by_title[i].id == p.id
            &&& by_label[i].label == p.label()
            &&& by_label[i].selected <==> p.id == s.config.active_profile_id
            &&& by_title[i].selected <==> p.id == s.config.active_profile_id
        }),
{
}

/// A host that is connected is marked before its title, and one that is not is shown by its title
/// alone.
pub proof fn law_connected_host_is_marked(s: SessionModel, i: int)
    requires
        0 <= i < s.config.profiles.len(),
    ensures
        ({
            let p = s.config.profiles[i];
            let shown = hosts_page_of(s).hosts[i].label;
            let connected = s.state == ConnState::On && s.connected_profile_id == Some(p.id);
            &&& crate::keys::ends_with(shown, p.title())
            &&& connected ==> text::starts_with(shown, "● "@) && shown.len() == p.title().len() + 2
            &&& !connected ==> shown == p.title()
        }),
{
    let p = s.config.profiles[i];
    let shown = hosts_page_of(s).hosts[i].label;
    reveal_strlit("● ");
    assert(shown.skip(shown.len() - p.title().len()) =~= p.title());
    if shown.len() > p.title().len() {
        assert(shown.subrange(0, 2) =~= "● "@);
    }
}

/// The page for connecting names the profile in use by its label, wherever one is in use.
pub proof fn law_current_profile_is_named(s: SessionModel, now: u64)
    requires
        s.wf(),
    ensures
        crate::config::has_id(s.config.profiles, s.config.active_profile_id) ==> connect_page_of(
            s,
            now,
        ).current == s.config.active_profile().label(),
        !crate::config::has_id(s.config.profiles, s.config.active_profile_id) ==> connect_page_of(
            s,
            now,
        ).current == "未选择"@,
{
    crate::config::law_position_of_id(s.config.profiles, s.config.active_profile_id);
    crate::config::law_profile_in_use(s.config);
}

/// A password is asked for exactly where the profile in use logs in with one, on both pages.
pub proof fn law_password_is_asked_for_where_it_is_used(s: SessionModel, now: u64)
    ensures
        connect_page_of(s, now).asks_password <==> s.config.active_profile().auth_method
            == AuthMethod::Password,
        hosts_page_of(s).asks_password == connect_page_of(s, now).asks_password,
        s.config.active_profile().auth_method == AuthMethod::PrivateKey ==> !connect_page_of(
            s,
            now,
        ).asks_password,
{
}

/// The switch is off where nothing is connected, on and pressed as long as a connection is being
/// made, and on and free to press once it is made. What stands on it differs between the three.
pub proof fn law_switch_shows_the_state(s: SessionModel, other: SessionModel, now: u64)
    ensures
        ({
            let page = connect_page_of(s, now);
            let off = s.state == ConnState::Off || s.state == ConnState::Error;
            &&& off ==> !page.switch_on && page.switch_enabled && !page.path_active
            &&& s.state == ConnState::Connecting ==> page.switch_on && !page.switch_enabled
                && !page.path_active
            &&& s.state == ConnState::On ==> page.switch_on && page.switch_enabled
                && page.path_active
            &&& page.path == s.path_nodes()
            &&& page.switch_label == connect_page_of(other, now).switch_label <==> s.state
                == other.state || (!s.busy() && !other.busy())
            &&& state_word(s.state) == state_word(other.state) <==> s.state == other.state
            &&& s.busy() ==> page.switch_label == state_word(s.state)
        }),
{
    reveal_strlit("未连接");
    reveal_strlit("连接中");
    reveal_strlit("已连接");
    reveal_strlit("错误");
    reveal_strlit("连接");
    assert("未连接"@[0] == '未');
    assert("连接中"@[0] == '连');
    assert("已连接"@[0] == '已');
    assert("错误"@[0] == '错');
    assert("连接"@.len() == 2);
    assert("连接中"@.len() == 3);
    assert("已连接"@.len() == 3);
}

/// The addresses that are shown are at this machine, and read back as the ports of the settings.
pub proof fn law_addresses_show_the_ports(s: SessionModel, now: u64)
    ensures
        ({
            let settings = s.config.settings;
            let page = settings_page_of(s);
            let shown = connect_page_of(s, now).addresses;
            &&& text::starts_with(page.http_address, "127.0.0.1:"@)
            &&& text::starts_with(page.socks_address, "127.0.0.1:"@)
            &&& text::digits_value(page.http_address.skip(10)) == settings.http_port
            &&& text::digits_value(page.socks_address.skip(10)) == settings.socks_port
            &&& text::contains(shown, "HTTP "@ + page.http_address + " "@)
            &&& crate::keys::ends_with(shown, "SOCKS "@ + page.socks_address)
        }),
{
    let settings = s.config.settings;
    let page = settings_page_of(s);
    let shown = connect_page_of(s, now).addresses;
    reveal_strlit("127.0.0.1");
    reveal_strlit("127.0.0.1:");
    reveal_strlit(":");
    reveal_strlit("本地  HTTP ");
    reveal_strlit("  ·  SOCKS ");
    reveal_strlit("HTTP ");
    reveal_strlit("SOCKS ");
    reveal_strlit(" ");
    let host = "127.0.0.1"@;
    text::law_address_reads_back(host, settings.http_port, host, settings.http_port);
    text::law_address_reads_back(host, settings.socks_port, host, settings.socks_port);
    assert(page.http_address.subrange(0, 10) =~= "127.0.0.1:"@);
    assert(page.socks_address.subrange(0, 10) =~= "127.0.0.1:"@);
    let first = "HTTP "@ + page.http_address + " "@;
    assert(shown.subrange(4, 4int + first.len()) =~= first);
    assert(text::occurs_at(shown, first, 4));
    let last = "SOCKS "@ + page.socks_address;
    assert(shown.skip(shown.len() - last.len()) =~= last);
}

/// The settings can be changed only while nothing is connected, and whether the system is made to
/// use the proxy is shown as it is set, in different words.
pub proof fn law_settings_are_shown_as_they_are(s: SessionModel, other: SessionModel)
    ensures
        settings_page_of(s).locked <==> s.state == ConnState::Connecting || s.state
            == ConnState::On,
        settings_page_of(s).auto_on == s.config.settings.auto_set_system_proxy,
        settings_page_of(s).auto_label == settings_page_of(other).auto_label <==> settings_page_of(
            s,
        ).auto_on == settings_page_of(other).auto_on,
        settings_page_of(s).auto_label == "开"@ <==> s.config.settings.auto_set_system_proxy,
        hosts_page_of(s).in_use <==> (s.state == ConnState::Connecting || s.state == ConnState::On)
            && s.connected_profile_id == Some(s.config.active_profile_id),
{
    reveal_strlit("开");
    reveal_strlit("关");
    assert("开"@[0] == '开');
    assert("关"@[0] == '关');
}

/// The figures show what was counted: up and down each with its own rate below it, both together,
/// and the numbers of connections.
pub proof fn law_figures_show_what_was_counted(s: SessionModel, now: u64)
    ensures
        ({
            let m = connect_page_of(s, now).metrics;
            let snap = s.cached_snap;
            let up = stats::bytes_text(snap.bytes_up);
            let down = stats::bytes_text(snap.bytes_down);
            let counts = m[3].value;
            &&& m.len() == 4
            &&& text::starts_with(m[0].value, up)
            &&& m[0].value.skip(up.len() as int) == "\n"@ + stats::rate_text(s.up_rate)
            &&& text::starts_with(m[1].value, down)
            &&& m[1].value.skip(down.len() as int) == "\n"@ + stats::rate_text(s.down_rate)
            &&& snap.bytes_up + snap.bytes_down <= u64::MAX ==> m[2].value == stats::bytes_text(
                (snap.bytes_up + snap.bytes_down) as u64,
            )
            &&& text::starts_with(
                counts,
                "活跃 "@ + text::decimal(snap.active_conns as nat) + "\n"@,
            )
            &&& text::contains(
                counts,
                "累计 "@ + text::decimal(snap.total_conns as nat) + " "@,
            )
            &&& crate::keys::ends_with(
                counts,
                "失败 "@ + text::decimal(snap.failed_conns as nat),
            )
        }),
{
    let m = connect_page_of(s, now).metrics;
    let snap = s.cached_snap;
    let up = stats::bytes_text(snap.bytes_up);
    let down = stats::bytes_text(snap.bytes_down);
    assert(m[0].value.subrange(0, up.len() as int) =~= up);
    assert(m[0].value.skip(up.len() as int) =~= "\n"@ + stats::rate_text(s.up_rate));
    assert(m[1].value.subrange(0, down.len() as int) =~= down);
    assert(m[1].value.skip(down.len() as int) =~= "\n"@ + stats::rate_text(s.down_rate));
    reveal_strlit("活跃 ");
    reveal_strlit("\n累计 ");
    reveal_strlit("累计 ");
    reveal_strlit(" / 失败 ");
    reveal_strlit("失败 ");
    reveal_strlit("\n");
    reveal_strlit(" ");
    let counts = m[3].value;
    let a = text::decimal(snap.active_conns as nat);
    let b = text::decimal(snap.total_conns as nat);
    let c = text::decimal(snap.failed_conns as nat);
    assert(counts == "活跃 "@ + a + "\n累计 "@ + b + " / 失败 "@ + c);
    let first = "活跃 "@ + a + "\n"@;
    assert(counts.subrange(0, first.len() as int) =~= first);
    let second = "累计 "@ + b + " "@;
    let k = first.len() as int;
    assert(counts.subrange(k, k + second.len()) =~= second);
    assert(text::occurs_at(counts, second, k));
    let third = "失败 "@ + c;
    assert(counts.skip(counts.len() - third.len()) =~= third);
}

/// How long the connection lasts is shown exactly while there is one.
pub proof fn law_time_is_shown_while_connected(s: SessionModel, now: u64)
    ensures
        s.state == ConnState::On ==> connect_page_of(s, now).uptime == stats::duration_text(
            s.cached_snap.uptime_secs,
        ),
        s.state != ConnState::On ==> connect_page_of(s, now).uptime == "--:--"@,
{
}

/// Each recent flow is shown in a row, in order, with its protocol in brackets, its target and its
/// age; where there is none, a note stands in its place.
pub proof fn law_each_recent_flow_has_a_row(s: SessionModel, now: u64, i: int)
    requires
        0 <= i < s.cached_snap.recent.len(),
    ensures
        ({
            let page = connect_page_of(s, now);
            let flow = s.cached_snap.recent[i];
            let row = page.rows[i];
            &&& page.rows.len() == s.cached_snap.recent.len()
            &&& page.note is None
            &&& row.target == flow.target
            &&& row.proto.len() == flow.proto.len() + 2
            &&& row.proto.first() == '['
            &&& row.proto.last() == ']'
            &&& row.proto.subrange(1, row.proto.len() - 1) == flow.proto
            &&& flow.at <= now ==> row.age == stats::age_text(
                ((now - flow.at) / 1_000_000_000) as u64,
            )
            &&& flow.at > now ==> row.age == stats::age_text(0)
        }),
{
    let flow = s.cached_snap.recent[i];
    let row = connect_page_of(s, now).rows[i];
    reveal_strlit("[");
    reveal_strlit("]");
    assert(row.proto.subrange(1, row.proto.len() - 1) =~= flow.proto);
    stats::law_seconds_are_whole(flow.at, now);
}

/// Without recent flows there are no rows but a note, another one while there is a connection.
pub proof fn law_note_stands_for_no_flows(s: SessionModel, other: SessionModel, now: u64)
    requires
        s.cached_snap.recent.len() == 0,
        other.cached_snap.recent.len() == 0,
    ensures
        connect_page_of(s, now).rows.len() == 0,
        connect_page_of(s, now).note is Some,
        connect_page_of(s, now).note == connect_page_of(other, now).note <==> (s.state
            == ConnState::On <==> other.state == ConnState::On),
{
    reveal_strlit("暂无流量，打开浏览器或使用 curl 试试");
    reveal_strlit("连接后将显示经过代理的目标地址");
    assert("暂无流量，打开浏览器或使用 curl 试试"@[0] == '暂');
    assert("连接后将显示经过代理的目标地址"@[0] == '连');
}

} // verus!
