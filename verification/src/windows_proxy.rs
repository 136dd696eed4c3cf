//! The system proxy of Windows: values in the registry of the user.
use vstd::prelude::*;

use crate::proxy;
use crate::proxy::{EndpointsModel, ProxyEndpoints};
use crate::text;
use crate::text::views;

verus! {

/// Where Windows keeps its proxy.
pub const INTERNET_SETTINGS: &'static str =
    "Software\\Microsoft\\Windows\\CurrentVersion\\Internet Settings";

/// Where Windows keeps the environment of the user.
pub const ENV_KEY: &'static str = "Environment";

/// One change in the registry.
#[derive(Debug)]
pub enum RegistryAction {
    /// Open the key, to which what follows belongs, or make it.
    Open(String),
    /// Set a value to a number.
    SetNumber(String, u32),
    /// Set a value to a text.
    SetText(String, String),
    /// Remove a value.
    Remove(String),
    /// Tell programs of the new proxy.
    NotifyProxy,
    /// Tell programs of the new environment.
    NotifyEnvironment,
    /// Stop with the given error.
    Refuse(String),
}

/// One change in the registry, as plain text.
#[verifier::ext_equal]
pub enum ActionModel {
    Open(Seq<char>),
    SetNumber(Seq<char>, u32),
    SetText(Seq<char>, Seq<char>),
    Remove(Seq<char>),
    NotifyProxy,
    NotifyEnvironment,
    Refuse(Seq<char>),
}

impl View for RegistryAction {
    type V = ActionModel;

    open spec fn view(&self) -> ActionModel {
        match self {
            RegistryAction::Open(key) => ActionModel::Open(key@),
            RegistryAction::SetNumber(name, n) => ActionModel::SetNumber(name@, *n),
            RegistryAction::SetText(name, value) => ActionModel::SetText(name@, value@),
            RegistryAction::Remove(name) => ActionModel::Remove(name@),
            RegistryAction::NotifyProxy => ActionModel::NotifyProxy,
            RegistryAction::NotifyEnvironment => ActionModel::NotifyEnvironment,
            RegistryAction::Refuse(why) => ActionModel::Refuse(why@),
        }
    }
}

/// What happens when a step fails.
#[derive(Debug)]
pub enum OnFailure {
    /// Go on.
    Ignore,
    /// Stop with the error of the step.
    Stop,
    /// Stop with the error of the step behind the given text.
    StopWith(String),
}

/// What happens when a step fails, as plain text.
#[verifier::ext_equal]
pub enum OnFailureModel {
    Ignore,
    Stop,
    StopWith(Seq<char>),
}

impl View for OnFailure {
    type V = OnFailureModel;

    open spec fn view(&self) -> OnFailureModel {
        match self {
            OnFailure::Ignore => OnFailureModel::Ignore,
            OnFailure::Stop => OnFailureModel::Stop,
            OnFailure::StopWith(context) => OnFailureModel::StopWith(context@),
        }
    }
}

/// A change, and what happens when it fails.
#[derive(Debug)]
pub struct RegistryStep {
    pub action: RegistryAction,
    pub on_failure: OnFailure,
}

/// A change, and what happens when it fails, as plain text.
#[verifier::ext_equal]
pub struct StepModel {
    pub action: ActionModel,
    pub on_failure: OnFailureModel,
}

impl View for RegistryStep {
    type V = StepModel;

    open spec fn view(&self) -> StepModel {
        StepModel { action: self.action@, on_failure: self.on_failure@ }
    }
}

/// The views of a list of steps.
pub open spec fn step_views(v: Seq<RegistryStep>) -> Seq<StepModel> {
    v.map_values(|s: RegistryStep| s@)
}

/// The views of two lists of steps are those of the joined list.
pub proof fn lemma_step_views_join(a: Seq<RegistryStep>, b: Seq<RegistryStep>)
    ensures
        step_views(a + b) == step_views(a) + step_views(b),
{
    assert(step_views(a + b) =~= step_views(a) + step_views(b));
}

/// A step that stops with a text before the error.
pub open spec fn or_stop_with(action: ActionModel, context: Seq<char>) -> StepModel {
    StepModel { action, on_failure: OnFailureModel::StopWith(context) }
}

/// A step that stops with the error.
pub open spec fn or_stop(action: ActionModel) -> StepModel {
    StepModel { action, on_failure: OnFailureModel::Stop }
}

/// A step whose failure is passed over.
pub open spec fn or_go_on(action: ActionModel) -> StepModel {
    StepModel { action, on_failure: OnFailureModel::Ignore }
}

/// The addresses that Windows reaches without the proxy.
pub open spec fn proxy_override(bypass: Seq<Seq<char>>) -> Seq<char> {
    proxy::listed(
        "localhost;127.*;10.*;192.168.*;<local>"@,
        ';',
        proxy::named_hosts(bypass),
    )
}

/// The addresses that programs reach without the proxy.
pub open spec fn no_proxy(bypass: Seq<Seq<char>>) -> Seq<char> {
    proxy::listed("localhost,127.0.0.1,::1"@, ',', proxy::named_hosts(bypass))
}

/// The steps that turn the system proxy on or off.
pub open spec fn proxy_steps(
    enable: bool,
    endpoints: Option<EndpointsModel>,
    bypass: Seq<Seq<char>>,
) -> Seq<StepModel> {
    let open = or_stop_with(ActionModel::Open(INTERNET_SETTINGS@), "打开 Internet Settings 失败"@);
    let notify = or_go_on(ActionModel::NotifyProxy);
    if enable {
        match endpoints {
            Some(ep) => seq![
                open,
                or_stop_with(
                    ActionModel::SetNumber("ProxyEnable"@, 1),
                    "写入 ProxyEnable 失败"@,
                ),
                or_stop_with(
                    ActionModel::SetText("ProxyServer"@, ep.windows_server()),
                    "写入 ProxyServer 失败"@,
                ),
                or_go_on(ActionModel::SetText("ProxyOverride"@, proxy_override(bypass))),
                notify,
            ],
            None => seq![open, or_stop(ActionModel::Refuse("启用代理时需要 endpoints"@))],
        }
    } else {
        seq![
            open,
            or_stop_with(ActionModel::SetNumber("ProxyEnable"@, 0), "关闭 ProxyEnable 失败"@),
            or_go_on(ActionModel::Remove("ProxyServer"@)),
            notify,
        ]
    }
}

/// The steps that set or remove the variables by which programs find the proxy.
pub open spec fn environment_steps(
    endpoints: Option<EndpointsModel>,
    bypass: Seq<Seq<char>>,
) -> Seq<StepModel> {
    let open = or_stop_with(ActionModel::Open(ENV_KEY@), "打开用户 Environment 失败"@);
    let notify = or_go_on(ActionModel::NotifyEnvironment);
    match endpoints {
        Some(ep) => seq![
            open,
            or_stop(ActionModel::SetText("HTTP_PROXY"@, ep.http_url())),
            or_stop(ActionModel::SetText("HTTPS_PROXY"@, ep.http_url())),
            or_stop(ActionModel::SetText("http_proxy"@, ep.http_url())),
            or_stop(ActionModel::SetText("https_proxy"@, ep.http_url())),
            or_stop(ActionModel::SetText("ALL_PROXY"@, ep.socks_url())),
            or_stop(ActionModel::SetText("all_proxy"@, ep.socks_url())),
            or_stop(ActionModel::SetText("NO_PROXY"@, no_proxy(bypass))),
            or_stop(ActionModel::SetText("no_proxy"@, no_proxy(bypass))),
            notify,
        ],
        None => seq![
            open,
            or_go_on(ActionModel::Remove("HTTP_PROXY"@)),
            or_go_on(ActionModel::Remove("HTTPS_PROXY"@)),
            or_go_on(ActionModel::Remove("ALL_PROXY"@)),
            or_go_on(ActionModel::Remove("http_proxy"@)),
            or_go_on(ActionModel::Remove("https_proxy"@)),
            or_go_on(ActionModel::Remove("all_proxy"@)),
            or_go_on(ActionModel::Remove("NO_PROXY"@)),
            or_go_on(ActionModel::Remove("no_proxy"@)),
            notify,
        ],
    }
}

fn open_key(key: &str, context: &str) -> (r: RegistryStep)
    ensures
        r@ == or_stop_with(ActionModel::Open(key@), context@),
{
    RegistryStep {
        action: RegistryAction::Open(key.to_owned()),
        on_failure: OnFailure::StopWith(context.to_owned()),
    }
}

fn set_number(name: &str, value: u32, context: &str) -> (r: RegistryStep)
    ensures
        r@ == or_stop_with(ActionModel::SetNumber(name@, value), context@),
{
    RegistryStep {
        action: RegistryAction::SetNumber(name.to_owned(), value),
        on_failure: OnFailure::StopWith(context.to_owned()),
    }
}

fn set_text(name: &str, value: &str, on_failure: OnFailure) -> (r: RegistryStep)
    ensures
        r@ == (StepModel {
            action: ActionModel::SetText(name@, value@),
            on_failure: on_failure@,
        }),
{
    RegistryStep {
        action: RegistryAction::SetText(name.to_owned(), value.to_owned()),
        on_failure,
    }
}

fn remove(name: &str) -> (r: RegistryStep)
    ensures
        r@ == or_go_on(ActionModel::Remove(name@)),
{
    RegistryStep {
        action: RegistryAction::Remove(name.to_owned()),
        on_failure: OnFailure::Ignore,
    }
}

/// The steps that turn the system proxy on or off.
pub fn set_proxy(
    enable: bool,
    endpoints: Option<&ProxyEndpoints>,
    bypass_hosts: &[String],
) -> (r: Vec<RegistryStep>)
    ensures
        step_views(r@) == proxy_steps(
            enable,
            match endpoints {
                Some(ep) => Some(ep@),
                None => None,
            },
            views(bypass_hosts@),
        ),
{
    let open = open_key(INTERNET_SETTINGS, "打开 Internet Settings 失败");
    let notify = RegistryStep {
        action: RegistryAction::NotifyProxy,
        on_failure: OnFailure::Ignore,
    };
    let ghost wanted = proxy_steps(
        enable,
        match endpoints {
            Some(ep) => Some(ep@),
            None => None,
        },
        views(bypass_hosts@),
    );
    if !enable {
        let r = vec![
            open,
            set_number("ProxyEnable", 0, "关闭 ProxyEnable 失败"),
            remove("ProxyServer"),
            notify,
        ];
        assert(step_views(r@) =~= wanted);
        return r;
    }
    match endpoints {
        Some(ep) => {
            let server = ep.windows_proxy_server();
            let hosts = proxy::hosts_to_name(bypass_hosts);
            let overrides = proxy::list_text("localhost;127.*;10.*;192.168.*;<local>", ';', &hosts);
            let r = vec![
                open,
                set_number("ProxyEnable", 1, "写入 ProxyEnable 失败"),
                set_text(
                    "ProxyServer",
                    server.as_str(),
                    OnFailure::StopWith("写入 ProxyServer 失败".to_owned()),
                ),
                set_text("ProxyOverride", overrides.as_str(), OnFailure::Ignore),
                notify,
            ];
            assert(step_views(r@) =~= wanted);
            r
        },
        None => {
            let refuse = RegistryStep {
                action: RegistryAction::Refuse("启用代理时需要 endpoints".to_owned()),
                on_failure: OnFailure::Stop,
            };
            let r = vec![open, refuse];
            assert(step_views(r@) =~= wanted);
            r
        },
    }
}

/// The steps that set or remove the variables by which programs find the proxy.
pub fn set_user_env_proxies(
    endpoints: Option<&ProxyEndpoints>,
    bypass_hosts: &[String],
) -> (r: Vec<RegistryStep>)
    ensures
        step_views(r@) == environment_steps(
            match endpoints {
                Some(ep) => Some(ep@),
                None => None,
            },
            views(bypass_hosts@),
        ),
{
    let open = open_key(ENV_KEY, "打开用户 Environment 失败");
    let notify = RegistryStep {
        action: RegistryAction::NotifyEnvironment,
        on_failure: OnFailure::Ignore,
    };
    match endpoints {
        Some(ep) => {
            let http = ep.http_url();
            let socks = ep.socks_url();
            let hosts = proxy::hosts_to_name(bypass_hosts);
            let around = proxy::list_text("localhost,127.0.0.1,::1", ',', &hosts);
            let r = vec![
                open,
                set_text("HTTP_PROXY", http.as_str(), OnFailure::Stop),
                set_text("HTTPS_PROXY", http.as_str(), OnFailure::Stop),
                set_text("http_proxy", http.as_str(), OnFailure::Stop),
                set_text("https_proxy", http.as_str(), OnFailure::Stop),
                set_text("ALL_PROXY", socks.as_str(), OnFailure::Stop),
                set_text("all_proxy", socks.as_str(), OnFailure::Stop),
                set_text("NO_PROXY", around.as_str(), OnFailure::Stop),
                set_text("no_proxy", around.as_str(), OnFailure::Stop),
                notify,
            ];
            assert(step_views(r@) =~= environment_steps(Some(ep@), views(bypass_hosts@)));
            r
        },
        None => {
            let r = vec![
                open,
                remove("HTTP_PROXY"),
                remove("HTTPS_PROXY"),
                remove("ALL_PROXY"),
                remove("http_proxy"),
                remove("https_proxy"),
                remove("all_proxy"),
                remove("NO_PROXY"),
                remove("no_proxy"),
                notify,
            ];
            assert(step_views(r@) =~= environment_steps(None, views(bypass_hosts@)));
            r
        },
    }
}

// ----- what was left behind -----

/// Whether a system proxy names one of the endpoints, in either case of the letters.
pub open spec fn server_names(ep: EndpointsModel, server: Seq<char>) -> bool {
    ||| text::names_address(text::lowered(server), text::lowered(ep.http_address()))
    ||| text::names_address(text::lowered(server), text::lowered(ep.socks_address()))
}

/// Whether a system proxy names one of the endpoints.
pub fn server_points_to(ep: &ProxyEndpoints, server: &str) -> (r: bool)
    ensures
        r == server_names(ep@, server@),
{
    let s = text::to_lower(server);
    let http = text::to_lower(ep.http_address().as_str());
    let socks = text::to_lower(ep.socks_address().as_str());
    text::has_address(s.as_str(), http.as_str()) || text::has_address(s.as_str(), socks.as_str())
}

/// Whether a variable names this machine with one of the ports.
pub open spec fn variable_names(ep: EndpointsModel, value: Seq<char>) -> bool {
    let v = text::lowered(value);
    ||| text::names_address(v, text::address("127.0.0.1"@, ep.http_port))
    ||| text::names_address(v, text::address("localhost"@, ep.http_port))
    ||| text::names_address(v, text::address("127.0.0.1"@, ep.socks_port))
    ||| text::names_address(v, text::address("localhost"@, ep.socks_port))
}

/// Whether a variable names this machine with one of the ports.
pub fn env_points_to(ep: &ProxyEndpoints, value: &str) -> (r: bool)
    ensures
        r == variable_names(ep@, value@),
{
    let v = text::to_lower(value);
    text::has_address(v.as_str(), text::address_string("127.0.0.1", ep.http_port).as_str())
        || text::has_address(v.as_str(), text::address_string("localhost", ep.http_port).as_str())
        || text::has_address(v.as_str(), text::address_string("127.0.0.1", ep.socks_port).as_str())
        || text::has_address(v.as_str(), text::address_string("localhost", ep.socks_port).as_str())
}

/// The variables that are looked at for what was left behind.
pub open spec fn looked_at() -> Seq<Seq<char>> {
    seq![
        "HTTP_PROXY"@,
        "HTTPS_PROXY"@,
        "http_proxy"@,
        "https_proxy"@,
        "ALL_PROXY"@,
        "all_proxy"@,
    ]
}

/// The variables that are looked at for what was left behind.
pub fn names_to_look_at() -> (r: Vec<&'static str>)
    ensures
        r@.map_values(|s: &'static str| s@) == looked_at(),
{
    let r: Vec<&'static str> = vec![
        "HTTP_PROXY",
        "HTTPS_PROXY",
        "http_proxy",
        "https_proxy",
        "ALL_PROXY",
        "all_proxy",
    ];
    assert(r@.map_values(|s: &'static str| s@) =~= looked_at());
    r
}

/// The views of a list of values that may be missing.
pub open spec fn value_views(v: Seq<Option<String>>) -> Seq<Option<Seq<char>>> {
    v.map_values(
        |o: Option<String>|
            match o {
                Some(s) => Some(s@),
                None => None::<Seq<char>>,
            },
    )
}

/// Whether the proxy was left behind: it is on and names an endpoint, or a variable does.
pub open spec fn is_left_behind(
    ep: EndpointsModel,
    proxy_enable: Option<u32>,
    server: Option<Seq<char>>,
    variables: Seq<Option<Seq<char>>>,
) -> bool {
    ||| proxy_enable == Some(1u32) && (server matches Some(s) && server_names(ep, s))
    ||| exists|i: int|
        0 <= i < variables.len() && (#[trigger] variables[i] matches Some(v) && variable_names(
            ep,
            v,
        ))
}

/// Whether the proxy was left behind, from what the registry holds.
pub fn is_stale_local_proxy(
    endpoints: &ProxyEndpoints,
    proxy_enable: Option<u32>,
    server: Option<&str>,
    variables: &[Option<String>],
) -> (r: bool)
    ensures
        r == is_left_behind(
            endpoints@,
            proxy_enable,
            match server {
                Some(s) => Some(s@),
                None => None,
            },
            value_views(variables@),
        ),
{
    let on = match proxy_enable {
        Some(n) => n == 1,
        None => false,
    };
    if on {
        if let Some(s) = server {
            if server_points_to(endpoints, s) {
                return true;
            }
        }
    }
    let mut i: usize = 0;
    while i < variables.len()
        invariant
            i <= variables@.len(),
            forall|k: int|
                0 <= k < i ==> !(#[trigger] value_views(variables@)[k] matches Some(v)
                    && variable_names(endpoints@, v)),
        decreases variables@.len() - i,
    {
        assert(value_views(variables@)[i as int] == match variables@[i as int] {
            Some(s) => Some(s@),
            None => None,
        });
        if let Some(v) = &variables[i] {
            if env_points_to(endpoints, v.as_str()) {
                return true;
            }
        }
        i = i + 1;
    }
    false
}

// ----- laws -----

/// What turning the proxy on writes down is recognised as left behind.
pub proof fn law_proxy_is_recognised(ep: EndpointsModel, variables: Seq<Option<Seq<char>>>)
    ensures
        server_names(ep, ep.windows_server()),
        is_left_behind(ep, Some(1u32), Some(ep.windows_server()), variables),
{
    let address = ep.http_address();
    let rest = ";https="@ + address;
    assert(ep.windows_server() =~= "http="@ + address + rest);
    text::lemma_lowered_join("http="@ + address, rest);
    text::lemma_lowered_join("http="@, address);
    reveal_strlit("http=");
    reveal_strlit(";https=");
    let hay = text::lowered(ep.windows_server());
    let needle = text::lowered(address);
    let end = 5int + needle.len();
    assert(hay.subrange(5, end) =~= needle);
    assert(hay[4] == '=');
    assert(hay[end] == ';');
    assert(text::stands_at(hay, needle, 5));
}

proof fn lemma_local_address_is_low(port: u16)
    ensures
        text::lowered(text::address("127.0.0.1"@, port)) == text::address("127.0.0.1"@, port),
{
    let a = text::address("127.0.0.1"@, port);
    let digits = text::decimal(port as nat);
    text::law_decimal_reads_back(port as nat);
    reveal_strlit("127.0.0.1");
    reveal_strlit(":");
    assert forall|i: int| 0 <= i < a.len() implies text::lower_char(a[i]) == a[i] by {
        if i >= 10 {
            assert(a[i] == digits[i - 10]);
            assert(text::is_digit(digits[i - 10]));
        }
    }
    assert(text::lowered(a) =~= a);
}

proof fn lemma_named_address_is_low(port: u16)
    ensures
        text::lowered(text::address("localhost"@, port)) == text::address("localhost"@, port),
{
    let a = text::address("localhost"@, port);
    let digits = text::decimal(port as nat);
    text::law_decimal_reads_back(port as nat);
    reveal_strlit("localhost");
    reveal_strlit(":");
    assert forall|i: int| 0 <= i < a.len() implies text::lower_char(a[i]) == a[i] by {
        if i >= 10 {
            assert(a[i] == digits[i - 10]);
            assert(text::is_digit(digits[i - 10]));
        }
    }
    assert(text::lowered(a) =~= a);
}

/// The variables that programs are given are recognised as left behind.
pub proof fn law_variables_are_recognised(http_port: u16, socks_port: u16)
    ensures
        variable_names(
            proxy::local_endpoints(http_port, socks_port),
            proxy::local_endpoints(http_port, socks_port).http_url(),
        ),
        variable_names(
            proxy::local_endpoints(http_port, socks_port),
            proxy::local_endpoints(http_port, socks_port).socks_url(),
        ),
{
    let ep = proxy::local_endpoints(http_port, socks_port);
    lemma_local_address_is_low(http_port);
    lemma_local_address_is_low(socks_port);
    text::lemma_lowered_join("http://"@, ep.http_address());
    text::lemma_lowered_join("socks5://"@, ep.socks_address());
    reveal_strlit("http://");
    reveal_strlit("socks5://");
    let http = text::lowered(ep.http_url());
    assert(http.subrange(7, http.len() as int) =~= ep.http_address());
    assert(http[6] == '/');
    assert(text::stands_at(http, ep.http_address(), 7));
    let socks = text::lowered(ep.socks_url());
    assert(socks.subrange(9, socks.len() as int) =~= ep.socks_address());
    assert(socks[8] == '/');
    assert(text::stands_at(socks, ep.socks_address(), 9));
}

/// Whether the digits behind a host of nine characters and a colon, from the position on, are
/// those of the port and no others.
spec fn holds_port(hay: Seq<char>, at: int, port: u16) -> bool {
    let digits = text::decimal(port as nat);
    let end = at + 10 + digits.len();
    &&& 0 <= at
    &&& end <= hay.len()
    &&& hay.subrange(at + 10, end) == digits
    &&& end == hay.len() || !text::is_digit(hay[end])
}

proof fn lemma_one_port(hay: Seq<char>, at: int, p: u16, q: u16)
    requires
        holds_port(hay, at, p),
        holds_port(hay, at, q),
    ensures
        p == q,
{
    let a = text::decimal(p as nat);
    let b = text::decimal(q as nat);
    text::law_decimal_reads_back(p as nat);
    text::law_decimal_reads_back(q as nat);
    let (low, high) = if a.len() <= b.len() { (a, b) } else { (b, a) };
    if low.len() < high.len() {
        let end = at + 10 + low.len();
        assert(hay.subrange(at + 10, at + 10 + high.len())[low.len() as int] == hay[end]);
        assert(text::is_digit(high[low.len() as int]));
    }
    assert(a == b);
}

proof fn lemma_address_holds_port(hay: Seq<char>, host: Seq<char>, port: u16, i: int)
    requires
        text::stands_at(hay, text::address(host, port), i),
        host.len() == 9,
    ensures
        holds_port(hay, i, port),
        hay[i + 9] == ':',
        hay[i] == host[0],
{
    let a = text::address(host, port);
    let digits = text::decimal(port as nat);
    reveal_strlit(":");
    let found = hay.subrange(i, i + a.len());
    assert(found[9] == a[9]);
    assert(found[0] == a[0]);
    assert(hay.subrange(i + 10, i + 10 + digits.len()) =~= found.skip(10));
    assert(a.skip(10) =~= digits);
}

proof fn lemma_url_names_port(
    scheme: Seq<char>,
    host: Seq<char>,
    http_port: u16,
    socks_port: u16,
    named: u16,
)
    requires
        3 <= scheme.len() <= 9,
        forall|j: int|
            0 <= j < scheme.len() && j != scheme.len() - 3 ==> text::lower_char(
                #[trigger] scheme[j],
            ) != ':',
        scheme.last() == '/',
        host == "127.0.0.1"@ || host == "localhost"@,
    ensures
        variable_names(
            proxy::local_endpoints(http_port, socks_port),
            scheme + text::address(host, named),
        ) <==> named == http_port || named == socks_port,
{
    let n = scheme.len() as int;
    let here = text::address(host, named);
    let digits = text::decimal(named as nat);
    let hay = text::lowered(scheme + here);
    lemma_local_address_is_low(named);
    lemma_named_address_is_low(named);
    text::lemma_lowered_join(scheme, here);
    text::law_decimal_reads_back(named as nat);
    reveal_strlit("127.0.0.1");
    reveal_strlit("localhost");
    reveal_strlit(":");
    assert(hay.subrange(n, n + here.len()) =~= here);
    assert(hay[n - 1] == '/');
    assert(text::stands_at(hay, here, n));
    lemma_address_holds_port(hay, host, named, n);
    assert forall|i: int, other: Seq<char>, port: u16|
        (other == "127.0.0.1"@ || other == "localhost"@) && #[trigger] text::stands_at(
            hay,
            text::address(other, port),
            i,
        ) implies port == named by {
        lemma_address_holds_port(hay, other, port, i);
        let colon = i + 9;
        if colon < n {
            assert(hay[colon] == text::lower_char(scheme[colon]));
        } else if colon >= n + 10 {
            assert(hay[colon] == digits[colon - n - 10]);
            assert(text::is_digit(digits[colon - n - 10]));
        } else if colon < n + 9 {
            assert(hay[colon] == host[colon - n]);
        }
        assert(i == n);
        lemma_one_port(hay, n, port, named);
    }
}

/// A variable that names this machine is taken for the proxy exactly if it names one of its
/// ports.
pub proof fn law_variable_names_its_ports_only(http_port: u16, socks_port: u16, named: u16)
    ensures
        variable_names(
            proxy::local_endpoints(http_port, socks_port),
            proxy::local_endpoints(named, named).http_url(),
        ) <==> named == http_port || named == socks_port,
        variable_names(
            proxy::local_endpoints(http_port, socks_port),
            proxy::local_endpoints(named, named).socks_url(),
        ) <==> named == http_port || named == socks_port,
        variable_names(
            proxy::local_endpoints(http_port, socks_port),
            "http://"@ + text::address("localhost"@, named),
        ) <==> named == http_port || named == socks_port,
{
    reveal_strlit("http://");
    reveal_strlit("socks5://");
    lemma_url_names_port("http://"@, "127.0.0.1"@, http_port, socks_port, named);
    lemma_url_names_port("socks5://"@, "127.0.0.1"@, http_port, socks_port, named);
    lemma_url_names_port("http://"@, "localhost"@, http_port, socks_port, named);
}

/// The text of a system proxy on this machine, in small letters.
spec fn local_server(named: u16) -> Seq<char> {
    let here = text::address("127.0.0.1"@, named);
    text::lowered("http="@) + here + text::lowered(";https="@) + here
}

proof fn lemma_local_server(named: u16)
    ensures
        text::lowered(proxy::local_endpoints(named, named).windows_server()) == local_server(
            named,
        ),
{
    let here = text::address("127.0.0.1"@, named);
    lemma_local_address_is_low(named);
    text::lemma_lowered_join("http="@ + here + ";https="@, here);
    text::lemma_lowered_join("http="@ + here, ";https="@);
    text::lemma_lowered_join("http="@, here);
}

proof fn lemma_colons_of_server(named: u16, k: int)
    requires
        0 <= k < local_server(named).len(),
        local_server(named)[k] == ':',
    ensures
        k == 14 || k == text::address("127.0.0.1"@, named).len() + 21,
{
    let here = text::address("127.0.0.1"@, named);
    let digits = text::decimal(named as nat);
    let n = here.len() as int;
    let hay = local_server(named);
    text::law_decimal_reads_back(named as nat);
    reveal_strlit("http=");
    reveal_strlit(";https=");
    reveal_strlit("127.0.0.1");
    reveal_strlit(":");
    assert forall|j: int| 0 <= j < n && here[j] == ':' implies j == 9 by {
        if j >= 10 {
            assert(here[j] == digits[j - 10]);
        }
    }
    if 5 <= k < 5 + n {
        assert(hay[k] == here[k - 5]);
    } else if k >= n + 12 {
        assert(hay[k] == here[k - n - 12]);
    } else if k < 5 {
        assert(hay[k] == text::lower_char("http="@[k]));
    } else {
        assert(hay[k] == text::lower_char(";https="@[k - 5 - n]));
    }
}

proof fn lemma_server_names_port(named: u16, port: u16, i: int)
    requires
        text::stands_at(local_server(named), text::address("127.0.0.1"@, port), i),
    ensures
        port == named,
{
    let here = text::address("127.0.0.1"@, named);
    let n = here.len() as int;
    let hay = local_server(named);
    reveal_strlit("http=");
    reveal_strlit(";https=");
    reveal_strlit("127.0.0.1");
    lemma_address_holds_port(hay, "127.0.0.1"@, port, i);
    lemma_colons_of_server(named, i + 9);
    assert(hay.subrange(i, i + n) =~= here);
    assert(i + n == hay.len() || hay[i + n] == ';');
    assert(hay[i - 1] == '=');
    assert(text::stands_at(hay, here, i));
    lemma_address_holds_port(hay, "127.0.0.1"@, named, i);
    lemma_one_port(hay, i, port, named);
}

/// A system proxy on this machine is taken for the proxy exactly if it names one of its ports.
pub proof fn law_server_names_its_ports_only(http_port: u16, socks_port: u16, named: u16)
    ensures
        server_names(
            proxy::local_endpoints(http_port, socks_port),
            proxy::local_endpoints(named, named).windows_server(),
        ) <==> named == http_port || named == socks_port,
{
    let hay = local_server(named);
    law_proxy_is_recognised(proxy::local_endpoints(named, named), Seq::empty());
    lemma_local_server(named);
    lemma_local_address_is_low(named);
    lemma_local_address_is_low(http_port);
    lemma_local_address_is_low(socks_port);
    assert forall|i: int, port: u16| #[trigger]
        text::stands_at(hay, text::address("127.0.0.1"@, port), i) implies port == named by {
        lemma_server_names_port(named, port, i);
    }
}

/// Each variable that setting the proxy writes is removed again by clearing it.
pub proof fn law_clearing_removes_what_was_set(
    ep: EndpointsModel,
    bypass: Seq<Seq<char>>,
    name: Seq<char>,
    value: Seq<char>,
)
    requires
        environment_steps(Some(ep), bypass).contains(
            or_stop(ActionModel::SetText(name, value)),
        ),
    ensures
        environment_steps(None, Seq::empty()).contains(or_go_on(ActionModel::Remove(name))),
{
    let set = environment_steps(Some(ep), bypass);
    let cleared = environment_steps(None, Seq::empty());
    let i = choose|i: int|
        0 <= i < set.len() && set[i] == or_stop(ActionModel::SetText(name, value));
    assert(1 <= i <= 8);
    let k: int = if i == 3 {
        4
    } else if i == 4 {
        5
    } else if i == 5 {
        3
    } else {
        i
    };
    assert(cleared[k] == or_go_on(ActionModel::Remove(name)));
}

/// What the registry of a user holds, and the key that is open.
#[verifier::ext_equal]
pub struct Registry {
    pub open: Seq<char>,
    pub numbers: Map<(Seq<char>, Seq<char>), u32>,
    pub texts: Map<(Seq<char>, Seq<char>), Seq<char>>,
}

impl Registry {
    /// After a step that did not fail.
    pub open spec fn after(self, action: ActionModel) -> Registry {
        match action {
            ActionModel::Open(key) => Registry { open: key, ..self },
            ActionModel::SetNumber(name, n) => Registry {
                numbers: self.numbers.insert((self.open, name), n),
                ..self
            },
            ActionModel::SetText(name, value) => Registry {
                texts: self.texts.insert((self.open, name), value),
                ..self
            },
            ActionModel::Remove(name) => Registry {
                numbers: self.numbers.remove((self.open, name)),
                texts: self.texts.remove((self.open, name)),
                ..self
            },
            _ => self,
        }
    }

    /// After a list of steps none of which failed.
    pub open spec fn after_all(self, steps: Seq<StepModel>) -> Registry
        decreases steps.len(),
    {
        if steps.len() == 0 {
            self
        } else {
            self.after(steps[0].action).after_all(steps.skip(1))
        }
    }

    /// The text under a key and a name, if there is one.
    pub open spec fn text(self, key: Seq<char>, name: Seq<char>) -> Option<Seq<char>> {
        if self.texts.dom().contains((key, name)) {
            Some(self.texts[(key, name)])
        } else {
            None
        }
    }

    /// The number under a key and a name, if there is one.
    pub open spec fn number(self, key: Seq<char>, name: Seq<char>) -> Option<u32> {
        if self.numbers.dom().contains((key, name)) {
            Some(self.numbers[(key, name)])
        } else {
            None
        }
    }

    /// Whether the proxy was left behind in the registry.
    pub open spec fn is_stale(self, ep: EndpointsModel) -> bool {
        is_left_behind(
            ep,
            self.number(INTERNET_SETTINGS@, "ProxyEnable"@),
            self.text(INTERNET_SETTINGS@, "ProxyServer"@),
            looked_at().map_values(|name: Seq<char>| self.text(ENV_KEY@, name)),
        )
    }
}

proof fn lemma_after_join(before: Registry, a: Seq<StepModel>, b: Seq<StepModel>)
    ensures
        before.after_all(a + b) == before.after_all(a).after_all(b),
    decreases a.len(),
{
    if a.len() == 0 {
        assert(a + b =~= b);
    } else {
        assert((a + b).skip(1) =~= a.skip(1) + b);
        lemma_after_join(before.after(a[0].action), a.skip(1), b);
    }
}

/// Clearing the proxy leaves nothing behind, whatever stood in the registry.
pub proof fn law_cleared_proxy_is_not_stale(before: Registry, ep: EndpointsModel)
    ensures
        !before.after_all(
            proxy_steps(false, None, Seq::empty()) + environment_steps(None, Seq::empty()),
        ).is_stale(ep),
{
    let first = proxy_steps(false, None, Seq::empty());
    let second = environment_steps(None, Seq::empty());
    lemma_after_join(before, first, second);
    let middle = before.after_all(first);
    let end = middle.after_all(second);
    reveal_with_fuel(Registry::after_all, 11);
    let found = looked_at().map_values(|name: Seq<char>| end.text(ENV_KEY@, name));
    assert forall|i: int| 0 <= i < found.len() implies #[trigger] found[i] is None by {
        assert(found[i] == end.text(ENV_KEY@, looked_at()[i]));
    }
}

proof fn lemma_proxy_is_set(before: Registry, ep: EndpointsModel, bypass: Seq<Seq<char>>)
    ensures
        ({
            let end = before.after_all(proxy_steps(true, Some(ep), bypass));
            &&& end.number(INTERNET_SETTINGS@, "ProxyEnable"@) == Some(1u32)
            &&& end.text(INTERNET_SETTINGS@, "ProxyServer"@) == Some(ep.windows_server())
        }),
{
    let steps = proxy_steps(true, Some(ep), bypass);
    let r1 = before.after(steps[0].action);
    let r2 = r1.after(steps[1].action);
    let r3 = r2.after(steps[2].action);
    let r4 = r3.after(steps[3].action);
    reveal_strlit("ProxyServer");
    reveal_strlit("ProxyOverride");
    assert("ProxyServer"@.len() != "ProxyOverride"@.len());
    assert(r4.text(INTERNET_SETTINGS@, "ProxyServer"@) == Some(ep.windows_server()));
    reveal_with_fuel(Registry::after_all, 6);
    assert(before.after_all(steps) == r4);
}

proof fn lemma_other_keys_stay(
    before: Registry,
    ep: EndpointsModel,
    bypass: Seq<Seq<char>>,
    key: Seq<char>,
    name: Seq<char>,
)
    requires
        key != ENV_KEY@,
    ensures
        ({
            let end = before.after_all(environment_steps(Some(ep), bypass));
            &&& end.number(key, name) == before.number(key, name)
            &&& end.text(key, name) == before.text(key, name)
        }),
{
    reveal_with_fuel(Registry::after_all, 11);
}

/// Setting the proxy is seen in the registry from then on, whatever stood there.
pub proof fn law_set_proxy_is_stale(
    before: Registry,
    ep: EndpointsModel,
    bypass: Seq<Seq<char>>,
)
    ensures
        before.after_all(
            proxy_steps(true, Some(ep), bypass) + environment_steps(Some(ep), bypass),
        ).is_stale(ep),
{
    let first = proxy_steps(true, Some(ep), bypass);
    let second = environment_steps(Some(ep), bypass);
    lemma_after_join(before, first, second);
    let middle = before.after_all(first);
    let end = middle.after_all(second);
    lemma_proxy_is_set(before, ep, bypass);
    reveal_strlit("Software\\Microsoft\\Windows\\CurrentVersion\\Internet Settings");
    reveal_strlit("Environment");
    assert(INTERNET_SETTINGS@.len() != ENV_KEY@.len());
    lemma_other_keys_stay(middle, ep, bypass, INTERNET_SETTINGS@, "ProxyEnable"@);
    lemma_other_keys_stay(middle, ep, bypass, INTERNET_SETTINGS@, "ProxyServer"@);
    law_proxy_is_recognised(
        ep,
        looked_at().map_values(|name: Seq<char>| end.text(ENV_KEY@, name)),
    );
}

proof fn lemma_variables_are_set(before: Registry, ep: EndpointsModel, bypass: Seq<Seq<char>>)
    ensures
        ({
            let end = before.after_all(environment_steps(Some(ep), bypass));
            &&& end.text(ENV_KEY@, "HTTP_PROXY"@) == Some(ep.http_url())
            &&& end.text(ENV_KEY@, "HTTPS_PROXY"@) == Some(ep.http_url())
            &&& end.text(ENV_KEY@, "http_proxy"@) == Some(ep.http_url())
            &&& end.text(ENV_KEY@, "https_proxy"@) == Some(ep.http_url())
            &&& end.text(ENV_KEY@, "ALL_PROXY"@) == Some(ep.socks_url())
            &&& end.text(ENV_KEY@, "all_proxy"@) == Some(ep.socks_url())
        }),
{
    reveal_strlit("HTTP_PROXY");
    reveal_strlit("HTTPS_PROXY");
    reveal_strlit("http_proxy");
    reveal_strlit("https_proxy");
    reveal_strlit("ALL_PROXY");
    reveal_strlit("all_proxy");
    reveal_strlit("NO_PROXY");
    reveal_strlit("no_proxy");
    assert("HTTP_PROXY"@[0] == 'H' && "http_proxy"@[0] == 'h');
    assert("HTTPS_PROXY"@[0] == 'H' && "https_proxy"@[0] == 'h');
    assert("ALL_PROXY"@[0] == 'A' && "all_proxy"@[0] == 'a');
    reveal_with_fuel(Registry::after_all, 11);
}

/// A proxy on this machine with other ports is not taken for the one that was left behind,
/// though it was set in the same way.
pub proof fn law_proxy_with_other_ports_is_not_stale(
    before: Registry,
    set: (u16, u16),
    http_port: u16,
    socks_port: u16,
    bypass: Seq<Seq<char>>,
)
    requires
        set.0 != http_port,
        set.0 != socks_port,
        set.1 != http_port,
        set.1 != socks_port,
    ensures
        ({
            let other = Some(proxy::local_endpoints(set.0, set.1));
            !before.after_all(
                proxy_steps(true, other, bypass) + environment_steps(other, bypass),
            ).is_stale(proxy::local_endpoints(http_port, socks_port))
        }),
{
    let ep = proxy::local_endpoints(http_port, socks_port);
    let other = proxy::local_endpoints(set.0, set.1);
    let first = proxy_steps(true, Some(other), bypass);
    let second = environment_steps(Some(other), bypass);
    lemma_after_join(before, first, second);
    let middle = before.after_all(first);
    let end = middle.after_all(second);
    lemma_proxy_is_set(before, other, bypass);
    lemma_variables_are_set(middle, other, bypass);
    reveal_strlit("Software\\Microsoft\\Windows\\CurrentVersion\\Internet Settings");
    reveal_strlit("Environment");
    assert(INTERNET_SETTINGS@.len() != ENV_KEY@.len());
    lemma_other_keys_stay(middle, other, bypass, INTERNET_SETTINGS@, "ProxyServer"@);
    law_server_names_its_ports_only(http_port, socks_port, set.0);
    law_variable_names_its_ports_only(http_port, socks_port, set.0);
    law_variable_names_its_ports_only(http_port, socks_port, set.1);
    let found = looked_at().map_values(|name: Seq<char>| end.text(ENV_KEY@, name));
    assert forall|i: int| 0 <= i < found.len() implies !(#[trigger] found[i] matches Some(v)
        && variable_names(ep, v)) by {
        assert(found[i] == end.text(ENV_KEY@, looked_at()[i]));
        assert(found[i] == Some(other.http_url()) || found[i] == Some(other.socks_url()));
    }
}

// ----- what the whole plan does to the registry -----

/// The names of the variables by which programs find the proxy, or go around it.
pub open spec fn is_proxy_variable(name: Seq<char>) -> bool {
    ||| name == "HTTP_PROXY"@
    ||| name == "HTTPS_PROXY"@
    ||| name == "http_proxy"@
    ||| name == "https_proxy"@
    ||| name == "ALL_PROXY"@
    ||| name == "all_proxy"@
    ||| name == "NO_PROXY"@
    ||| name == "no_proxy"@
}

/// The key under which Windows keeps its proxy, and the one for the environment of the user.
proof fn lemma_keys_differ()
    ensures
        INTERNET_SETTINGS@ != ENV_KEY@,
        "ProxyEnable"@ != "ProxyServer"@,
        "ProxyEnable"@ != "ProxyOverride"@,
        "ProxyServer"@ != "ProxyOverride"@,
{
    reveal_strlit("Software\\Microsoft\\Windows\\CurrentVersion\\Internet Settings");
    reveal_strlit("Environment");
    reveal_strlit("ProxyEnable");
    reveal_strlit("ProxyServer");
    reveal_strlit("ProxyOverride");
    assert(INTERNET_SETTINGS@.len() != ENV_KEY@.len());
    assert("ProxyEnable"@[5] == 'E' && "ProxyServer"@[5] == 'S');
    assert("ProxyEnable"@.len() == 11 && "ProxyServer"@.len() == 11 && "ProxyOverride"@.len()
        == 13);
}

proof fn lemma_variables_differ()
    ensures
        "HTTP_PROXY"@.len() == 10,
        "http_proxy"@.len() == 10,
        "HTTPS_PROXY"@.len() == 11,
        "https_proxy"@.len() == 11,
        "ALL_PROXY"@.len() == 9,
        "all_proxy"@.len() == 9,
        "NO_PROXY"@.len() == 8,
        "no_proxy"@.len() == 8,
        "HTTP_PROXY"@ != "http_proxy"@,
        "HTTPS_PROXY"@ != "https_proxy"@,
        "ALL_PROXY"@ != "all_proxy"@,
        "NO_PROXY"@ != "no_proxy"@,
{
    reveal_strlit("HTTP_PROXY");
    reveal_strlit("HTTPS_PROXY");
    reveal_strlit("http_proxy");
    reveal_strlit("https_proxy");
    reveal_strlit("ALL_PROXY");
    reveal_strlit("all_proxy");
    reveal_strlit("NO_PROXY");
    reveal_strlit("no_proxy");
    assert("HTTP_PROXY"@[0] == 'H' && "http_proxy"@[0] == 'h');
    assert("HTTPS_PROXY"@[0] == 'H' && "https_proxy"@[0] == 'h');
    assert("ALL_PROXY"@[0] == 'A' && "all_proxy"@[0] == 'a');
    assert("NO_PROXY"@[0] == 'N' && "no_proxy"@[0] == 'n');
}

proof fn lemma_after_setting(before: Registry, ep: EndpointsModel, bypass: Seq<Seq<char>>)
    ensures
        ({
            let end = before.after_all(proxy_steps(true, Some(ep), bypass));
            &&& end.numbers == before.numbers.insert((INTERNET_SETTINGS@, "ProxyEnable"@), 1u32)
            &&& end.texts == before.texts.insert(
                (INTERNET_SETTINGS@, "ProxyServer"@),
                ep.windows_server(),
            ).insert((INTERNET_SETTINGS@, "ProxyOverride"@), proxy_override(bypass))
        }),
{
    let steps = proxy_steps(true, Some(ep), bypass);
    let s1 = steps.skip(1);
    let s2 = s1.skip(1);
    let s3 = s2.skip(1);
    let s4 = s3.skip(1);
    assert(s4.skip(1).len() == 0);
    assert(s1[0] == steps[1] && s2[0] == steps[2] && s3[0] == steps[3] && s4[0] == steps[4]);
    reveal_with_fuel(Registry::after_all, 6);
}

proof fn lemma_after_clearing(before: Registry)
    ensures
        ({
            let end = before.after_all(proxy_steps(false, None, Seq::empty()));
            &&& end.numbers == before.numbers.insert(
                (INTERNET_SETTINGS@, "ProxyEnable"@),
                0u32,
            ).remove((INTERNET_SETTINGS@, "ProxyServer"@))
            &&& end.texts == before.texts.remove((INTERNET_SETTINGS@, "ProxyServer"@))
        }),
{
    let steps = proxy_steps(false, None, Seq::empty());
    let s1 = steps.skip(1);
    let s2 = s1.skip(1);
    let s3 = s2.skip(1);
    assert(s3.skip(1).len() == 0);
    assert(s1[0] == steps[1] && s2[0] == steps[2] && s3[0] == steps[3]);
    reveal_with_fuel(Registry::after_all, 5);
}

proof fn lemma_environment_steps_at(steps: Seq<StepModel>)
    requires
        steps.len() == 10,
    ensures
        ({
            let s1 = steps.skip(1);
            let s2 = s1.skip(1);
            let s3 = s2.skip(1);
            let s4 = s3.skip(1);
            let s5 = s4.skip(1);
            let s6 = s5.skip(1);
            let s7 = s6.skip(1);
            let s8 = s7.skip(1);
            let s9 = s8.skip(1);
            &&& s1[0] == steps[1]
            &&& s2[0] == steps[2]
            &&& s3[0] == steps[3]
            &&& s4[0] == steps[4]
            &&& s5[0] == steps[5]
            &&& s6[0] == steps[6]
            &&& s7[0] == steps[7]
            &&& s8[0] == steps[8]
            &&& s9[0] == steps[9]
            &&& s9.skip(1).len() == 0
        }),
{
}

proof fn lemma_environment_after_setting(
    before: Registry,
    ep: EndpointsModel,
    bypass: Seq<Seq<char>>,
)
    ensures
        ({
            let end = before.after_all(environment_steps(Some(ep), bypass));
            &&& end.numbers == before.numbers
            &&& end.texts == before.texts.insert((ENV_KEY@, "HTTP_PROXY"@), ep.http_url()).insert(
                (ENV_KEY@, "HTTPS_PROXY"@),
                ep.http_url(),
            ).insert((ENV_KEY@, "http_proxy"@), ep.http_url()).insert(
                (ENV_KEY@, "https_proxy"@),
                ep.http_url(),
            ).insert((ENV_KEY@, "ALL_PROXY"@), ep.socks_url()).insert(
                (ENV_KEY@, "all_proxy"@),
                ep.socks_url(),
            ).insert((ENV_KEY@, "NO_PROXY"@), no_proxy(bypass)).insert(
                (ENV_KEY@, "no_proxy"@),
                no_proxy(bypass),
            )
        }),
{
    lemma_environment_steps_at(environment_steps(Some(ep), bypass));
    reveal_with_fuel(Registry::after_all, 11);
}

proof fn lemma_environment_after_clearing(before: Registry, key: Seq<char>, name: Seq<char>)
    ensures
        ({
            let end = before.after_all(environment_steps(None, Seq::empty()));
            &&& key == ENV_KEY@ && is_proxy_variable(name) ==> end.text(key, name) is None
                && end.number(key, name) is None
            &&& !(key == ENV_KEY@ && is_proxy_variable(name)) ==> end.text(key, name)
                == before.text(key, name) && end.number(key, name) == before.number(key, name)
        }),
{
    lemma_environment_steps_at(environment_steps(None, Seq::empty()));
    reveal_with_fuel(Registry::after_all, 11);
}

/// Whatever stood in the registry, once the plan that makes Windows use the proxy was carried out
/// the proxy is on with the address of the HTTP proxy, and goes around this machine and each host
/// that was named.
pub proof fn law_windows_uses_the_proxy(
    before: Registry,
    ep: EndpointsModel,
    bypass: Seq<Seq<char>>,
    i: int,
)
    requires
        0 <= i < bypass.len(),
    ensures
        ({
            let key = "Software\\Microsoft\\Windows\\CurrentVersion\\Internet Settings"@;
            let end = before.after_all(
                proxy_steps(true, Some(ep), bypass) + environment_steps(Some(ep), bypass),
            );
            &&& end.number(key, "ProxyEnable"@) == Some(1u32)
            &&& end.text(key, "ProxyServer"@) == Some(
                "http="@ + ep.http_address() + ";https="@ + ep.http_address(),
            )
            &&& end.text(key, "ProxyOverride"@) matches Some(list) && text::starts_with(
                list,
                "localhost;127.*;10.*;192.168.*;<local>"@,
            ) && (!text::blank(bypass[i]) ==> text::contains(
                list,
                seq![';'] + text::trimmed(bypass[i]),
            ))
        }),
{
    let first = proxy_steps(true, Some(ep), bypass);
    let second = environment_steps(Some(ep), bypass);
    lemma_after_join(before, first, second);
    lemma_keys_differ();
    lemma_after_setting(before, ep, bypass);
    lemma_environment_after_setting(before.after_all(first), ep, bypass);
    lemma_around_the_proxy("localhost;127.*;10.*;192.168.*;<local>"@, ';', bypass, i);
}

proof fn lemma_around_the_proxy(start: Seq<char>, mark: char, bypass: Seq<Seq<char>>, i: int)
    requires
        0 <= i < bypass.len(),
    ensures
        ({
            let list = proxy::listed(start, mark, proxy::named_hosts(bypass));
            &&& text::starts_with(list, start)
            &&& !text::blank(bypass[i]) ==> text::contains(
                list,
                seq![mark] + text::trimmed(bypass[i]),
            )
        }),
{
    let named = proxy::named_hosts(bypass);
    proxy::law_named_hosts_are_those_that_are_not_blank(bypass, i);
    if named.len() > 0 {
        proxy::law_list_holds_each_item(start, mark, named, 0);
    } else {
        assert(start.subrange(0, start.len() as int) =~= start);
    }
    if !text::blank(bypass[i]) {
        let k = choose|k: int| 0 <= k < named.len() && named[k] == text::trimmed(bypass[i]);
        proxy::law_list_holds_each_item(start, mark, named, k);
    }
}

/// Whatever stood in the registry, once that plan was carried out programs find the HTTP proxy
/// for HTTP and HTTPS and the SOCKS proxy for all else, in small letters and in capitals, and go
/// around this machine and each host that was named.
pub proof fn law_programs_find_the_proxy(
    before: Registry,
    ep: EndpointsModel,
    bypass: Seq<Seq<char>>,
    i: int,
)
    requires
        0 <= i < bypass.len(),
    ensures
        ({
            let key = "Environment"@;
            let end = before.after_all(
                proxy_steps(true, Some(ep), bypass) + environment_steps(Some(ep), bypass),
            );
            &&& end.text(key, "HTTP_PROXY"@) == Some("http://"@ + ep.http_address())
            &&& end.text(key, "http_proxy"@) == Some("http://"@ + ep.http_address())
            &&& end.text(key, "HTTPS_PROXY"@) == Some("http://"@ + ep.http_address())
            &&& end.text(key, "https_proxy"@) == Some("http://"@ + ep.http_address())
            &&& end.text(key, "ALL_PROXY"@) == Some("socks5://"@ + ep.socks_address())
            &&& end.text(key, "all_proxy"@) == Some("socks5://"@ + ep.socks_address())
            &&& end.text(key, "NO_PROXY"@) == end.text(key, "no_proxy"@)
            &&& end.text(key, "no_proxy"@) matches Some(list) && text::starts_with(
                list,
                "localhost,127.0.0.1,::1"@,
            ) && (!text::blank(bypass[i]) ==> text::contains(
                list,
                seq![','] + text::trimmed(bypass[i]),
            ))
        }),
{
    let first = proxy_steps(true, Some(ep), bypass);
    let second = environment_steps(Some(ep), bypass);
    lemma_after_join(before, first, second);
    lemma_variables_differ();
    lemma_environment_after_setting(before.after_all(first), ep, bypass);
    lemma_around_the_proxy("localhost,127.0.0.1,::1"@, ',', bypass, i);
}

/// Setting the proxy changes nothing else in the registry.
pub proof fn law_setting_changes_nothing_else(
    before: Registry,
    ep: EndpointsModel,
    bypass: Seq<Seq<char>>,
    key: Seq<char>,
    name: Seq<char>,
)
    requires
        !(key == "Environment"@ && is_proxy_variable(name)),
        !(key == "Software\\Microsoft\\Windows\\CurrentVersion\\Internet Settings"@ && (name
            == "ProxyEnable"@ || name == "ProxyServer"@ || name == "ProxyOverride"@)),
    ensures
        ({
            let end = before.after_all(
                proxy_steps(true, Some(ep), bypass) + environment_steps(Some(ep), bypass),
            );
            &&& end.text(key, name) == before.text(key, name)
            &&& end.number(key, name) == before.number(key, name)
        }),
{
    let first = proxy_steps(true, Some(ep), bypass);
    lemma_after_join(before, first, environment_steps(Some(ep), bypass));
    lemma_after_setting(before, ep, bypass);
    lemma_environment_after_setting(before.after_all(first), ep, bypass);
}

/// Whatever stood in the registry, once the plan that makes Windows no longer use the proxy was
/// carried out the proxy is off, its address is gone, no program finds it by a variable, and
/// nothing else has changed.
pub proof fn law_cleared_windows_uses_no_proxy(before: Registry, key: Seq<char>, name: Seq<char>)
    ensures
        ({
            let settings = "Software\\Microsoft\\Windows\\CurrentVersion\\Internet Settings"@;
            let end = before.after_all(
                proxy_steps(false, None, Seq::empty()) + environment_steps(None, Seq::empty()),
            );
            &&& end.number(settings, "ProxyEnable"@) == Some(0u32)
            &&& end.text(settings, "ProxyServer"@) is None
            &&& key == "Environment"@ && is_proxy_variable(name) ==> end.text(key, name) is None
            &&& !(key == "Environment"@ && is_proxy_variable(name)) && !(key == settings && (name
                == "ProxyEnable"@ || name == "ProxyServer"@)) ==> end.text(key, name)
                == before.text(key, name) && end.number(key, name) == before.number(key, name)
        }),
{
    let first = proxy_steps(false, None, Seq::empty());
    let middle = before.after_all(first);
    lemma_after_join(before, first, environment_steps(None, Seq::empty()));
    lemma_keys_differ();
    lemma_after_clearing(before);
    lemma_environment_after_clearing(middle, key, name);
    lemma_environment_after_clearing(middle, INTERNET_SETTINGS@, "ProxyEnable"@);
    lemma_environment_after_clearing(middle, INTERNET_SETTINGS@, "ProxyServer"@);
}

/// The plans for Windows do first what concerns the system and then what concerns programs, and
/// each part ends by telling of the change.
pub proof fn law_windows_plans_tell_of_the_change(
    ep: EndpointsModel,
    bypass: Seq<Seq<char>>,
)
    ensures
        ({
            let on = proxy::enable_plan(proxy::Platform::Windows, ep, bypass);
            let off = proxy::disable_plan(proxy::Platform::Windows);
            &&& on == Ok::<proxy::PlanModel, proxy::ProxyError>(
                proxy::PlanModel::Registry(
                    proxy_steps(true, Some(ep), bypass) + environment_steps(Some(ep), bypass),
                ),
            )
            &&& off == proxy::PlanModel::Registry(
                proxy_steps(false, None, Seq::empty()) + environment_steps(None, Seq::empty()),
            )
            &&& proxy_steps(true, Some(ep), bypass).last().action == ActionModel::NotifyProxy
            &&& proxy_steps(false, None, Seq::empty()).last().action == ActionModel::NotifyProxy
            &&& environment_steps(Some(ep), bypass).last().action
                == ActionModel::NotifyEnvironment
            &&& environment_steps(None, Seq::empty()).last().action
                == ActionModel::NotifyEnvironment
        }),
{
}

/// A step stops the plan where the proxy would be set by halves: opening a key, turning the proxy
/// on or off, and setting its address or a variable. What is only tidied up or told is passed
/// over where it fails.
pub proof fn law_what_stops_a_windows_plan(ep: EndpointsModel, bypass: Seq<Seq<char>>, i: int)
    ensures
        ({
            let on = proxy_steps(true, Some(ep), bypass) + environment_steps(Some(ep), bypass);
            let off = proxy_steps(false, None, Seq::empty()) + environment_steps(
                None,
                Seq::empty(),
            );
            &&& 0 <= i < on.len() ==> (on[i].on_failure is Ignore <==> on[i].action is NotifyProxy
                || on[i].action is NotifyEnvironment || (on[i].action matches ActionModel::SetText(
                name,
                _,
            ) && name == "ProxyOverride"@))
            &&& 0 <= i < off.len() ==> (off[i].on_failure is Ignore <==> off[i].action is NotifyProxy
                || off[i].action is NotifyEnvironment || off[i].action is Remove)
        }),
{
    lemma_keys_differ();
    reveal_strlit("ProxyOverride");
    reveal_strlit("HTTP_PROXY");
    reveal_strlit("HTTPS_PROXY");
    reveal_strlit("http_proxy");
    reveal_strlit("https_proxy");
    reveal_strlit("ALL_PROXY");
    reveal_strlit("all_proxy");
    reveal_strlit("NO_PROXY");
    reveal_strlit("no_proxy");
    assert("ProxyOverride"@.len() == 13);
}

/// Without endpoints the proxy is not turned on: nothing is changed, and the plan stops.
pub proof fn law_without_endpoints_nothing_is_set(before: Registry, bypass: Seq<Seq<char>>)
    ensures
        ({
            let steps = proxy_steps(true, None, bypass);
            let end = before.after_all(steps);
            &&& end.numbers == before.numbers
            &&& end.texts == before.texts
            &&& steps.last().action is Refuse
            &&& steps.last().on_failure is Stop
        }),
{
    let steps = proxy_steps(true, None, bypass);
    assert(steps.skip(1)[0] == steps[1]);
    assert(steps.skip(1).skip(1).len() == 0);
    reveal_with_fuel(Registry::after_all, 3);
}

/// A proxy was left behind exactly if it is on and its address is one of the endpoints', or some
/// variable that is looked at names this machine with one of their ports; a proxy that is off, or
/// that has no address, is none.
pub proof fn law_what_counts_as_left_behind(
    ep: EndpointsModel,
    enable: Option<u32>,
    server: Option<Seq<char>>,
    variables: Seq<Option<Seq<char>>>,
)
    ensures
        (enable != Some(1u32) || server is None) && (forall|i: int|
            0 <= i < variables.len() ==> #[trigger] variables[i] is None) ==> !is_left_behind(
            ep,
            enable,
            server,
            variables,
        ),
        forall|more: Option<Seq<char>>|
            is_left_behind(ep, enable, server, variables) ==> #[trigger] is_left_behind(
                ep,
                enable,
                server,
                variables.push(more),
            ),
        looked_at().contains("HTTP_PROXY"@),
        looked_at().contains("http_proxy"@),
        looked_at().contains("HTTPS_PROXY"@),
        looked_at().contains("https_proxy"@),
        looked_at().contains("ALL_PROXY"@),
        looked_at().contains("all_proxy"@),
{
    assert forall|more: Option<Seq<char>>|
        is_left_behind(ep, enable, server, variables) implies #[trigger] is_left_behind(
        ep,
        enable,
        server,
        variables.push(more),
    ) by {
        if !(enable == Some(1u32) && (server matches Some(s) && server_names(ep, s))) {
            let i = choose|i: int|
                0 <= i < variables.len() && (#[trigger] variables[i] matches Some(v)
                    && variable_names(ep, v));
            assert(variables.push(more)[i] == variables[i]);
        }
    }
    let l = looked_at();
    assert(l[0] == "HTTP_PROXY"@ && l[1] == "HTTPS_PROXY"@ && l[2] == "http_proxy"@ && l[3]
        == "https_proxy"@ && l[4] == "ALL_PROXY"@ && l[5] == "all_proxy"@);
}

} // verus!
