//! Where the local proxy listens, and what is done to the system to use it.
use vstd::prelude::*;
use vstd::string::StringExecFns;

use crate::text;
use crate::text::{blank, trimmed, views};
use crate::windows_proxy;
use crate::windows_proxy::RegistryStep;

verus! {

// ----- endpoints -----

/// The addresses on which the local proxy listens.
#[derive(Debug)]
pub struct ProxyEndpoints {
    pub http_host: String,
    pub http_port: u16,
    pub socks_host: String,
    pub socks_port: u16,
}

/// The addresses on which the local proxy listens, as plain text.
#[verifier::ext_equal]
pub struct EndpointsModel {
    pub http_host: Seq<char>,
    pub http_port: u16,
    pub socks_host: Seq<char>,
    pub socks_port: u16,
}

impl View for ProxyEndpoints {
    type V = EndpointsModel;

    open spec fn view(&self) -> EndpointsModel {
        EndpointsModel {
            http_host: self.http_host@,
            http_port: self.http_port,
            socks_host: self.socks_host@,
            socks_port: self.socks_port,
        }
    }
}

impl Clone for ProxyEndpoints {
    fn clone(&self) -> (r: Self)
        ensures
            r@ == self@,
    {
        ProxyEndpoints {
            http_host: self.http_host.clone(),
            http_port: self.http_port,
            socks_host: self.socks_host.clone(),
            socks_port: self.socks_port,
        }
    }
}

/// The endpoints on this machine.
pub open spec fn local_endpoints(http_port: u16, socks_port: u16) -> EndpointsModel {
    EndpointsModel {
        http_host: "127.0.0.1"@,
        http_port,
        socks_host: "127.0.0.1"@,
        socks_port,
    }
}

impl EndpointsModel {
    /// The address of the HTTP proxy.
    pub open spec fn http_address(self) -> Seq<char> {
        text::address(self.http_host, self.http_port)
    }

    /// The address of the SOCKS proxy.
    pub open spec fn socks_address(self) -> Seq<char> {
        text::address(self.socks_host, self.socks_port)
    }

    /// The URL of the HTTP proxy.
    pub open spec fn http_url(self) -> Seq<char> {
        "http://"@ + self.http_address()
    }

    /// The URL of the SOCKS proxy.
    pub open spec fn socks_url(self) -> Seq<char> {
        "socks5://"@ + self.socks_address()
    }

    /// The proxy for HTTP and HTTPS in the words of Windows.
    pub open spec fn windows_server(self) -> Seq<char> {
        "http="@ + self.http_address() + ";https="@ + self.http_address()
    }
}

impl ProxyEndpoints {
    /// The endpoints on this machine.
    pub fn local(http_port: u16, socks_port: u16) -> (r: Self)
        ensures
            r@ == local_endpoints(http_port, socks_port),
    {
        ProxyEndpoints {
            http_host: "127.0.0.1".to_owned(),
            http_port,
            socks_host: "127.0.0.1".to_owned(),
            socks_port,
        }
    }

    /// The address of the HTTP proxy.
    pub fn http_address(&self) -> (r: String)
        ensures
            r@ == self@.http_address(),
    {
        text::address_string(self.http_host.as_str(), self.http_port)
    }

    /// The address of the SOCKS proxy.
    pub fn socks_address(&self) -> (r: String)
        ensures
            r@ == self@.socks_address(),
    {
        text::address_string(self.socks_host.as_str(), self.socks_port)
    }

    /// The URL of the HTTP proxy.
    pub fn http_url(&self) -> (r: String)
        ensures
            r@ == self@.http_url(),
    {
        text::join("http://", self.http_address().as_str())
    }

    /// The URL of the SOCKS proxy.
    pub fn socks_url(&self) -> (r: String)
        ensures
            r@ == self@.socks_url(),
    {
        text::join("socks5://", self.socks_address().as_str())
    }

    /// The system proxy of Windows: HTTP and HTTPS only, so that the system puts no SOCKS
    /// layer on top. SOCKS is still offered to programs by `ALL_PROXY`.
    pub fn windows_proxy_server(&self) -> (r: String)
        ensures
            r@ == self@.windows_server(),
    {
        let address = self.http_address();
        let mut out = text::join("http=", address.as_str());
        out.append(";https=");
        out.append(address.as_str());
        out
    }
}

// ----- hosts that go around the proxy -----

/// The hosts that are not blank, without white space around them.
pub open spec fn named_hosts(hosts: Seq<Seq<char>>) -> Seq<Seq<char>>
    decreases hosts.len(),
{
    if hosts.len() == 0 {
        Seq::empty()
    } else if blank(hosts.last()) {
        named_hosts(hosts.drop_last())
    } else {
        named_hosts(hosts.drop_last()).push(trimmed(hosts.last()))
    }
}

/// The hosts that are not blank, without white space around them.
pub fn hosts_to_name(hosts: &[String]) -> (r: Vec<String>)
    ensures
        views(r@) == named_hosts(views(hosts@)),
{
    let mut out: Vec<String> = Vec::new();
    let mut i: usize = 0;
    assert(views(out@) =~= named_hosts(views(hosts@).take(0)));
    while i < hosts.len()
        invariant
            i <= hosts@.len(),
            views(out@) == named_hosts(views(hosts@).take(i as int)),
        decreases hosts@.len() - i,
    {
        let host = text::trim(hosts[i].as_str());
        let shown = text::chars_of(host);
        proof {
            let before = views(hosts@).take(i as int);
            let now = views(hosts@).take(i + 1);
            assert(now.drop_last() =~= before);
            assert(now.last() == hosts@[i as int]@);
        }
        if shown.len() > 0 {
            let ghost earlier = out@;
            let named = host.to_owned();
            out.push(named);
            assert(views(out@) =~= views(earlier).push(host@));
        }
        i = i + 1;
    }
    assert(views(hosts@).take(hosts@.len() as int) =~= views(hosts@));
    out
}

/// A text with each of the others behind it, each behind a mark.
pub open spec fn listed(start: Seq<char>, mark: char, items: Seq<Seq<char>>) -> Seq<char>
    decreases items.len(),
{
    if items.len() == 0 {
        start
    } else {
        listed(start, mark, items.drop_last()) + seq![mark] + items.last()
    }
}

/// A text with each of the others behind it, each behind a mark.
pub fn list_text(start: &str, mark: char, items: &[String]) -> (r: String)
    ensures
        r@ == listed(start@, mark, views(items@)),
{
    let mut out = start.to_owned();
    let mut i: usize = 0;
    assert(views(items@).take(0) =~= Seq::<Seq<char>>::empty());
    while i < items.len()
        invariant
            i <= items@.len(),
            out@ == listed(start@, mark, views(items@).take(i as int)),
        decreases items@.len() - i,
    {
        proof {
            let now = views(items@).take(i + 1);
            assert(now.drop_last() =~= views(items@).take(i as int));
            assert(now.last() == items@[i as int]@);
        }
        let ghost before = out@;
        out.push(mark);
        out.append(items[i].as_str());
        assert(out@ =~= before + seq![mark] + items@[i as int]@);
        i = i + 1;
    }
    assert(views(items@).take(items@.len() as int) =~= views(items@));
    out
}

// ----- what is done to the system -----

/// The kinds of system that are told apart.
#[derive(Debug, Clone, Copy, PartialEq, Eq, Structural)]
pub enum Platform {
    Windows,
    MacOs,
    Linux,
    Other,
}

/// Why the system proxy cannot be set.
#[derive(Debug, Clone, Copy, PartialEq, Eq, Structural)]
pub enum ProxyError {
    /// Nothing is known of how this system keeps its proxy.
    Unsupported,
}

impl ProxyError {
    /// The text for the error.
    pub open spec fn text(self) -> Seq<char> {
        "当前平台尚未实现系统代理自动设置，请手动配置 HTTP/SOCKS 代理"@
    }

    /// The text for the error.
    pub fn message(&self) -> (r: &'static str)
        ensures
            r@ == self.text(),
    {
        "当前平台尚未实现系统代理自动设置，请手动配置 HTTP/SOCKS 代理"
    }
}

/// What has to be done to the system.
#[derive(Debug)]
pub enum ProxyPlan {
    /// Nothing.
    Nothing,
    /// Take these steps, one after the other.
    Registry(Vec<RegistryStep>),
    /// Ask for the network services, and change each of them.
    Services,
}

/// What has to be done to the system, as plain text.
#[verifier::ext_equal]
pub enum PlanModel {
    Nothing,
    Registry(Seq<windows_proxy::StepModel>),
    Services,
}

impl View for ProxyPlan {
    type V = PlanModel;

    open spec fn view(&self) -> PlanModel {
        match self {
            ProxyPlan::Nothing => PlanModel::Nothing,
            ProxyPlan::Registry(steps) => PlanModel::Registry(windows_proxy::step_views(steps@)),
            ProxyPlan::Services => PlanModel::Services,
        }
    }
}

/// What makes the system use the proxy.
pub open spec fn enable_plan(
    platform: Platform,
    endpoints: EndpointsModel,
    bypass: Seq<Seq<char>>,
) -> Result<PlanModel, ProxyError> {
    match platform {
        Platform::Windows => Ok(
            PlanModel::Registry(
                windows_proxy::proxy_steps(true, Some(endpoints), bypass)
                    + windows_proxy::environment_steps(Some(endpoints), bypass),
            ),
        ),
        Platform::MacOs => Ok(PlanModel::Services),
        Platform::Linux | Platform::Other => Err(ProxyError::Unsupported),
    }
}

/// What makes the system no longer use the proxy.
pub open spec fn disable_plan(platform: Platform) -> PlanModel {
    match platform {
        Platform::Windows => PlanModel::Registry(
            windows_proxy::proxy_steps(false, None, Seq::empty())
                + windows_proxy::environment_steps(None, Seq::empty()),
        ),
        Platform::MacOs => PlanModel::Services,
        Platform::Linux | Platform::Other => PlanModel::Nothing,
    }
}

/// What makes the system use the proxy.
pub fn enable_system_proxy(
    platform: Platform,
    endpoints: &ProxyEndpoints,
    bypass_hosts: &[String],
) -> (r: Result<ProxyPlan, ProxyError>)
    ensures
        (match r {
            Ok(p) => Ok(p@),
            Err(e) => Err(e),
        }) == enable_plan(platform, endpoints@, views(bypass_hosts@)),
{
    match platform {
        Platform::Windows => {
            let mut steps = windows_proxy::set_proxy(true, Some(endpoints), bypass_hosts);
            let mut more = windows_proxy::set_user_env_proxies(Some(endpoints), bypass_hosts);
            let ghost first = steps@;
            let ghost second = more@;
            steps.append(&mut more);
            proof {
                windows_proxy::lemma_step_views_join(first, second);
            }
            Ok(ProxyPlan::Registry(steps))
        },
        Platform::MacOs => Ok(ProxyPlan::Services),
        Platform::Linux | Platform::Other => Err(ProxyError::Unsupported),
    }
}

/// What makes the system no longer use the proxy.
pub fn disable_system_proxy(platform: Platform) -> (r: ProxyPlan)
    ensures
        r@ == disable_plan(platform),
{
    match platform {
        Platform::Windows => {
            let none: Vec<String> = Vec::new();
            assert(views(none@) =~= Seq::<Seq<char>>::empty());
            let mut steps = windows_proxy::set_proxy(false, None, &none);
            let mut more = windows_proxy::set_user_env_proxies(None, &none);
            let ghost first = steps@;
            let ghost second = more@;
            steps.append(&mut more);
            proof {
                windows_proxy::lemma_step_views_join(first, second);
            }
            ProxyPlan::Registry(steps)
        },
        Platform::MacOs => ProxyPlan::Services,
        Platform::Linux | Platform::Other => ProxyPlan::Nothing,
    }
}

/// Whether a proxy that was left behind was cleared, or why it could not be.
pub open spec fn cleanup_outcome(stale: bool, failure: Option<Seq<char>>) -> Result<bool, Seq<char>> {
    if !stale {
        Ok(false)
    } else {
        match failure {
            Some(why) => Err(why),
            None => Ok(true),
        }
    }
}

/// Whether a proxy that was left behind was cleared: there was one, and clearing it did not fail.
/// It is cleared only if there was one; where that failed, the failure is handed on.
pub fn cleanup_stale_local_proxy(stale: bool, failure: Option<String>) -> (r: Result<bool, String>)
    ensures
        r == match failure {
            Some(why) if stale => Err::<bool, String>(why),
            _ => Ok(stale),
        },
        (match r {
            Ok(cleared) => Ok(cleared),
            Err(why) => Err(why@),
        }) == cleanup_outcome(
            stale,
            match failure {
                Some(why) => Some(why@),
                None => None,
            },
        ),
{
    if !stale {
        return Ok(false);
    }
    match failure {
        Some(why) => Err(why),
        None => Ok(true),
    }
}

// ----- laws -----

/// Only a system of which nothing is known refuses to be set; none refuses to be cleared.
pub proof fn law_only_unknown_systems_refuse(
    platform: Platform,
    endpoints: EndpointsModel,
    bypass: Seq<Seq<char>>,
)
    ensures
        enable_plan(platform, endpoints, bypass) is Err <==> platform == Platform::Linux || platform
            == Platform::Other,
        enable_plan(platform, endpoints, bypass) is Err ==> disable_plan(platform)
            == PlanModel::Nothing,
{
}

/// The hosts that are named are those that are not blank, without white space around them.
pub proof fn law_named_hosts_are_those_that_are_not_blank(hosts: Seq<Seq<char>>, i: int)
    requires
        0 <= i < hosts.len(),
    ensures
        !blank(hosts[i]) ==> named_hosts(hosts).contains(trimmed(hosts[i])),
        forall|k: int|
            0 <= k < named_hosts(hosts).len() ==> (#[trigger] named_hosts(hosts)[k]).len() > 0,
        named_hosts(hosts).len() <= hosts.len(),
        (forall|k: int| 0 <= k < hosts.len() ==> !blank(#[trigger] hosts[k])) ==> named_hosts(
            hosts,
        ).len() == hosts.len() && named_hosts(hosts)[i] == trimmed(hosts[i]),
    decreases hosts.len(),
{
    let fewer = hosts.drop_last();
    let before = named_hosts(fewer);
    let after = named_hosts(hosts);
    if fewer.len() > 0 {
        law_named_hosts_are_those_that_are_not_blank(fewer, if i < fewer.len() { i } else { 0 });
    }
    if i < fewer.len() {
        assert(fewer[i] == hosts[i]);
        if !blank(hosts[i]) {
            let k = choose|k: int| 0 <= k < before.len() && before[k] == trimmed(hosts[i]);
            assert(after[k] == trimmed(hosts[i]));
        }
    } else if !blank(hosts[i]) {
        assert(after[before.len() as int] == trimmed(hosts[i]));
    }
    if forall|k: int| 0 <= k < hosts.len() ==> !blank(#[trigger] hosts[k]) {
        assert forall|k: int| 0 <= k < fewer.len() implies !blank(#[trigger] fewer[k]) by {
            assert(fewer[k] == hosts[k]);
        }
        if fewer.len() == 0 {
            assert(before.len() == 0);
        }
    }
}

/// The hosts of two lists come one list behind the other.
pub proof fn law_named_hosts_keep_their_order(first: Seq<Seq<char>>, second: Seq<Seq<char>>)
    ensures
        named_hosts(first + second) == named_hosts(first) + named_hosts(second),
    decreases second.len(),
{
    let whole = first + second;
    if second.len() == 0 {
        assert(whole =~= first);
        assert(named_hosts(first) + named_hosts(second) =~= named_hosts(first));
    } else {
        assert(whole.drop_last() =~= first + second.drop_last());
        assert(whole.last() == second.last());
        law_named_hosts_keep_their_order(first, second.drop_last());
        assert(named_hosts(whole) =~= named_hosts(first) + named_hosts(second));
    }
}

/// A list begins with its start, and each item stands in it with the mark before it.
pub proof fn law_list_holds_each_item(start: Seq<char>, mark: char, items: Seq<Seq<char>>, i: int)
    requires
        0 <= i < items.len(),
    ensures
        text::starts_with(listed(start, mark, items), start),
        text::contains(listed(start, mark, items), seq![mark] + items[i]),
        listed(start, mark, Seq::empty()) == start,
        listed(start, mark, items) == listed(
            listed(start, mark, items.take(i)),
            mark,
            items.skip(i),
        ),
        i == items.len() - 1 ==> listed(start, mark, items) == listed(start, mark, items.drop_last())
            + (seq![mark] + items.last()),
    decreases items.len(),
{
    let whole = listed(start, mark, items);
    let fewer = items.drop_last();
    let before = listed(start, mark, fewer);
    if fewer.len() > 0 {
        law_list_holds_each_item(start, mark, fewer, if i < fewer.len() { i } else { 0 });
    } else {
        assert(fewer =~= Seq::<Seq<char>>::empty());
        assert(start.subrange(0, start.len() as int) =~= start);
    }
    assert(before.subrange(0, start.len() as int) == start);
    assert(whole.subrange(0, start.len() as int) =~= before.subrange(0, start.len() as int));
    let item = seq![mark] + items[i];
    if i < fewer.len() {
        assert(fewer[i] == items[i]);
        let k = choose|k: int| text::occurs_at(before, item, k);
        assert(whole.subrange(k, k + item.len()) =~= before.subrange(k, k + item.len()));
        assert(text::occurs_at(whole, item, k));
        assert(items.take(i) =~= fewer.take(i));
        assert(items.skip(i).drop_last() =~= fewer.skip(i));
        assert(items.skip(i).last() == items.last());
    } else {
        let k = before.len() as int;
        assert(whole.subrange(k, k + item.len()) =~= item);
        assert(text::occurs_at(whole, item, k));
        assert(items.take(i) =~= fewer);
        let last = items.skip(i);
        assert(last.drop_last() =~= Seq::<Seq<char>>::empty());
        assert(last.last() == items.last());
        reveal_with_fuel(listed, 2);
    }
    assert(whole =~= before + (seq![mark] + items.last()));
}

/// The endpoints on this machine are at its own address, each with its own port.
pub proof fn law_local_endpoints_are_on_this_machine(http_port: u16, socks_port: u16)
    ensures
        ({
            let ep = local_endpoints(http_port, socks_port);
            &&& ep.http_host == "127.0.0.1"@
            &&& ep.socks_host == "127.0.0.1"@
            &&& ep.http_port == http_port
            &&& ep.socks_port == socks_port
        }),
{
}

/// The URL and the address of the HTTP proxy read back as its host and port, and so does that of
/// the SOCKS proxy, behind its own scheme.
pub proof fn law_urls_read_back(ep: EndpointsModel)
    requires
        crate::http_proxy::can_be_told(ep.http_host, Some(ep.http_port)),
        crate::http_proxy::can_be_told(ep.socks_host, Some(ep.socks_port)),
        forall|k: int| 0 <= k < ep.http_host.len() ==> ep.http_host[k] != '/',
    ensures
        crate::http_proxy::absolute_url(ep.http_url()) == Ok::<
            (Seq<char>, u16, Seq<char>),
            crate::http_proxy::HttpError,
        >((ep.http_host, ep.http_port, "/"@)),
        crate::http_proxy::host_port(ep.http_address(), 0) == Ok::<
            (Seq<char>, u16),
            crate::http_proxy::HttpError,
        >((ep.http_host, ep.http_port)),
        crate::http_proxy::host_port(ep.socks_address(), 0) == Ok::<
            (Seq<char>, u16),
            crate::http_proxy::HttpError,
        >((ep.socks_host, ep.socks_port)),
        ep.socks_url() == "socks5://"@ + ep.socks_address(),
        ep.http_url() == "http://"@ + ep.http_address(),
{
    let none = Seq::<char>::empty();
    crate::http_proxy::law_absolute_url_reads_back(
        "http://"@,
        ep.http_host,
        Some(ep.http_port),
        none,
    );
    assert("http://"@ + text::address(ep.http_host, ep.http_port) + none =~= ep.http_url());
    crate::http_proxy::law_host_port_reads_back(ep.http_host, ep.http_port, 0);
    crate::http_proxy::law_host_port_reads_back(ep.socks_host, ep.socks_port, 0);
}

/// In the words of Windows the same address serves HTTP and HTTPS, and nothing else is named.
pub proof fn law_windows_server_names_the_http_proxy(ep: EndpointsModel)
    ensures
        ({
            let s = ep.windows_server();
            let n = ep.http_address().len() as int;
            &&& s.len() == 5 + n + 7 + n
            &&& text::starts_with(s, "http="@)
            &&& s.subrange(5, 5 + n) == ep.http_address()
            &&& text::occurs_at(s, ";https="@, 5 + n)
            &&& s.skip(12 + n) == ep.http_address()
        }),
{
    reveal_strlit("http=");
    reveal_strlit(";https=");
    let s = ep.windows_server();
    let n = ep.http_address().len() as int;
    assert(s.subrange(0, 5) =~= "http="@);
    assert(s.subrange(5, 5 + n) =~= ep.http_address());
    assert(s.subrange(5 + n, 12 + n) =~= ";https="@);
    assert(s.skip(12 + n) =~= ep.http_address());
}

/// A proxy counts as cleared exactly where one was left behind and clearing it did not fail; a
/// failure is handed on where one was left behind, and does not count where none was.
pub proof fn law_proxy_left_behind_is_cleared(stale: bool, failure: Option<Seq<char>>)
    ensures
        cleanup_outcome(stale, failure) is Err <==> stale && failure is Some,
        cleanup_outcome(stale, failure) matches Err(why) ==> failure == Some(why),
        cleanup_outcome(stale, failure) matches Ok(cleared) ==> cleared == stale,
        cleanup_outcome(false, failure) == cleanup_outcome(false, None),
{
}

/// What is done on Windows to use the proxy, and to use it no longer, is done to the settings of
/// the system and to the variables of programs, in this order; a system with network services has
/// each of them changed.
pub proof fn law_plans_cover_settings_and_variables(
    platform: Platform,
    endpoints: EndpointsModel,
    bypass: Seq<Seq<char>>,
)
    ensures
        ({
            let on = windows_proxy::proxy_steps(true, Some(endpoints), bypass);
            let on_too = windows_proxy::environment_steps(Some(endpoints), bypass);
            let off = windows_proxy::proxy_steps(false, None, Seq::empty());
            let off_too = windows_proxy::environment_steps(None, Seq::empty());
            &&& platform == Platform::Windows ==> {
                &&& enable_plan(platform, endpoints, bypass) matches Ok(PlanModel::Registry(steps))
                &&& steps.take(on.len() as int) == on
                &&& steps.skip(on.len() as int) == on_too
            }
            &&& platform == Platform::Windows ==> {
                &&& disable_plan(platform) matches PlanModel::Registry(steps)
                &&& steps.take(off.len() as int) == off
                &&& steps.skip(off.len() as int) == off_too
            }
            &&& platform == Platform::MacOs ==> enable_plan(platform, endpoints, bypass) == Ok::<
                PlanModel,
                ProxyError,
            >(PlanModel::Services)
            &&& platform == Platform::MacOs ==> disable_plan(platform) == PlanModel::Services
        }),
{
    let on = windows_proxy::proxy_steps(true, Some(endpoints), bypass);
    let on_too = windows_proxy::environment_steps(Some(endpoints), bypass);
    let off = windows_proxy::proxy_steps(false, None, Seq::empty());
    let off_too = windows_proxy::environment_steps(None, Seq::empty());
    assert((on + on_too).take(on.len() as int) =~= on);
    assert((on + on_too).skip(on.len() as int) =~= on_too);
    assert((off + off_too).take(off.len() as int) =~= off);
    assert((off + off_too).skip(off.len() as int) =~= off_too);
}

} // verus!
