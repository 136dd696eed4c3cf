//! The system proxy of macOS: commands to `networksetup`.
use vstd::prelude::*;
use vstd::string::StringExecFns;
use vstd::utf8::{decode_utf8, valid_utf8};

use crate::proxy;
use crate::proxy::{EndpointsModel, ProxyEndpoints};
use crate::text;
use crate::text::{blank, lowered, starts_with, trimmed, views};

verus! {

// ----- errors -----

/// Why the system proxy could not be changed.
#[derive(Debug)]
pub enum NetworkSetupError {
    /// The command could not be run.
    CannotRun,
    /// The services could not be listed; with what the command wrote.
    NotListed(String),
    /// A command failed; with its first argument and what it wrote.
    Failed(String, String),
    /// There are no services.
    NoServices,
}

impl NetworkSetupError {
    /// The text for the error.
    pub open spec fn text(self) -> Seq<char> {
        match self {
            NetworkSetupError::CannotRun => "无法执行 networksetup"@,
            NetworkSetupError::NotListed(written) => "networksetup 失败: "@ + written@,
            NetworkSetupError::Failed(argument, written) => "networksetup "@ + argument@
                + " 失败: "@ + trimmed(written@),
            NetworkSetupError::NoServices => "未找到可用的 macOS 网络服务"@,
        }
    }

    /// The text for the error.
    pub fn message(&self) -> (r: String)
        ensures
            r@ == self.text(),
    {
        match self {
            NetworkSetupError::CannotRun => "无法执行 networksetup".to_owned(),
            NetworkSetupError::NotListed(written) => text::join(
                "networksetup 失败: ",
                written.as_str(),
            ),
            NetworkSetupError::Failed(argument, written) => {
                let mut out = text::join("networksetup ", argument.as_str());
                out.append(" 失败: ");
                out.append(text::trim(written.as_str()));
                out
            },
            NetworkSetupError::NoServices => "未找到可用的 macOS 网络服务".to_owned(),
        }
    }
}

/// The error of a command that failed, from its arguments and what it wrote.
pub fn command_failed(arguments: &[String], written: &[u8]) -> (r: NetworkSetupError)
    ensures
        r matches NetworkSetupError::Failed(a, w) && w@ == text::utf8_lossy(written@) && a@ == (
        if arguments@.len() > 0 {
            arguments@[0]@
        } else {
            ""@
        }),
        valid_utf8(written@) ==> (r matches NetworkSetupError::Failed(_, w) && w@ == decode_utf8(
            written@,
        )),
{
    let first = if arguments.len() > 0 {
        arguments[0].clone()
    } else {
        "".to_owned()
    };
    NetworkSetupError::Failed(first, text::decode_lossy(written))
}

// ----- services -----

/// Whether a line of the list names a service that is in use: it is not blank, not marked, and
/// not the remark on the mark.
pub open spec fn names_service(line: Seq<char>) -> bool {
    &&& !blank(line)
    &&& !starts_with(trimmed(line), "*"@)
    &&& !text::contains(trimmed(line), "An asterisk"@)
}

/// The services that the lines name.
pub open spec fn services_of(lines: Seq<Seq<char>>) -> Seq<Seq<char>>
    decreases lines.len(),
{
    if lines.len() == 0 {
        Seq::empty()
    } else if names_service(lines.last()) {
        services_of(lines.drop_last()).push(trimmed(lines.last()))
    } else {
        services_of(lines.drop_last())
    }
}

/// The services in use, from the list as it is shown.
pub fn network_services(shown: &str) -> (r: Vec<String>)
    ensures
        views(r@) == services_of(text::lines_of(shown@)),
{
    let lines = text::split_lines(shown);
    let ghost all = text::lines_of(shown@);
    let mut out: Vec<String> = Vec::new();
    let mut i: usize = 0;
    assert(views(out@) =~= services_of(all.take(0)));
    while i < lines.len()
        invariant
            i <= lines@.len(),
            views(lines@) == all,
            views(out@) == services_of(all.take(i as int)),
        decreases lines@.len() - i,
    {
        let line = text::trim(lines[i].as_str());
        let shown = text::chars_of(line);
        proof {
            let now = all.take(i + 1);
            assert(now.drop_last() =~= all.take(i as int));
            assert(now.last() == lines@[i as int]@);
        }
        if shown.len() > 0 && !text::has_prefix(line, "*") && !text::has_text(line, "An asterisk") {
            let ghost earlier = out@;
            out.push(line.to_owned());
            assert(views(out@) =~= views(earlier).push(line@));
        }
        i = i + 1;
    }
    assert(all.take(all.len() as int) =~= all);
    out
}

/// The services in use, from what the list command left: an error if it failed.
pub fn listed_services(success: bool, out: &[u8], err: &[u8]) -> (r: Result<
    Vec<String>,
    NetworkSetupError,
>)
    ensures
        match r {
            Ok(v) => success && views(v@) == services_of(
                text::lines_of(text::utf8_lossy(out@)),
            ),
            Err(e) => !success && (e matches NetworkSetupError::NotListed(w) && w@
                == text::utf8_lossy(err@)),
        },
        success && valid_utf8(out@) ==> (r matches Ok(v) && views(v@) == services_of(
            text::lines_of(decode_utf8(out@)),
        )),
        !success && valid_utf8(err@) ==> (r matches Err(NetworkSetupError::NotListed(w)) && w@
            == decode_utf8(err@)),
{
    if !success {
        return Err(NetworkSetupError::NotListed(text::decode_lossy(err)));
    }
    Ok(network_services(text::decode_lossy(out).as_str()))
}

// ----- commands -----

/// The views of a list of commands.
pub open spec fn command_views(v: Seq<Vec<String>>) -> Seq<Seq<Seq<char>>> {
    v.map_values(|c: Vec<String>| views(c@))
}

/// The commands that make a service use the proxy.
pub open spec fn enable_commands(
    service: Seq<char>,
    ep: EndpointsModel,
    bypass: Seq<Seq<char>>,
) -> Seq<Seq<Seq<char>>> {
    let http_port = text::decimal(ep.http_port as nat);
    let socks_port = text::decimal(ep.socks_port as nat);
    seq![
        seq!["-setwebproxy"@, service, ep.http_host, http_port],
        seq!["-setsecurewebproxy"@, service, ep.http_host, http_port],
        seq!["-setsocksfirewallproxy"@, service, ep.socks_host, socks_port],
        seq!["-setwebproxystate"@, service, "on"@],
        seq!["-setsecurewebproxystate"@, service, "on"@],
        seq!["-setsocksfirewallproxystate"@, service, "on"@],
        seq!["-setproxybypassdomains"@, service, "127.0.0.1"@, "localhost"@, "*.local"@]
            + proxy::named_hosts(bypass),
    ]
}

/// The commands that make a service no longer use the proxy.
pub open spec fn disable_commands(service: Seq<char>) -> Seq<Seq<Seq<char>>> {
    seq![
        seq!["-setwebproxystate"@, service, "off"@],
        seq!["-setsecurewebproxystate"@, service, "off"@],
        seq!["-setsocksfirewallproxystate"@, service, "off"@],
    ]
}

fn command_of_three(name: &str, service: &str, last: &str) -> (r: Vec<String>)
    ensures
        views(r@) == seq![name@, service@, last@],
{
    let r: Vec<String> = vec![name.to_owned(), service.to_owned(), last.to_owned()];
    assert(views(r@) =~= seq![name@, service@, last@]);
    r
}

fn command_of_four(name: &str, service: &str, host: &str, port: u16) -> (r: Vec<String>)
    ensures
        views(r@) == seq![name@, service@, host@, text::decimal(port as nat)],
{
    let r: Vec<String> = vec![
        name.to_owned(),
        service.to_owned(),
        host.to_owned(),
        text::decimal_string(port as u128),
    ];
    assert(views(r@) =~= seq![name@, service@, host@, text::decimal(port as nat)]);
    r
}

fn bypass_command(service: &str, bypass_hosts: &[String]) -> (r: Vec<String>)
    ensures
        views(r@) == seq![
            "-setproxybypassdomains"@,
            service@,
            "127.0.0.1"@,
            "localhost"@,
            "*.local"@,
        ] + proxy::named_hosts(views(bypass_hosts@)),
{
    let mut hosts = proxy::hosts_to_name(bypass_hosts);
    let mut r: Vec<String> = vec![
        "-setproxybypassdomains".to_owned(),
        service.to_owned(),
        "127.0.0.1".to_owned(),
        "localhost".to_owned(),
        "*.local".to_owned(),
    ];
    let ghost start = r@;
    let ghost named = hosts@;
    assert(views(start) =~= seq![
        "-setproxybypassdomains"@,
        service@,
        "127.0.0.1"@,
        "localhost"@,
        "*.local"@,
    ]);
    r.append(&mut hosts);
    assert(views(r@) =~= views(start) + views(named));
    r
}

/// The commands that make a service use the proxy, to be run until one fails.
pub fn enable_for_service(service: &str, ep: &ProxyEndpoints, bypass_hosts: &[String]) -> (r: Vec<
    Vec<String>,
>)
    ensures
        command_views(r@) == enable_commands(service@, ep@, views(bypass_hosts@)),
{
    let http_host = ep.http_host.as_str();
    let socks_host = ep.socks_host.as_str();
    let r: Vec<Vec<String>> = vec![
        command_of_four("-setwebproxy", service, http_host, ep.http_port),
        command_of_four("-setsecurewebproxy", service, http_host, ep.http_port),
        command_of_four("-setsocksfirewallproxy", service, socks_host, ep.socks_port),
        command_of_three("-setwebproxystate", service, "on"),
        command_of_three("-setsecurewebproxystate", service, "on"),
        command_of_three("-setsocksfirewallproxystate", service, "on"),
        bypass_command(service, bypass_hosts),
    ];
    assert(command_views(r@) =~= enable_commands(service@, ep@, views(bypass_hosts@)));
    r
}

/// The commands that make a service no longer use the proxy, to be run until one fails.
pub fn disable_for_service(service: &str) -> (r: Vec<Vec<String>>)
    ensures
        command_views(r@) == disable_commands(service@),
{
    let r: Vec<Vec<String>> = vec![
        command_of_three("-setwebproxystate", service, "off"),
        command_of_three("-setsecurewebproxystate", service, "off"),
        command_of_three("-setsocksfirewallproxystate", service, "off"),
    ];
    assert(command_views(r@) =~= disable_commands(service@));
    r
}

// ----- the outcome over all services -----

/// The outcome of changing all services.
#[derive(Debug, Clone, Copy, PartialEq, Eq, Structural)]
pub enum Settled {
    /// At least one service was changed.
    Done,
    /// There was none.
    NoServices,
    /// None could be changed; the error of the service at this position counts.
    Failed(usize),
}

/// The outcome of changing all services, by which of them could be changed.
pub open spec fn settled_with(changed: Seq<bool>) -> Settled {
    if changed.len() == 0 {
        Settled::NoServices
    } else if changed.contains(true) {
        Settled::Done
    } else {
        Settled::Failed((changed.len() - 1) as usize)
    }
}

/// The outcome of changing all services, by which of them could be changed.
pub fn set_proxy(changed: &[bool]) -> (r: Settled)
    ensures
        r == settled_with(changed@),
{
    let mut ok: usize = 0;
    let mut last: Option<usize> = None;
    let mut i: usize = 0;
    while i < changed.len()
        invariant
            i <= changed@.len(),
            ok <= i,
            ok > 0 <==> changed@.take(i as int).contains(true),
            ok == 0 && i > 0 ==> last == Some((i - 1) as usize),
        decreases changed@.len() - i,
    {
        proof {
            let now = changed@.take(i + 1);
            assert(now =~= changed@.take(i as int).push(changed@[i as int]));
            assert(now[i as int] == changed@[i as int]);
            if changed@.take(i as int).contains(true) {
                let k = choose|k: int| 0 <= k < i && changed@.take(i as int)[k] == true;
                assert(now[k] == true);
            }
        }
        if changed[i] {
            ok = ok + 1;
        } else {
            last = Some(i);
        }
        i = i + 1;
    }
    assert(changed@.take(changed@.len() as int) =~= changed@);
    if changed.len() == 0 {
        return Settled::NoServices;
    }
    if ok > 0 {
        return Settled::Done;
    }
    match last {
        Some(k) => Settled::Failed(k),
        None => Settled::NoServices,
    }
}

// ----- what was left behind -----

/// Whether a line begins with the label and is the value behind it, in either case of the
/// letters.
pub open spec fn line_says(line: Seq<char>, label: Seq<char>, value: Seq<char>) -> bool {
    let l = lowered(trimmed(line));
    starts_with(l, label) && trimmed(l.skip(label.len() as int)) == value
}

/// Whether one of the lines does.
pub open spec fn says(lines: Seq<Seq<char>>, label: Seq<char>, value: Seq<char>) -> bool {
    exists|i: int| 0 <= i < lines.len() && line_says(#[trigger] lines[i], label, value)
}

/// Whether a line begins with the label and names the host behind it, in either case of the
/// letters.
pub open spec fn line_names(line: Seq<char>, label: Seq<char>, host: Seq<char>) -> bool {
    let l = lowered(trimmed(line));
    starts_with(l, label) && text::names_host(l.skip(label.len() as int), host)
}

/// Whether one of the lines does.
pub open spec fn names(lines: Seq<Seq<char>>, label: Seq<char>, host: Seq<char>) -> bool {
    exists|i: int| 0 <= i < lines.len() && line_names(#[trigger] lines[i], label, host)
}

/// Whether a line says that the proxy is on.
pub open spec fn line_says_on(line: Seq<char>) -> bool {
    let l = lowered(trimmed(line));
    starts_with(l, "enabled:"@) && text::contains(l, "yes"@)
}

/// Whether one of the lines does.
pub open spec fn says_on(lines: Seq<Seq<char>>) -> bool {
    exists|i: int| 0 <= i < lines.len() && line_says_on(#[trigger] lines[i])
}

/// Whether what a service shows of its proxy says that it is on, and that it is this machine
/// with the port.
pub open spec fn shows_local_proxy(shown: Seq<char>, port: u16) -> bool {
    let lines = text::lines_of(shown);
    &&& says_on(lines)
    &&& names(lines, "server:"@, "127.0.0.1"@) || names(lines, "server:"@, "localhost"@)
    &&& says(lines, "port:"@, text::decimal(port as nat))
}

/// What stands behind the label in a line that begins with it, in small letters.
fn behind_label(line: &str, label: &str) -> (r: Option<String>)
    ensures
        match r {
            Some(rest) => starts_with(lowered(trimmed(line@)), label@) && rest@ == lowered(
                trimmed(line@),
            ).skip(label@.len() as int),
            None => !starts_with(lowered(trimmed(line@)), label@),
        },
{
    let l = text::to_lower(text::trim(line));
    if !text::has_prefix(l.as_str(), label) {
        return None;
    }
    let chars = text::chars_of(l.as_str());
    let mark = text::chars_of(label);
    let rest = text::string_of(&text::slice_copy(&chars, mark.len(), chars.len()));
    assert(rest@ == l@.skip(label@.len() as int));
    Some(rest)
}

fn some_line_says(lines: &Vec<String>, label: &str, value: &str) -> (r: bool)
    ensures
        r == says(views(lines@), label@, value@),
{
    let mut i: usize = 0;
    while i < lines.len()
        invariant
            i <= lines@.len(),
            forall|k: int|
                0 <= k < i ==> !line_says(#[trigger] views(lines@)[k], label@, value@),
        decreases lines@.len() - i,
    {
        assert(views(lines@)[i as int] == lines@[i as int]@);
        if let Some(rest) = behind_label(lines[i].as_str(), label) {
            if text::same_text(text::trim(rest.as_str()), value) {
                return true;
            }
        }
        i = i + 1;
    }
    false
}

fn some_line_names(lines: &Vec<String>, label: &str, host: &str) -> (r: bool)
    ensures
        r == names(views(lines@), label@, host@),
{
    let mut i: usize = 0;
    while i < lines.len()
        invariant
            i <= lines@.len(),
            forall|k: int|
                0 <= k < i ==> !line_names(#[trigger] views(lines@)[k], label@, host@),
        decreases lines@.len() - i,
    {
        assert(views(lines@)[i as int] == lines@[i as int]@);
        if let Some(rest) = behind_label(lines[i].as_str(), label) {
            if text::has_host(rest.as_str(), host) {
                return true;
            }
        }
        i = i + 1;
    }
    false
}

fn some_line_says_on(lines: &Vec<String>) -> (r: bool)
    ensures
        r == says_on(views(lines@)),
{
    let mut i: usize = 0;
    while i < lines.len()
        invariant
            i <= lines@.len(),
            forall|k: int| 0 <= k < i ==> !line_says_on(#[trigger] views(lines@)[k]),
        decreases lines@.len() - i,
    {
        let l = text::to_lower(text::trim(lines[i].as_str()));
        assert(views(lines@)[i as int] == lines@[i as int]@);
        if text::has_prefix(l.as_str(), "enabled:") && text::has_text(l.as_str(), "yes") {
            return true;
        }
        i = i + 1;
    }
    false
}

/// Whether what a service shows of its proxy is this machine with the port, turned on.
pub fn proxy_enabled_on(shown: &str, port: u16) -> (r: bool)
    ensures
        r == shows_local_proxy(shown@, port),
{
    let lines = text::split_lines(shown);
    if !some_line_says_on(&lines) {
        return false;
    }
    let number = text::decimal_string(port as u128);
    (some_line_names(&lines, "server:", "127.0.0.1") || some_line_names(
        &lines,
        "server:",
        "localhost",
    )) && some_line_says(&lines, "port:", number.as_str())
}

/// Whether what a query for a service's proxy left is this machine with the port, turned on.
pub fn query_finds_proxy(success: bool, out: &[u8], port: u16) -> (r: bool)
    ensures
        r == (success && shows_local_proxy(text::utf8_lossy(out@), port)),
        valid_utf8(out@) ==> r == (success && shows_local_proxy(decode_utf8(out@), port)),
{
    success && proxy_enabled_on(text::decode_lossy(out).as_str(), port)
}

/// A query for one of a service's proxies, and the port that would be ours.
#[derive(Debug)]
pub struct ProxyQuery {
    pub arguments: Vec<String>,
    pub port: u16,
}

/// A query for one of a service's proxies, as plain text.
#[verifier::ext_equal]
pub struct QueryModel {
    pub arguments: Seq<Seq<char>>,
    pub port: u16,
}

impl View for ProxyQuery {
    type V = QueryModel;

    open spec fn view(&self) -> QueryModel {
        QueryModel { arguments: views(self.arguments@), port: self.port }
    }
}

/// The queries for a service's proxies.
pub open spec fn queries_of(service: Seq<char>, ep: EndpointsModel) -> Seq<QueryModel> {
    seq![
        QueryModel { arguments: seq!["-getwebproxy"@, service], port: ep.http_port },
        QueryModel { arguments: seq!["-getsecurewebproxy"@, service], port: ep.http_port },
        QueryModel { arguments: seq!["-getsocksfirewallproxy"@, service], port: ep.socks_port },
    ]
}

fn query(name: &str, service: &str, port: u16) -> (r: ProxyQuery)
    ensures
        r@ == (QueryModel { arguments: seq![name@, service@], port }),
{
    let arguments: Vec<String> = vec![name.to_owned(), service.to_owned()];
    assert(views(arguments@) =~= seq![name@, service@]);
    ProxyQuery { arguments, port }
}

/// The queries that tell whether a service still uses the proxy: it does if one of them finds
/// it.
pub fn is_stale_local_proxy(service: &str, endpoints: &ProxyEndpoints) -> (r: Vec<ProxyQuery>)
    ensures
        r@.map_values(|q: ProxyQuery| q@) == queries_of(service@, endpoints@),
{
    let r: Vec<ProxyQuery> = vec![
        query("-getwebproxy", service, endpoints.http_port),
        query("-getsecurewebproxy", service, endpoints.http_port),
        query("-getsocksfirewallproxy", service, endpoints.socks_port),
    ];
    assert(r@.map_values(|q: ProxyQuery| q@) =~= queries_of(service@, endpoints@));
    r
}

// ----- laws -----

/// Each kind of proxy that is turned on for a service is turned off again by clearing it.
pub proof fn law_clearing_turns_off_what_was_turned_on(
    service: Seq<char>,
    ep: EndpointsModel,
    bypass: Seq<Seq<char>>,
    kind: Seq<char>,
)
    requires
        enable_commands(service, ep, bypass).contains(seq![kind, service, "on"@]),
    ensures
        disable_commands(service).contains(seq![kind, service, "off"@]),
{
    let on = enable_commands(service, ep, bypass);
    let off = disable_commands(service);
    let command = seq![kind, service, "on"@];
    let i = choose|i: int| 0 <= i < on.len() && on[i] == command;
    assert(command.len() == 3);
    assert(3 <= i <= 5);
    assert(command[0] == kind);
    assert(off[i - 3] =~= seq![kind, service, "off"@]);
}

/// A line that says which port is used says one port only.
pub proof fn law_line_says_one_port(line: Seq<char>, a: u16, b: u16)
    requires
        line_says(line, "port:"@, text::decimal(a as nat)),
        line_says(line, "port:"@, text::decimal(b as nat)),
    ensures
        a == b,
{
    text::law_decimal_reads_back(a as nat);
    text::law_decimal_reads_back(b as nat);
}

/// A service is neither blank nor marked as out of use.
pub proof fn law_services_are_named(lines: Seq<Seq<char>>, i: int)
    requires
        0 <= i < services_of(lines).len(),
    ensures
        services_of(lines)[i].len() > 0,
        !starts_with(services_of(lines)[i], "*"@),
    decreases lines.len(),
{
    if lines.len() > 0 {
        let before = services_of(lines.drop_last());
        if i < before.len() {
            law_services_are_named(lines.drop_last(), i);
        }
    }
}

// ----- what the commands do to a service -----

/// One proxy of a service: whether it is on, and its host and port as they were written.
#[verifier::ext_equal]
pub struct ServiceProxy {
    pub on: bool,
    pub host: Seq<char>,
    pub port: Seq<char>,
}

/// What a service keeps of its proxies, and the hosts that go around them.
#[verifier::ext_equal]
pub struct ServiceState {
    pub web: ServiceProxy,
    pub secure: ServiceProxy,
    pub socks: ServiceProxy,
    pub bypass: Seq<Seq<char>>,
}

impl ServiceProxy {
    /// With the host and port that a command gives.
    pub open spec fn with_target(self, command: Seq<Seq<char>>) -> ServiceProxy {
        ServiceProxy { host: command[2], port: command[3], ..self }
    }

    /// Turned on or off, as a command says.
    pub open spec fn with_state(self, command: Seq<Seq<char>>) -> ServiceProxy {
        ServiceProxy { on: command[2] == "on"@, ..self }
    }
}

impl ServiceState {
    /// After a command to the service of the given name; a command to another one changes
    /// nothing.
    pub open spec fn after(self, service: Seq<char>, command: Seq<Seq<char>>) -> ServiceState {
        if command[1] != service {
            self
        } else if command[0] == "-setwebproxy"@ {
            ServiceState { web: self.web.with_target(command), ..self }
        } else if command[0] == "-setsecurewebproxy"@ {
            ServiceState { secure: self.secure.with_target(command), ..self }
        } else if command[0] == "-setsocksfirewallproxy"@ {
            ServiceState { socks: self.socks.with_target(command), ..self }
        } else if command[0] == "-setwebproxystate"@ {
            ServiceState { web: self.web.with_state(command), ..self }
        } else if command[0] == "-setsecurewebproxystate"@ {
            ServiceState { secure: self.secure.with_state(command), ..self }
        } else if command[0] == "-setsocksfirewallproxystate"@ {
            ServiceState { socks: self.socks.with_state(command), ..self }
        } else if command[0] == "-setproxybypassdomains"@ {
            ServiceState { bypass: command.skip(2), ..self }
        } else {
            self
        }
    }

    /// After commands that come one by one.
    pub open spec fn after_all(self, service: Seq<char>, commands: Seq<Seq<Seq<char>>>) -> ServiceState
        decreases commands.len(),
    {
        if commands.len() == 0 {
            self
        } else {
            self.after(service, commands[0]).after_all(service, commands.skip(1))
        }
    }
}

proof fn lemma_command_names_differ()
    ensures
        "-setwebproxy"@.len() == 12,
        "-setsecurewebproxy"@.len() == 18,
        "-setsocksfirewallproxy"@.len() == 22,
        "-setwebproxystate"@.len() == 17,
        "-setsecurewebproxystate"@.len() == 23,
        "-setsocksfirewallproxystate"@.len() == 27,
        "-setproxybypassdomains"@.len() == 22,
        "-setproxybypassdomains"@ != "-setsocksfirewallproxy"@,
        "on"@ != "off"@,
{
    reveal_strlit("-setwebproxy");
    reveal_strlit("-setsecurewebproxy");
    reveal_strlit("-setsocksfirewallproxy");
    reveal_strlit("-setwebproxystate");
    reveal_strlit("-setsecurewebproxystate");
    reveal_strlit("-setsocksfirewallproxystate");
    reveal_strlit("-setproxybypassdomains");
    reveal_strlit("on");
    reveal_strlit("off");
    assert("-setproxybypassdomains"@[4] == 'p' && "-setsocksfirewallproxy"@[4] == 's');
    assert("on"@.len() == 2 && "off"@.len() == 3);
}

/// Whatever the state of a service, after the commands that turn the proxy on its web proxy, its
/// secure web proxy and its SOCKS proxy are all three on, each with the host and the port of the
/// endpoints; this machine goes around them, and so does each host that was named.
pub proof fn law_enabled_service_uses_the_proxy(
    before: ServiceState,
    service: Seq<char>,
    ep: EndpointsModel,
    bypass: Seq<Seq<char>>,
)
    ensures
        ({
            let end = before.after_all(service, enable_commands(service, ep, bypass));
            &&& end.web.on
            &&& end.secure.on
            &&& end.socks.on
            &&& end.web.host == ep.http_host
            &&& end.secure.host == ep.http_host
            &&& end.socks.host == ep.socks_host
            &&& text::all_digits(end.web.port)
            &&& text::all_digits(end.socks.port)
            &&& text::digits_value(end.web.port) == ep.http_port
            &&& end.secure.port == end.web.port
            &&& text::digits_value(end.socks.port) == ep.socks_port
            &&& end.bypass.contains("127.0.0.1"@)
            &&& end.bypass.contains("localhost"@)
            &&& end.bypass.contains("*.local"@)
            &&& forall|i: int|
                0 <= i < bypass.len() && !blank(#[trigger] bypass[i]) ==> end.bypass.contains(
                    trimmed(bypass[i]),
                )
        }),
{
    let commands = enable_commands(service, ep, bypass);
    let c1 = commands.skip(1);
    let c2 = c1.skip(1);
    let c3 = c2.skip(1);
    let c4 = c3.skip(1);
    let c5 = c4.skip(1);
    let c6 = c5.skip(1);
    assert(c6.skip(1).len() == 0);
    assert(c1[0] == commands[1] && c2[0] == commands[2] && c3[0] == commands[3] && c4[0]
        == commands[4] && c5[0] == commands[5] && c6[0] == commands[6]);
    lemma_command_names_differ();
    text::law_decimal_reads_back(ep.http_port as nat);
    text::law_decimal_reads_back(ep.socks_port as nat);
    reveal_with_fuel(ServiceState::after_all, 8);
    let end = before.after_all(service, commands);
    let named = proxy::named_hosts(bypass);
    let list = seq!["127.0.0.1"@, "localhost"@, "*.local"@] + named;
    assert(commands[6].skip(2) =~= list);
    assert(end.bypass == list);
    assert(list[0] == "127.0.0.1"@ && list[1] == "localhost"@ && list[2] == "*.local"@);
    assert forall|i: int| 0 <= i < bypass.len() && !blank(#[trigger] bypass[i]) implies list.contains(
        trimmed(bypass[i]),
    ) by {
        proxy::law_named_hosts_are_those_that_are_not_blank(bypass, i);
        let k = choose|k: int| 0 <= k < named.len() && named[k] == trimmed(bypass[i]);
        assert(list[k + 3] == trimmed(bypass[i]));
    }
}

/// Whatever the state of a service, after the commands that turn the proxy off none of its three
/// proxies is on; their hosts and ports stay.
pub proof fn law_disabled_service_uses_no_proxy(before: ServiceState, service: Seq<char>)
    ensures
        ({
            let end = before.after_all(service, disable_commands(service));
            &&& !end.web.on
            &&& !end.secure.on
            &&& !end.socks.on
            &&& end == (ServiceState {
                web: ServiceProxy { on: false, ..before.web },
                secure: ServiceProxy { on: false, ..before.secure },
                socks: ServiceProxy { on: false, ..before.socks },
                bypass: before.bypass,
            })
        }),
{
    let commands = disable_commands(service);
    let c1 = commands.skip(1);
    let c2 = c1.skip(1);
    assert(c2.skip(1).len() == 0);
    assert(c1[0] == commands[1] && c2[0] == commands[2]);
    lemma_command_names_differ();
    reveal_with_fuel(ServiceState::after_all, 4);
}

/// The commands for one service change no other.
pub proof fn law_commands_change_one_service_only(
    before: ServiceState,
    service: Seq<char>,
    other: Seq<char>,
    ep: EndpointsModel,
    bypass: Seq<Seq<char>>,
)
    requires
        service != other,
    ensures
        before.after_all(other, enable_commands(service, ep, bypass)) == before,
        before.after_all(other, disable_commands(service)) == before,
{
    let on = enable_commands(service, ep, bypass);
    let off = disable_commands(service);
    assert forall|i: int| 0 <= i < on.len() implies (#[trigger] on[i])[1] == service by {}
    assert forall|i: int| 0 <= i < off.len() implies (#[trigger] off[i])[1] == service by {}
    lemma_other_service(before, service, other, on);
    lemma_other_service(before, service, other, off);
}

proof fn lemma_other_service(
    before: ServiceState,
    service: Seq<char>,
    other: Seq<char>,
    commands: Seq<Seq<Seq<char>>>,
)
    requires
        service != other,
        forall|i: int| 0 <= i < commands.len() ==> (#[trigger] commands[i])[1] == service,
    ensures
        before.after_all(other, commands) == before,
    decreases commands.len(),
{
    if commands.len() > 0 {
        let rest = commands.skip(1);
        assert(commands[0][1] == service);
        assert forall|i: int| 0 <= i < rest.len() implies (#[trigger] rest[i])[1] == service by {
            assert(rest[i] == commands[i + 1]);
        }
        lemma_other_service(before, service, other, rest);
    }
}

/// Each proxy that is set is asked for by its own query, with the port that was set.
pub proof fn law_queries_ask_for_what_was_set(
    service: Seq<char>,
    ep: EndpointsModel,
    bypass: Seq<Seq<char>>,
    i: int,
)
    requires
        0 <= i < 3,
    ensures
        ({
            let set = enable_commands(service, ep, bypass)[i];
            let query = queries_of(service, ep)[i];
            &&& queries_of(service, ep).len() == 3
            &&& query.arguments.len() == 2
            &&& query.arguments[0].len() == set[0].len()
            &&& text::starts_with(query.arguments[0], "-get"@)
            &&& text::starts_with(set[0], "-set"@)
            &&& query.arguments[0].skip(4) == set[0].skip(4)
            &&& query.arguments[1] == service
            &&& text::digits_value(set[3]) == query.port
        }),
{
    reveal_strlit("-setwebproxy");
    reveal_strlit("-setsecurewebproxy");
    reveal_strlit("-setsocksfirewallproxy");
    reveal_strlit("-getwebproxy");
    reveal_strlit("-getsecurewebproxy");
    reveal_strlit("-getsocksfirewallproxy");
    reveal_strlit("-get");
    reveal_strlit("-set");
    text::law_decimal_reads_back(ep.http_port as nat);
    text::law_decimal_reads_back(ep.socks_port as nat);
    let set = enable_commands(service, ep, bypass)[i];
    let query = queries_of(service, ep)[i];
    assert(query.arguments[0].subrange(0, 4) =~= "-get"@);
    assert(set[0].subrange(0, 4) =~= "-set"@);
    assert(query.arguments[0].skip(4) =~= set[0].skip(4));
}

/// The services of a list are those of its parts, in their order.
pub proof fn law_services_come_in_their_order(first: Seq<Seq<char>>, second: Seq<Seq<char>>)
    ensures
        services_of(first + second) == services_of(first) + services_of(second),
    decreases second.len(),
{
    let whole = first + second;
    if second.len() == 0 {
        assert(whole =~= first);
        assert(services_of(first) + services_of(second) =~= services_of(first));
    } else {
        assert(whole.drop_last() =~= first + second.drop_last());
        assert(whole.last() == second.last());
        law_services_come_in_their_order(first, second.drop_last());
        assert(services_of(whole) =~= services_of(first) + services_of(second));
    }
}

/// A line is a service, without the white space around it, exactly if it is not blank, begins
/// with no star and is not the remark on stars.
pub proof fn law_line_is_a_service(line: Seq<char>)
    ensures
        services_of(seq![line]).len() == 1 <==> trimmed(line).len() > 0 && trimmed(line)[0] != '*'
            && !text::contains(trimmed(line), "An asterisk"@),
        services_of(seq![line]).len() == 1 ==> services_of(seq![line])[0] == trimmed(line),
        services_of(seq![line]).len() <= 1,
        services_of(Seq::empty()).len() == 0,
{
    reveal_with_fuel(services_of, 2);
    reveal_strlit("*");
    let t = trimmed(line);
    if t.len() > 0 {
        assert(t.subrange(0, 1) =~= seq![t[0]]);
        assert("*"@ =~= seq!['*']);
        assert(seq![t[0]][0] == t[0]);
        assert(seq!['*'][0] == '*');
    }
}

/// Changing the services goes through as soon as one of them could be changed; where none could,
/// the error of the last one counts.
pub proof fn law_one_changed_service_is_enough(changed: Seq<bool>)
    requires
        changed.len() <= usize::MAX,
    ensures
        settled_with(changed) == Settled::NoServices <==> changed.len() == 0,
        settled_with(changed) == Settled::Done <==> exists|i: int|
            0 <= i < changed.len() && #[trigger] changed[i],
        settled_with(changed) matches Settled::Failed(k) ==> k == changed.len() - 1 && !changed[k as int],
{
    if exists|i: int| 0 <= i < changed.len() && #[trigger] changed[i] {
        let i = choose|i: int| 0 <= i < changed.len() && #[trigger] changed[i];
        assert(changed[i] == true);
        assert(changed.contains(true));
    }
    if changed.contains(true) {
        let i = choose|i: int| 0 <= i < changed.len() && changed[i] == true;
        assert(changed[i]);
    }
}

/// What a service shows of one of its proxies.
pub open spec fn shown_as(word: Seq<char>, server: Seq<char>, port: u16) -> Seq<char> {
    "Enabled: "@ + word + seq!['\n'] + ("Server: "@ + server + seq!['\n'] + ("Port: "@
        + text::decimal(port as nat) + seq!['\n']))
}

proof fn lemma_labelled_line(label: Seq<char>, value: Seq<char>)
    requires
        label.len() > 0,
        !text::white_space(label[0]),
        value.len() > 0,
        !text::white_space(value.last()),
    ensures
        lowered(trimmed(label + value)) == lowered(label) + lowered(value),
{
    let none = Seq::<char>::empty();
    text::law_white_space_around_is_trimmed(none, label + value, none);
    assert(none + (label + value) + none =~= label + value);
    text::lemma_lowered_join(label, value);
}

proof fn lemma_lines_shown(word: Seq<char>, server: Seq<char>, port: u16)
    requires
        forall|k: int| 0 <= k < word.len() ==> #[trigger] word[k] != '\n' && word[k] != '\r',
        forall|k: int| 0 <= k < server.len() ==> #[trigger] server[k] != '\n' && server[k] != '\r',
        word.len() > 0,
        server.len() > 0,
    ensures
        text::lines_of(shown_as(word, server, port)) == seq![
            "Enabled: "@ + word,
            "Server: "@ + server,
            "Port: "@ + text::decimal(port as nat),
        ],
{
    let digits = text::decimal(port as nat);
    let none = Seq::<char>::empty();
    reveal_strlit("Enabled: ");
    reveal_strlit("Server: ");
    reveal_strlit("Port: ");
    text::law_decimal_reads_back(port as nat);
    let a = "Enabled: "@ + word;
    let b = "Server: "@ + server;
    let c = "Port: "@ + digits;
    assert forall|k: int| 0 <= k < a.len() implies a[k] != '\n' && a[k] != '\r' by {
        if k < 9 {
            assert(a[k] == "Enabled: "@[k]);
        } else {
            assert(a[k] == word[k - 9]);
        }
    }
    assert forall|k: int| 0 <= k < b.len() implies b[k] != '\n' && b[k] != '\r' by {
        if k < 8 {
            assert(b[k] == "Server: "@[k]);
        } else {
            assert(b[k] == server[k - 8]);
        }
    }
    assert forall|k: int| 0 <= k < c.len() implies c[k] != '\n' && c[k] != '\r' by {
        if k < 6 {
            assert(c[k] == "Port: "@[k]);
        } else {
            assert(c[k] == digits[k - 6]);
            assert(text::is_digit(digits[k - 6]));
        }
    }
    let third = c + seq!['\n'];
    let second = b + seq!['\n'] + third;
    assert(third =~= c + seq!['\n'] + none);
    text::law_lines_are_what_stands_between_line_feeds(c, none);
    text::law_lines_are_what_stands_between_line_feeds(b, third);
    text::law_lines_are_what_stands_between_line_feeds(a, second);
    text::law_lines_are_what_stands_between_line_feeds(none, none);
    assert(a.last() != '\r' && b.last() != '\r' && c.last() != '\r');
    assert(text::lines_of(third) =~= seq![c]);
    assert(text::lines_of(second) =~= seq![b, c]);
    assert(text::lines_of(shown_as(word, server, port)) =~= seq![a, b, c]);
}

/// What a service shows of its proxy is taken for the proxy left behind exactly if it is on, its
/// server is this machine and its port is the one asked for.
pub proof fn law_shown_proxy_is_recognised(on: bool, server: Seq<char>, port: u16, asked: u16)
    requires
        server.len() > 0,
        forall|k: int| 0 <= k < server.len() ==> text::host_char(#[trigger] server[k]),
    ensures
        shows_local_proxy(
            shown_as(
                if on {
                    "Yes"@
                } else {
                    "No"@
                },
                server,
                port,
            ),
            asked,
        ) <==> on && (lowered(server) == "127.0.0.1"@ || lowered(server) == "localhost"@) && port
            == asked,
{
    let word = if on {
        "Yes"@
    } else {
        "No"@
    };
    let digits = text::decimal(port as nat);
    let wanted = text::decimal(asked as nat);
    reveal_strlit("Yes");
    reveal_strlit("No");
    reveal_strlit("yes");
    reveal_strlit("Enabled: ");
    reveal_strlit("Server: ");
    reveal_strlit("Port: ");
    reveal_strlit("enabled:");
    reveal_strlit("server:");
    reveal_strlit("port:");
    reveal_strlit("127.0.0.1");
    reveal_strlit("localhost");
    text::law_decimal_reads_back(port as nat);
    text::law_decimal_reads_back(asked as nat);
    lemma_lines_shown(word, server, port);
    let lines = text::lines_of(shown_as(word, server, port));
    let l0 = lowered(trimmed(lines[0]));
    let l1 = lowered(trimmed(lines[1]));
    let l2 = lowered(trimmed(lines[2]));
    assert(text::is_digit(digits.last()));
    assert(text::host_char(server.last()));
    lemma_labelled_line("Enabled: "@, word);
    lemma_labelled_line("Server: "@, server);
    lemma_labelled_line("Port: "@, digits);
    assert(l0[0] == 'e' && l1[0] == 's' && l2[0] == 'p');
    lemma_starts(l0, "enabled:"@);
    lemma_starts(l1, "server:"@);
    lemma_starts(l2, "port:"@);
    lemma_no_start(l1, "enabled:"@);
    lemma_no_start(l2, "enabled:"@);
    lemma_no_start(l0, "server:"@);
    lemma_no_start(l2, "server:"@);
    lemma_no_start(l0, "port:"@);
    lemma_no_start(l1, "port:"@);
    // whether it is on
    if on {
        assert(l0.subrange(9, 12) =~= "yes"@);
        assert(text::occurs_at(l0, "yes"@, 9));
        assert(line_says_on(lines[0]));
    } else {
        assert forall|i: int| !text::occurs_at(l0, "yes"@, i) by {
            if text::occurs_at(l0, "yes"@, i) {
                assert(l0.subrange(i, i + 3)[0] == l0[i]);
            }
        }
    }
    assert(says_on(lines) <==> on);
    // the server
    let low = lowered(server);
    assert(l1.skip(7) =~= seq![' '] + low);
    assert forall|k: int| 0 <= k < low.len() implies text::host_char(#[trigger] low[k]) by {
        assert(text::host_char(server[k]));
    }
    text::law_host_is_named_as_a_whole(seq![' '], low, "127.0.0.1"@);
    text::law_host_is_named_as_a_whole(seq![' '], low, "localhost"@);
    assert(line_names(lines[1], "server:"@, "127.0.0.1"@) <==> low == "127.0.0.1"@);
    assert(line_names(lines[1], "server:"@, "localhost"@) <==> low == "localhost"@);
    assert(names(lines, "server:"@, "127.0.0.1"@) <==> low == "127.0.0.1"@);
    assert(names(lines, "server:"@, "localhost"@) <==> low == "localhost"@);
    // the port
    let none = Seq::<char>::empty();
    assert forall|k: int| 0 <= k < digits.len() implies text::lower_char(digits[k])
        == digits[k] && !text::white_space(digits[k]) by {
        assert(text::is_digit(digits[k]));
    }
    assert(lowered(digits) =~= digits);
    assert(l2.skip(5) =~= seq![' '] + digits + none);
    text::law_white_space_around_is_trimmed(seq![' '], digits, none);
    text::law_decimal_is_one_of_a_kind(port as nat, asked as nat);
    assert(line_says(lines[2], "port:"@, wanted) <==> port == asked);
    assert(says(lines, "port:"@, wanted) <==> port == asked);
}

proof fn lemma_starts(s: Seq<char>, start: Seq<char>)
    requires
        s.len() >= start.len(),
        forall|k: int| 0 <= k < start.len() ==> s[k] == start[k],
    ensures
        starts_with(s, start),
{
    assert(s.subrange(0, start.len() as int) =~= start);
}

proof fn lemma_no_start(s: Seq<char>, start: Seq<char>)
    requires
        s.len() > 0,
        start.len() > 0,
        s[0] != start[0],
    ensures
        !starts_with(s, start),
{
    if starts_with(s, start) {
        assert(s.subrange(0, start.len() as int)[0] == s[0]);
    }
}

/// Each line counts, wherever it stands: what a service shows says what one of its parts says.
pub proof fn law_lines_count_wherever_they_stand(
    first: Seq<Seq<char>>,
    line: Seq<char>,
    second: Seq<Seq<char>>,
    label: Seq<char>,
    value: Seq<char>,
)
    ensures
        ({
            let lines = first.push(line) + second;
            &&& says(lines, label, value) <==> says(first, label, value) || line_says(
                line,
                label,
                value,
            ) || says(second, label, value)
            &&& names(lines, label, value) <==> names(first, label, value) || line_names(
                line,
                label,
                value,
            ) || names(second, label, value)
            &&& says_on(lines) <==> says_on(first) || line_says_on(line) || says_on(second)
        }),
{
    let lines = first.push(line) + second;
    let n = first.len() as int;
    assert(forall|i: int| 0 <= i < n ==> lines[i] == #[trigger] first[i]);
    assert(lines[n] == line);
    assert(forall|i: int| 0 <= i < second.len() ==> lines[n + 1 + i] == #[trigger] second[i]);
    assert(forall|i: int| n < i < lines.len() ==> #[trigger] lines[i] == second[i - n - 1]);
}

/// A command that failed is named by its first argument, and what it wrote stands at the end
/// without white space around it; where the services could not be listed, it stands there as it is.
pub proof fn law_failed_command_is_named(argument: String, written: String)
    ensures
        ({
            let failed = NetworkSetupError::Failed(argument, written).text();
            let listed = NetworkSetupError::NotListed(written).text();
            &&& starts_with(failed, "networksetup "@ + argument@ + " "@)
            &&& crate::keys::ends_with(failed, ": "@ + trimmed(written@))
            &&& starts_with(listed, "networksetup "@)
            &&& crate::keys::ends_with(listed, ": "@ + written@)
        }),
{
    let failed = NetworkSetupError::Failed(argument, written).text();
    let listed = NetworkSetupError::NotListed(written).text();
    reveal_strlit("networksetup ");
    reveal_strlit("networksetup 失败: ");
    reveal_strlit(" 失败: ");
    reveal_strlit(": ");
    reveal_strlit(" ");
    let start = "networksetup "@ + argument@ + " "@;
    assert(failed.subrange(0, start.len() as int) =~= start);
    let end = ": "@ + trimmed(written@);
    assert(failed.skip(failed.len() - end.len()) =~= end);
    assert(listed.subrange(0, 13) =~= "networksetup "@);
    let last = ": "@ + written@;
    assert(listed.skip(listed.len() - last.len()) =~= last);
}

} // verus!
