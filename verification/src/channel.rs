//! Opening a channel to a target through the SSH server.
use vstd::prelude::*;
use vstd::string::StringExecFns;

use crate::socks5;
use crate::text;

verus! {

// ----- failures -----

/// A failure: what was being done, and the cause, if another failure is behind it.
#[derive(Debug)]
pub struct Failure {
    pub message: String,
    pub cause: Option<String>,
}

/// A failure, as plain text.
#[verifier::ext_equal]
pub struct FailureModel {
    pub message: Seq<char>,
    pub cause: Option<Seq<char>>,
}

impl View for Failure {
    type V = FailureModel;

    open spec fn view(&self) -> FailureModel {
        FailureModel {
            message: self.message@,
            cause: match self.cause {
                Some(c) => Some(c@),
                None => None,
            },
        }
    }
}

impl FailureModel {
    /// The message, with the cause behind it.
    pub open spec fn full(self) -> Seq<char> {
        match self.cause {
            Some(c) => self.message + ": "@ + c,
            None => self.message,
        }
    }
}

impl Failure {
    /// The message, with the cause behind it.
    pub fn full(&self) -> (r: String)
        ensures
            r@ == self@.full(),
    {
        let mut out = self.message.clone();
        if let Some(c) = &self.cause {
            out.append(": ");
            out.append(c.as_str());
        }
        out
    }
}

// ----- addresses -----

/// An IPv4 address, byte by byte.
#[derive(Debug, Clone, Copy, PartialEq, Eq, Structural)]
pub struct Ipv4(pub u8, pub u8, pub u8, pub u8);

/// The text of an address.
pub open spec fn ipv4_text(ip: Ipv4) -> Seq<char> {
    socks5::dotted(ip.0, ip.1, ip.2, ip.3)
}

/// The text of an address.
pub fn ipv4_string(ip: &Ipv4) -> (r: String)
    ensures
        r@ == ipv4_text(*ip),
{
    socks5::dotted_string(ip.0, ip.1, ip.2, ip.3)
}

/// What a host is, before any name server is asked.
#[derive(Debug, Clone, Copy)]
pub enum HostKind {
    /// An IPv4 address.
    V4(Ipv4),
    /// An IPv6 address.
    V6,
    /// A name.
    Name,
}

/// An address that a name server gave.
#[derive(Debug, Clone, Copy)]
pub enum Answer {
    V4(Ipv4),
    V6,
}

/// The IPv4 addresses among the answers, each once, in the order in which they first came.
pub open spec fn distinct_ipv4(answers: Seq<Answer>) -> Seq<Ipv4>
    decreases answers.len(),
{
    if answers.len() == 0 {
        Seq::empty()
    } else {
        let before = distinct_ipv4(answers.drop_last());
        match answers.last() {
            Answer::V4(ip) => if before.contains(ip) {
                before
            } else {
                before.push(ip)
            },
            Answer::V6 => before,
        }
    }
}

fn holds(v: &Vec<Ipv4>, ip: &Ipv4) -> (r: bool)
    ensures
        r == v@.contains(*ip),
{
    let mut i: usize = 0;
    while i < v.len()
        invariant
            i <= v@.len(),
            forall|k: int| 0 <= k < i ==> v@[k] != *ip,
        decreases v@.len() - i,
    {
        if v[i] == *ip {
            assert(v@[i as int] == *ip);
            return true;
        }
        i = i + 1;
    }
    false
}

/// The IPv4 addresses among the answers, each once, in the order in which they first came.
pub fn collect_ipv4(answers: &[Answer]) -> (r: Vec<Ipv4>)
    ensures
        r@ == distinct_ipv4(answers@),
{
    let mut out: Vec<Ipv4> = Vec::new();
    let mut i: usize = 0;
    assert(out@ =~= distinct_ipv4(answers@.take(0)));
    while i < answers.len()
        invariant
            i <= answers@.len(),
            out@ == distinct_ipv4(answers@.take(i as int)),
        decreases answers@.len() - i,
    {
        proof {
            let now = answers@.take(i + 1);
            assert(now.drop_last() =~= answers@.take(i as int));
            assert(now.last() == answers@[i as int]);
        }
        if let Answer::V4(ip) = &answers[i] {
            if !holds(&out, ip) {
                out.push(*ip);
            }
        }
        i = i + 1;
    }
    assert(answers@.take(answers@.len() as int) =~= answers@);
    out
}

/// The addresses that result are IPv4 answers, none of them twice, and all of them.
pub proof fn law_addresses_are_the_answers(answers: Seq<Answer>)
    ensures
        forall|i: int|
            0 <= i < distinct_ipv4(answers).len() ==> answers.contains(
                Answer::V4(#[trigger] distinct_ipv4(answers)[i]),
            ),
        distinct_ipv4(answers).no_duplicates(),
        forall|ip: Ipv4|
            #[trigger] answers.contains(Answer::V4(ip)) ==> distinct_ipv4(answers).contains(ip),
    decreases answers.len(),
{
    if answers.len() > 0 {
        let fewer = answers.drop_last();
        let before = distinct_ipv4(fewer);
        let after = distinct_ipv4(answers);
        let last = answers[answers.len() - 1];
        law_addresses_are_the_answers(fewer);
        assert(answers =~= fewer.push(last));
        assert forall|i: int| 0 <= i < after.len() implies answers.contains(
            Answer::V4(#[trigger] after[i]),
        ) by {
            if i < before.len() {
                assert(fewer.contains(Answer::V4(before[i])));
                let k = choose|k: int| 0 <= k < fewer.len() && fewer[k] == Answer::V4(before[i]);
                assert(answers[k] == Answer::V4(after[i]));
            } else {
                assert(answers[answers.len() - 1] == Answer::V4(after[i]));
            }
        }
        assert forall|ip: Ipv4| #[trigger] answers.contains(Answer::V4(ip)) implies after.contains(
            ip,
        ) by {
            let k = choose|k: int| 0 <= k < answers.len() && answers[k] == Answer::V4(ip);
            if k < fewer.len() {
                assert(fewer[k] == Answer::V4(ip));
                assert(fewer.contains(Answer::V4(ip)));
                let j = choose|j: int| 0 <= j < before.len() && before[j] == ip;
                assert(after[j] == ip);
            } else if !before.contains(ip) {
                assert(after[before.len() as int] == ip);
            } else {
                let j = choose|j: int| 0 <= j < before.len() && before[j] == ip;
                assert(after[j] == ip);
            }
        }
    }
}

// ----- resolving -----

/// What is known of a host before any name server is asked.
#[derive(Debug)]
pub enum Lookup {
    /// Its address.
    Known(Ipv4),
    /// That it cannot be served.
    Refused(Failure),
    /// Nothing: a name server has to be asked.
    Ask,
}

/// What is known of a host before any name server is asked, as plain text.
#[verifier::ext_equal]
pub enum LookupModel {
    Known(Ipv4),
    Refused(FailureModel),
    Ask,
}

impl View for Lookup {
    type V = LookupModel;

    open spec fn view(&self) -> LookupModel {
        match self {
            Lookup::Known(ip) => LookupModel::Known(*ip),
            Lookup::Refused(f) => LookupModel::Refused(f@),
            Lookup::Ask => LookupModel::Ask,
        }
    }
}

/// What is known of a host before any name server is asked.
pub open spec fn lookup_of(kind: HostKind) -> LookupModel {
    match kind {
        HostKind::V4(ip) => LookupModel::Known(ip),
        HostKind::V6 => LookupModel::Refused(
            FailureModel { message: "暂不支持纯 IPv6 目标"@, cause: None },
        ),
        HostKind::Name => LookupModel::Ask,
    }
}

/// An address is known as it is, an IPv6 address is refused, and only for a name a name server is
/// asked.
pub proof fn law_only_names_are_looked_up(kind: HostKind)
    ensures
        lookup_of(kind) == LookupModel::Ask <==> kind is Name,
        kind matches HostKind::V4(ip) ==> lookup_of(kind) == LookupModel::Known(ip),
        lookup_of(kind) is Refused <==> kind is V6,
{
}

/// Whether a name server has to be asked for a host.
pub fn before_lookup(kind: HostKind) -> (r: Lookup)
    ensures
        match kind {
            HostKind::V4(ip) => r == Lookup::Known(ip),
            HostKind::V6 => r matches Lookup::Refused(f) && f@ == (FailureModel {
                message: "暂不支持纯 IPv6 目标"@,
                cause: None,
            }),
            HostKind::Name => r == Lookup::Ask,
        },
        r@ == lookup_of(kind),
{
    match kind {
        HostKind::V4(ip) => Lookup::Known(ip),
        HostKind::V6 => Lookup::Refused(
            Failure { message: "暂不支持纯 IPv6 目标".to_owned(), cause: None },
        ),
        HostKind::Name => Lookup::Ask,
    }
}

/// The addresses of a host from what a name server answered, or why there are none.
pub open spec fn resolved(
    host: Seq<char>,
    answers: Result<Seq<Answer>, Seq<char>>,
) -> Result<Seq<Ipv4>, FailureModel> {
    match answers {
        Err(why) => Err(
            FailureModel { message: "本机 DNS 解析失败: "@ + host, cause: Some(why) },
        ),
        Ok(list) => if distinct_ipv4(list).len() == 0 {
            Err(
                FailureModel {
                    message: "本机未能解析到 "@ + host + " 的 IPv4 地址"@,
                    cause: None,
                },
            )
        } else {
            Ok(distinct_ipv4(list))
        },
    }
}

/// The addresses of a host from what a name server answered, or why there are none.
pub fn resolve_ipv4(host: &str, answers: Result<Vec<Answer>, String>) -> (r: Result<
    Vec<Ipv4>,
    Failure,
>)
    ensures
        (match r {
            Ok(v) => Ok(v@),
            Err(f) => Err(f@),
        }) == resolved(
            host@,
            match answers {
                Ok(v) => Ok(v@),
                Err(s) => Err(s@),
            },
        ),
{
    match answers {
        Err(why) => Err(
            Failure { message: text::join("本机 DNS 解析失败: ", host), cause: Some(why) },
        ),
        Ok(list) => {
            let ips = collect_ipv4(&list);
            if ips.len() == 0 {
                let mut message = text::join("本机未能解析到 ", host);
                message.append(" 的 IPv4 地址");
                return Err(Failure { message, cause: None });
            }
            Ok(ips)
        },
    }
}

// ----- opening -----

/// Whether a failure may be due to how the server reaches the name, so that the addresses are
/// worth a try.
pub open spec fn is_connect_failure(message: Seq<char>) -> bool {
    text::contains(message, "ConnectFailed"@) || text::contains(message, "connect failed"@)
}

/// Whether a failure may be due to how the server reaches the name.
pub fn worth_another_try(message: &str) -> (r: bool)
    ensures
        r == is_connect_failure(message@),
{
    text::has_text(message, "ConnectFailed") || text::has_text(message, "connect failed")
}

/// The message for a channel that could not be opened.
pub open spec fn not_opened(host: Seq<char>, port: u16) -> Seq<char> {
    "无法通过 SSH 打开到 "@ + text::address(host, port) + " 的通道"@
}

/// The message for a channel that could not be opened to any address, with advice.
pub open spec fn not_opened_at_all(host: Seq<char>, port: u16) -> Seq<char> {
    not_opened(host, port) + "（远端 ConnectFailed）。请在 SSH 服务器上执行: curl -vI https://"@
        + host + " 或 nc -vz "@ + host + " "@ + text::decimal(port as nat)
        + "；并确认 sshd_config 中 AllowTcpForwarding yes"@
}

fn not_opened_text(host: &str, port: u16) -> (r: String)
    ensures
        r@ == not_opened(host@, port),
{
    let mut out = text::join(
        "无法通过 SSH 打开到 ",
        text::address_string(host, port).as_str(),
    );
    out.append(" 的通道");
    out
}

fn not_opened_at_all_text(host: &str, port: u16) -> (r: String)
    ensures
        r@ == not_opened_at_all(host@, port),
{
    let mut out = not_opened_text(host, port);
    out.append("（远端 ConnectFailed）。请在 SSH 服务器上执行: curl -vI https://");
    out.append(host);
    out.append(" 或 nc -vz ");
    out.append(host);
    out.append(" ");
    out.append(text::decimal_string(port as u128).as_str());
    out.append("；并确认 sshd_config 中 AllowTcpForwarding yes");
    out
}

/// How far opening a channel has come.
#[derive(Debug)]
pub enum Attempt {
    /// The server is asked for the host by its name.
    ByName,
    /// The addresses of the host are wanted.
    Resolve,
    /// The server is asked for the address at this position.
    ByAddress(usize),
}

/// Opening a channel to a host and port. The server is asked for the name first; where it
/// cannot connect, it is asked for each address that is found here.
#[derive(Debug)]
pub struct ChannelOpening {
    pub host: String,
    pub port: u16,
    pub addresses: Vec<Ipv4>,
    pub attempt: Attempt,
}

/// Opening a channel, as plain text.
#[verifier::ext_equal]
pub struct OpeningModel {
    pub host: Seq<char>,
    pub port: u16,
    pub addresses: Seq<Ipv4>,
    pub attempt: Attempt,
}

impl View for ChannelOpening {
    type V = OpeningModel;

    open spec fn view(&self) -> OpeningModel {
        OpeningModel {
            host: self.host@,
            port: self.port,
            addresses: self.addresses@,
            attempt: self.attempt,
        }
    }
}

/// What has to be done next.
#[derive(Debug)]
pub enum OpenAction {
    /// Ask the server for a channel to this host, at the port.
    Ask(String),
    /// Find the addresses of the host.
    Resolve,
}

/// What came of it.
#[derive(Debug)]
pub enum OpenNews {
    /// The server opened the channel.
    Opened,
    /// It did not: the message of its failure, and that with what is behind it.
    NotOpened { message: String, detail: String },
    /// The addresses were found.
    Resolved(Vec<Ipv4>),
    /// They were not.
    NotResolved(Failure),
}

/// What follows from it.
#[derive(Debug)]
pub enum OpenStep {
    /// There is more to do.
    More,
    /// The channel is open.
    Opened,
    /// It cannot be opened.
    Failed(Failure),
}

/// What follows from it, as plain text.
#[verifier::ext_equal]
pub enum OpenStepModel {
    More,
    Opened,
    Failed(FailureModel),
}

impl View for OpenStep {
    type V = OpenStepModel;

    open spec fn view(&self) -> OpenStepModel {
        match self {
            OpenStep::More => OpenStepModel::More,
            OpenStep::Opened => OpenStepModel::Opened,
            OpenStep::Failed(f) => OpenStepModel::Failed(f@),
        }
    }
}

/// What came of an action, as plain text.
#[verifier::ext_equal]
pub enum OpenNewsModel {
    Opened,
    NotOpened { message: Seq<char>, detail: Seq<char> },
    Resolved(Seq<Ipv4>),
    NotResolved(FailureModel),
}

impl View for OpenNews {
    type V = OpenNewsModel;

    open spec fn view(&self) -> OpenNewsModel {
        match self {
            OpenNews::Opened => OpenNewsModel::Opened,
            OpenNews::NotOpened { message, detail } => OpenNewsModel::NotOpened {
                message: message@,
                detail: detail@,
            },
            OpenNews::Resolved(ips) => OpenNewsModel::Resolved(ips@),
            OpenNews::NotResolved(f) => OpenNewsModel::NotResolved(f@),
        }
    }
}

impl OpeningModel {
    /// Whether the state is one that opening a channel goes through.
    pub open spec fn wf(self) -> bool {
        self.attempt matches Attempt::ByAddress(i) ==> i < self.addresses.len()
    }

    /// Whether the news is what the present action can bring.
    pub open spec fn fits(self, news: OpenNewsModel) -> bool {
        match self.attempt {
            Attempt::Resolve => news is Resolved || news is NotResolved,
            _ => news is Opened || news is NotOpened,
        }
    }

    /// The state and what follows, after the news.
    pub open spec fn after(self, news: OpenNewsModel) -> (OpeningModel, OpenStepModel) {
        match (self.attempt, news) {
            (_, OpenNewsModel::Opened) => (self, OpenStepModel::Opened),
            (Attempt::ByName, OpenNewsModel::NotOpened { message, detail }) => if is_connect_failure(
                message,
            ) {
                (OpeningModel { attempt: Attempt::Resolve, ..self }, OpenStepModel::More)
            } else {
                (
                    self,
                    OpenStepModel::Failed(
                        FailureModel {
                            message: not_opened(self.host, self.port),
                            cause: Some(detail),
                        },
                    ),
                )
            },
            (_, OpenNewsModel::NotResolved(f)) => (self, OpenStepModel::Failed(f)),
            (_, OpenNewsModel::Resolved(ips)) => if ips.len() == 0 {
                (
                    self,
                    OpenStepModel::Failed(
                        FailureModel {
                            message: not_opened_at_all(self.host, self.port),
                            cause: Some("无可用 IPv4 地址"@),
                        },
                    ),
                )
            } else {
                (
                    OpeningModel { addresses: ips, attempt: Attempt::ByAddress(0), ..self },
                    OpenStepModel::More,
                )
            },
            (Attempt::ByAddress(i), OpenNewsModel::NotOpened { message, detail }) => if i + 1
                < self.addresses.len() {
                (
                    OpeningModel { attempt: Attempt::ByAddress((i + 1) as usize), ..self },
                    OpenStepModel::More,
                )
            } else {
                (
                    self,
                    OpenStepModel::Failed(
                        FailureModel {
                            message: not_opened_at_all(self.host, self.port),
                            cause: Some(detail),
                        },
                    ),
                )
            },
            (Attempt::Resolve, OpenNewsModel::NotOpened { .. }) => (self, OpenStepModel::More),
        }
    }

    /// The host for which the server is asked, where it is.
    pub open spec fn asked(self) -> Option<Seq<char>> {
        match self.attempt {
            Attempt::ByName => Some(self.host),
            Attempt::Resolve => None,
            Attempt::ByAddress(i) => Some(ipv4_text(self.addresses[i as int])),
        }
    }
}

impl ChannelOpening {
    /// The start of opening a channel.
    pub fn start(host: &str, port: u16) -> (r: Self)
        ensures
            r@ == (OpeningModel {
                host: host@,
                port,
                addresses: Seq::empty(),
                attempt: Attempt::ByName,
            }),
            r@ == opening(host@, port),
    {
        ChannelOpening {
            host: host.to_owned(),
            port,
            addresses: Vec::new(),
            attempt: Attempt::ByName,
        }
    }

    /// What has to be done next.
    pub fn action(&self) -> (r: OpenAction)
        requires
            self@.wf(),
        ensures
            match self@.asked() {
                Some(h) => r matches OpenAction::Ask(s) && s@ == h,
                None => r == OpenAction::Resolve,
            },
    {
        match &self.attempt {
            Attempt::ByName => OpenAction::Ask(self.host.clone()),
            Attempt::Resolve => OpenAction::Resolve,
            Attempt::ByAddress(i) => OpenAction::Ask(ipv4_string(&self.addresses[*i])),
        }
    }

    /// Takes in what came of the action.
    pub fn advance(&mut self, news: OpenNews) -> (r: OpenStep)
        requires
            old(self)@.wf(),
            old(self)@.fits(news@),
        ensures
            (final(self)@, r@) == old(self)@.after(news@),
            final(self)@.wf(),
    {
        match news {
            OpenNews::Opened => OpenStep::Opened,
            OpenNews::NotResolved(f) => OpenStep::Failed(f),
            OpenNews::Resolved(ips) => {
                if ips.len() == 0 {
                    return OpenStep::Failed(
                        Failure {
                            message: not_opened_at_all_text(self.host.as_str(), self.port),
                            cause: Some("无可用 IPv4 地址".to_owned()),
                        },
                    );
                }
                self.addresses = ips;
                self.attempt = Attempt::ByAddress(0);
                OpenStep::More
            },
            OpenNews::NotOpened { message, detail } => match self.attempt {
                Attempt::ByAddress(i) => {
                    let total: usize = self.addresses.len();
                    if i < total - 1 {
                        self.attempt = Attempt::ByAddress(i + 1);
                        OpenStep::More
                    } else {
                        OpenStep::Failed(
                            Failure {
                                message: not_opened_at_all_text(self.host.as_str(), self.port),
                                cause: Some(detail),
                            },
                        )
                    }
                },
                _ => {
                    if worth_another_try(message.as_str()) {
                        self.attempt = Attempt::Resolve;
                        OpenStep::More
                    } else {
                        OpenStep::Failed(
                            Failure {
                                message: not_opened_text(self.host.as_str(), self.port),
                                cause: Some(detail),
                            },
                        )
                    }
                },
            },
        }
    }
}

// ----- laws of opening -----

impl OpeningModel {
    /// The state and what follows, after news that come one by one until there is no more to do.
    pub open spec fn after_all(self, news: Seq<OpenNewsModel>) -> (OpeningModel, OpenStepModel)
        decreases news.len(),
    {
        if news.len() == 0 {
            (self, OpenStepModel::More)
        } else {
            let (next, step) = self.after(news[0]);
            if step is More {
                next.after_all(news.skip(1))
            } else {
                (next, step)
            }
        }
    }
}

/// How opening a channel starts.
pub open spec fn opening(host: Seq<char>, port: u16) -> OpeningModel {
    OpeningModel { host, port, addresses: Seq::empty(), attempt: Attempt::ByName }
}

/// Whether each of the news says that the server did not open the channel.
pub open spec fn all_refused(news: Seq<OpenNewsModel>) -> bool {
    forall|i: int| 0 <= i < news.len() ==> #[trigger] news[i] is NotOpened
}

proof fn lemma_refused(s: OpeningModel, i: usize, refused: Seq<OpenNewsModel>, rest: Seq<OpenNewsModel>)
    requires
        s.attempt == Attempt::ByAddress(i),
        s.addresses.len() <= usize::MAX,
        i + refused.len() < s.addresses.len(),
        all_refused(refused),
    ensures
        s.after_all(refused + rest) == (OpeningModel {
            attempt: Attempt::ByAddress((i + refused.len()) as usize),
            ..s
        }).after_all(rest),
    decreases refused.len(),
{
    if refused.len() == 0 {
        assert(refused + rest =~= rest);
    } else {
        let all = refused + rest;
        assert(all[0] == refused[0]);
        assert(all.skip(1) =~= refused.skip(1) + rest);
        let next = OpeningModel { attempt: Attempt::ByAddress((i + 1) as usize), ..s };
        assert(s.after(all[0]) == (next, OpenStepModel::More));
        assert forall|k: int| 0 <= k < refused.skip(1).len() implies #[trigger] refused.skip(
            1,
        )[k] is NotOpened by {
            assert(refused.skip(1)[k] == refused[k + 1]);
        }
        lemma_refused(next, (i + 1) as usize, refused.skip(1), rest);
    }
}

proof fn lemma_comes_to_addresses(
    host: Seq<char>,
    port: u16,
    message: Seq<char>,
    detail: Seq<char>,
    ips: Seq<Ipv4>,
    rest: Seq<OpenNewsModel>,
)
    requires
        is_connect_failure(message),
        ips.len() > 0,
    ensures
        opening(host, port).after_all(
            seq![
                OpenNewsModel::NotOpened { message, detail },
                OpenNewsModel::Resolved(ips),
            ] + rest,
        ) == (OpeningModel { host, port, addresses: ips, attempt: Attempt::ByAddress(0) }).after_all(
            rest,
        ),
{
    let first = OpenNewsModel::NotOpened { message, detail };
    let second = OpenNewsModel::Resolved(ips);
    let all = seq![first, second] + rest;
    let s = opening(host, port);
    let asked = OpeningModel { attempt: Attempt::Resolve, ..s };
    assert(s.after(all[0]) == (asked, OpenStepModel::More));
    assert(all.skip(1)[0] == second);
    assert(all.skip(1).skip(1) =~= rest);
    reveal_with_fuel(OpeningModel::after_all, 3);
}

/// A channel that the server opens by the name is open, and no address is looked for.
pub proof fn law_name_is_tried_first(host: Seq<char>, port: u16)
    ensures
        opening(host, port).asked() == Some(host),
        opening(host, port).after(OpenNewsModel::Opened).1 == OpenStepModel::Opened,
{
}

/// A failure that has nothing to do with reaching the target ends the attempt at once.
pub proof fn law_other_failures_are_final(
    host: Seq<char>,
    port: u16,
    message: Seq<char>,
    detail: Seq<char>,
)
    requires
        !is_connect_failure(message),
    ensures
        opening(host, port).after(OpenNewsModel::NotOpened { message, detail }).1
            == OpenStepModel::Failed(
            FailureModel { message: not_opened(host, port), cause: Some(detail) },
        ),
{
}

/// Where the server cannot reach the name, it is asked for the addresses in their order; the
/// first that it opens counts.
pub proof fn law_first_open_address_counts(
    host: Seq<char>,
    port: u16,
    message: Seq<char>,
    detail: Seq<char>,
    ips: Seq<Ipv4>,
    refused: Seq<OpenNewsModel>,
)
    requires
        is_connect_failure(message),
        ips.len() <= usize::MAX,
        refused.len() < ips.len(),
        all_refused(refused),
    ensures
        ({
            let (end, step) = opening(host, port).after_all(
                seq![
                    OpenNewsModel::NotOpened { message, detail },
                    OpenNewsModel::Resolved(ips),
                ] + (refused + seq![OpenNewsModel::Opened]),
            );
            &&& step == OpenStepModel::Opened
            &&& end.asked() == Some(ipv4_text(ips[refused.len() as int]))
        }),
{
    let rest = refused + seq![OpenNewsModel::Opened];
    lemma_comes_to_addresses(host, port, message, detail, ips, rest);
    let s = OpeningModel { host, port, addresses: ips, attempt: Attempt::ByAddress(0) };
    lemma_refused(s, 0, refused, seq![OpenNewsModel::Opened]);
}

/// Where the server reaches neither the name nor any address, the failure tells so, with what
/// was said of the last address.
pub proof fn law_fails_after_the_last_address(
    host: Seq<char>,
    port: u16,
    message: Seq<char>,
    detail: Seq<char>,
    ips: Seq<Ipv4>,
    refused: Seq<OpenNewsModel>,
    last_message: Seq<char>,
    last_detail: Seq<char>,
)
    requires
        is_connect_failure(message),
        ips.len() <= usize::MAX,
        refused.len() + 1 == ips.len(),
        all_refused(refused),
    ensures
        opening(host, port).after_all(
            seq![OpenNewsModel::NotOpened { message, detail }, OpenNewsModel::Resolved(ips)] + (
            refused + seq![
                OpenNewsModel::NotOpened { message: last_message, detail: last_detail },
            ]),
        ).1 == OpenStepModel::Failed(
            FailureModel { message: not_opened_at_all(host, port), cause: Some(last_detail) },
        ),
{
    let last = seq![OpenNewsModel::NotOpened { message: last_message, detail: last_detail }];
    lemma_comes_to_addresses(host, port, message, detail, ips, refused + last);
    let s = OpeningModel { host, port, addresses: ips, attempt: Attempt::ByAddress(0) };
    lemma_refused(s, 0, refused, last);
}

// ----- trying the way out -----

/// The targets by which it is found out whether the server reaches the outside.
pub open spec fn probe_targets() -> Seq<(Seq<char>, u16)> {
    seq![("www.baidu.com"@, 443u16), ("1.1.1.1"@, 443u16), ("www.google.com"@, 443u16)]
}

/// The target to try after so many failed; none, once all did.
pub fn probe_egress(failed: usize) -> (r: Option<(&'static str, u16)>)
    ensures
        match r {
            Some(t) => failed < probe_targets().len() && (t.0@, t.1) == probe_targets()[failed as int],
            None => failed >= probe_targets().len(),
        },
{
    if failed == 0 {
        Some(("www.baidu.com", 443))
    } else if failed == 1 {
        Some(("1.1.1.1", 443))
    } else if failed == 2 {
        Some(("www.google.com", 443))
    } else {
        None
    }
}

// ----- what resolving and opening come to -----

/// Answers that come later never change the addresses that were found before, nor their order.
pub proof fn law_later_answers_come_behind(first: Seq<Answer>, second: Seq<Answer>)
    ensures
        distinct_ipv4(first).len() <= distinct_ipv4(first + second).len(),
        distinct_ipv4(first + second).take(distinct_ipv4(first).len() as int) == distinct_ipv4(
            first,
        ),
    decreases second.len(),
{
    let whole = first + second;
    let before = distinct_ipv4(first);
    if second.len() == 0 {
        assert(whole =~= first);
        assert(before.take(before.len() as int) =~= before);
    } else {
        assert(whole.drop_last() =~= first + second.drop_last());
        assert(whole.last() == second.last());
        law_later_answers_come_behind(first, second.drop_last());
        let fewer = distinct_ipv4(whole.drop_last());
        let n = before.len() as int;
        assert(distinct_ipv4(whole).take(n) =~= fewer.take(n));
    }
}

/// A host is found exactly if there is an IPv4 address among the answers; the addresses are then
/// those of the answers. What a name server says of a failure is handed on, and the host is named
/// in either failure.
pub proof fn law_host_is_found_by_its_ipv4_addresses(
    host: Seq<char>,
    answers: Seq<Answer>,
    why: Seq<char>,
)
    ensures
        resolved(host, Ok(answers)) is Ok <==> exists|ip: Ipv4| #[trigger]
            answers.contains(Answer::V4(ip)),
        resolved(host, Ok(answers)) matches Ok(ips) ==> ips.len() > 0 && ips.no_duplicates()
            && forall|ip: Ipv4| ips.contains(ip) <==> #[trigger] answers.contains(Answer::V4(ip)),
        resolved(host, Ok(answers)) matches Err(f) ==> f.cause is None && text::contains(
            f.message,
            host,
        ),
        resolved(host, Err(why)) matches Err(f) && f.cause == Some(why) && text::contains(
            f.message,
            host,
        ),
{
    law_addresses_are_the_answers(answers);
    let ips = distinct_ipv4(answers);
    if ips.len() > 0 {
        assert(answers.contains(Answer::V4(ips[0])));
    }
    assert forall|ip: Ipv4| ips.contains(ip) implies #[trigger] answers.contains(
        Answer::V4(ip),
    ) by {
        let k = choose|k: int| 0 <= k < ips.len() && ips[k] == ip;
        assert(answers.contains(Answer::V4(ips[k])));
    }
    let none = "本机未能解析到 "@;
    let message = none + host + " 的 IPv4 地址"@;
    let n = none.len() as int;
    assert(message.subrange(n, n + host.len()) =~= host);
    assert(text::occurs_at(message, host, n));
    let failed = "本机 DNS 解析失败: "@;
    let m = failed.len() as int;
    assert((failed + host).subrange(m, m + host.len()) =~= host);
    assert(text::occurs_at(failed + host, host, m));
}

/// A message that holds one of the words for a target that the server did not reach, wherever it
/// stands in it, makes the addresses worth a try; and no other message does.
pub proof fn law_connect_failures_are_recognised(
    before: Seq<char>,
    word: Seq<char>,
    after: Seq<char>,
    other: Seq<char>,
)
    requires
        word == "ConnectFailed"@ || word == "connect failed"@,
        !text::contains(other, "ConnectFailed"@),
        !text::contains(other, "connect failed"@),
    ensures
        is_connect_failure(before + word + after),
        !is_connect_failure(other),
{
    let whole = before + word + after;
    let i = before.len() as int;
    assert(whole.subrange(i, i + word.len()) =~= word);
    assert(text::occurs_at(whole, word, i));
}

/// The host and the port of a channel stay what they were, whatever comes of opening it.
pub proof fn law_target_of_a_channel_stays(s: OpeningModel, news: OpenNewsModel)
    ensures
        s.after(news).0.host == s.host,
        s.after(news).0.port == s.port,
{
}

/// What the server is asked for is the host itself or one of the addresses that were found, in
/// the text that reads back as it; nothing is asked while the addresses are looked for.
pub proof fn law_server_is_asked_for_the_target(s: OpeningModel, i: usize)
    requires
        i < s.addresses.len(),
    ensures
        s.attempt == Attempt::ByName ==> s.asked() == Some(s.host),
        s.attempt == Attempt::Resolve ==> s.asked() is None,
        s.attempt == Attempt::ByAddress(i) ==> s.asked() is Some && socks5::is_text_of(
            s.asked()->0,
            s.addresses[i as int].0,
            s.addresses[i as int].1,
            s.addresses[i as int].2,
            s.addresses[i as int].3,
        ),
{
    let ip = s.addresses[i as int];
    socks5::law_dotted_text_reads_back(ip.0, ip.1, ip.2, ip.3, (0, 0, 0, 0));
}

/// Once the server reached neither the name nor an address, the failure to find addresses ends
/// opening: as it is, where the lookup failed, and with its own words where it found none.
pub proof fn law_without_addresses_opening_fails(
    host: Seq<char>,
    port: u16,
    message: Seq<char>,
    detail: Seq<char>,
    f: FailureModel,
)
    requires
        is_connect_failure(message),
    ensures
        ({
            let (next, step) = opening(host, port).after(
                OpenNewsModel::NotOpened { message, detail },
            );
            &&& step == OpenStepModel::More
            &&& next.asked() is None
            &&& next.after(OpenNewsModel::NotResolved(f)).1 == OpenStepModel::Failed(f)
            &&& next.after(OpenNewsModel::Resolved(Seq::empty())).1 matches OpenStepModel::Failed(
                g,
            ) && g.cause is Some && text::contains(g.message, text::address(host, port))
        }),
{
    lemma_failures_name_the_target(host, port);
}

proof fn lemma_failures_name_the_target(host: Seq<char>, port: u16)
    ensures
        text::contains(not_opened(host, port), text::address(host, port)),
        text::contains(not_opened_at_all(host, port), text::address(host, port)),
{
    let start = "无法通过 SSH 打开到 "@;
    let address = text::address(host, port);
    let n = start.len() as int;
    let short = not_opened(host, port);
    let long = not_opened_at_all(host, port);
    assert(short.subrange(n, n + address.len()) =~= address);
    assert(long.subrange(n, n + address.len()) =~= address);
    assert(text::occurs_at(short, address, n));
    assert(text::occurs_at(long, address, n));
}

/// What is told of a channel that could not be opened names the host and the port, and what the
/// server said stands behind it.
pub proof fn law_failures_of_a_channel_name_the_target(
    host: Seq<char>,
    port: u16,
    detail: Seq<char>,
)
    ensures
        text::contains(not_opened(host, port), text::address(host, port)),
        text::contains(not_opened_at_all(host, port), text::address(host, port)),
        text::starts_with(not_opened_at_all(host, port), not_opened(host, port)),
        crate::keys::ends_with(
            (FailureModel { message: not_opened(host, port), cause: Some(detail) }).full(),
            ": "@ + detail,
        ),
        (FailureModel { message: not_opened(host, port), cause: None }).full() == not_opened(
            host,
            port,
        ),
{
    lemma_failures_name_the_target(host, port);
    let short = not_opened(host, port);
    let long = not_opened_at_all(host, port);
    assert(long.subrange(0, short.len() as int) =~= short);
    let full = short + ": "@ + detail;
    let end = ": "@ + detail;
    assert(full.skip(full.len() - end.len()) =~= end);
}

/// The advice for a channel that could not be opened names the host and the port to try by hand.
pub proof fn law_advice_names_host_and_port(host: Seq<char>, port: u16)
    ensures
        ({
            let told = not_opened_at_all(host, port);
            &&& text::contains(told, "https://"@ + host + " "@)
            &&& text::contains(told, "nc -vz "@ + host + " "@ + text::decimal(port as nat))
        }),
{
    let told = not_opened_at_all(host, port);
    let number = text::decimal(port as nat);
    let advice = "（远端 ConnectFailed）。请在 SSH 服务器上执行: curl -vI https://"@;
    reveal_strlit("（远端 ConnectFailed）。请在 SSH 服务器上执行: curl -vI https://");
    reveal_strlit("https://");
    reveal_strlit(" 或 nc -vz ");
    reveal_strlit("nc -vz ");
    reveal_strlit(" ");
    let start = not_opened(host, port);
    let a = start.len() + advice.len() - 8;
    let first = "https://"@ + host + " "@;
    assert(told.subrange(a, a + first.len()) =~= first);
    assert(text::occurs_at(told, first, a));
    let b = start.len() + advice.len() + host.len() + 3int;
    let second = "nc -vz "@ + host + " "@ + number;
    assert(told.subrange(b, b + second.len()) =~= second);
    assert(text::occurs_at(told, second, b));
}

/// The way out is tried with different targets, all at the port of HTTPS, one of them without a
/// name that has to be looked up.
pub proof fn law_way_out_is_tried_with_different_targets(i: int, j: int)
    requires
        0 <= i < j < probe_targets().len(),
    ensures
        probe_targets()[i].1 == 443,
        probe_targets()[j].1 == 443,
        probe_targets()[i].0 != probe_targets()[j].0,
        probe_targets().contains(("1.1.1.1"@, 443u16)),
{
    reveal_strlit("www.baidu.com");
    reveal_strlit("1.1.1.1");
    reveal_strlit("www.google.com");
    assert(probe_targets()[1] == ("1.1.1.1"@, 443u16));
    assert("www.baidu.com"@.len() == 13);
    assert("1.1.1.1"@.len() == 7);
    assert("www.google.com"@.len() == 14);
}

/// Opening a channel starts with asking the server for the target by its name, before anything is
/// looked up here.
pub proof fn law_opening_starts_with_the_name(host: Seq<char>, port: u16)
    ensures
        opening(host, port).wf(),
        opening(host, port).asked() == Some(host),
        opening(host, port).host == host,
        opening(host, port).port == port,
        opening(host, port).addresses.len() == 0,
{
}

} // verus!
