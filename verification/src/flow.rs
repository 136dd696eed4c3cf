//! A connection of a client: from its request to the end of what is relayed.
use vstd::prelude::*;
use vstd::utf8::encode_utf8;

use crate::http_proxy::{HttpRequest, RequestModel};
use crate::socks5;
use crate::stats;
use crate::stats::{StatsModel, TrafficStats};
use crate::text;

verus! {

// ----- requests -----

/// What a client asked for.
#[derive(Debug)]
pub enum FlowRequest {
    /// A target, over SOCKS5.
    Socks5 { host: String, port: u16 },
    /// A request to the HTTP proxy.
    Http(HttpRequest),
}

/// What a client asked for, as plain text.
pub enum FlowRequestModel {
    Socks5 { host: Seq<char>, port: u16 },
    Http(RequestModel),
}

impl View for FlowRequest {
    type V = FlowRequestModel;

    open spec fn view(&self) -> FlowRequestModel {
        match self {
            FlowRequest::Socks5 { host, port } => FlowRequestModel::Socks5 {
                host: host@,
                port: *port,
            },
            FlowRequest::Http(q) => FlowRequestModel::Http(q@),
        }
    }
}

impl FlowRequestModel {
    /// The kind of traffic.
    pub open spec fn protocol(self) -> Seq<char> {
        match self {
            FlowRequestModel::Socks5 { .. } => "SOCKS5"@,
            FlowRequestModel::Http(q) => q.protocol(),
        }
    }

    /// Where it goes.
    pub open spec fn destination(self) -> (Seq<char>, u16) {
        match self {
            FlowRequestModel::Socks5 { host, port } => (host, port),
            FlowRequestModel::Http(q) => q.destination(),
        }
    }

    /// Where it goes, as it is shown.
    pub open spec fn target(self) -> Seq<char> {
        text::address(self.destination().0, self.destination().1)
    }

    /// What the client is told once the far side is open.
    pub open spec fn opened_reply(self) -> Seq<u8> {
        match self {
            FlowRequestModel::Socks5 { .. } => socks5::reply_with(socks5::SUCCEEDED),
            FlowRequestModel::Http(q) => encode_utf8(q.opened_reply()),
        }
    }

    /// What is sent to the far side before anything is relayed, piece by piece.
    pub open spec fn sent_ahead(self) -> Seq<Seq<u8>> {
        match self {
            FlowRequestModel::Socks5 { .. } => Seq::empty(),
            FlowRequestModel::Http(q) => q.sent_ahead(),
        }
    }

    /// How many bytes are sent to the far side before anything is relayed.
    pub open spec fn sent_ahead_length(self) -> u64 {
        match self {
            FlowRequestModel::Socks5 { .. } => 0,
            FlowRequestModel::Http(q) => q.sent_ahead_length(),
        }
    }

    /// What the client is told where the far side could not be opened, if anything.
    pub open spec fn failed_reply(self, detail: Seq<char>) -> Option<Seq<u8>> {
        match self {
            FlowRequestModel::Socks5 { .. } => Some(socks5::reply_with(socks5::REFUSED)),
            FlowRequestModel::Http(q) => match q.failed_reply(detail) {
                Some(t) => Some(encode_utf8(t)),
                None => None,
            },
        }
    }
}

fn bytes_of(s: &str) -> (r: Vec<u8>)
    ensures
        r@ == encode_utf8(s@),
{
    copy_of(s.as_bytes())
}

fn copy_of(v: &[u8]) -> (r: Vec<u8>)
    ensures
        r@ == v@,
{
    let mut out: Vec<u8> = Vec::new();
    let mut i: usize = 0;
    while i < v.len()
        invariant
            i <= v@.len(),
            out@ == v@.take(i as int),
        decreases v@.len() - i,
    {
        out.push(v[i]);
        i = i + 1;
        assert(out@ =~= v@.take(i as int));
    }
    assert(v@.take(v@.len() as int) =~= v@);
    out
}

impl FlowRequest {
    /// The kind of traffic.
    pub fn protocol(&self) -> (r: &'static str)
        ensures
            r@ == self@.protocol(),
    {
        match self {
            FlowRequest::Socks5 { .. } => "SOCKS5",
            FlowRequest::Http(q) => q.protocol(),
        }
    }

    /// Where it goes.
    pub fn destination(&self) -> (r: (&str, u16))
        ensures
            (r.0@, r.1) == self@.destination(),
    {
        match self {
            FlowRequest::Socks5 { host, port } => (host.as_str(), *port),
            FlowRequest::Http(q) => q.destination(),
        }
    }

    /// Where it goes, as it is shown.
    pub fn target(&self) -> (r: String)
        ensures
            r@ == self@.target(),
    {
        let (host, port) = self.destination();
        text::address_string(host, port)
    }

    /// What the client is told once the far side is open; empty where it is told nothing.
    pub fn opened_reply(&self) -> (r: Vec<u8>)
        ensures
            r@ == self@.opened_reply(),
    {
        match self {
            FlowRequest::Socks5 { .. } => socks5::reply(socks5::SUCCEEDED),
            FlowRequest::Http(q) => bytes_of(q.opened_reply()),
        }
    }

    /// What is sent to the far side before anything is relayed, by its position, if there is so
    /// much.
    pub fn sent_ahead(&self, piece: usize) -> (r: Option<Vec<u8>>)
        ensures
            match r {
                Some(v) => piece < self@.sent_ahead().len() && v@
                    == self@.sent_ahead()[piece as int],
                None => piece >= self@.sent_ahead().len(),
            },
    {
        match self {
            FlowRequest::Socks5 { .. } => None,
            FlowRequest::Http(q) => {
                let pieces = q.sent_ahead();
                if piece < pieces.len() {
                    Some(copy_of(pieces[piece]))
                } else {
                    None
                }
            },
        }
    }

    /// What the client is told where the far side could not be opened, if anything.
    pub fn failed_reply(&self, detail: &str) -> (r: Option<Vec<u8>>)
        ensures
            match r {
                Some(v) => self@.failed_reply(detail@) == Some(v@),
                None => self@.failed_reply(detail@) is None,
            },
    {
        match self {
            FlowRequest::Socks5 { .. } => Some(socks5::reply(socks5::REFUSED)),
            FlowRequest::Http(q) => match q.failed_reply(detail) {
                Some(t) => Some(bytes_of(t.as_str())),
                None => None,
            },
        }
    }
}

// ----- the course of a flow -----

/// How far a flow has come.
#[derive(Debug, Clone, Copy, PartialEq, Eq, Structural)]
pub enum Stage {
    /// The far side is being opened.
    Opening,
    /// The client is being told that it is open.
    Answering,
    /// The piece at this position is being sent ahead.
    SendingAhead(usize),
    /// Bytes are relayed both ways.
    Relaying,
    /// Nothing is left to do.
    Over,
}

/// What came of what was to be done.
#[derive(Debug)]
pub enum FlowNews {
    /// The far side is open.
    Opened,
    /// It could not be opened.
    NotOpened(String),
    /// The bytes were sent.
    Sent,
    /// They could not be sent.
    NotSent,
    /// Both sides have ended.
    Ended,
}

/// What came of what was to be done, as plain text.
pub enum FlowNewsModel {
    Opened,
    NotOpened(Seq<char>),
    Sent,
    NotSent,
    Ended,
}

impl View for FlowNews {
    type V = FlowNewsModel;

    open spec fn view(&self) -> FlowNewsModel {
        match self {
            FlowNews::Opened => FlowNewsModel::Opened,
            FlowNews::NotOpened(detail) => FlowNewsModel::NotOpened(detail@),
            FlowNews::Sent => FlowNewsModel::Sent,
            FlowNews::NotSent => FlowNewsModel::NotSent,
            FlowNews::Ended => FlowNewsModel::Ended,
        }
    }
}

/// What is to be done.
#[derive(Debug)]
pub enum FlowAction {
    /// Tell the client.
    TellClient(Vec<u8>),
    /// Send to the far side.
    SendAhead(Vec<u8>),
    /// Relay both ways until both sides end.
    Relay,
    /// Tell the client, if there is anything to tell, and report that the far side could not be
    /// opened.
    TurnAway(Option<Vec<u8>>),
    /// Report that bytes could not be sent.
    GiveUp,
    /// Nothing: the flow went through.
    Finish,
}

/// What is to be done, as plain bytes.
#[verifier::ext_equal]
pub enum FlowActionModel {
    TellClient(Seq<u8>),
    SendAhead(Seq<u8>),
    Relay,
    TurnAway(Option<Seq<u8>>),
    GiveUp,
    Finish,
}

impl View for FlowAction {
    type V = FlowActionModel;

    open spec fn view(&self) -> FlowActionModel {
        match self {
            FlowAction::TellClient(v) => FlowActionModel::TellClient(v@),
            FlowAction::SendAhead(v) => FlowActionModel::SendAhead(v@),
            FlowAction::Relay => FlowActionModel::Relay,
            FlowAction::TurnAway(o) => FlowActionModel::TurnAway(
                match o {
                    Some(v) => Some(v@),
                    None => None,
                },
            ),
            FlowAction::GiveUp => FlowActionModel::GiveUp,
            FlowAction::Finish => FlowActionModel::Finish,
        }
    }
}

/// A flow: what was asked for, and how far it has come.
#[derive(Debug)]
pub struct Flow {
    pub request: FlowRequest,
    pub stage: Stage,
}

/// What a flow does next: its stage, what is to be done, and the figures.
pub struct FlowStep {
    pub stage: Stage,
    pub action: FlowActionModel,
    pub stats: StatsModel,
}

impl FlowRequestModel {
    /// What follows once the piece before the given position is sent: the next piece, or
    /// relaying.
    pub open spec fn ahead_from(self, piece: nat) -> (Stage, FlowActionModel) {
        if piece < self.sent_ahead().len() {
            (
                Stage::SendingAhead(piece as usize),
                FlowActionModel::SendAhead(self.sent_ahead()[piece as int]),
            )
        } else {
            (Stage::Relaying, FlowActionModel::Relay)
        }
    }
}

impl Stage {
    /// Whether the news is what the stage can bring.
    pub open spec fn fits(self, news: FlowNewsModel) -> bool {
        match self {
            Stage::Opening => news is Opened || news is NotOpened,
            Stage::Answering | Stage::SendingAhead(_) => news is Sent || news is NotSent,
            Stage::Relaying => news is Ended,
            Stage::Over => false,
        }
    }
}

/// What follows for a flow from the news. A flow that could not be opened counts as failed. The
/// bytes that are sent ahead count as sent with the first of their pieces. A flow that was
/// relayed counts as ended; one that is given up in between does not.
pub open spec fn flow_after(
    q: FlowRequestModel,
    stage: Stage,
    news: FlowNewsModel,
    stats: StatsModel,
) -> FlowStep {
    match (stage, news) {
        (Stage::Opening, FlowNewsModel::NotOpened(detail)) => FlowStep {
            stage: Stage::Over,
            action: FlowActionModel::TurnAway(q.failed_reply(detail)),
            stats: stats.failed(),
        },
        (Stage::Opening, _) => if q.opened_reply().len() > 0 {
            FlowStep {
                stage: Stage::Answering,
                action: FlowActionModel::TellClient(q.opened_reply()),
                stats,
            }
        } else {
            FlowStep { stage: q.ahead_from(0).0, action: q.ahead_from(0).1, stats }
        },
        (Stage::Relaying, _) => FlowStep {
            stage: Stage::Over,
            action: FlowActionModel::Finish,
            stats: stats.ended(),
        },
        (_, FlowNewsModel::NotSent) => FlowStep {
            stage: Stage::Over,
            action: FlowActionModel::GiveUp,
            stats,
        },
        (Stage::SendingAhead(i), _) => FlowStep {
            stage: q.ahead_from((i + 1) as nat).0,
            action: q.ahead_from((i + 1) as nat).1,
            stats: if i == 0 {
                stats.sent(q.sent_ahead_length())
            } else {
                stats
            },
        },
        (_, _) => FlowStep { stage: q.ahead_from(0).0, action: q.ahead_from(0).1, stats },
    }
}

impl Flow {
    /// Whether the flow is one that comes about.
    pub open spec fn wf(self) -> bool {
        self.stage matches Stage::SendingAhead(i) ==> i < self.request@.sent_ahead().len()
    }

    /// Starts a flow, which counts from the given reading of the clock. The far side is to be
    /// opened first.
    pub fn begin_at(request: FlowRequest, stats: &mut TrafficStats, now: u64) -> (r: Self)
        ensures
            r.request@ == request@,
            r.stage == Stage::Opening,
            r.wf(),
            final(stats)@ == old(stats)@.begun(
                stats::FlowModel {
                    proto: request@.protocol(),
                    target: request@.target(),
                    at: now,
                },
            ),
            final(stats)@ == begun_flow(request@, old(stats)@, now),
    {
        stats.begin_flow_at(request.protocol(), request.target().as_str(), now);
        Flow { request, stage: Stage::Opening }
    }

    /// Starts a flow, which counts from now. The far side is to be opened first.
    pub fn begin(request: FlowRequest, stats: &mut TrafficStats) -> (r: Self)
        ensures
            r.request@ == request@,
            r.stage == Stage::Opening,
            r.wf(),
            exists|now: u64|
                final(stats)@ == #[trigger] old(stats)@.begun(
                    stats::FlowModel {
                        proto: request@.protocol(),
                        target: request@.target(),
                        at: now,
                    },
                ),
    {
        stats.begin_flow(request.protocol(), request.target().as_str());
        Flow { request, stage: Stage::Opening }
    }

    fn ahead_from(&self, piece: usize) -> (r: (Stage, FlowAction))
        ensures
            (r.0, r.1@) == self.request@.ahead_from(piece as nat),
    {
        match self.request.sent_ahead(piece) {
            Some(v) => (Stage::SendingAhead(piece), FlowAction::SendAhead(v)),
            None => (Stage::Relaying, FlowAction::Relay),
        }
    }

    fn length_ahead(&self) -> (r: u64)
        ensures
            r == self.request@.sent_ahead_length(),
    {
        match &self.request {
            FlowRequest::Socks5 { .. } => 0,
            FlowRequest::Http(q) => q.sent_ahead_length(),
        }
    }

    /// Takes in what came of what was to be done, and says what is to be done next.
    pub fn advance(&mut self, news: FlowNews, stats: &mut TrafficStats) -> (r: FlowAction)
        requires
            old(self).wf(),
            old(self).stage.fits(news@),
        ensures
            ({
                let step = flow_after(
                    old(self).request@,
                    old(self).stage,
                    news@,
                    old(stats)@,
                );
                &&& final(self).request == old(self).request
                &&& final(self).stage == step.stage
                &&& r@ == step.action
                &&& final(stats)@ == step.stats
            }),
            final(self).wf(),
    {
        let (stage, action) = match news {
            FlowNews::NotOpened(detail) => {
                stats.fail_flow();
                (Stage::Over, FlowAction::TurnAway(self.request.failed_reply(detail.as_str())))
            },
            FlowNews::Opened => {
                let reply = self.request.opened_reply();
                if reply.len() > 0 {
                    (Stage::Answering, FlowAction::TellClient(reply))
                } else {
                    self.ahead_from(0)
                }
            },
            FlowNews::Ended => {
                stats.end_flow();
                (Stage::Over, FlowAction::Finish)
            },
            FlowNews::NotSent => (Stage::Over, FlowAction::GiveUp),
            FlowNews::Sent => match self.stage {
                Stage::SendingAhead(i) => {
                    if i == 0 {
                        stats.add_up(self.length_ahead());
                    }
                    let next: usize = i + 1;
                    self.ahead_from(next)
                },
                _ => self.ahead_from(0),
            },
        };
        self.stage = stage;
        action
    }
}

// ----- laws of a flow -----

/// How many of the active flows a flow at this stage is.
pub open spec fn share(stage: Stage) -> int {
    if stage == Stage::Over {
        0
    } else {
        1
    }
}

/// Each step of a flow keeps the number of active flows in step with the flows that are not
/// over, unless bytes could not be sent; and it leaves the total alone.
pub proof fn law_steps_keep_the_balance(
    q: FlowRequestModel,
    stage: Stage,
    news: FlowNewsModel,
    stats: StatsModel,
)
    requires
        stage.fits(news),
        !(news is NotSent),
        stats.active_conns >= 1,
    ensures
        ({
            let step = flow_after(q, stage, news, stats);
            &&& step.stats.active_conns - share(step.stage) == stats.active_conns - share(stage)
            &&& step.stats.total_conns == stats.total_conns
            &&& step.stats.recent == stats.recent
        }),
{
}

/// A flow at one stage with the figures, after news that come one by one.
pub open spec fn flow_after_all(
    q: FlowRequestModel,
    stage: Stage,
    news: Seq<FlowNewsModel>,
    stats: StatsModel,
) -> (Stage, StatsModel)
    decreases news.len(),
{
    if news.len() == 0 {
        (stage, stats)
    } else {
        let step = flow_after(q, stage, news[0], stats);
        flow_after_all(q, step.stage, news.skip(1), step.stats)
    }
}

/// Whether the news can come one by one, and all that is to be sent is sent.
pub open spec fn smooth(
    q: FlowRequestModel,
    stage: Stage,
    news: Seq<FlowNewsModel>,
    stats: StatsModel,
) -> bool
    decreases news.len(),
{
    news.len() > 0 ==> {
        let step = flow_after(q, stage, news[0], stats);
        &&& stage.fits(news[0])
        &&& !(news[0] is NotSent)
        &&& smooth(q, step.stage, news.skip(1), step.stats)
    }
}

proof fn lemma_smooth_flow(
    q: FlowRequestModel,
    stage: Stage,
    news: Seq<FlowNewsModel>,
    stats: StatsModel,
)
    requires
        smooth(q, stage, news, stats),
        stage != Stage::Over ==> stats.active_conns >= 1,
    ensures
        ({
            let (end, after) = flow_after_all(q, stage, news, stats);
            &&& after.active_conns - share(end) == stats.active_conns - share(stage)
            &&& after.total_conns == stats.total_conns
        }),
    decreases news.len(),
{
    if news.len() > 0 {
        law_steps_keep_the_balance(q, stage, news[0], stats);
        let step = flow_after(q, stage, news[0], stats);
        lemma_smooth_flow(q, step.stage, news.skip(1), step.stats);
    }
}

/// A flow that begins and comes to its end leaves as many flows active as before, whatever it
/// asked for and whether the far side could be opened, if all that is to be sent is sent.
pub proof fn law_finished_flow_is_not_active(
    q: FlowRequestModel,
    news: Seq<FlowNewsModel>,
    stats: StatsModel,
    now: u64,
)
    requires
        stats.active_conns < u64::MAX,
        stats.total_conns < u64::MAX,
        smooth(q, Stage::Opening, news, begun_flow(q, stats, now)),
        flow_after_all(q, Stage::Opening, news, begun_flow(q, stats, now)).0 == Stage::Over,
    ensures
        flow_after_all(q, Stage::Opening, news, begun_flow(q, stats, now)).1.active_conns
            == stats.active_conns,
        flow_after_all(q, Stage::Opening, news, begun_flow(q, stats, now)).1.total_conns
            == stats.total_conns + 1,
{
    lemma_smooth_flow(q, Stage::Opening, news, begun_flow(q, stats, now));
}

/// The figures once a flow has begun.
pub open spec fn begun_flow(q: FlowRequestModel, stats: StatsModel, now: u64) -> StatsModel {
    stats.begun(stats::FlowModel { proto: q.protocol(), target: q.target(), at: now })
}

/// A tunnel is relayed only after the client was told that it is open.
pub proof fn law_client_is_told_before_relaying(q: FlowRequestModel, stats: StatsModel)
    requires
        q.opened_reply().len() > 0,
        q.sent_ahead().len() == 0,
    ensures
        ({
            let step = flow_after(q, Stage::Opening, FlowNewsModel::Opened, stats);
            let then = flow_after(q, step.stage, FlowNewsModel::Sent, step.stats);
            &&& step.action == FlowActionModel::TellClient(q.opened_reply())
            &&& step.stage == Stage::Answering
            &&& then.action == FlowActionModel::Relay
            &&& then.stats == stats
        }),
{
}

/// SOCKS5 clients and those that ask for a tunnel are told of it, and nothing is sent ahead for
/// them; a request that is passed on is sent ahead, and its client is told nothing.
pub proof fn law_what_is_told_and_sent(q: FlowRequestModel)
    ensures
        q is Socks5 ==> q.opened_reply().len() > 0 && q.sent_ahead().len() == 0,
        q matches FlowRequestModel::Http(h) && h is Connect ==> q.opened_reply().len() > 0
            && q.sent_ahead().len() == 0,
        q matches FlowRequestModel::Http(h) && h is Forward ==> q.opened_reply().len() == 0
            && q.sent_ahead().len() > 0,
{
    reveal_strlit("HTTP/1.1 200 Connection Established\r\n\r\n");
    reveal_with_fuel(encode_utf8, 2);
}

/// All that is sent ahead of a request counts as sent, once.
pub proof fn law_sent_ahead_is_counted_once(
    host: Seq<char>,
    port: u16,
    head: Seq<char>,
    body: Seq<u8>,
    stats: StatsModel,
)
    ensures
        ({
            let q = FlowRequestModel::Http(RequestModel::Forward { host, port, head, body });
            let first = flow_after(q, Stage::Opening, FlowNewsModel::Opened, stats);
            let second = flow_after(q, first.stage, FlowNewsModel::Sent, first.stats);
            let third = flow_after(q, second.stage, FlowNewsModel::Sent, second.stats);
            &&& first.action == FlowActionModel::SendAhead(encode_utf8(head))
            &&& first.stats == stats
            &&& second.stats == stats.sent(q.sent_ahead_length())
            &&& body.len() == 0 ==> second.action == FlowActionModel::Relay
            &&& body.len() > 0 ==> second.action == FlowActionModel::SendAhead(body)
                && third.stats == second.stats && third.action == FlowActionModel::Relay
        }),
{
    assert(encode_utf8(Seq::<char>::empty()) =~= Seq::<u8>::empty());
}

// ----- relaying -----

/// How far relaying one way has come.
#[derive(Debug, Clone, Copy, PartialEq, Eq, Structural)]
pub enum Pump {
    /// Bytes are read.
    Reading,
    /// So many bytes are written.
    Writing(u64),
    /// The far end is being shut, after which nothing is left to do.
    Closing,
}

/// What came of reading or writing.
#[derive(Debug, Clone, Copy, PartialEq, Eq, Structural)]
pub enum PumpNews {
    /// So many bytes were read; none at the end.
    Read(u64),
    /// Reading failed.
    NotRead,
    /// The bytes were written.
    Wrote,
    /// Writing failed.
    NotWritten,
}

impl Pump {
    /// Whether the news is what the state can bring.
    pub open spec fn fits(self, news: PumpNews) -> bool {
        match self {
            Pump::Reading => news is Read || news is NotRead,
            Pump::Writing(_) => news is Wrote || news is NotWritten,
            Pump::Closing => false,
        }
    }

    /// The state after the news.
    pub open spec fn after(self, news: PumpNews) -> Pump {
        match news {
            PumpNews::Read(n) => if n == 0 {
                Pump::Closing
            } else {
                Pump::Writing(n)
            },
            PumpNews::Wrote => Pump::Reading,
            _ => Pump::Closing,
        }
    }

    /// How many bytes the news adds to the count: those that were written.
    pub open spec fn counted(self, news: PumpNews) -> u64 {
        match (self, news) {
            (Pump::Writing(n), PumpNews::Wrote) => n,
            _ => 0,
        }
    }

    /// Takes in what came of reading or writing, and gives the bytes to count.
    pub fn advance(&mut self, news: PumpNews) -> (r: u64)
        requires
            old(self).fits(news),
        ensures
            *final(self) == old(self).after(news),
            r == old(self).counted(news),
    {
        let before = *self;
        match news {
            PumpNews::Read(n) => {
                *self = if n == 0 {
                    Pump::Closing
                } else {
                    Pump::Writing(n)
                };
                0
            },
            PumpNews::Wrote => {
                *self = Pump::Reading;
                match before {
                    Pump::Writing(n) => n,
                    _ => 0,
                }
            },
            _ => {
                *self = Pump::Closing;
                0
            },
        }
    }
}

/// A state after news that come one by one, and how many bytes they add to the count.
pub open spec fn pumped(state: Pump, news: Seq<PumpNews>) -> (Pump, nat)
    decreases news.len(),
{
    if news.len() == 0 {
        (state, 0)
    } else {
        let (end, rest) = pumped(state.after(news[0]), news.skip(1));
        (end, state.counted(news[0]) as nat + rest)
    }
}

/// How many bytes were read and then written.
pub open spec fn written(news: Seq<PumpNews>) -> nat
    decreases news.len(),
{
    if news.len() < 2 {
        0
    } else {
        let rest = written(news.skip(1));
        match (news[0], news[1]) {
            (PumpNews::Read(n), PumpNews::Wrote) => n as nat + rest,
            _ => rest,
        }
    }
}

/// Whether the news can come one by one.
pub open spec fn can_come(state: Pump, news: Seq<PumpNews>) -> bool
    decreases news.len(),
{
    news.len() > 0 ==> state.fits(news[0]) && can_come(state.after(news[0]), news.skip(1))
}

/// What is counted is what was read and then written, and nothing else.
pub proof fn law_written_bytes_are_counted(news: Seq<PumpNews>)
    requires
        can_come(Pump::Reading, news),
    ensures
        pumped(Pump::Reading, news).1 == written(news),
    decreases news.len(),
{
    reveal_with_fuel(pumped, 3);
    reveal_with_fuel(can_come, 3);
    reveal_with_fuel(written, 3);
    if news.len() >= 2 {
        let rest = news.skip(1);
        assert(rest[0] == news[1]);
        assert(rest.skip(1) =~= news.skip(2));
        if let PumpNews::Read(n) = news[0] {
            if n > 0 && news[1] == PumpNews::Wrote {
                law_written_bytes_are_counted(news.skip(2));
                if news.len() >= 3 {
                    assert(rest[1] == news[2]);
                }
            } else if n > 0 {
                assert(news.len() == 2) by {
                    if news.len() > 2 {
                        assert(can_come(Pump::Closing, news.skip(2)));
                    }
                }
            }
        }
    }
}

/// After the end of one side, or a failure, nothing more is read or written.
pub proof fn law_closing_is_final(state: Pump, news: PumpNews)
    requires
        state.fits(news),
        news == PumpNews::Read(0) || news == PumpNews::NotRead || news == PumpNews::NotWritten,
    ensures
        state.after(news) == Pump::Closing,
        forall|more: PumpNews| !state.after(news).fits(more),
{
}

/// What comes of relaying pieces of the given sizes: each is read, and then written.
pub open spec fn relayed_pieces(sizes: Seq<u64>) -> Seq<PumpNews> {
    Seq::new(
        2 * sizes.len(),
        |i: int|
            if i % 2 == 0 {
                PumpNews::Read(sizes[i / 2])
            } else {
                PumpNews::Wrote
            },
    )
}

/// The sum of the sizes.
pub open spec fn total_of(sizes: Seq<u64>) -> nat
    decreases sizes.len(),
{
    if sizes.len() == 0 {
        0
    } else {
        sizes[0] as nat + total_of(sizes.skip(1))
    }
}

proof fn lemma_pieces_and_then(sizes: Seq<u64>, more: Seq<PumpNews>)
    requires
        forall|i: int| 0 <= i < sizes.len() ==> #[trigger] sizes[i] > 0,
    ensures
        can_come(Pump::Reading, relayed_pieces(sizes) + more) == can_come(Pump::Reading, more),
        pumped(Pump::Reading, relayed_pieces(sizes) + more).0 == pumped(Pump::Reading, more).0,
        pumped(Pump::Reading, relayed_pieces(sizes) + more).1 == total_of(sizes) + pumped(
            Pump::Reading,
            more,
        ).1,
    decreases sizes.len(),
{
    let news = relayed_pieces(sizes) + more;
    if sizes.len() == 0 {
        assert(news =~= more);
    } else {
        let rest = sizes.skip(1);
        assert forall|i: int| 0 <= i < rest.len() implies #[trigger] rest[i] > 0 by {
            assert(rest[i] == sizes[i + 1]);
        }
        lemma_pieces_and_then(rest, more);
        assert(news[0] == PumpNews::Read(sizes[0]));
        assert(news.skip(1)[0] == PumpNews::Wrote);
        assert(news.skip(1).skip(1) =~= relayed_pieces(rest) + more);
        assert(sizes[0] > 0);
        reveal_with_fuel(pumped, 3);
        reveal_with_fuel(can_come, 3);
    }
}

/// Any number of pieces can be relayed one after the other: after each of them the next can be
/// read, all of them count, and what ends the relaying comes only behind them.
pub proof fn law_any_number_of_pieces_is_relayed(sizes: Seq<u64>, last: PumpNews)
    requires
        forall|i: int| 0 <= i < sizes.len() ==> #[trigger] sizes[i] > 0,
    ensures
        can_come(Pump::Reading, relayed_pieces(sizes)),
        pumped(Pump::Reading, relayed_pieces(sizes)) == (Pump::Reading, total_of(sizes)),
        can_come(Pump::Reading, relayed_pieces(sizes).push(last)) <==> last is Read || last
            is NotRead,
        last == PumpNews::Read(0) || last == PumpNews::NotRead ==> pumped(
            Pump::Reading,
            relayed_pieces(sizes).push(last),
        ) == (Pump::Closing, total_of(sizes)),
{
    let news = relayed_pieces(sizes);
    let none = Seq::<PumpNews>::empty();
    lemma_pieces_and_then(sizes, none);
    assert(news + none =~= news);
    let end = seq![last];
    assert(end.skip(1) =~= none);
    reveal_with_fuel(pumped, 2);
    reveal_with_fuel(can_come, 2);
    lemma_pieces_and_then(sizes, end);
    assert(news + end =~= news.push(last));
}

/// What was read is what is written next, and nothing else is; once it is written, more is read.
/// Only an empty read or a failure ends the relaying.
pub proof fn law_only_an_end_or_a_failure_closes(state: Pump, news: PumpNews)
    requires
        state != Pump::Closing,
        state == Pump::Reading ==> news is Read || news is NotRead,
        state is Writing ==> news is Wrote || news is NotWritten,
    ensures
        state.fits(news),
        state.after(news) == Pump::Closing <==> news == PumpNews::Read(0) || news
            == PumpNews::NotRead || news == PumpNews::NotWritten,
        news matches PumpNews::Read(n) ==> n > 0 ==> state.after(news) == Pump::Writing(n),
        news == PumpNews::Wrote ==> state.after(news) == Pump::Reading,
        state.counted(news) > 0 ==> news == PumpNews::Wrote && state == Pump::Writing(
            state.counted(news),
        ),
{
}

/// All the bytes of some pieces, one piece behind the other.
pub open spec fn joined_pieces(pieces: Seq<Seq<u8>>) -> Seq<u8>
    decreases pieces.len(),
{
    if pieces.len() == 0 {
        Seq::empty()
    } else {
        pieces[0] + joined_pieces(pieces.skip(1))
    }
}

/// What is sent ahead is the whole request as it was rewritten, with what followed its empty
/// line, and as many bytes count as are sent; no piece is empty but that of an empty head.
pub proof fn law_all_of_a_request_is_sent_ahead(
    host: Seq<char>,
    port: u16,
    head: Seq<char>,
    body: Seq<u8>,
)
    ensures
        ({
            let q = FlowRequestModel::Http(RequestModel::Forward { host, port, head, body });
            &&& joined_pieces(q.sent_ahead()) == encode_utf8(head) + body
            &&& encode_utf8(head).len() + body.len() <= u64::MAX ==> q.sent_ahead_length()
                == joined_pieces(q.sent_ahead()).len()
        }),
{
    let q = FlowRequestModel::Http(RequestModel::Forward { host, port, head, body });
    let first = encode_utf8(head);
    reveal_with_fuel(joined_pieces, 3);
    if body.len() > 0 {
        let pieces = seq![first, body];
        assert(pieces.skip(1) =~= seq![body]);
        assert(pieces.skip(1).skip(1) =~= Seq::<Seq<u8>>::empty());
        assert(joined_pieces(pieces) =~= first + body);
    } else {
        let pieces = seq![first];
        assert(pieces.skip(1) =~= Seq::<Seq<u8>>::empty());
        assert(joined_pieces(pieces) =~= first + body);
    }
}

/// A flow goes where its request asks to go, and is shown as that.
pub proof fn law_flow_goes_where_it_was_asked_to(
    host: Seq<char>,
    port: u16,
    head: Seq<char>,
    body: Seq<u8>,
)
    ensures
        ({
            let socks = FlowRequestModel::Socks5 { host, port };
            let tunnel = FlowRequestModel::Http(RequestModel::Connect { host, port });
            let passed = FlowRequestModel::Http(
                RequestModel::Forward { host, port, head, body },
            );
            &&& socks.destination() == (host, port)
            &&& tunnel.destination() == (host, port)
            &&& passed.destination() == (host, port)
            &&& socks.target() == tunnel.target()
            &&& socks.target() == passed.target()
            &&& text::starts_with(socks.target(), host)
            &&& socks.target()[host.len() as int] == ':'
            &&& text::all_digits(socks.target().skip(host.len() + 1int))
            &&& text::digits_value(socks.target().skip(host.len() + 1int)) == port
            &&& socks.protocol() == "SOCKS5"@
            &&& tunnel.protocol() == "HTTPS"@
            &&& passed.protocol() == "HTTP"@
        }),
{
    reveal_strlit(":");
    let whole = text::address(host, port);
    assert(whole.subrange(0, host.len() as int) =~= host);
    assert(whole.skip(host.len() + 1int) =~= text::decimal(port as nat));
    text::law_decimal_reads_back(port as nat);
}

/// A flow that begins counts once more among the active ones and in the total, and is shown
/// first among the recent ones with its kind, its target and its moment.
pub proof fn law_begun_flow_is_counted_and_shown(q: FlowRequestModel, stats: StatsModel, now: u64)
    requires
        stats.active_conns < u64::MAX,
        stats.total_conns < u64::MAX,
    ensures
        ({
            let after = begun_flow(q, stats, now);
            &&& after.active_conns == stats.active_conns + 1
            &&& after.total_conns == stats.total_conns + 1
            &&& after.failed_conns == stats.failed_conns
            &&& after.bytes_up == stats.bytes_up
            &&& after.bytes_down == stats.bytes_down
            &&& after.recent.len() > 0
            &&& after.recent[0].proto == q.protocol()
            &&& after.recent[0].target == q.target()
            &&& after.recent[0].at == now
        }),
{
}

/// Where the far side could not be opened, the flow is over at once, counts as failed and no
/// longer as active, and nothing is sent to the far side: a SOCKS5 client is told that the
/// target refused, one that asked for a tunnel is told so with the reason, and one whose request
/// would have been passed on is told nothing.
pub proof fn law_unopened_flow_is_turned_away(
    q: FlowRequestModel,
    detail: Seq<char>,
    stats: StatsModel,
)
    requires
        stats.active_conns > 0,
        stats.failed_conns < u64::MAX,
    ensures
        ({
            let step = flow_after(q, Stage::Opening, FlowNewsModel::NotOpened(detail), stats);
            &&& step.stage == Stage::Over
            &&& step.stats.failed_conns == stats.failed_conns + 1
            &&& step.stats.active_conns == stats.active_conns - 1
            &&& step.stats.bytes_up == stats.bytes_up
            &&& step.stats.bytes_down == stats.bytes_down
            &&& step.action is TurnAway
            &&& q is Socks5 ==> step.action == FlowActionModel::TurnAway(
                Some(seq![5u8, 5u8, 0u8, 1u8, 0u8, 0u8, 0u8, 0u8, 0u8, 0u8]),
            )
            &&& q matches FlowRequestModel::Http(h) ==> {
                &&& h is Connect ==> step.action == FlowActionModel::TurnAway(
                    Some(encode_utf8(crate::http_proxy::bad_gateway(detail))),
                )
                &&& h is Forward ==> step.action == FlowActionModel::TurnAway(None)
            }
        }),
{
    assert(socks5::reply_with(socks5::REFUSED) =~= seq![
        5u8,
        5u8,
        0u8,
        1u8,
        0u8,
        0u8,
        0u8,
        0u8,
        0u8,
        0u8,
    ]);
}

/// Once the far side is open, a SOCKS5 client is told that it succeeded before anything else is
/// done.
pub proof fn law_opened_socks5_flow_is_answered(host: Seq<char>, port: u16, stats: StatsModel)
    ensures
        ({
            let q = FlowRequestModel::Socks5 { host, port };
            let step = flow_after(q, Stage::Opening, FlowNewsModel::Opened, stats);
            let then = flow_after(q, step.stage, FlowNewsModel::Sent, step.stats);
            &&& step.action == FlowActionModel::TellClient(
                seq![5u8, 0u8, 0u8, 1u8, 0u8, 0u8, 0u8, 0u8, 0u8, 0u8],
            )
            &&& step.stats == stats
            &&& then.action == FlowActionModel::Relay
            &&& then.stage == Stage::Relaying
            &&& then.stats == stats
        }),
{
    assert(socks5::reply_with(socks5::SUCCEEDED) =~= seq![
        5u8,
        0u8,
        0u8,
        1u8,
        0u8,
        0u8,
        0u8,
        0u8,
        0u8,
        0u8,
    ]);
}

/// A flow whose bytes could not be sent is over at once, and no figure changes.
pub proof fn law_unsent_bytes_end_a_flow(q: FlowRequestModel, stage: Stage, stats: StatsModel)
    requires
        stage == Stage::Answering || stage is SendingAhead,
    ensures
        stage.fits(FlowNewsModel::NotSent),
        flow_after(q, stage, FlowNewsModel::NotSent, stats).stage == Stage::Over,
        flow_after(q, stage, FlowNewsModel::NotSent, stats).action == FlowActionModel::GiveUp,
        flow_after(q, stage, FlowNewsModel::NotSent, stats).stats == stats,
{
}

/// A flow is relayed until both sides have ended; then it is over, and one less is active.
pub proof fn law_relayed_flow_ends(q: FlowRequestModel, stats: StatsModel)
    requires
        stats.active_conns > 0,
    ensures
        Stage::Relaying.fits(FlowNewsModel::Ended),
        ({
            let step = flow_after(q, Stage::Relaying, FlowNewsModel::Ended, stats);
            &&& step.stage == Stage::Over
            &&& step.action == FlowActionModel::Finish
            &&& step.stats == StatsModel {
                active_conns: (stats.active_conns - 1) as u64,
                ..stats
            }
        }),
{
}

/// Relaying begins only when the far side is open, the client was told what it is to be told,
/// and all that is to be sent ahead was sent.
pub proof fn law_relaying_comes_last(
    q: FlowRequestModel,
    stage: Stage,
    news: FlowNewsModel,
    stats: StatsModel,
)
    requires
        stage.fits(news),
        stage matches Stage::SendingAhead(i) ==> i < q.sent_ahead().len(),
    ensures
        flow_after(q, stage, news, stats).action is Relay <==> {
            ||| stage == Stage::Opening && news is Opened && q.opened_reply().len() == 0
                && q.sent_ahead().len() == 0
            ||| stage == Stage::Answering && news is Sent && q.sent_ahead().len() == 0
            ||| news is Sent && (stage matches Stage::SendingAhead(i) && i + 1
                == q.sent_ahead().len())
        },
        flow_after(q, stage, news, stats).action is Relay <==> flow_after(
            q,
            stage,
            news,
            stats,
        ).stage == Stage::Relaying,
{
}

} // verus!
