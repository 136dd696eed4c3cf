//! Traffic figures, and how they are written.
use std::collections::VecDeque;
use std::time::{Duration, Instant};
use vstd::prelude::*;
use vstd::string::StringExecFns;

use crate::text;

verus! {

/// How many recent flows are kept.
pub const RECENT_LIMIT: usize = 12;

/// How many nanoseconds a second has.
pub const SECOND: u64 = 1_000_000_000;

// ----- the clock -----

/// A point in time of the monotonic clock.
#[verifier::external_type_specification]
#[verifier::external_body]
pub struct ExInstant(Instant);

/// `Instant::now` of the standard library: the time of the monotonic clock, of which nothing
/// is known.
pub assume_specification[ Instant::now ]() -> Instant
;

/// `Instant::elapsed` of the standard library: how long ago the point in time was, of which
/// nothing is known.
pub assume_specification[ Instant::elapsed ](at: &Instant) -> Duration
;

/// What a clock reads so many nanoseconds after its start: the number, or the largest that a
/// reading can hold.
pub open spec fn reading_after(elapsed: u128) -> u64 {
    if elapsed > u64::MAX {
        u64::MAX
    } else {
        elapsed as u64
    }
}

/// What a clock reads so many nanoseconds after its start.
pub fn reading(elapsed: u128) -> (r: u64)
    ensures
        r == reading_after(elapsed),
{
    if elapsed > 0xffff_ffff_ffff_ffff {
        0xffff_ffff_ffff_ffff
    } else {
        elapsed as u64
    }
}

/// A clock that counts nanoseconds from its start.
#[derive(Debug, Clone, Copy)]
pub struct Clock {
    start: Instant,
}

impl Clock {
    /// A clock that starts now. Nothing can be said of which moment that is.
    pub fn new() -> Self {
        Clock { start: Instant::now() }
    }

    /// The nanoseconds since the start; the largest number, once there are more. Nothing can be
    /// said of how many they are; [`reading`] says what is made of each number.
    pub fn nanos(&self) -> u64 {
        reading(self.start.elapsed().as_nanos())
    }
}

/// The whole seconds from one reading of a clock to a later one; zero, if it is not later.
pub open spec fn seconds_between(earlier: u64, later: u64) -> u64 {
    if later <= earlier {
        0
    } else {
        ((later - earlier) / SECOND as int) as u64
    }
}

/// The whole seconds from one reading of a clock to a later one.
pub fn elapsed_seconds(earlier: u64, later: u64) -> (r: u64)
    ensures
        r == seconds_between(earlier, later),
{
    later.saturating_sub(earlier) / SECOND
}

// ----- figures -----

/// A flow that began.
#[derive(Debug)]
pub struct FlowEvent {
    pub proto: String,
    pub target: String,
    /// The reading of the clock when it began, in nanoseconds.
    pub at: u64,
}

/// A flow that began, as plain text.
#[verifier::ext_equal]
pub struct FlowModel {
    pub proto: Seq<char>,
    pub target: Seq<char>,
    pub at: u64,
}

impl View for FlowEvent {
    type V = FlowModel;

    open spec fn view(&self) -> FlowModel {
        FlowModel { proto: self.proto@, target: self.target@, at: self.at }
    }
}

impl Clone for FlowEvent {
    fn clone(&self) -> (r: Self)
        ensures
            r@ == self@,
    {
        FlowEvent { proto: self.proto.clone(), target: self.target.clone(), at: self.at }
    }
}

/// The views of a list of flows.
pub open spec fn flow_views(v: Seq<FlowEvent>) -> Seq<FlowModel> {
    v.map_values(|f: FlowEvent| f@)
}

/// The figures at one moment.
#[derive(Debug)]
pub struct TrafficSnapshot {
    pub bytes_up: u64,
    pub bytes_down: u64,
    pub active_conns: u64,
    pub total_conns: u64,
    pub failed_conns: u64,
    pub uptime_secs: u64,
    pub recent: Vec<FlowEvent>,
}

/// The figures at one moment, as plain text.
#[verifier::ext_equal]
pub struct SnapshotModel {
    pub bytes_up: u64,
    pub bytes_down: u64,
    pub active_conns: u64,
    pub total_conns: u64,
    pub failed_conns: u64,
    pub uptime_secs: u64,
    pub recent: Seq<FlowModel>,
}

impl View for TrafficSnapshot {
    type V = SnapshotModel;

    open spec fn view(&self) -> SnapshotModel {
        SnapshotModel {
            bytes_up: self.bytes_up,
            bytes_down: self.bytes_down,
            active_conns: self.active_conns,
            total_conns: self.total_conns,
            failed_conns: self.failed_conns,
            uptime_secs: self.uptime_secs,
            recent: flow_views(self.recent@),
        }
    }
}

/// The figures before anything happened.
pub open spec fn empty_snapshot() -> SnapshotModel {
    SnapshotModel {
        bytes_up: 0,
        bytes_down: 0,
        active_conns: 0,
        total_conns: 0,
        failed_conns: 0,
        uptime_secs: 0,
        recent: Seq::empty(),
    }
}

impl Default for TrafficSnapshot {
    fn default() -> (r: Self)
        ensures
            r@ == empty_snapshot(),
    {
        let r = TrafficSnapshot {
            bytes_up: 0,
            bytes_down: 0,
            active_conns: 0,
            total_conns: 0,
            failed_conns: 0,
            uptime_secs: 0,
            recent: Vec::new(),
        };
        assert(r@.recent =~= Seq::<FlowModel>::empty());
        r
    }
}

impl Clone for TrafficSnapshot {
    fn clone(&self) -> (r: Self)
        ensures
            r@ == self@,
    {
        let mut recent: Vec<FlowEvent> = Vec::new();
        let mut i: usize = 0;
        while i < self.recent.len()
            invariant
                i <= self.recent@.len(),
                recent@.len() == i,
                forall|k: int| 0 <= k < i ==> (#[trigger] recent@[k])@ == self.recent@[k]@,
            decreases self.recent@.len() - i,
        {
            recent.push(self.recent[i].clone());
            i = i + 1;
        }
        assert(flow_views(recent@) =~= flow_views(self.recent@));
        TrafficSnapshot {
            bytes_up: self.bytes_up,
            bytes_down: self.bytes_down,
            active_conns: self.active_conns,
            total_conns: self.total_conns,
            failed_conns: self.failed_conns,
            uptime_secs: self.uptime_secs,
            recent,
        }
    }
}

/// The running figures of a tunnel.
#[derive(Debug)]
pub struct TrafficStats {
    bytes_up: u64,
    bytes_down: u64,
    active_conns: u64,
    total_conns: u64,
    failed_conns: u64,
    recent: VecDeque<FlowEvent>,
    connected_at: Option<u64>,
    clock: Clock,
}

/// The running figures of a tunnel, as plain text.
#[verifier::ext_equal]
pub struct StatsModel {
    pub bytes_up: u64,
    pub bytes_down: u64,
    pub active_conns: u64,
    pub total_conns: u64,
    pub failed_conns: u64,
    pub recent: Seq<FlowModel>,
    pub connected_at: Option<u64>,
    /// The clock by which moments are read.
    pub clock: Clock,
}

impl View for TrafficStats {
    type V = StatsModel;

    closed spec fn view(&self) -> StatsModel {
        StatsModel {
            bytes_up: self.bytes_up,
            bytes_down: self.bytes_down,
            active_conns: self.active_conns,
            total_conns: self.total_conns,
            failed_conns: self.failed_conns,
            recent: flow_views(self.recent@),
            connected_at: self.connected_at,
            clock: self.clock,
        }
    }
}

/// The figures before anything happened, by the given clock.
pub open spec fn empty_stats(clock: Clock) -> StatsModel {
    StatsModel {
        bytes_up: 0,
        bytes_down: 0,
        active_conns: 0,
        total_conns: 0,
        failed_conns: 0,
        recent: Seq::empty(),
        connected_at: None,
        clock,
    }
}

/// The newest flow before all others, and no more of them than are kept.
pub open spec fn with_newest(recent: Seq<FlowModel>, flow: FlowModel) -> Seq<FlowModel> {
    let all = seq![flow] + recent;
    if all.len() > RECENT_LIMIT {
        all.take(RECENT_LIMIT as int)
    } else {
        all
    }
}

impl StatsModel {
    /// After bytes were sent. Counters start again at zero behind the largest number.
    pub open spec fn sent(self, n: u64) -> StatsModel {
        StatsModel { bytes_up: self.bytes_up.wrapping_add(n), ..self }
    }

    /// After bytes were received.
    pub open spec fn received(self, n: u64) -> StatsModel {
        StatsModel { bytes_down: self.bytes_down.wrapping_add(n), ..self }
    }

    /// After the tunnel was connected.
    pub open spec fn connected(self, now: u64) -> StatsModel {
        StatsModel { connected_at: Some(now), ..self }
    }

    /// After a flow began.
    pub open spec fn begun(self, flow: FlowModel) -> StatsModel {
        StatsModel {
            active_conns: self.active_conns.wrapping_add(1),
            total_conns: self.total_conns.wrapping_add(1),
            recent: with_newest(self.recent, flow),
            ..self
        }
    }

    /// After a flow ended.
    pub open spec fn ended(self) -> StatsModel {
        StatsModel { active_conns: self.active_conns.saturating_sub(1), ..self }
    }

    /// After a flow failed.
    pub open spec fn failed(self) -> StatsModel {
        StatsModel {
            failed_conns: self.failed_conns.wrapping_add(1),
            active_conns: self.active_conns.saturating_sub(1),
            ..self
        }
    }

    /// The figures at a moment.
    pub open spec fn shown_at(self, now: u64) -> SnapshotModel {
        SnapshotModel {
            bytes_up: self.bytes_up,
            bytes_down: self.bytes_down,
            active_conns: self.active_conns,
            total_conns: self.total_conns,
            failed_conns: self.failed_conns,
            uptime_secs: match self.connected_at {
                Some(t) => seconds_between(t, now),
                None => 0,
            },
            recent: self.recent,
        }
    }
}

impl TrafficStats {
    /// The figures before anything happened, by a clock that starts now.
    pub fn new() -> (r: Self)
        ensures
            r@ == empty_stats(r@.clock),
    {
        TrafficStats::with_clock(Clock::new())
    }

    /// The figures before anything happened, by the given clock.
    pub fn with_clock(clock: Clock) -> (r: Self)
        ensures
            r@ == empty_stats(clock),
    {
        let r = TrafficStats {
            bytes_up: 0,
            bytes_down: 0,
            active_conns: 0,
            total_conns: 0,
            failed_conns: 0,
            recent: VecDeque::new(),
            connected_at: None,
            clock,
        };
        assert(r@.recent =~= Seq::<FlowModel>::empty());
        r
    }

    /// Takes the given reading of the clock as the moment of the connection.
    pub fn mark_connected_at(&mut self, now: u64)
        ensures
            final(self)@ == old(self)@.connected(now),
    {
        self.connected_at = Some(now);
    }

    /// Takes the present as the moment of the connection.
    pub fn mark_connected(&mut self)
        ensures
            exists|now: u64| final(self)@ == old(self)@.connected(now),
    {
        let now = self.clock.nanos();
        self.mark_connected_at(now)
    }

    /// Counts bytes that were sent.
    pub fn add_up(&mut self, n: u64)
        ensures
            final(self)@ == old(self)@.sent(n),
    {
        self.bytes_up = self.bytes_up.wrapping_add(n);
    }

    /// Counts bytes that were received.
    pub fn add_down(&mut self, n: u64)
        ensures
            final(self)@ == old(self)@.received(n),
    {
        self.bytes_down = self.bytes_down.wrapping_add(n);
    }

    /// Counts a flow that began at the given reading of the clock.
    pub fn begin_flow_at(&mut self, proto: &str, target: &str, now: u64)
        ensures
            final(self)@ == old(self)@.begun(
                FlowModel { proto: proto@, target: target@, at: now },
            ),
    {
        self.active_conns = self.active_conns.wrapping_add(1);
        self.total_conns = self.total_conns.wrapping_add(1);
        let flow = FlowEvent { proto: proto.to_owned(), target: target.to_owned(), at: now };
        let ghost shown = flow@;
        self.recent.push_front(flow);
        let ghost all = self.recent@;
        assert(flow_views(all) =~= seq![shown] + old(self)@.recent);
        while self.recent.len() > RECENT_LIMIT
            invariant
                self.recent@.len() <= all.len(),
                all.len() > RECENT_LIMIT ==> self.recent@.len() >= RECENT_LIMIT,
                all.len() <= RECENT_LIMIT ==> self.recent@ == all,
                self.recent@ == all.take(self.recent@.len() as int),
                self.bytes_up == old(self).bytes_up,
                self.bytes_down == old(self).bytes_down,
                self.failed_conns == old(self).failed_conns,
                self.connected_at == old(self).connected_at,
                self.clock == old(self).clock,
                self.active_conns == old(self).active_conns.wrapping_add(1),
                self.total_conns == old(self).total_conns.wrapping_add(1),
            decreases self.recent@.len(),
        {
            let ghost longer = self.recent@;
            let _dropped = self.recent.pop_back();
            assert(longer.subrange(0, longer.len() - 1) =~= all.take(longer.len() - 1));
        }
        assert(self@.recent =~= with_newest(old(self)@.recent, shown));
    }

    /// Counts a flow that begins.
    pub fn begin_flow(&mut self, proto: &str, target: &str)
        ensures
            exists|now: u64|
                final(self)@ == old(self)@.begun(
                    FlowModel { proto: proto@, target: target@, at: now },
                ),
    {
        let now = self.clock.nanos();
        self.begin_flow_at(proto, target, now)
    }

    /// Counts a flow that ended.
    pub fn end_flow(&mut self)
        ensures
            final(self)@ == old(self)@.ended(),
    {
        self.active_conns = self.active_conns.saturating_sub(1);
    }

    /// Counts a flow that failed.
    pub fn fail_flow(&mut self)
        ensures
            final(self)@ == old(self)@.failed(),
    {
        self.failed_conns = self.failed_conns.wrapping_add(1);
        self.active_conns = self.active_conns.saturating_sub(1);
    }

    /// The figures at the given reading of the clock.
    pub fn snapshot_at(&self, now: u64) -> (r: TrafficSnapshot)
        ensures
            r@ == self@.shown_at(now),
    {
        let mut recent: Vec<FlowEvent> = Vec::new();
        let mut i: usize = 0;
        while i < self.recent.len()
            invariant
                i <= self.recent@.len(),
                recent@.len() == i,
                forall|k: int| 0 <= k < i ==> (#[trigger] recent@[k])@ == self.recent@[k]@,
            decreases self.recent@.len() - i,
        {
            recent.push(self.recent[i].clone());
            i = i + 1;
        }
        assert(flow_views(recent@) =~= flow_views(self.recent@));
        TrafficSnapshot {
            bytes_up: self.bytes_up,
            bytes_down: self.bytes_down,
            active_conns: self.active_conns,
            total_conns: self.total_conns,
            failed_conns: self.failed_conns,
            uptime_secs: match self.connected_at {
                Some(t) => elapsed_seconds(t, now),
                None => 0,
            },
            recent,
        }
    }

    /// The figures now.
    pub fn snapshot(&self) -> (r: TrafficSnapshot)
        ensures
            exists|now: u64| r@ == self@.shown_at(now),
            self@.connected_at is None ==> r@.uptime_secs == 0,
    {
        let now = self.clock.nanos();
        self.snapshot_at(now)
    }
}

// ----- laws of the figures -----

/// The newest flow comes first, the others stay in their order behind it, and there are never
/// more of them than are kept.
pub proof fn law_recent_flows_are_bounded(s: StatsModel, flow: FlowModel)
    ensures
        s.begun(flow).recent.len() <= RECENT_LIMIT,
        s.begun(flow).recent[0] == flow,
        s.begun(flow).recent.len() > 0,
        s.recent.len() < RECENT_LIMIT ==> s.begun(flow).recent.len() == s.recent.len() + 1,
        forall|i: int|
            0 < i < s.begun(flow).recent.len() ==> #[trigger] s.begun(flow).recent[i]
                == s.recent[i - 1],
{
}

/// A flow that begins and then ends leaves as many active as before; it counts in the total,
/// and not among those that failed.
pub proof fn law_ended_flow_balances(s: StatsModel, flow: FlowModel)
    requires
        s.active_conns < u64::MAX,
        s.total_conns < u64::MAX,
    ensures
        s.begun(flow).ended().active_conns == s.active_conns,
        s.begun(flow).ended().total_conns == s.total_conns + 1,
        s.begun(flow).ended().failed_conns == s.failed_conns,
{
}

/// A flow that begins and then fails leaves as many active as before; it counts in the total
/// and among those that failed.
pub proof fn law_failed_flow_balances(s: StatsModel, flow: FlowModel)
    requires
        s.active_conns < u64::MAX,
        s.total_conns < u64::MAX,
        s.failed_conns < u64::MAX,
    ensures
        s.begun(flow).failed().active_conns == s.active_conns,
        s.begun(flow).failed().total_conns == s.total_conns + 1,
        s.begun(flow).failed().failed_conns == s.failed_conns + 1,
{
}

/// There are never more flows active than have begun, as long as the total has not passed the
/// largest number.
pub proof fn law_active_within_total(s: StatsModel, flow: FlowModel, n: u64, now: u64)
    requires
        s.active_conns <= s.total_conns,
        s.total_conns < u64::MAX,
    ensures
        empty_stats(s.clock).active_conns <= empty_stats(s.clock).total_conns,
        s.begun(flow).active_conns <= s.begun(flow).total_conns,
        s.ended().active_conns <= s.ended().total_conns,
        s.failed().active_conns <= s.failed().total_conns,
        s.sent(n).active_conns <= s.sent(n).total_conns,
        s.received(n).active_conns <= s.received(n).total_conns,
        s.connected(now).active_conns <= s.connected(now).total_conns,
{
}

/// Ending or failing when nothing is active leaves nothing active.
pub proof fn law_active_never_below_zero(s: StatsModel)
    requires
        s.active_conns == 0,
    ensures
        s.ended().active_conns == 0,
        s.failed().active_conns == 0,
{
}

// ----- how figures are written -----

/// A quotient rounded to the nearest whole number, and to the even one of two that are equally
/// near.
pub open spec fn half_even(n: nat, d: nat) -> nat
    recommends
        d > 0,
{
    let q = n / d;
    let r = n % d;
    if 2 * r < d || (2 * r == d && q % 2 == 0) {
        q
    } else {
        q + 1
    }
}

/// The smallest of `unit`, its double, its fourfold and so on, of which fewer than 2^53 make
/// the number.
pub open spec fn precision(n: nat, unit: nat) -> nat
    decreases n - unit,
{
    if unit == 0 || n < unit * 0x20_0000_0000_0000 {
        unit
    } else {
        precision(n, 2 * unit)
    }
}

/// The number with 53 binary digits that is nearest to the given one.
pub open spec fn nearest_53_bits(n: nat) -> nat {
    half_even(n, precision(n, 1)) * precision(n, 1)
}

/// A number of hundredths with two digits behind the point.
pub open spec fn hundredths(h: nat) -> Seq<char> {
    text::decimal(h / 100) + "."@ + text::two_wide(h % 100, '0')
}

/// A number of tenths with one digit behind the point.
pub open spec fn tenths(t: nat) -> Seq<char> {
    text::decimal(t / 10) + "."@ + text::decimal(t % 10)
}

/// An amount of bytes as people read it: in whole bytes below 1024, with one digit behind the
/// point in KB, and with two in MB and GB. The amount is taken to 53 binary digits, and what is
/// shown is rounded half to even.
pub open spec fn bytes_text(n: u64) -> Seq<char> {
    let v = nearest_53_bits(n as nat);
    if v >= 0x4000_0000 {
        hundredths(half_even(v * 100, 0x4000_0000)) + " GB"@
    } else if v >= 0x10_0000 {
        hundredths(half_even(v * 100, 0x10_0000)) + " MB"@
    } else if v >= 0x400 {
        tenths(half_even(v * 10, 0x400)) + " KB"@
    } else {
        text::decimal(n as nat) + " B"@
    }
}

fn round_half_even(n: u128, d: u128) -> (r: u128)
    requires
        d > 0,
        n < 0x1000_0000_0000_0000_0000_0000_0000_0000,
        d < 0x1000_0000_0000_0000_0000_0000_0000_0000,
    ensures
        r == half_even(n as nat, d as nat),
        r <= n / d + 1,
{
    let q: u128 = n / d;
    let m: u128 = n % d;
    if 2 * m < d || (2 * m == d && q % 2 == 0) {
        q
    } else {
        q + 1
    }
}

fn find_precision(n: u64) -> (unit: u128)
    ensures
        unit == precision(n as nat, 1),
        1 <= unit <= 4096,
{
    let mut unit: u128 = 1;
    while n as u128 >= unit * 0x20_0000_0000_0000
        invariant
            1 <= unit <= 4096,
            precision(n as nat, 1) == precision(n as nat, unit as nat),
        decreases 4097 - unit,
    {
        unit = 2 * unit;
    }
    unit
}

fn hundredths_string(h: u128) -> (r: String)
    ensures
        r@ == hundredths(h as nat),
{
    let mut out = text::decimal_string(h / 100);
    out.append(".");
    out.append(text::two_wide_string((h % 100) as u64, '0').as_str());
    out
}

fn tenths_string(t: u128) -> (r: String)
    ensures
        r@ == tenths(t as nat),
{
    let mut out = text::decimal_string(t / 10);
    out.append(".");
    out.append(text::decimal_string(t % 10).as_str());
    out
}

/// An amount of bytes as people read it.
pub fn format_bytes(n: u64) -> (r: String)
    ensures
        r@ == bytes_text(n),
{
    let unit = find_precision(n);
    let count = round_half_even(n as u128, unit);
    assert(n as u128 / unit <= n) by (nonlinear_arith)
        requires
            unit >= 1,
    ;
    assert(count * unit <= 0x1_0000_0000_0000_0000 * 4096) by (nonlinear_arith)
        requires
            count <= 0x1_0000_0000_0000_0000,
            unit <= 4096,
    ;
    let v: u128 = count * unit;
    if v >= 0x4000_0000 {
        text::join(hundredths_string(round_half_even(v * 100, 0x4000_0000)).as_str(), " GB")
    } else if v >= 0x10_0000 {
        text::join(hundredths_string(round_half_even(v * 100, 0x10_0000)).as_str(), " MB")
    } else if v >= 0x400 {
        text::join(tenths_string(round_half_even(v * 10, 0x400)).as_str(), " KB")
    } else {
        text::join(text::decimal_string(n as u128).as_str(), " B")
    }
}

/// An amount of bytes per second as people read it; a negative one is shown as zero, and one
/// past the largest `u64` as that.
pub open spec fn rate_text(bytes_per_sec: i128) -> Seq<char> {
    if bytes_per_sec < 0 {
        "0 B/s"@
    } else if bytes_per_sec > u64::MAX {
        bytes_text(u64::MAX) + "/s"@
    } else {
        bytes_text(bytes_per_sec as u64) + "/s"@
    }
}

/// An amount of bytes per second as people read it.
pub fn format_rate(bytes_per_sec: i128) -> (r: String)
    ensures
        r@ == rate_text(bytes_per_sec),
{
    if bytes_per_sec < 0 {
        return "0 B/s".to_owned();
    }
    let n: u64 = if bytes_per_sec > 0xffff_ffff_ffff_ffff {
        0xffff_ffff_ffff_ffff
    } else {
        bytes_per_sec as u64
    };
    text::join(format_bytes(n).as_str(), "/s")
}

/// A length of time in minutes and seconds, with hours before them where there are any.
pub open spec fn duration_text(secs: u64) -> Seq<char> {
    let h = (secs / 3600) as nat;
    let m = ((secs % 3600) / 60) as nat;
    let s = (secs % 60) as nat;
    let short = text::two_wide(m, '0') + ":"@ + text::two_wide(s, '0');
    if h > 0 {
        text::two_wide(h, '0') + ":"@ + short
    } else {
        short
    }
}

/// A length of time as people read it.
pub fn format_duration(secs: u64) -> (r: String)
    ensures
        r@ == duration_text(secs),
{
    let h: u64 = secs / 3600;
    let m: u64 = (secs % 3600) / 60;
    let s: u64 = secs % 60;
    let mut short = text::two_wide_string(m, '0');
    short.append(":");
    short.append(text::two_wide_string(s, '0').as_str());
    if h > 0 {
        let mut out = text::two_wide_string(h, '0');
        out.append(":");
        out.append(short.as_str());
        out
    } else {
        short
    }
}

/// How long ago something was, in seconds below a minute, and in whole minutes from then on.
pub open spec fn age_text(secs: u64) -> Seq<char> {
    if secs < 60 {
        text::two_wide(secs as nat, ' ') + "s"@
    } else {
        text::two_wide((secs / 60) as nat, ' ') + "m"@
    }
}

/// How long ago something was, as people read it.
pub fn format_age(secs: u64) -> (r: String)
    ensures
        r@ == age_text(secs),
{
    if secs < 60 {
        text::join(text::two_wide_string(secs, ' ').as_str(), "s")
    } else {
        text::join(text::two_wide_string(secs / 60, ' ').as_str(), "m")
    }
}

/// The parts of a length of time add up to it, and minutes and seconds stay below sixty.
pub proof fn law_duration_parts_add_up(secs: u64)
    ensures
        (secs / 3600) * 3600 + ((secs % 3600) / 60) * 60 + secs % 60 == secs,
        (secs % 3600) / 60 < 60,
        secs % 60 < 60,
{
}

/// An amount below 2^53 is taken as it is.
pub proof fn law_small_amounts_are_exact(n: nat)
    requires
        n < 0x20_0000_0000_0000,
    ensures
        nearest_53_bits(n) == n,
{
    assert(precision(n, 1) == 1);
    assert(n / 1 == n && n % 1 == 0);
    assert(half_even(n, 1) == n);
}

// ----- what each count changes -----

/// Bytes that were sent are added to those sent before, and bytes that were received to those
/// received before; nothing else changes, and it does not matter in which portions they come.
pub proof fn law_bytes_add_up(s: StatsModel, a: u64, b: u64)
    requires
        s.bytes_up + a + b <= u64::MAX,
        s.bytes_down + a + b <= u64::MAX,
    ensures
        s.sent(a).bytes_up == s.bytes_up + a,
        s.received(a).bytes_down == s.bytes_down + a,
        s.sent(a) == (StatsModel { bytes_up: s.sent(a).bytes_up, ..s }),
        s.received(a) == (StatsModel { bytes_down: s.received(a).bytes_down, ..s }),
        s.sent(a).sent(b) == s.sent((a + b) as u64),
        s.received(a).received(b) == s.received((a + b) as u64),
        s.sent(a).received(b) == s.received(b).sent(a),
        s.sent(0) == s,
        s.received(0) == s,
{
}

/// Behind the largest number counters start again at zero.
pub proof fn law_counters_start_again(s: StatsModel, n: u64)
    requires
        s.bytes_up + n > u64::MAX,
        s.bytes_down + n > u64::MAX,
    ensures
        s.sent(n).bytes_up == s.bytes_up + n - 0x1_0000_0000_0000_0000,
        s.received(n).bytes_down == s.bytes_down + n - 0x1_0000_0000_0000_0000,
{
}

/// A flow that begins, ends or fails changes its own counts by one and nothing else: the bytes,
/// the moment of the connection and the clock stay.
pub proof fn law_flows_change_their_counts_only(s: StatsModel, flow: FlowModel)
    requires
        s.active_conns < u64::MAX,
        s.total_conns < u64::MAX,
        s.failed_conns < u64::MAX,
    ensures
        s.begun(flow).active_conns == s.active_conns + 1,
        s.begun(flow).total_conns == s.total_conns + 1,
        s.begun(flow) == (StatsModel {
            active_conns: s.begun(flow).active_conns,
            total_conns: s.begun(flow).total_conns,
            recent: s.begun(flow).recent,
            ..s
        }),
        s.active_conns > 0 ==> s.ended().active_conns == s.active_conns - 1,
        s.ended() == (StatsModel { active_conns: s.ended().active_conns, ..s }),
        s.failed().failed_conns == s.failed_conns + 1,
        s.failed().active_conns == s.ended().active_conns,
        s.failed() == (StatsModel {
            active_conns: s.failed().active_conns,
            failed_conns: s.failed().failed_conns,
            ..s
        }),
{
}

/// The last twelve flows are kept, the newest first: a flow more pushes the oldest out once there
/// are so many.
pub proof fn law_twelve_flows_are_kept(s: StatsModel, flow: FlowModel)
    requires
        s.recent.len() <= 12,
    ensures
        s.recent.len() < 12 ==> s.begun(flow).recent == seq![flow] + s.recent,
        s.recent.len() == 12 ==> s.begun(flow).recent == seq![flow] + s.recent.drop_last(),
{
    assert((seq![flow] + s.recent).take(12) =~= if s.recent.len() == 12 {
        seq![flow] + s.recent.drop_last()
    } else {
        (seq![flow] + s.recent).take(12)
    });
}

/// What is shown is what was counted, with the whole seconds since the connection; without a
/// connection there are none.
pub proof fn law_snapshot_shows_the_counts(s: StatsModel, at: u64, now: u64)
    requires
        at <= now,
    ensures
        ({
            let shown = s.shown_at(now);
            &&& shown.bytes_up == s.bytes_up
            &&& shown.bytes_down == s.bytes_down
            &&& shown.active_conns == s.active_conns
            &&& shown.total_conns == s.total_conns
            &&& shown.failed_conns == s.failed_conns
            &&& shown.recent == s.recent
            &&& s.connected_at is None ==> shown.uptime_secs == 0
        }),
        ({
            let secs = s.connected(at).shown_at(now).uptime_secs;
            secs * 1_000_000_000 <= now - at < (secs + 1) * 1_000_000_000
        }),
        s.connected(at) == (StatsModel { connected_at: Some(at), ..s }),
{
    law_seconds_are_whole(at, now);
}

/// The seconds between two readings are the whole seconds between them, and none where the second
/// reading is not later.
pub proof fn law_seconds_are_whole(earlier: u64, later: u64)
    ensures
        later <= earlier ==> seconds_between(earlier, later) == 0,
        later >= earlier ==> seconds_between(earlier, later) * 1_000_000_000 <= later - earlier < (
        seconds_between(earlier, later) + 1) * 1_000_000_000,
{
}

/// A clock reads the nanoseconds since its start, and never goes back.
pub proof fn law_clock_reads_what_passed(a: u128, b: u128)
    ensures
        a <= 0xffff_ffff_ffff_ffff ==> reading_after(a) == a,
        a > 0xffff_ffff_ffff_ffff ==> reading_after(a) == 0xffff_ffff_ffff_ffff,
        a <= b ==> reading_after(a) <= reading_after(b),
{
}

// ----- what the written figures stand for -----

/// A rounded quotient is the nearest whole number, and the even one where two are equally near.
pub proof fn law_rounding_is_to_the_nearest(n: nat, d: nat)
    requires
        d > 0,
    ensures
        2 * (half_even(n, d) * d - n) <= d,
        2 * (n - half_even(n, d) * d) <= d,
        2 * (n - half_even(n, d) * d) == d || 2 * (half_even(n, d) * d - n) == d ==> half_even(n, d)
            % 2 == 0,
{
    let q = n / d;
    let r = n % d;
    assert(n == q * d + r && r < d) by (nonlinear_arith)
        requires
            d > 0,
            q == n / d,
            r == n % d,
    ;
    assert((q + 1) * d == q * d + d) by (nonlinear_arith);
}

/// The unit to which a large amount is taken is so small that the amount has 53 binary digits of
/// it, and no smaller.
pub proof fn law_unit_leaves_53_bits(n: nat, unit: nat)
    requires
        unit > 0,
        unit == 1 || n >= unit * 0x10_0000_0000_0000,
    ensures
        n < precision(n, unit) * 0x20_0000_0000_0000,
        precision(n, unit) == 1 || n >= precision(n, unit) * 0x10_0000_0000_0000,
        precision(n, unit) >= unit,
    decreases n - unit,
{
    if !(n < unit * 0x20_0000_0000_0000) {
        law_unit_leaves_53_bits(n, 2 * unit);
    }
}

/// Below 1024 an amount is written as it is, in bytes.
pub proof fn law_small_amounts_are_written_in_bytes(n: u64)
    requires
        n < 1024,
    ensures
        bytes_text(n) == text::decimal(n as nat) + " B"@,
{
    law_small_amounts_are_exact(n as nat);
}

/// From 1024 bytes up to a megabyte an amount is written in tenths of a kilobyte, and what is
/// written is off by half a tenth at most.
pub proof fn law_kilobytes_are_rounded(n: u64)
    requires
        1024 <= n < 1048576,
    ensures
        exists|t: nat|
            bytes_text(n) == #[trigger] text::decimal(t / 10) + "."@ + text::decimal(t % 10)
                + " KB"@ && 2 * (t * 1024 - n * 10) <= 1024 && 2 * (n * 10 - t * 1024) <= 1024,
{
    law_small_amounts_are_exact(n as nat);
    let t = half_even((n * 10) as nat, 1024);
    law_rounding_is_to_the_nearest((n * 10) as nat, 1024);
    assert(bytes_text(n) == text::decimal(t / 10) + "."@ + text::decimal(t % 10) + " KB"@);
}

/// From a megabyte up to a gigabyte an amount is written in hundredths of a megabyte, and what is
/// written is off by half a hundredth at most.
pub proof fn law_megabytes_are_rounded(n: u64)
    requires
        1048576 <= n < 1073741824,
    ensures
        exists|h: nat|
            bytes_text(n) == #[trigger] text::decimal(h / 100) + "."@ + text::two_wide(h % 100, '0')
                + " MB"@ && 2 * (h * 1048576 - n * 100) <= 1048576 && 2 * (n * 100 - h * 1048576)
                <= 1048576,
{
    law_small_amounts_are_exact(n as nat);
    let h = half_even((n * 100) as nat, 1048576);
    law_rounding_is_to_the_nearest((n * 100) as nat, 1048576);
    assert(bytes_text(n) == text::decimal(h / 100) + "."@ + text::two_wide(h % 100, '0') + " MB"@);
}

/// From a gigabyte on an amount is written in hundredths of a gigabyte, and what is written is off
/// by half a hundredth at most, as long as the amount is taken as it is.
pub proof fn law_gigabytes_are_rounded(n: u64)
    requires
        1073741824 <= n < 0x20_0000_0000_0000,
    ensures
        exists|h: nat|
            bytes_text(n) == #[trigger] text::decimal(h / 100) + "."@ + text::two_wide(h % 100, '0')
                + " GB"@ && 2 * (h * 1073741824 - n * 100) <= 1073741824 && 2 * (n * 100 - h
                * 1073741824) <= 1073741824,
{
    law_small_amounts_are_exact(n as nat);
    let h = half_even((n * 100) as nat, 1073741824);
    law_rounding_is_to_the_nearest((n * 100) as nat, 1073741824);
    assert(bytes_text(n) == text::decimal(h / 100) + "."@ + text::two_wide(h % 100, '0') + " GB"@);
}

/// A rate is written as the amount that passes in a second; one below zero as none, and one past
/// the largest amount as that.
pub proof fn law_rate_is_an_amount_per_second(rate: i128)
    ensures
        0 <= rate <= 0xffff_ffff_ffff_ffff ==> rate_text(rate) == bytes_text(rate as u64) + "/s"@,
        rate < 0 ==> rate_text(rate) == rate_text(0),
        rate > 0xffff_ffff_ffff_ffff ==> rate_text(rate) == rate_text(0xffff_ffff_ffff_ffff),
{
    law_small_amounts_are_exact(0);
    reveal_strlit("0 B/s");
    reveal_strlit(" B");
    reveal_strlit("/s");
    assert(text::decimal(0) =~= seq!['0']);
    assert(bytes_text(0) + "/s"@ =~= "0 B/s"@);
}

/// A length of time is written as its minutes and seconds, each below sixty and of two digits,
/// with its hours before them where there are any; together they are the time.
pub proof fn law_written_time_is_the_time(secs: u64)
    ensures
        exists|h: nat, m: nat, s: nat|
            #![trigger text::two_wide(h, '0'), text::two_wide(m, '0'), text::two_wide(s, '0')]
            {
                &&& h * 3600 + m * 60 + s == secs
                &&& m < 60
                &&& s < 60
                &&& duration_text(secs) == (if h > 0 {
                    text::two_wide(h, '0') + ":"@
                } else {
                    Seq::empty()
                }) + (text::two_wide(m, '0') + ":"@ + text::two_wide(s, '0'))
            },
{
    let h = (secs / 3600) as nat;
    let m = ((secs % 3600) / 60) as nat;
    let s = (secs % 60) as nat;
    law_duration_parts_add_up(secs);
    let short = text::two_wide(m, '0') + ":"@ + text::two_wide(s, '0');
    assert(Seq::<char>::empty() + short =~= short);
    assert(text::two_wide(h, '0') + ":"@ + short == (text::two_wide(h, '0') + ":"@) + short);
}

/// An age is written in seconds below a minute and in whole minutes from then on.
pub proof fn law_written_age_is_the_age(secs: u64)
    ensures
        ({
            let written = age_text(secs);
            let number = text::trimmed(written.drop_last());
            &&& text::all_digits(number)
            &&& secs < 60 ==> written.last() == 's' && text::digits_value(number) == secs
            &&& secs >= 60 ==> written.last() == 'm' && text::digits_value(number) * 60 <= secs
                < (text::digits_value(number) + 1) * 60
        }),
{
    reveal_strlit("s");
    reveal_strlit("m");
    let n = if secs < 60 {
        secs as nat
    } else {
        (secs / 60) as nat
    };
    text::law_filled_numbers_read_back(n);
    text::law_decimal_reads_back(n);
    assert(age_text(secs).drop_last() =~= text::two_wide(n, ' '));
}

/// Before anything happened nothing is counted and nothing is shown, at whatever moment; what
/// happens from then on is all that counts.
pub proof fn law_counting_starts_at_nothing(clock: Clock, now: u64, up: u64, down: u64)
    ensures
        ({
            let s = empty_stats(clock);
            &&& s.clock == clock
            &&& s.shown_at(now) == empty_snapshot()
            &&& s.bytes_up == 0
            &&& s.bytes_down == 0
            &&& s.active_conns == 0
            &&& s.total_conns == 0
            &&& s.failed_conns == 0
            &&& s.recent.len() == 0
            &&& s.connected_at is None
            &&& empty_snapshot().uptime_secs == 0
            &&& s.sent(up).received(down).shown_at(now).bytes_up == up
            &&& s.sent(up).received(down).shown_at(now).bytes_down == down
        }),
{
}

} // verus!
