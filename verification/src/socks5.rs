//! The SOCKS5 front end: what is read from a client, what it is answered, and which target it
//! asks for.
use vstd::prelude::*;
use vstd::string::StringExecFns;
use vstd::utf8::{decode_utf8, encode_utf8, valid_utf8};

use crate::text;

verus! {

/// The protocol version.
pub const VERSION: u8 = 5;

/// The command that asks for a connection.
pub const CONNECT: u8 = 1;

/// The address type of four bytes.
pub const IPV4: u8 = 1;

/// The address type of a name.
pub const DOMAIN: u8 = 3;

/// The address type of sixteen bytes.
pub const IPV6: u8 = 4;

/// The reply that the target is connected.
pub const SUCCEEDED: u8 = 0;

/// The reply that the target refused.
pub const REFUSED: u8 = 5;

/// The reply that the command is not supported.
pub const COMMAND_NOT_SUPPORTED: u8 = 7;

/// Why a client is turned away.
#[derive(Debug, Clone, Copy, PartialEq, Eq, Structural)]
pub enum Socks5Error {
    /// The client speaks another protocol.
    NotSocks5,
    /// The client asks for something other than a connection.
    NotConnect,
    /// The target is an IPv6 address.
    Ipv6Target,
    /// The address type is unknown.
    UnknownAddressType(u8),
}

impl Socks5Error {
    /// The text for the error.
    pub open spec fn text(self) -> Seq<char> {
        match self {
            Socks5Error::NotSocks5 => "非 SOCKS5 协议"@,
            Socks5Error::NotConnect => "仅支持 SOCKS5 CONNECT"@,
            Socks5Error::Ipv6Target => "暂不支持 IPv6 目标"@,
            Socks5Error::UnknownAddressType(t) => "未知地址类型 "@ + text::decimal(t as nat),
        }
    }

    /// The text for the error.
    pub fn message(&self) -> (r: String)
        ensures
            r@ == self.text(),
    {
        match self {
            Socks5Error::NotSocks5 => "非 SOCKS5 协议".to_owned(),
            Socks5Error::NotConnect => "仅支持 SOCKS5 CONNECT".to_owned(),
            Socks5Error::Ipv6Target => "暂不支持 IPv6 目标".to_owned(),
            Socks5Error::UnknownAddressType(t) => text::join(
                "未知地址类型 ",
                text::decimal_string(*t as u128).as_str(),
            ),
        }
    }
}

// ----- replies -----

/// The choice of the method without authentication.
pub open spec fn method_chosen() -> Seq<u8> {
    seq![VERSION, 0u8]
}

/// A reply to a request, with the address 0.0.0.0 and the port 0.
pub open spec fn reply_with(code: u8) -> Seq<u8> {
    seq![VERSION, code, 0u8, 1u8, 0u8, 0u8, 0u8, 0u8, 0u8, 0u8]
}

/// A reply to a request.
pub fn reply(code: u8) -> (r: Vec<u8>)
    ensures
        r@ == reply_with(code),
{
    let out: Vec<u8> = vec![VERSION, code, 0, 1, 0, 0, 0, 0, 0, 0];
    assert(out@ =~= reply_with(code));
    out
}

// ----- the conversation -----

/// What comes next from the client.
#[derive(Debug)]
pub enum Socks5 {
    /// The version and the number of methods.
    Greeting,
    /// The methods that the client offers.
    Methods { count: u8 },
    /// The version, the command, a reserved byte and the address type.
    Request,
    /// The four bytes of an address.
    Ipv4Address,
    /// The length of a name.
    DomainLength,
    /// A name.
    Domain { length: u8 },
    /// The port.
    Port { host: String },
}

/// What comes next from the client, as plain text.
pub enum Socks5Model {
    Greeting,
    Methods { count: u8 },
    Request,
    Ipv4Address,
    DomainLength,
    Domain { length: u8 },
    Port { host: Seq<char> },
}

impl View for Socks5 {
    type V = Socks5Model;

    open spec fn view(&self) -> Socks5Model {
        match self {
            Socks5::Greeting => Socks5Model::Greeting,
            Socks5::Methods { count } => Socks5Model::Methods { count: *count },
            Socks5::Request => Socks5Model::Request,
            Socks5::Ipv4Address => Socks5Model::Ipv4Address,
            Socks5::DomainLength => Socks5Model::DomainLength,
            Socks5::Domain { length } => Socks5Model::Domain { length: *length },
            Socks5::Port { host } => Socks5Model::Port { host: host@ },
        }
    }
}

/// What follows from the bytes that came.
#[derive(Debug)]
pub enum Socks5Step {
    /// The conversation goes on, after a reply if there is one.
    Continue { next: Socks5, reply: Vec<u8> },
    /// The client asks for this target.
    Connect { host: String, port: u16 },
    /// The client is turned away, after a reply if there is one.
    Refuse { error: Socks5Error, reply: Vec<u8> },
}

/// What follows from the bytes that came, as plain text and bytes.
pub enum StepModel {
    Continue { next: Socks5Model, reply: Seq<u8> },
    Connect { host: Seq<char>, port: u16 },
    Refuse { error: Socks5Error, reply: Seq<u8> },
}

impl View for Socks5Step {
    type V = StepModel;

    open spec fn view(&self) -> StepModel {
        match self {
            Socks5Step::Continue { next, reply } => StepModel::Continue {
                next: next@,
                reply: reply@,
            },
            Socks5Step::Connect { host, port } => StepModel::Connect { host: host@, port: *port },
            Socks5Step::Refuse { error, reply } => StepModel::Refuse {
                error: *error,
                reply: reply@,
            },
        }
    }
}

/// Four numbers with dots between them.
pub open spec fn dotted(a: u8, b: u8, c: u8, d: u8) -> Seq<char> {
    text::decimal(a as nat) + "."@ + text::decimal(b as nat) + "."@ + text::decimal(c as nat)
        + "."@ + text::decimal(d as nat)
}

/// Four numbers with dots between them.
pub fn dotted_string(a: u8, b: u8, c: u8, d: u8) -> (r: String)
    ensures
        r@ == dotted(a, b, c, d),
{
    let mut out = text::decimal_string(a as u128);
    out.append(".");
    out.append(text::decimal_string(b as u128).as_str());
    out.append(".");
    out.append(text::decimal_string(c as u128).as_str());
    out.append(".");
    out.append(text::decimal_string(d as u128).as_str());
    out
}

/// The port in two bytes, the larger half first.
pub open spec fn port_of(high: u8, low: u8) -> u16 {
    (high * 256 + low) as u16
}

impl Socks5Model {
    /// How many bytes come next.
    pub open spec fn wanted(self) -> nat {
        match self {
            Socks5Model::Greeting => 2,
            Socks5Model::Methods { count } => count as nat,
            Socks5Model::Request => 4,
            Socks5Model::Ipv4Address => 4,
            Socks5Model::DomainLength => 1,
            Socks5Model::Domain { length } => length as nat,
            Socks5Model::Port { .. } => 2,
        }
    }

    /// What follows from the bytes that came, if `shown` is the text that they show.
    pub open spec fn step(self, bytes: Seq<u8>, shown: Seq<char>) -> StepModel {
        match self {
            Socks5Model::Greeting => if bytes[0] != VERSION {
                StepModel::Refuse { error: Socks5Error::NotSocks5, reply: Seq::empty() }
            } else {
                StepModel::Continue {
                    next: Socks5Model::Methods { count: bytes[1] },
                    reply: Seq::empty(),
                }
            },
            Socks5Model::Methods { .. } => StepModel::Continue {
                next: Socks5Model::Request,
                reply: method_chosen(),
            },
            Socks5Model::Request => if bytes[0] != VERSION || bytes[1] != CONNECT {
                StepModel::Refuse {
                    error: Socks5Error::NotConnect,
                    reply: reply_with(COMMAND_NOT_SUPPORTED),
                }
            } else if bytes[3] == IPV4 {
                StepModel::Continue { next: Socks5Model::Ipv4Address, reply: Seq::empty() }
            } else if bytes[3] == DOMAIN {
                StepModel::Continue { next: Socks5Model::DomainLength, reply: Seq::empty() }
            } else if bytes[3] == IPV6 {
                StepModel::Refuse { error: Socks5Error::Ipv6Target, reply: Seq::empty() }
            } else {
                StepModel::Refuse {
                    error: Socks5Error::UnknownAddressType(bytes[3]),
                    reply: Seq::empty(),
                }
            },
            Socks5Model::Ipv4Address => StepModel::Continue {
                next: Socks5Model::Port { host: dotted(bytes[0], bytes[1], bytes[2], bytes[3]) },
                reply: Seq::empty(),
            },
            Socks5Model::DomainLength => StepModel::Continue {
                next: Socks5Model::Domain { length: bytes[0] },
                reply: Seq::empty(),
            },
            Socks5Model::Domain { .. } => StepModel::Continue {
                next: Socks5Model::Port { host: shown },
                reply: Seq::empty(),
            },
            Socks5Model::Port { host } => StepModel::Connect {
                host,
                port: port_of(bytes[0], bytes[1]),
            },
        }
    }
}

impl Socks5 {
    /// The start of a conversation.
    pub fn start() -> (r: Self)
        ensures
            r@ == Socks5Model::Greeting,
    {
        Socks5::Greeting
    }

    /// How many bytes are to be read next.
    pub fn wanted(&self) -> (n: usize)
        ensures
            n == self@.wanted(),
            n <= 255,
    {
        match self {
            Socks5::Greeting => 2,
            Socks5::Methods { count } => *count as usize,
            Socks5::Request => 4,
            Socks5::Ipv4Address => 4,
            Socks5::DomainLength => 1,
            Socks5::Domain { length } => *length as usize,
            Socks5::Port { .. } => 2,
        }
    }

    /// What follows from the bytes that came, if `shown` is the text that they show.
    pub fn advance_shown(self, bytes: &[u8], shown: &str) -> (r: Socks5Step)
        requires
            bytes@.len() == self@.wanted(),
        ensures
            r@ == self@.step(bytes@, shown@),
    {
        let nothing: Vec<u8> = Vec::new();
        match self {
            Socks5::Greeting => if bytes[0] != VERSION {
                Socks5Step::Refuse { error: Socks5Error::NotSocks5, reply: nothing }
            } else {
                Socks5Step::Continue { next: Socks5::Methods { count: bytes[1] }, reply: nothing }
            },
            Socks5::Methods { .. } => {
                let chosen: Vec<u8> = vec![VERSION, 0];
                assert(chosen@ =~= method_chosen());
                Socks5Step::Continue { next: Socks5::Request, reply: chosen }
            },
            Socks5::Request => if bytes[0] != VERSION || bytes[1] != CONNECT {
                Socks5Step::Refuse {
                    error: Socks5Error::NotConnect,
                    reply: reply(COMMAND_NOT_SUPPORTED),
                }
            } else if bytes[3] == IPV4 {
                Socks5Step::Continue { next: Socks5::Ipv4Address, reply: nothing }
            } else if bytes[3] == DOMAIN {
                Socks5Step::Continue { next: Socks5::DomainLength, reply: nothing }
            } else if bytes[3] == IPV6 {
                Socks5Step::Refuse { error: Socks5Error::Ipv6Target, reply: nothing }
            } else {
                Socks5Step::Refuse {
                    error: Socks5Error::UnknownAddressType(bytes[3]),
                    reply: nothing,
                }
            },
            Socks5::Ipv4Address => {
                let host = dotted_string(bytes[0], bytes[1], bytes[2], bytes[3]);
                Socks5Step::Continue { next: Socks5::Port { host }, reply: nothing }
            },
            Socks5::DomainLength => Socks5Step::Continue {
                next: Socks5::Domain { length: bytes[0] },
                reply: nothing,
            },
            Socks5::Domain { .. } => Socks5Step::Continue {
                next: Socks5::Port { host: shown.to_owned() },
                reply: nothing,
            },
            Socks5::Port { host } => {
                let port: u16 = bytes[0] as u16 * 256 + bytes[1] as u16;
                Socks5Step::Connect { host, port }
            },
        }
    }

    /// What follows from the bytes that came. A name is read as UTF-8, with replacement
    /// characters where it is not.
    pub fn advance(self, bytes: &[u8]) -> (r: Socks5Step)
        requires
            bytes@.len() == self@.wanted(),
        ensures
            r@ == self@.step(bytes@, text::utf8_lossy(bytes@)),
            valid_utf8(bytes@) ==> r@ == self@.step(bytes@, decode_utf8(bytes@)),
    {
        let shown = text::decode_lossy(bytes);
        self.advance_shown(bytes, shown.as_str())
    }
}

// ----- whole conversations -----

/// How a conversation ends.
pub enum Outcome {
    /// The client asks for this target.
    Connect { host: Seq<char>, port: u16 },
    /// The client is turned away.
    Refuse { error: Socks5Error },
    /// The client sent less than was wanted.
    Short,
}

/// A conversation as a whole: how it ends, what was replied, and what was not read.
pub struct Conversation {
    pub outcome: Outcome,
    pub replies: Seq<u8>,
    pub unread: Seq<u8>,
}

impl Socks5Model {
    /// How many steps a conversation has at most from here on.
    pub open spec fn steps_left(self) -> nat {
        match self {
            Socks5Model::Greeting => 6,
            Socks5Model::Methods { .. } => 5,
            Socks5Model::Request => 4,
            Socks5Model::DomainLength => 3,
            Socks5Model::Domain { .. } => 2,
            Socks5Model::Ipv4Address => 2,
            Socks5Model::Port { .. } => 1,
        }
    }
}

/// The conversation with a client that sends `stream`, from `stage` on; names are taken as the
/// text that `shows` gives for their bytes.
pub open spec fn converse(
    stage: Socks5Model,
    stream: Seq<u8>,
    shows: spec_fn(Seq<u8>) -> Seq<char>,
) -> Conversation
    decreases stage.steps_left(),
{
    let n = stage.wanted() as int;
    if stream.len() < n {
        Conversation { outcome: Outcome::Short, replies: Seq::empty(), unread: stream }
    } else {
        let bytes = stream.take(n);
        let rest = stream.skip(n);
        match stage.step(bytes, shows(bytes)) {
            StepModel::Continue { next, reply } => {
                let more = converse(next, rest, shows);
                Conversation { replies: reply + more.replies, ..more }
            },
            StepModel::Connect { host, port } => Conversation {
                outcome: Outcome::Connect { host, port },
                replies: Seq::empty(),
                unread: rest,
            },
            StepModel::Refuse { error, reply } => Conversation {
                outcome: Outcome::Refuse { error },
                replies: reply,
                unread: rest,
            },
        }
    }
}

/// A greeting that offers the given methods.
pub open spec fn greeting(methods: Seq<u8>) -> Seq<u8> {
    seq![VERSION, methods.len() as u8] + methods
}

proof fn lemma_take_part(first: Seq<u8>, rest: Seq<u8>)
    ensures
        (first + rest).take(first.len() as int) == first,
        (first + rest).skip(first.len() as int) == rest,
{
    assert((first + rest).take(first.len() as int) =~= first);
    assert((first + rest).skip(first.len() as int) =~= rest);
}

/// A stage that goes on answers first, and then does what the next one does.
proof fn lemma_goes_on(
    stage: Socks5Model,
    bytes: Seq<u8>,
    rest: Seq<u8>,
    next: Socks5Model,
    reply: Seq<u8>,
    shows: spec_fn(Seq<u8>) -> Seq<char>,
)
    requires
        bytes.len() == stage.wanted(),
        stage.step(bytes, shows(bytes)) == (StepModel::Continue { next, reply }),
    ensures
        ({
            let more = converse(next, rest, shows);
            converse(stage, bytes + rest, shows) == (Conversation {
                replies: reply + more.replies,
                ..more
            })
        }),
{
    lemma_take_part(bytes, rest);
}

/// What a client is given that asks for a target, once it is greeted.
spec fn served(host: Seq<char>, high: u8, low: u8, tail: Seq<u8>) -> Conversation {
    Conversation {
        outcome: Outcome::Connect { host, port: port_of(high, low) },
        replies: Seq::empty(),
        unread: tail,
    }
}

proof fn lemma_port_is_served(
    host: Seq<char>,
    high: u8,
    low: u8,
    tail: Seq<u8>,
    shows: spec_fn(Seq<u8>) -> Seq<char>,
)
    ensures
        converse(Socks5Model::Port { host }, seq![high, low] + tail, shows) == served(
            host,
            high,
            low,
            tail,
        ),
{
    lemma_take_part(seq![high, low], tail);
}

proof fn lemma_greeting(methods: Seq<u8>, rest: Seq<u8>, shows: spec_fn(Seq<u8>) -> Seq<char>)
    requires
        methods.len() <= 255,
    ensures
        ({
            let whole = converse(Socks5Model::Greeting, greeting(methods) + rest, shows);
            let more = converse(Socks5Model::Request, rest, shows);
            &&& whole.outcome == more.outcome
            &&& whole.replies == method_chosen() + more.replies
            &&& whole.unread == more.unread
        }),
{
    let first = seq![VERSION, methods.len() as u8];
    let none = Seq::<u8>::empty();
    let chosen = Socks5Model::Methods { count: methods.len() as u8 };
    assert(greeting(methods) + rest =~= first + (methods + rest));
    lemma_goes_on(Socks5Model::Greeting, first, methods + rest, chosen, none, shows);
    lemma_goes_on(chosen, methods, rest, Socks5Model::Request, method_chosen(), shows);
    let more = converse(Socks5Model::Request, rest, shows);
    assert(none + (method_chosen() + more.replies) =~= method_chosen() + more.replies);
}

/// A client that greets, whatever methods it offers, and asks for an IPv4 address and a port is
/// given that target; it is told only that no authentication is wanted, and nothing behind its
/// request is read.
pub proof fn law_ipv4_request_is_served(
    methods: Seq<u8>,
    reserved: u8,
    a: u8,
    b: u8,
    c: u8,
    d: u8,
    high: u8,
    low: u8,
    tail: Seq<u8>,
    shows: spec_fn(Seq<u8>) -> Seq<char>,
)
    requires
        methods.len() <= 255,
    ensures
        converse(
            Socks5Model::Greeting,
            greeting(methods) + (seq![VERSION, CONNECT, reserved, IPV4] + (seq![a, b, c, d] + (seq![
                high,
                low,
            ] + tail))),
            shows,
        ) == (Conversation {
            outcome: Outcome::Connect { host: dotted(a, b, c, d), port: port_of(high, low) },
            replies: method_chosen(),
            unread: tail,
        }),
{
    let ip = seq![a, b, c, d];
    let request = seq![VERSION, CONNECT, reserved, IPV4];
    let rest = seq![high, low] + tail;
    let none = Seq::<u8>::empty();
    let host = dotted(a, b, c, d);
    lemma_greeting(methods, request + (ip + rest), shows);
    lemma_goes_on(Socks5Model::Request, request, ip + rest, Socks5Model::Ipv4Address, none, shows);
    lemma_goes_on(Socks5Model::Ipv4Address, ip, rest, Socks5Model::Port { host }, none, shows);
    lemma_port_is_served(host, high, low, tail, shows);
    assert(none + none =~= none);
    assert(method_chosen() + none =~= method_chosen());
}

/// A client that greets and asks for a name and a port is given that target; the name is the
/// text that its bytes show.
pub proof fn law_domain_request_is_served(
    methods: Seq<u8>,
    reserved: u8,
    name: Seq<u8>,
    high: u8,
    low: u8,
    tail: Seq<u8>,
    shows: spec_fn(Seq<u8>) -> Seq<char>,
)
    requires
        methods.len() <= 255,
        name.len() <= 255,
    ensures
        converse(
            Socks5Model::Greeting,
            greeting(methods) + (seq![VERSION, CONNECT, reserved, DOMAIN] + (seq![
                name.len() as u8,
            ] + (name + (seq![high, low] + tail)))),
            shows,
        ) == (Conversation {
            outcome: Outcome::Connect { host: shows(name), port: port_of(high, low) },
            replies: method_chosen(),
            unread: tail,
        }),
{
    let request = seq![VERSION, CONNECT, reserved, DOMAIN];
    let length = seq![name.len() as u8];
    let rest = seq![high, low] + tail;
    let none = Seq::<u8>::empty();
    let host = shows(name);
    let named = Socks5Model::Domain { length: name.len() as u8 };
    lemma_greeting(methods, request + (length + (name + rest)), shows);
    lemma_goes_on(
        Socks5Model::Request,
        request,
        length + (name + rest),
        Socks5Model::DomainLength,
        none,
        shows,
    );
    lemma_goes_on(Socks5Model::DomainLength, length, name + rest, named, none, shows);
    lemma_goes_on(named, name, rest, Socks5Model::Port { host }, none, shows);
    lemma_port_is_served(host, high, low, tail, shows);
    assert(none + none =~= none);
    assert(method_chosen() + none =~= method_chosen());
}

/// A name that was written as UTF-8 shows as that name.
pub proof fn law_utf8_name_is_kept(name: Seq<char>)
    ensures
        valid_utf8(encode_utf8(name)),
        decode_utf8(encode_utf8(name)) == name,
{
    vstd::utf8::encode_utf8_valid_utf8(name);
    vstd::utf8::encode_utf8_decode_utf8(name);
}

/// The two bytes of a port stand for that port, and no other two do.
pub proof fn law_port_bytes_are_unique(high: u8, low: u8, port: u16)
    ensures
        port_of(high, low) == port <==> high == port / 256 && low == port % 256,
{
}

/// A client that does not begin with the version is turned away without a word.
pub proof fn law_other_protocol_is_refused(
    first: u8,
    second: u8,
    tail: Seq<u8>,
    shows: spec_fn(Seq<u8>) -> Seq<char>,
)
    requires
        first != VERSION,
    ensures
        converse(Socks5Model::Greeting, seq![first, second] + tail, shows) == (Conversation {
            outcome: Outcome::Refuse { error: Socks5Error::NotSocks5 },
            replies: Seq::empty(),
            unread: tail,
        }),
{
    lemma_take_part(seq![first, second], tail);
}

/// A client that asks for anything but a connection is told that this is not supported, and
/// turned away.
pub proof fn law_other_command_is_refused(
    methods: Seq<u8>,
    version: u8,
    command: u8,
    reserved: u8,
    kind: u8,
    tail: Seq<u8>,
    shows: spec_fn(Seq<u8>) -> Seq<char>,
)
    requires
        methods.len() <= 255,
        version != VERSION || command != CONNECT,
    ensures
        converse(
            Socks5Model::Greeting,
            greeting(methods) + (seq![version, command, reserved, kind] + tail),
            shows,
        ) == (Conversation {
            outcome: Outcome::Refuse { error: Socks5Error::NotConnect },
            replies: method_chosen() + reply_with(COMMAND_NOT_SUPPORTED),
            unread: tail,
        }),
{
    let request = seq![version, command, reserved, kind];
    lemma_greeting(methods, request + tail, shows);
    lemma_take_part(request, tail);
}

/// A client that asks for an IPv6 address, or an address of an unknown type, is turned away.
pub proof fn law_other_address_is_refused(
    methods: Seq<u8>,
    reserved: u8,
    kind: u8,
    tail: Seq<u8>,
    shows: spec_fn(Seq<u8>) -> Seq<char>,
)
    requires
        methods.len() <= 255,
        kind != IPV4,
        kind != DOMAIN,
    ensures
        converse(
            Socks5Model::Greeting,
            greeting(methods) + (seq![VERSION, CONNECT, reserved, kind] + tail),
            shows,
        ) == (Conversation {
            outcome: Outcome::Refuse {
                error: if kind == IPV6 {
                    Socks5Error::Ipv6Target
                } else {
                    Socks5Error::UnknownAddressType(kind)
                },
            },
            replies: method_chosen(),
            unread: tail,
        }),
{
    let request = seq![VERSION, CONNECT, reserved, kind];
    lemma_greeting(methods, request + tail, shows);
    lemma_take_part(request, tail);
    assert(method_chosen() + Seq::<u8>::empty() =~= method_chosen());
}

/// Whether a text has exactly three dots, at the positions, and digits alone between and around
/// them that stand for the four numbers in their order.
pub open spec fn reads_as_four(
    s: Seq<char>,
    dots: (int, int, int),
    numbers: (nat, nat, nat, nat),
) -> bool {
    let (i, j, k) = dots;
    &&& 0 < i
    &&& i + 1 < j
    &&& j + 1 < k
    &&& k + 1 < s.len()
    &&& s[i] == '.'
    &&& s[j] == '.'
    &&& s[k] == '.'
    &&& text::all_digits(s.take(i))
    &&& text::all_digits(s.subrange(i + 1, j))
    &&& text::all_digits(s.subrange(j + 1, k))
    &&& text::all_digits(s.skip(k + 1))
    &&& text::digits_value(s.take(i)) == numbers.0
    &&& text::digits_value(s.subrange(i + 1, j)) == numbers.1
    &&& text::digits_value(s.subrange(j + 1, k)) == numbers.2
    &&& text::digits_value(s.skip(k + 1)) == numbers.3
}

/// Whether a text is four numbers with three dots between them, and stands for the four bytes in
/// their order.
pub open spec fn is_text_of(s: Seq<char>, a: u8, b: u8, c: u8, d: u8) -> bool {
    exists|dots: (int, int, int)| #[trigger]
        reads_as_four(s, dots, (a as nat, b as nat, c as nat, d as nat))
}

proof fn lemma_dots_are_unique(
    s: Seq<char>,
    dots: (int, int, int),
    numbers: (nat, nat, nat, nat),
    x: int,
)
    requires
        reads_as_four(s, dots, numbers),
        0 <= x < s.len(),
        s[x] == '.',
    ensures
        x == dots.0 || x == dots.1 || x == dots.2,
{
    let (i, j, k) = dots;
    if x < i {
        assert(text::is_digit(s.take(i)[x]));
    } else if i < x < j {
        assert(text::is_digit(s.subrange(i + 1, j)[x - i - 1]));
    } else if j < x < k {
        assert(text::is_digit(s.subrange(j + 1, k)[x - j - 1]));
    } else if k < x {
        assert(text::is_digit(s.skip(k + 1)[x - k - 1]));
    }
}

/// A text of this kind stands for one row of four numbers only.
proof fn lemma_four_are_unique(
    s: Seq<char>,
    dots: (int, int, int),
    numbers: (nat, nat, nat, nat),
    others: (int, int, int),
    more: (nat, nat, nat, nat),
)
    requires
        reads_as_four(s, dots, numbers),
        reads_as_four(s, others, more),
    ensures
        dots == others,
        numbers == more,
{
    lemma_dots_are_unique(s, dots, numbers, others.0);
    lemma_dots_are_unique(s, dots, numbers, others.1);
    lemma_dots_are_unique(s, dots, numbers, others.2);
    lemma_dots_are_unique(s, others, more, dots.0);
    lemma_dots_are_unique(s, others, more, dots.1);
    lemma_dots_are_unique(s, others, more, dots.2);
}

proof fn lemma_dotted_reads_as_four(a: u8, b: u8, c: u8, d: u8) -> (dots: (int, int, int))
    ensures
        reads_as_four(dotted(a, b, c, d), dots, (a as nat, b as nat, c as nat, d as nat)),
{
    let s = dotted(a, b, c, d);
    let p = text::decimal(a as nat);
    let q = text::decimal(b as nat);
    let r = text::decimal(c as nat);
    let t = text::decimal(d as nat);
    reveal_strlit(".");
    text::law_decimal_reads_back(a as nat);
    text::law_decimal_reads_back(b as nat);
    text::law_decimal_reads_back(c as nat);
    text::law_decimal_reads_back(d as nat);
    let i = p.len() as int;
    let j = i + 1 + q.len();
    let k = j + 1 + r.len();
    assert(s.take(i) =~= p);
    assert(s.subrange(i + 1, j) =~= q);
    assert(s.subrange(j + 1, k) =~= r);
    assert(s.skip(k + 1) =~= t);
    (i, j, k)
}

/// The text of an IPv4 address reads back as its four bytes in their order, split at its three
/// dots; so different addresses have different texts.
pub proof fn law_dotted_text_reads_back(
    a: u8,
    b: u8,
    c: u8,
    d: u8,
    other: (u8, u8, u8, u8),
)
    ensures
        is_text_of(dotted(a, b, c, d), a, b, c, d),
        dotted(a, b, c, d) == dotted(other.0, other.1, other.2, other.3) ==> (a, b, c, d) == other,
{
    let here = lemma_dotted_reads_as_four(a, b, c, d);
    let there = lemma_dotted_reads_as_four(other.0, other.1, other.2, other.3);
    if dotted(a, b, c, d) == dotted(other.0, other.1, other.2, other.3) {
        lemma_four_are_unique(
            dotted(a, b, c, d),
            here,
            (a as nat, b as nat, c as nat, d as nat),
            there,
            (other.0 as nat, other.1 as nat, other.2 as nat, other.3 as nat),
        );
    }
}

/// Whatever the four bytes of an address and the two of a port, a client that asks for them with
/// the bytes of the protocol is given a host that reads back as those four bytes, and the port
/// whose larger half came first.
pub proof fn law_ipv4_target_reads_back(
    methods: Seq<u8>,
    reserved: u8,
    ip: Seq<u8>,
    port: u16,
    shows: spec_fn(Seq<u8>) -> Seq<char>,
)
    requires
        methods.len() <= 255,
        ip.len() == 4,
    ensures
        ({
            let stream = seq![5u8, methods.len() as u8] + methods + (seq![5u8, 1u8, reserved, 1u8]
                + (ip + seq![(port / 256) as u8, (port % 256) as u8]));
            let whole = converse(Socks5Model::Greeting, stream, shows);
            &&& whole.replies == seq![5u8, 0u8]
            &&& whole.unread.len() == 0
            &&& whole.outcome is Connect
            &&& whole.outcome->port == port
            &&& is_text_of(whole.outcome->host, ip[0], ip[1], ip[2], ip[3])
        }),
{
    let none = Seq::<u8>::empty();
    let high = (port / 256) as u8;
    let low = (port % 256) as u8;
    law_ipv4_request_is_served(
        methods,
        reserved,
        ip[0],
        ip[1],
        ip[2],
        ip[3],
        high,
        low,
        none,
        shows,
    );
    assert(ip =~= seq![ip[0], ip[1], ip[2], ip[3]]);
    assert(seq![high, low] + none =~= seq![high, low]);
    assert(greeting(methods) =~= seq![5u8, methods.len() as u8] + methods);
    assert(method_chosen() =~= seq![5u8, 0u8]);
    let stream = seq![5u8, methods.len() as u8] + methods + (seq![5u8, 1u8, reserved, 1u8] + (ip
        + seq![high, low]));
    let whole = converse(Socks5Model::Greeting, stream, shows);
    let host = dotted(ip[0], ip[1], ip[2], ip[3]);
    assert(stream == greeting(methods) + (seq![VERSION, CONNECT, reserved, IPV4] + (seq![
        ip[0],
        ip[1],
        ip[2],
        ip[3],
    ] + (seq![high, low] + none))));
    law_port_bytes_are_unique(high, low, port);
    assert(whole.outcome == (Outcome::Connect { host, port }));
    law_dotted_text_reads_back(ip[0], ip[1], ip[2], ip[3], (0, 0, 0, 0));
}

/// Whatever the name and the port, a client that asks for them with the bytes of the protocol is
/// given that name and that port.
pub proof fn law_domain_target_reads_back(
    methods: Seq<u8>,
    reserved: u8,
    name: Seq<char>,
    port: u16,
    shows: spec_fn(Seq<u8>) -> Seq<char>,
)
    requires
        methods.len() <= 255,
        encode_utf8(name).len() <= 255,
        shows(encode_utf8(name)) == decode_utf8(encode_utf8(name)),
    ensures
        ({
            let bytes = encode_utf8(name);
            let stream = seq![5u8, methods.len() as u8] + methods + (seq![5u8, 1u8, reserved, 3u8]
                + (seq![bytes.len() as u8] + (bytes + seq![
                (port / 256) as u8,
                (port % 256) as u8,
            ])));
            let whole = converse(Socks5Model::Greeting, stream, shows);
            &&& whole.replies == seq![5u8, 0u8]
            &&& whole.unread.len() == 0
            &&& whole.outcome == (Outcome::Connect { host: name, port })
        }),
{
    let none = Seq::<u8>::empty();
    let high = (port / 256) as u8;
    let low = (port % 256) as u8;
    law_domain_request_is_served(methods, reserved, encode_utf8(name), high, low, none, shows);
    law_utf8_name_is_kept(name);
    assert(seq![high, low] + none =~= seq![high, low]);
    assert(greeting(methods) =~= seq![5u8, methods.len() as u8] + methods);
    assert(method_chosen() =~= seq![5u8, 0u8]);
    law_port_bytes_are_unique(high, low, port);
}

/// Each stage reads as many bytes as the protocol has there, so that nothing of one part is taken
/// for the next.
pub proof fn law_each_part_is_read_whole(count: u8, length: u8, host: Seq<char>)
    ensures
        Socks5Model::Greeting.wanted() == 2,
        (Socks5Model::Methods { count }).wanted() == count,
        Socks5Model::Request.wanted() == 4,
        Socks5Model::Ipv4Address.wanted() == 4,
        Socks5Model::DomainLength.wanted() == 1,
        (Socks5Model::Domain { length }).wanted() == length,
        (Socks5Model::Port { host }).wanted() == 2,
{
}

/// A reply is ten bytes: the version, the code, and an IPv4 address and a port of zeros.
pub proof fn law_reply_is_well_formed(code: u8, i: int)
    requires
        0 <= i < 10,
    ensures
        reply_with(code).len() == 10,
        reply_with(code)[0] == 5,
        reply_with(code)[1] == code,
        reply_with(code)[3] == 1,
        i == 2 || i > 3 ==> reply_with(code)[i] == 0,
{
}

/// A client is turned away for what it asked, with the bytes of the protocol: another version at
/// the start, or anything but a connection to a name or an IPv4 address.
pub proof fn law_only_connections_are_served(bytes: Seq<u8>, shown: Seq<char>)
    requires
        bytes.len() == 4,
    ensures
        Socks5Model::Request.step(bytes, shown) is Continue <==> bytes[0] == 5 && bytes[1] == 1 && (
        bytes[3] == 1 || bytes[3] == 3),
        Socks5Model::Request.step(bytes, shown) is Refuse <==> !(bytes[0] == 5 && bytes[1] == 1 && (
        bytes[3] == 1 || bytes[3] == 3)),
        bytes[0] != 5 || bytes[1] != 1 ==> Socks5Model::Request.step(bytes, shown) == (
        StepModel::Refuse {
            error: Socks5Error::NotConnect,
            reply: seq![5u8, 7u8, 0u8, 1u8, 0u8, 0u8, 0u8, 0u8, 0u8, 0u8],
        }),
        bytes[0] == 5 && bytes[1] == 1 && bytes[3] == 4 ==> Socks5Model::Request.step(bytes, shown)
            == (StepModel::Refuse { error: Socks5Error::Ipv6Target, reply: Seq::empty() }),
        Socks5Model::Greeting.step(bytes, shown) is Continue <==> bytes[0] == 5,
{
    assert(reply_with(COMMAND_NOT_SUPPORTED) =~= seq![
        5u8,
        7u8,
        0u8,
        1u8,
        0u8,
        0u8,
        0u8,
        0u8,
        0u8,
        0u8,
    ]);
}

/// A client that sends less than is wanted is neither served nor turned away.
pub proof fn law_short_parts_decide_nothing(
    stage: Socks5Model,
    stream: Seq<u8>,
    shows: spec_fn(Seq<u8>) -> Seq<char>,
)
    requires
        stream.len() < stage.wanted(),
    ensures
        converse(stage, stream, shows).outcome == Outcome::Short,
        converse(stage, stream, shows).replies.len() == 0,
        converse(stage, stream, shows).unread == stream,
{
}

/// The text for an unknown address type ends with its number, and no other type has the same.
pub proof fn law_unknown_types_are_told_apart(a: u8, b: u8)
    ensures
        Socks5Error::UnknownAddressType(a).text() == Socks5Error::UnknownAddressType(b).text()
            ==> a == b,
{
    let start = "未知地址类型 "@;
    let x = text::decimal(a as nat);
    let y = text::decimal(b as nat);
    assert((start + x).skip(start.len() as int) =~= x);
    assert((start + y).skip(start.len() as int) =~= y);
    text::law_decimal_is_one_of_a_kind(a as nat, b as nat);
}

} // verus!
