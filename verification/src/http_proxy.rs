//! The HTTP front end: collecting a request head, reading its target and rewriting it for
//! the far side of the tunnel.
use vstd::prelude::*;
use vstd::string::StringExecFns;
use vstd::utf8::encode_utf8;

use crate::text;
use crate::text::{all_digits, digits_value, is_digit, string_of};

verus! {

/// How many bytes of a request head are collected before the request is given up.
pub const HEAD_LIMIT: usize = 65536;

/// What is wrong with a request.
#[derive(Debug, Clone, Copy, PartialEq, Eq, Structural)]
pub enum HttpError {
    /// The head grew past the limit without an empty line.
    HeadTooLarge,
    /// The target is no absolute `http://` URL.
    NotAbsolute,
    /// The port is missing or out of range.
    BadPort,
}

impl HttpError {
    /// The text for the error.
    pub open spec fn text(self) -> Seq<char> {
        match self {
            HttpError::HeadTooLarge => "HTTP 请求头过大"@,
            HttpError::NotAbsolute => "仅支持 http:// 绝对 URL 代理"@,
            HttpError::BadPort => "端口解析失败"@,
        }
    }

    /// The text for the error.
    pub fn message(&self) -> (r: String)
        ensures
            r@ == self.text(),
    {
        match self {
            HttpError::HeadTooLarge => "HTTP 请求头过大".to_owned(),
            HttpError::NotAbsolute => "仅支持 http:// 绝对 URL 代理".to_owned(),
            HttpError::BadPort => "端口解析失败".to_owned(),
        }
    }
}

// ----- hosts and ports -----

/// Whether the character is a square bracket.
pub open spec fn is_bracket(c: char) -> bool {
    c == '[' || c == ']'
}

/// The text without the square brackets at its start.
pub open spec fn unbracketed_start(s: Seq<char>) -> Seq<char>
    decreases s.len(),
{
    if s.len() > 0 && is_bracket(s[0]) {
        unbracketed_start(s.drop_first())
    } else {
        s
    }
}

/// The text without the square brackets at its end.
pub open spec fn unbracketed_end(s: Seq<char>) -> Seq<char>
    decreases s.len(),
{
    if s.len() > 0 && is_bracket(s.last()) {
        unbracketed_end(s.drop_last())
    } else {
        s
    }
}

/// The text without the square brackets at both ends.
pub open spec fn unbracketed(s: Seq<char>) -> Seq<char> {
    unbracketed_end(unbracketed_start(s))
}

fn strip_brackets(v: &[char]) -> (r: Vec<char>)
    ensures
        r@ == unbracketed(v@),
{
    let mut from: usize = 0;
    assert(v@.skip(0) == v@);
    while from < v.len() && (v[from] == '[' || v[from] == ']')
        invariant
            from <= v@.len(),
            unbracketed_start(v@) == unbracketed_start(v@.skip(from as int)),
        decreases v@.len() - from,
    {
        assert(v@.skip(from as int).drop_first() == v@.skip(from + 1));
        from = from + 1;
    }
    let mut to: usize = v.len();
    assert(v@.subrange(from as int, to as int) == v@.skip(from as int));
    while from < to && (v[to - 1] == '[' || v[to - 1] == ']')
        invariant
            from <= to <= v@.len(),
            unbracketed_end(v@.skip(from as int)) == unbracketed_end(
                v@.subrange(from as int, to as int),
            ),
        decreases to,
    {
        assert(v@.subrange(from as int, to as int).drop_last() == v@.subrange(from as int, to - 1));
        to = to - 1;
    }
    text::slice_copy(v, from, to)
}

/// The host and port of a target. The port is what stands behind the last colon, if there
/// is something before the colon and nothing but digits behind it; the host then loses the
/// brackets around it. Without such a colon the whole target is the host.
pub open spec fn host_port(target: Seq<char>, default_port: u16) -> Result<
    (Seq<char>, u16),
    HttpError,
> {
    match text::last_index(target, ':') {
        Some(i) => {
            let digits = target.skip(i + 1);
            if i > 0 && all_digits(digits) {
                if digits.len() == 0 || digits_value(digits) > u16::MAX {
                    Err(HttpError::BadPort)
                } else {
                    Ok((unbracketed(target.take(i)), digits_value(digits) as u16))
                }
            } else {
                Ok((target, default_port))
            }
        },
        None => Ok((target, default_port)),
    }
}

fn only_digits(v: &[char]) -> (r: bool)
    ensures
        r == all_digits(v@),
{
    let mut i: usize = 0;
    while i < v.len()
        invariant
            i <= v@.len(),
            forall|k: int| 0 <= k < i ==> is_digit(#[trigger] v@[k]),
        decreases v@.len() - i,
    {
        if !(v[i] >= '0' && v[i] <= '9') {
            assert(!is_digit(v@[i as int]));
            return false;
        }
        i = i + 1;
    }
    true
}

/// The views of a host and port, or the error.
pub open spec fn view_host_port(r: Result<(String, u16), HttpError>) -> Result<
    (Seq<char>, u16),
    HttpError,
> {
    match r {
        Ok(p) => Ok((p.0@, p.1)),
        Err(e) => Err(e),
    }
}

/// Reads `host:port`, with the given port where the target names none.
pub fn parse_host_port(target: &str, default_port: u16) -> (r: Result<(String, u16), HttpError>)
    ensures
        view_host_port(r) == host_port(target@, default_port),
{
    let v = text::chars_of(target);
    proof {
        text::lemma_last_index_is_last(target@, ':');
    }
    match text::last_position_of(&v, ':') {
        Some(i) => {
            let host = text::slice_copy(&v, 0, i);
            let digits = text::slice_copy(&v, i + 1, v.len());
            assert(host@ == target@.take(i as int));
            assert(digits@ == target@.skip(i + 1));
            if i > 0 && only_digits(&digits) {
                match text::parse_u16(&digits) {
                    Some(port) => Ok((string_of(&strip_brackets(&host)), port)),
                    None => Err(HttpError::BadPort),
                }
            } else {
                Ok((target.to_owned(), default_port))
            }
        },
        None => Ok((target.to_owned(), default_port)),
    }
}

/// A host and port written as `host:port` read back as the same host and port, whatever the
/// default port, if the host is not empty and no bracket stands at either end of it.
pub proof fn law_host_port_reads_back(host: Seq<char>, port: u16, default_port: u16)
    requires
        host.len() > 0,
        !is_bracket(host[0]),
        !is_bracket(host.last()),
    ensures
        host_port(text::address(host, port), default_port) == Ok::<(Seq<char>, u16), HttpError>(
            (host, port),
        ),
{
    let whole = text::address(host, port);
    let digits = text::decimal(port as nat);
    reveal_strlit(":");
    text::law_decimal_reads_back(port as nat);
    assert forall|k: int| host.len() < k < whole.len() implies whole[k] != ':' by {
        assert(is_digit(digits[k - host.len() - 1]));
    }
    text::lemma_last_index(whole, ':', host.len() as int);
    assert(whole.skip(host.len() + 1int) =~= digits);
    assert(whole.take(host.len() as int) =~= host);
}

/// An IPv6 host in brackets reads back without them.
pub proof fn law_bracketed_host_reads_back(host: Seq<char>, port: u16, default_port: u16)
    requires
        host.len() > 0,
        !is_bracket(host[0]),
        !is_bracket(host.last()),
    ensures
        host_port(text::address(seq!['['] + host + seq![']'], port), default_port) == Ok::<
            (Seq<char>, u16),
            HttpError,
        >((host, port)),
{
    let inner = seq!['['] + host + seq![']'];
    let whole = text::address(inner, port);
    let digits = text::decimal(port as nat);
    reveal_strlit(":");
    text::law_decimal_reads_back(port as nat);
    assert forall|k: int| inner.len() < k < whole.len() implies whole[k] != ':' by {
        assert(is_digit(digits[k - inner.len() - 1]));
    }
    text::lemma_last_index(whole, ':', inner.len() as int);
    assert(whole.skip(inner.len() + 1int) =~= digits);
    assert(whole.take(inner.len() as int) =~= inner);
    assert(inner.drop_first() =~= host + seq![']']);
    assert((host + seq![']']).drop_last() =~= host);
    reveal_with_fuel(unbracketed_start, 2);
    reveal_with_fuel(unbracketed_end, 2);
}

// ----- absolute URLs -----

/// What stands behind `http://` or `HTTP://` in a URL.
pub open spec fn behind_scheme(url: Seq<char>) -> Option<Seq<char>> {
    if text::starts_with(url, "http://"@) || text::starts_with(url, "HTTP://"@) {
        Some(url.skip(7))
    } else {
        None
    }
}

/// The host, port and path of an absolute URL: the path begins at the first slash behind the
/// scheme, and is a slash where there is none; the port is 80 where the URL names none.
pub open spec fn absolute_url(url: Seq<char>) -> Result<(Seq<char>, u16, Seq<char>), HttpError> {
    match behind_scheme(url) {
        None => Err(HttpError::NotAbsolute),
        Some(rest) => {
            let (authority, path) = match text::first_index(rest, '/') {
                Some(i) => (rest.take(i), rest.skip(i)),
                None => (rest, "/"@),
            };
            match host_port(authority, 80) {
                Ok(p) => Ok((p.0, p.1, path)),
                Err(e) => Err(e),
            }
        },
    }
}

/// The views of a host, a port and a path, or the error.
pub open spec fn view_url(r: Result<(String, u16, String), HttpError>) -> Result<
    (Seq<char>, u16, Seq<char>),
    HttpError,
> {
    match r {
        Ok(p) => Ok((p.0@, p.1, p.2@)),
        Err(e) => Err(e),
    }
}

/// Reads the host, port and path of an absolute `http://` URL.
pub fn parse_absolute_http_url(url: &str) -> (r: Result<(String, u16, String), HttpError>)
    ensures
        view_url(r) == absolute_url(url@),
{
    proof {
        reveal_strlit("http://");
        reveal_strlit("HTTP://");
    }
    if !text::has_prefix(url, "http://") && !text::has_prefix(url, "HTTP://") {
        return Err(HttpError::NotAbsolute);
    }
    let v = text::chars_of(url);
    let rest = text::slice_copy(&v, 7, v.len());
    assert(rest@ == url@.skip(7));
    let (authority, path) = match text::position_of(&rest, '/') {
        Some(i) => {
            assert(rest@.subrange(0, i as int) == rest@.take(i as int));
            assert(rest@.subrange(i as int, rest@.len() as int) == rest@.skip(i as int));
            (
                string_of(&text::slice_copy(&rest, 0, i)),
                string_of(&text::slice_copy(&rest, i, rest.len())),
            )
        },
        None => (string_of(&rest), "/".to_owned()),
    };
    match parse_host_port(authority.as_str(), 80) {
        Ok(p) => Ok((p.0, p.1, path)),
        Err(e) => Err(e),
    }
}

/// Whether a target names no port: no colon with something before it and nothing but digits
/// behind it ends it.
pub open spec fn names_no_port(target: Seq<char>) -> bool {
    match text::last_index(target, ':') {
        Some(i) => i == 0 || !all_digits(target.skip(i + 1)),
        None => true,
    }
}

/// A host with a port behind it, or without one.
pub open spec fn authority(host: Seq<char>, port: Option<u16>) -> Seq<char> {
    match port {
        Some(p) => text::address(host, p),
        None => host,
    }
}

/// Whether a host can be told from the port behind it, or from the lack of one: before a port it
/// is not empty and no bracket stands at either end of it, and without a port nothing in it can
/// be taken for one.
pub open spec fn can_be_told(host: Seq<char>, port: Option<u16>) -> bool {
    match port {
        Some(_) => host.len() > 0 && !is_bracket(host[0]) && !is_bracket(host.last()),
        None => names_no_port(host),
    }
}

/// The port that is meant: the one that is written, or the default.
pub open spec fn port_or(port: Option<u16>, default_port: u16) -> u16 {
    match port {
        Some(p) => p,
        None => default_port,
    }
}

/// A host with or without a port reads back as that host, and as that port or the default.
pub proof fn law_authority_reads_back(host: Seq<char>, port: Option<u16>, default_port: u16)
    requires
        can_be_told(host, port),
    ensures
        host_port(authority(host, port), default_port) == Ok::<(Seq<char>, u16), HttpError>(
            (host, port_or(port, default_port)),
        ),
{
    if let Some(p) = port {
        law_host_port_reads_back(host, p, default_port);
    }
}

/// The path that is meant: the one that is written, or a slash.
pub open spec fn path_or_slash(path: Seq<char>) -> Seq<char> {
    if path.len() == 0 {
        "/"@
    } else {
        path
    }
}

/// A URL made of a host, with or without a port, and a path, if it has one, reads back as its
/// parts: the port is 80 and the path a slash where there is none.
pub proof fn law_absolute_url_reads_back(
    scheme: Seq<char>,
    host: Seq<char>,
    port: Option<u16>,
    path: Seq<char>,
)
    requires
        scheme == "http://"@ || scheme == "HTTP://"@,
        can_be_told(host, port),
        forall|k: int| 0 <= k < host.len() ==> host[k] != '/',
        path.len() > 0 ==> path[0] == '/',
    ensures
        absolute_url(scheme + authority(host, port) + path) == Ok::<
            (Seq<char>, u16, Seq<char>),
            HttpError,
        >((host, port_or(port, 80), path_or_slash(path))),
{
    let whole = authority(host, port);
    let url = scheme + whole + path;
    let n = whole.len() as int;
    reveal_strlit("http://");
    reveal_strlit("HTTP://");
    reveal_strlit(":");
    assert(url.subrange(0, 7) =~= scheme);
    let rest = url.skip(7);
    assert(rest =~= whole + path);
    assert forall|k: int| 0 <= k < n implies rest[k] != '/' by {
        if k < host.len() {
            assert(rest[k] == host[k]);
        } else if k > host.len() {
            let digits = text::decimal((port->0) as nat);
            text::law_decimal_reads_back((port->0) as nat);
            assert(rest[k] == digits[k - host.len() - 1]);
            assert(is_digit(digits[k - host.len() - 1]));
        }
    }
    text::lemma_first_index(rest, '/', n);
    assert(rest.take(n) =~= whole);
    assert(rest.skip(n) =~= path);
    if path.len() == 0 {
        assert(rest =~= whole);
    }
    law_authority_reads_back(host, port, 80);
}

// ----- collecting a request head -----

/// The empty line that ends a request head, with the line end before it.
pub open spec fn empty_line() -> Seq<u8> {
    seq![13u8, 10u8, 13u8, 10u8]
}

/// Where a head stands after another piece of it has come in.
#[derive(Debug, Clone, Copy, PartialEq, Eq, Structural)]
pub enum HeadProgress {
    /// The client closed the connection before the head was complete.
    Closed,
    /// The head holds an empty line.
    Complete,
    /// The head is past the limit and holds no empty line.
    TooLarge,
    /// More is to be read.
    NeedMore,
}

/// Where a head stands after the given piece, if `head` holds what came in so far with it.
pub open spec fn head_progress(head: Seq<u8>, piece_length: nat) -> HeadProgress {
    if piece_length == 0 {
        HeadProgress::Closed
    } else if text::contains(head, empty_line()) {
        HeadProgress::Complete
    } else if head.len() > HEAD_LIMIT {
        HeadProgress::TooLarge
    } else {
        HeadProgress::NeedMore
    }
}

fn find_empty_line(head: &[u8]) -> (r: Option<usize>)
    ensures
        match r {
            Some(k) => text::find(head@, empty_line()) == Some(k as int),
            None => text::find(head@, empty_line()) is None,
        },
{
    let end: [u8; 4] = [13, 10, 13, 10];
    assert(end@ =~= empty_line());
    text::find_bytes(head, &end)
}

/// Adds a piece that was read to the head; an empty piece is the end of the connection.
pub fn collect_head(head: &mut Vec<u8>, piece: &[u8]) -> (r: HeadProgress)
    ensures
        final(head)@ == old(head)@ + piece@,
        r == head_progress(final(head)@, piece@.len()),
{
    let mut i: usize = 0;
    while i < piece.len()
        invariant
            i <= piece@.len(),
            head@ == old(head)@ + piece@.take(i as int),
        decreases piece@.len() - i,
    {
        head.push(piece[i]);
        i = i + 1;
        assert(piece@.take(i as int) == piece@.take(i - 1).push(piece@[i - 1]));
    }
    assert(piece@.take(i as int) == piece@);
    if piece.len() == 0 {
        return HeadProgress::Closed;
    }
    proof {
        text::law_find_is_first(head@, empty_line());
    }
    if find_empty_line(head).is_some() {
        HeadProgress::Complete
    } else if head.len() > HEAD_LIMIT {
        HeadProgress::TooLarge
    } else {
        HeadProgress::NeedMore
    }
}

/// As long as more is to be read, the head stays within the limit, so a head that is
/// complete or too large is over it by one piece at most.
pub proof fn law_head_is_bounded(before: Seq<u8>, piece: Seq<u8>)
    requires
        before.len() <= HEAD_LIMIT,
    ensures
        head_progress(before + piece, piece.len()) == HeadProgress::NeedMore ==> (before
            + piece).len() <= HEAD_LIMIT,
        (before + piece).len() <= HEAD_LIMIT + piece.len(),
{
}

/// A head that holds an empty line is complete, however long it is.
pub proof fn law_complete_head_is_never_too_large(head: Seq<u8>, piece_length: nat)
    requires
        piece_length > 0,
        text::contains(head, empty_line()),
    ensures
        head_progress(head, piece_length) == HeadProgress::Complete,
{
}

// ----- what a request asks for -----

/// A request, as plain text and bytes.
pub enum RequestModel {
    /// A tunnel to the host and port.
    Connect { host: Seq<char>, port: u16 },
    /// A request to pass on: the rewritten head, and the bytes behind the empty line.
    Forward { host: Seq<char>, port: u16, head: Seq<char>, body: Seq<u8> },
}

/// A request that a client made of the proxy.
#[derive(Debug)]
pub enum HttpRequest {
    /// A tunnel to the host and port.
    Connect { host: String, port: u16 },
    /// A request to pass on: the rewritten head, and the bytes behind the empty line.
    Forward { host: String, port: u16, head: String, body: Vec<u8> },
}

impl View for HttpRequest {
    type V = RequestModel;

    open spec fn view(&self) -> RequestModel {
        match self {
            HttpRequest::Connect { host, port } => RequestModel::Connect {
                host: host@,
                port: *port,
            },
            HttpRequest::Forward { host, port, head, body } => RequestModel::Forward {
                host: host@,
                port: *port,
                head: head@,
                body: body@,
            },
        }
    }
}

/// The view of a request, or the error.
pub open spec fn view_request(r: Result<HttpRequest, HttpError>) -> Result<
    RequestModel,
    HttpError,
> {
    match r {
        Ok(q) => Ok(q@),
        Err(e) => Err(e),
    }
}

/// The method of a request: the first word of its first line.
pub open spec fn method_of(shown: Seq<char>) -> Seq<char> {
    text::first_word(text::first_line(shown))
}

/// The target of a request: the second word of its first line.
pub open spec fn target_of(shown: Seq<char>) -> Seq<char> {
    text::first_word(text::after_first_word(text::first_line(shown)))
}

/// What stands behind the first line of a request, with the line end before it.
pub open spec fn behind_first_line(shown: Seq<char>) -> Seq<char> {
    match text::find(shown, "\r\n"@) {
        Some(i) => shown.skip(i),
        None => "\r\n\r\n"@,
    }
}

/// The bytes behind the empty line.
pub open spec fn behind_empty_line(head: Seq<u8>) -> Seq<u8> {
    match text::find(head, empty_line()) {
        Some(i) => head.skip(i + 4),
        None => Seq::empty(),
    }
}

/// A request head with a path in place of the absolute URL.
pub open spec fn rewritten_head(method: Seq<char>, path: Seq<char>, rest: Seq<char>) -> Seq<char> {
    method + " "@ + path + " HTTP/1.1"@ + rest
}

/// What a request asks for, from its bytes and from the text they show. `CONNECT`, in capitals
/// or not, asks for a tunnel; its port is 443 where the target names none. Any other method
/// passes the request on, and wants an absolute URL.
pub open spec fn request_shown(head: Seq<u8>, shown: Seq<char>) -> Result<
    RequestModel,
    HttpError,
> {
    if text::lowered(method_of(shown)) == "connect"@ {
        match host_port(target_of(shown), 443) {
            Ok(p) => Ok(RequestModel::Connect { host: p.0, port: p.1 }),
            Err(e) => Err(e),
        }
    } else {
        match absolute_url(target_of(shown)) {
            Ok(p) => Ok(
                RequestModel::Forward {
                    host: p.0,
                    port: p.1,
                    head: rewritten_head(method_of(shown), p.2, behind_first_line(shown)),
                    body: behind_empty_line(head),
                },
            ),
            Err(e) => Err(e),
        }
    }
}

/// What a request asks for, from its bytes and from the text they show.
pub fn read_request(head: &[u8], shown: &str) -> (r: Result<HttpRequest, HttpError>)
    ensures
        view_request(r) == request_shown(head@, shown@),
{
    let chars = text::chars_of(shown);
    let line = text::first_line_of(&chars);
    let (method_chars, line_rest) = text::split_first_word(&line);
    let (target_chars, _) = text::split_first_word(&line_rest);
    let method = string_of(&method_chars);
    let target = string_of(&target_chars);
    let low = text::to_lower(method.as_str());
    if text::same_text(low.as_str(), "connect") {
        return match parse_host_port(target.as_str(), 443) {
            Ok(p) => Ok(HttpRequest::Connect { host: p.0, port: p.1 }),
            Err(e) => Err(e),
        };
    }
    let (host, port, path) = match parse_absolute_http_url(target.as_str()) {
        Ok(p) => p,
        Err(e) => {
            return Err(e);
        },
    };
    let line_end: [char; 2] = ['\r', '\n'];
    proof {
        reveal_strlit("\r\n");
        assert(line_end@ =~= "\r\n"@);
        text::law_find_is_first(shown@, "\r\n"@);
        text::law_find_is_first(head@, empty_line());
    }
    let rest = match text::find_chars(&chars, &line_end) {
        Some(i) => {
            assert(shown@.skip(i as int) == chars@.subrange(i as int, chars@.len() as int));
            string_of(&text::slice_copy(&chars, i, chars.len()))
        },
        None => "\r\n\r\n".to_owned(),
    };
    let mut rewritten = method;
    rewritten.append(" ");
    rewritten.append(path.as_str());
    rewritten.append(" HTTP/1.1");
    rewritten.append(rest.as_str());
    let total: usize = head.len();
    let start: usize = match find_empty_line(head) {
        Some(i) => {
            assert(text::occurs_at(head@, empty_line(), i as int));
            i + 4
        },
        None => total,
    };
    let mut body: Vec<u8> = Vec::new();
    let mut i: usize = start;
    while i < head.len()
        invariant
            start <= i <= head@.len(),
            body@ == head@.subrange(start as int, i as int),
        decreases head@.len() - i,
    {
        body.push(head[i]);
        i = i + 1;
        assert(head@.subrange(start as int, i as int) == head@.subrange(start as int, i - 1).push(
            head@[i - 1],
        ));
    }
    assert(body@ =~= behind_empty_line(head@));
    Ok(HttpRequest::Forward { host, port, head: rewritten, body })
}

/// What a request asks for: its bytes are read as UTF-8, with replacement characters where
/// they are not.
pub fn plan_request(head: &[u8]) -> (r: Result<HttpRequest, HttpError>)
    ensures
        view_request(r) == request_shown(head@, text::utf8_lossy(head@)),
        vstd::utf8::valid_utf8(head@) ==> view_request(r) == request_shown(
            head@,
            vstd::utf8::decode_utf8(head@),
        ),
{
    let shown = text::decode_lossy(head);
    read_request(head, shown.as_str())
}

/// Whether the text is one word: not empty, and without white space.
pub open spec fn is_word(s: Seq<char>) -> bool {
    s.len() > 0 && forall|k: int| 0 <= k < s.len() ==> !text::white_space(#[trigger] s[k])
}

/// The bytes of a request: a method, a target, the version, and what stands behind the first
/// line.
pub open spec fn request_text(method: Seq<char>, target: Seq<char>, rest: Seq<char>) -> Seq<char> {
    method + " "@ + target + " HTTP/1.1"@ + "\r\n"@ + rest
}

proof fn lemma_request_parts(method: Seq<char>, target: Seq<char>, rest: Seq<char>)
    requires
        is_word(method),
        is_word(target),
    ensures
        method_of(request_text(method, target, rest)) == method,
        target_of(request_text(method, target, rest)) == target,
        behind_first_line(request_text(method, target, rest)) == "\r\n"@ + rest,
{
    reveal_strlit(" ");
    reveal_strlit(" HTTP/1.1");
    reveal_strlit("\r\n");
    let line = method + " "@ + target + " HTTP/1.1"@;
    let shown = request_text(method, target, rest);
    let n = line.len() as int;
    assert forall|k: int| 0 <= k < n implies line[k] != '\n' by {
        let a = method.len() as int;
        let b = a + 1 + target.len();
        if k < a {
            assert(line[k] == method[k]);
        } else if k == a {
        } else if k < b {
            assert(line[k] == target[k - a - 1]);
        } else {
            assert(line[k] == " HTTP/1.1"@[k - b]);
        }
    }
    assert(shown =~= line + "\r\n"@ + rest);
    assert forall|k: int| 0 <= k < n + 1 implies shown[k] != '\n' by {
        if k < n {
            assert(shown[k] == line[k]);
        }
    }
    text::lemma_first_index(shown, '\n', n + 1);
    assert(shown.take(n + 1).drop_last() =~= line);
    assert(text::first_line(shown) == line);
    let behind = " "@ + target + " HTTP/1.1"@;
    assert(line =~= method + behind);
    text::lemma_first_word(method, behind);
    assert(behind.drop_first() =~= target + " HTTP/1.1"@);
    text::lemma_first_word(target, " HTTP/1.1"@);
    text::lemma_leading_space(behind);
    assert(shown.subrange(n, n + 2) =~= "\r\n"@);
    assert(text::occurs_at(shown, "\r\n"@, n));
    text::law_find_is_first(shown, "\r\n"@);
    let at = text::find(shown, "\r\n"@).unwrap();
    assert(at == n) by {
        assert(shown.subrange(at, at + 2)[1] == shown[at + 1]);
    }
    assert(shown.skip(n) =~= "\r\n"@ + rest);
}

/// A request is read from the two words of its first line: what its target reads as is where it
/// goes, and what is wrong with the target is wrong with the request.
pub proof fn law_first_line_decides(method: Seq<char>, target: Seq<char>, rest: Seq<char>)
    requires
        is_word(method),
        is_word(target),
    ensures
        ({
            let shown = request_text(method, target, rest);
            let head = encode_utf8(shown);
            if text::lowered(method) == "connect"@ {
                match host_port(target, 443) {
                    Ok(p) => request_shown(head, shown) == Ok::<RequestModel, HttpError>(
                        RequestModel::Connect { host: p.0, port: p.1 },
                    ),
                    Err(e) => request_shown(head, shown) == Err::<RequestModel, HttpError>(e),
                }
            } else {
                match absolute_url(target) {
                    Ok(p) => request_shown(head, shown) == Ok::<RequestModel, HttpError>(
                        RequestModel::Forward {
                            host: p.0,
                            port: p.1,
                            head: request_text(method, p.2, rest),
                            body: behind_empty_line(head),
                        },
                    ),
                    Err(e) => request_shown(head, shown) == Err::<RequestModel, HttpError>(e),
                }
            }
        }),
{
    lemma_request_parts(method, target, rest);
    if let Ok(p) = absolute_url(target) {
        assert(rewritten_head(method, p.2, "\r\n"@ + rest) =~= request_text(method, p.2, rest));
    }
}

/// `CONNECT`, written with any capitals, asks for a tunnel to the host and port of its target;
/// the port is 443 where the target names none.
pub proof fn law_connect_asks_for_its_target(
    method: Seq<char>,
    host: Seq<char>,
    port: Option<u16>,
    rest: Seq<char>,
)
    requires
        text::lowered(method) == "connect"@,
        is_word(method),
        is_word(host),
        can_be_told(host, port),
    ensures
        ({
            let shown = request_text(method, authority(host, port), rest);
            request_shown(encode_utf8(shown), shown) == Ok::<RequestModel, HttpError>(
                RequestModel::Connect { host, port: port_or(port, 443) },
            )
        }),
{
    lemma_authority_is_word(host, port);
    law_first_line_decides(method, authority(host, port), rest);
    law_authority_reads_back(host, port, 443);
}

proof fn lemma_authority_is_word(host: Seq<char>, port: Option<u16>)
    requires
        is_word(host),
    ensures
        is_word(authority(host, port)),
{
    if let Some(p) = port {
        reveal_strlit(":");
        let digits = text::decimal(p as nat);
        text::law_decimal_reads_back(p as nat);
        let whole = text::address(host, p);
        assert forall|k: int| 0 <= k < whole.len() implies !text::white_space(
            #[trigger] whole[k],
        ) by {
            if k < host.len() {
                assert(whole[k] == host[k]);
            } else if k > host.len() {
                assert(whole[k] == digits[k - host.len() - 1]);
                assert(is_digit(digits[k - host.len() - 1]));
            }
        }
    }
}

/// A request for an absolute URL goes to the host and port of the URL, or to port 80; its head is
/// passed on with the path in place of the URL, or with a slash, and with everything behind the
/// first line as it came.
pub proof fn law_forward_rewrites_only_the_target(
    method: Seq<char>,
    scheme: Seq<char>,
    host: Seq<char>,
    port: Option<u16>,
    path: Seq<char>,
    rest: Seq<char>,
)
    requires
        is_word(method),
        text::lowered(method) != "connect"@,
        scheme == "http://"@ || scheme == "HTTP://"@,
        is_word(host),
        can_be_told(host, port),
        forall|k: int| 0 <= k < host.len() ==> host[k] != '/',
        path.len() > 0 ==> is_word(path) && path[0] == '/',
    ensures
        ({
            let url = scheme + authority(host, port) + path;
            let shown = request_text(method, url, rest);
            request_shown(encode_utf8(shown), shown) == Ok::<RequestModel, HttpError>(
                RequestModel::Forward {
                    host,
                    port: port_or(port, 80),
                    head: request_text(method, path_or_slash(path), rest),
                    body: behind_empty_line(encode_utf8(shown)),
                },
            )
        }),
{
    let whole = authority(host, port);
    let url = scheme + whole + path;
    reveal_strlit("http://");
    reveal_strlit("HTTP://");
    lemma_authority_is_word(host, port);
    assert forall|k: int| 0 <= k < url.len() implies !text::white_space(#[trigger] url[k]) by {
        if k < 7 {
            assert(url[k] == scheme[k]);
        } else if k < 7 + whole.len() {
            assert(url[k] == whole[k - 7]);
        } else {
            assert(url[k] == path[k - 7 - whole.len()]);
        }
    }
    law_first_line_decides(method, url, rest);
    law_absolute_url_reads_back(scheme, host, port, path);
}

// ----- answers -----

impl RequestModel {
    /// The kind of traffic that the request makes.
    pub open spec fn protocol(self) -> Seq<char> {
        match self {
            RequestModel::Connect { .. } => "HTTPS"@,
            RequestModel::Forward { .. } => "HTTP"@,
        }
    }

    /// Where the request goes.
    pub open spec fn destination(self) -> (Seq<char>, u16) {
        match self {
            RequestModel::Connect { host, port } => (host, port),
            RequestModel::Forward { host, port, .. } => (host, port),
        }
    }

    /// What the client is told once the far side is open.
    pub open spec fn opened_reply(self) -> Seq<char> {
        match self {
            RequestModel::Connect { .. } => "HTTP/1.1 200 Connection Established\r\n\r\n"@,
            RequestModel::Forward { .. } => Seq::empty(),
        }
    }

    /// What is sent to the far side before anything is relayed, piece by piece.
    pub open spec fn sent_ahead(self) -> Seq<Seq<u8>> {
        match self {
            RequestModel::Connect { .. } => Seq::empty(),
            RequestModel::Forward { head, body, .. } => if body.len() > 0 {
                seq![encode_utf8(head), body]
            } else {
                seq![encode_utf8(head)]
            },
        }
    }

    /// How many bytes are sent to the far side before anything is relayed, as counters count:
    /// from zero again behind the largest number.
    pub open spec fn sent_ahead_length(self) -> u64 {
        match self {
            RequestModel::Connect { .. } => 0,
            RequestModel::Forward { head, body, .. } => (encode_utf8(
                head,
            ).len() as u64).wrapping_add(body.len() as u64),
        }
    }

    /// What the client is told where the far side could not be opened, if anything.
    pub open spec fn failed_reply(self, detail: Seq<char>) -> Option<Seq<char>> {
        match self {
            RequestModel::Connect { .. } => Some(bad_gateway(detail)),
            RequestModel::Forward { .. } => None,
        }
    }
}

/// The body of the answer to a tunnel that could not be opened.
pub open spec fn bad_gateway_body(detail: Seq<char>) -> Seq<char> {
    "SSH tunnel ConnectFailed: "@ + detail
}

/// The answer to a tunnel that could not be opened; its `Content-Length` is the length of the
/// body in bytes.
pub open spec fn bad_gateway(detail: Seq<char>) -> Seq<char> {
    "HTTP/1.1 502 Bad Gateway\r\nContent-Type: text/plain; charset=utf-8\r\nContent-Length: "@
        + text::decimal(encode_utf8(bad_gateway_body(detail)).len())
        + "\r\nConnection: close\r\n\r\n"@ + bad_gateway_body(detail)
}

/// The answer to a tunnel that could not be opened.
pub fn bad_gateway_response(detail: &str) -> (r: String)
    ensures
        r@ == bad_gateway(detail@),
{
    let body = text::join("SSH tunnel ConnectFailed: ", detail);
    let length: usize = body.as_str().as_bytes().len();
    let mut out =
        "HTTP/1.1 502 Bad Gateway\r\nContent-Type: text/plain; charset=utf-8\r\nContent-Length: ".to_owned();
    out.append(text::decimal_string(length as u128).as_str());
    out.append("\r\nConnection: close\r\n\r\n");
    out.append(body.as_str());
    out
}

impl HttpRequest {
    /// The kind of traffic that the request makes.
    pub fn protocol(&self) -> (r: &'static str)
        ensures
            r@ == self@.protocol(),
    {
        match self {
            HttpRequest::Connect { .. } => "HTTPS",
            HttpRequest::Forward { .. } => "HTTP",
        }
    }

    /// Where the request goes.
    pub fn destination(&self) -> (r: (&str, u16))
        ensures
            r.0@ == self@.destination().0,
            r.1 == self@.destination().1,
    {
        match self {
            HttpRequest::Connect { host, port } => (host.as_str(), *port),
            HttpRequest::Forward { host, port, .. } => (host.as_str(), *port),
        }
    }

    /// What the client is told once the far side is open; empty where it is told nothing.
    pub fn opened_reply(&self) -> (r: &'static str)
        ensures
            r@ == self@.opened_reply(),
    {
        proof {
            reveal_strlit("");
            assert(""@ =~= Seq::<char>::empty());
        }
        match self {
            HttpRequest::Connect { .. } => "HTTP/1.1 200 Connection Established\r\n\r\n",
            HttpRequest::Forward { .. } => "",
        }
    }

    /// What is sent to the far side before anything is relayed, piece by piece.
    pub fn sent_ahead(&self) -> (r: Vec<&[u8]>)
        ensures
            r@.len() == self@.sent_ahead().len(),
            forall|i: int| 0 <= i < r@.len() ==> #[trigger] r@[i]@ == self@.sent_ahead()[i],
    {
        let mut out: Vec<&[u8]> = Vec::new();
        match self {
            HttpRequest::Connect { .. } => {},
            HttpRequest::Forward { head, body, .. } => {
                out.push(head.as_str().as_bytes());
                if body.len() > 0 {
                    out.push(body.as_slice());
                }
            },
        }
        out
    }

    /// How many bytes are sent to the far side before anything is relayed.
    pub fn sent_ahead_length(&self) -> (r: u64)
        ensures
            r == self@.sent_ahead_length(),
    {
        match self {
            HttpRequest::Connect { .. } => 0,
            HttpRequest::Forward { head, body, .. } => {
                let first: usize = head.as_str().as_bytes().len();
                (first as u64).wrapping_add(body.len() as u64)
            },
        }
    }

    /// What the client is told where the far side could not be opened, if anything.
    pub fn failed_reply(&self, detail: &str) -> (r: Option<String>)
        ensures
            match r {
                Some(t) => self@.failed_reply(detail@) == Some(t@),
                None => self@.failed_reply(detail@) is None,
            },
    {
        match self {
            HttpRequest::Connect { .. } => Some(bad_gateway_response(detail)),
            HttpRequest::Forward { .. } => None,
        }
    }
}

// ----- what a request comes to -----

/// Where a head stands, whatever came before and whatever the piece: it is complete exactly if it
/// holds an empty line; without one, more is read exactly as long as it has no more than 65536
/// bytes, and it is too large from then on. Only an empty piece is the end of the connection.
pub proof fn law_head_is_read_until_it_is_complete_or_too_large(head: Seq<u8>, piece_length: nat)
    ensures
        head_progress(head, piece_length) == HeadProgress::Closed <==> piece_length == 0,
        piece_length > 0 ==> {
            let whole = exists|i: int|
                0 <= i && i + 4 <= head.len() && #[trigger] head[i] == 13 && head[i + 1] == 10
                    && head[i + 2] == 13 && head[i + 3] == 10;
            &&& head_progress(head, piece_length) == HeadProgress::Complete <==> whole
            &&& head_progress(head, piece_length) == HeadProgress::NeedMore <==> !whole
                && head.len() <= 65536
            &&& head_progress(head, piece_length) == HeadProgress::TooLarge <==> !whole
                && head.len() > 65536
        },
{
    let line = seq![13u8, 10u8, 13u8, 10u8];
    assert(empty_line() =~= line);
    assert forall|i: int|
        0 <= i && i + 4 <= head.len() && #[trigger] head[i] == 13 && head[i + 1] == 10 && head[i
            + 2] == 13 && head[i + 3] == 10 implies text::occurs_at(head, empty_line(), i) by {
        assert(head.subrange(i, i + 4) =~= line);
    }
    assert forall|i: int| #[trigger] text::occurs_at(head, empty_line(), i) implies 0 <= i && i + 4
        <= head.len() && head[i] == 13 && head[i + 1] == 10 && head[i + 2] == 13 && head[i + 3]
        == 10 by {
        let found = head.subrange(i, i + 4);
        assert(found[0] == head[i] && found[1] == head[i + 1] && found[2] == head[i + 2]
            && found[3] == head[i + 3]);
    }
}

/// In which pieces a head comes does not matter: it stands where the whole of it would stand.
pub proof fn law_pieces_of_a_head_do_not_matter(
    before: Seq<u8>,
    first: Seq<u8>,
    second: Seq<u8>,
    n: nat,
)
    requires
        second.len() > 0,
        n > 0,
    ensures
        head_progress(before + first + second, second.len()) == head_progress(
            before + (first + second),
            n,
        ),
        head_progress(before + first, n) == HeadProgress::Complete ==> head_progress(
            before + first + second,
            second.len(),
        ) == HeadProgress::Complete,
{
    assert(before + first + second =~= before + (first + second));
    let shorter = before + first;
    let longer = before + first + second;
    if text::contains(shorter, empty_line()) {
        let i = choose|i: int| text::occurs_at(shorter, empty_line(), i);
        assert(longer.subrange(i, i + 4) =~= shorter.subrange(i, i + 4));
        assert(text::occurs_at(longer, empty_line(), i));
    }
}

/// What stands behind a head is what follows its first empty line, byte for byte.
pub proof fn law_body_follows_the_first_empty_line(start: Seq<u8>, body: Seq<u8>)
    requires
        forall|i: int|
            0 <= i < start.len() ==> !text::occurs_at(
                start + seq![13u8, 10u8, 13u8, 10u8] + body,
                seq![13u8, 10u8, 13u8, 10u8],
                i,
            ),
    ensures
        behind_empty_line(start + seq![13u8, 10u8, 13u8, 10u8] + body) == body,
{
    let line = seq![13u8, 10u8, 13u8, 10u8];
    let head = start + line + body;
    let n = start.len() as int;
    assert(empty_line() =~= line);
    assert(text::occurs_at(head, line, n)) by {
        assert(head.subrange(n, n + 4) =~= line);
    }
    lemma_found_first(head, line, n);
    assert(head.skip(n + 4) =~= body);
}

proof fn lemma_found_first(head: Seq<u8>, line: Seq<u8>, n: int)
    requires
        text::occurs_at(head, line, n),
        forall|i: int| 0 <= i < n ==> !text::occurs_at(head, line, i),
    ensures
        text::find(head, line) == Some(n),
{
    text::law_find_is_first(head, line);
}

/// Where there is no empty line, nothing stands behind it.
pub proof fn law_without_an_empty_line_there_is_no_body(head: Seq<u8>)
    requires
        !text::contains(head, seq![13u8, 10u8, 13u8, 10u8]),
    ensures
        behind_empty_line(head).len() == 0,
{
    assert(empty_line() =~= seq![13u8, 10u8, 13u8, 10u8]);
    text::law_find_is_first(head, empty_line());
}

proof fn lemma_unbracketed_start(s: Seq<char>) -> (a: int)
    ensures
        0 <= a <= s.len(),
        unbracketed_start(s) == s.skip(a),
        forall|k: int| 0 <= k < a ==> is_bracket(#[trigger] s[k]),
        a < s.len() ==> !is_bracket(s[a]),
    decreases s.len(),
{
    if s.len() > 0 && is_bracket(s[0]) {
        let a = lemma_unbracketed_start(s.drop_first());
        assert(s.drop_first().skip(a) =~= s.skip(a + 1));
        assert forall|k: int| 0 <= k < a + 1 implies is_bracket(#[trigger] s[k]) by {
            if k > 0 {
                assert(s.drop_first()[k - 1] == s[k]);
            }
        }
        a + 1
    } else {
        assert(s.skip(0) =~= s);
        0
    }
}

proof fn lemma_unbracketed_end(s: Seq<char>) -> (b: int)
    ensures
        0 <= b <= s.len(),
        unbracketed_end(s) == s.take(b),
        forall|k: int| b <= k < s.len() ==> is_bracket(#[trigger] s[k]),
        b > 0 ==> !is_bracket(s[b - 1]),
    decreases s.len(),
{
    if s.len() > 0 && is_bracket(s.last()) {
        let b = lemma_unbracketed_end(s.drop_last());
        assert(s.drop_last().take(b) =~= s.take(b));
        assert forall|k: int| b <= k < s.len() implies is_bracket(#[trigger] s[k]) by {
            if k < s.len() - 1 {
                assert(s.drop_last()[k] == s[k]);
            }
        }
        b
    } else {
        assert(s.take(s.len() as int) =~= s);
        s.len() as int
    }
}

/// A host loses the square brackets at its ends, all of them, and nothing else.
pub proof fn law_host_loses_its_brackets_only(s: Seq<char>)
    ensures
        exists|a: int, b: int|
            0 <= a <= b <= s.len() && unbracketed(s) == #[trigger] s.subrange(a, b) && (forall|
                k: int,
            |
                0 <= k < a ==> s[k] == '[' || #[trigger] s[k] == ']') && (forall|k: int|
                b <= k < s.len() ==> s[k] == '[' || #[trigger] s[k] == ']'),
        unbracketed(s).len() > 0 ==> {
            &&& unbracketed(s)[0] != '['
            &&& unbracketed(s)[0] != ']'
            &&& unbracketed(s).last() != '['
            &&& unbracketed(s).last() != ']'
        },
{
    let a = lemma_unbracketed_start(s);
    let b = lemma_unbracketed_end(s.skip(a));
    assert(s.skip(a).take(b) =~= s.subrange(a, a + b));
    assert forall|k: int| 0 <= k < a implies s[k] == '[' || #[trigger] s[k] == ']' by {
        assert(is_bracket(s[k]));
    }
    assert forall|k: int| a + b <= k < s.len() implies s[k] == '[' || #[trigger] s[k] == ']' by {
        assert(is_bracket(s.skip(a)[k - a]));
    }
    if b > 0 {
        assert(s.skip(a)[0] == s[a]);
        assert(s.subrange(a, a + b)[b - 1] == s.skip(a)[b - 1]);
    }
}

/// A target with digits behind its last colon names that port if there is one up to 65535, and is
/// wrong otherwise; the host is what stands before the colon, without brackets around it.
pub proof fn law_digits_behind_the_colon_are_the_port(
    host: Seq<char>,
    digits: Seq<char>,
    default_port: u16,
)
    requires
        host.len() > 0,
        all_digits(digits),
    ensures
        ({
            let read = host_port(host + seq![':'] + digits, default_port);
            &&& read is Err <==> digits.len() == 0 || digits_value(digits) > 65535
            &&& read is Err ==> read == Err::<(Seq<char>, u16), HttpError>(HttpError::BadPort)
            &&& read matches Ok(p) ==> p.1 == digits_value(digits) && p.0 == unbracketed(host)
        }),
{
    let whole = host + seq![':'] + digits;
    let n = host.len() as int;
    assert forall|k: int| n < k < whole.len() implies whole[k] != ':' by {
        assert(whole[k] == digits[k - n - 1]);
        assert(is_digit(digits[k - n - 1]));
    }
    text::lemma_last_index(whole, ':', n);
    assert(whole.skip(n + 1) =~= digits);
    assert(whole.take(n) =~= host);
}

/// A target without a colon, with nothing before its last one, or with anything but digits behind
/// it, is a host as it stands, and the port is the default.
pub proof fn law_other_targets_are_hosts(target: Seq<char>, default_port: u16)
    requires
        forall|i: int|
            0 < i < target.len() && target[i] == ':' ==> exists|k: int|
                i < k < target.len() && !is_digit(#[trigger] target[k]),
    ensures
        host_port(target, default_port) == Ok::<(Seq<char>, u16), HttpError>(
            (target, default_port),
        ),
{
    text::lemma_last_index_is_last(target, ':');
    if let Some(i) = text::last_index(target, ':') {
        if i > 0 {
            let digits = target.skip(i + 1);
            let k = choose|k: int| i < k < target.len() && !is_digit(#[trigger] target[k]);
            assert(digits[k - i - 1] == target[k]);
            assert(!all_digits(digits));
        }
    }
}

/// Only a target that begins with `http://`, in small letters or in capitals, is an absolute URL.
pub proof fn law_other_schemes_are_refused(url: Seq<char>)
    ensures
        absolute_url(url) == Err::<(Seq<char>, u16, Seq<char>), HttpError>(HttpError::NotAbsolute)
            <==> !text::starts_with(url, "http://"@) && !text::starts_with(url, "HTTP://"@),
{
}

/// The version in the first line, and how many spaces part its words, do not matter: the method
/// and the target are its first two words, and what is passed on behind the first line is what
/// came there.
pub proof fn law_words_of_the_first_line(
    method: Seq<char>,
    gap: Seq<char>,
    target: Seq<char>,
    end: Seq<char>,
    rest: Seq<char>,
)
    requires
        is_word(method),
        is_word(target),
        gap.len() > 0,
        forall|k: int| 0 <= k < gap.len() ==> #[trigger] gap[k] == ' ',
        end.len() > 0 ==> end[0] == ' ',
        forall|k: int| 0 <= k < end.len() ==> #[trigger] end[k] != '\n' && end[k] != '\r',
    ensures
        ({
            let shown = method + gap + target + end + seq!['\r', '\n'] + rest;
            &&& method_of(shown) == method
            &&& target_of(shown) == target
            &&& behind_first_line(shown) == seq!['\r', '\n'] + rest
        }),
{
    let line = method + gap + target + end;
    let shown = method + gap + target + end + seq!['\r', '\n'] + rest;
    let n = line.len() as int;
    let a = method.len() as int;
    let b = a + gap.len();
    let c = b + target.len();
    assert forall|k: int| 0 <= k < n implies line[k] != '\n' && line[k] != '\r' by {
        if k < a {
            assert(line[k] == method[k]);
        } else if k < b {
            assert(line[k] == gap[k - a]);
        } else if k < c {
            assert(line[k] == target[k - b]);
        } else {
            assert(line[k] == end[k - c]);
        }
    }
    assert(shown =~= line + seq!['\r', '\n'] + rest);
    assert forall|k: int| 0 <= k < n + 1 implies shown[k] != '\n' by {
        if k < n {
            assert(shown[k] == line[k]);
        }
    }
    text::lemma_first_index(shown, '\n', n + 1);
    assert(shown.take(n + 1).drop_last() =~= line);
    assert(text::first_line(shown) == line);
    let behind = gap + target + end;
    assert(line =~= method + behind);
    assert(behind[0] == gap[0]);
    text::lemma_first_word(method, behind);
    lemma_gap_is_passed_over(gap, target + end);
    assert(gap + (target + end) =~= behind);
    text::lemma_first_word(target, end);
    reveal_strlit("\r\n");
    assert("\r\n"@ =~= seq!['\r', '\n']);
    assert(shown.subrange(n, n + 2) =~= "\r\n"@);
    assert(text::occurs_at(shown, "\r\n"@, n));
    text::law_find_is_first(shown, "\r\n"@);
    let at = text::find(shown, "\r\n"@).unwrap();
    assert(at == n) by {
        assert(shown.subrange(at, at + 2)[1] == shown[at + 1]);
    }
    assert(shown.skip(n) =~= seq!['\r', '\n'] + rest);
}

proof fn lemma_gap_is_passed_over(gap: Seq<char>, s: Seq<char>)
    requires
        forall|k: int| 0 <= k < gap.len() ==> #[trigger] gap[k] == ' ',
    ensures
        text::first_word(gap + s) == text::first_word(s),
        text::after_first_word(gap + s) == text::after_first_word(s),
    decreases gap.len(),
{
    if gap.len() == 0 {
        assert(gap + s =~= s);
    } else {
        let whole = gap + s;
        assert(whole[0] == gap[0]);
        text::lemma_leading_space(whole);
        let fewer = gap.drop_first();
        assert forall|k: int| 0 <= k < fewer.len() implies #[trigger] fewer[k] == ' ' by {
            assert(fewer[k] == gap[k + 1]);
        }
        assert(whole.drop_first() =~= fewer + s);
        lemma_gap_is_passed_over(fewer, s);
    }
}

/// The answer to a tunnel that could not be opened is a head and a body: the body ends with the
/// reason, and the head tells the length of the body in bytes, so that the client reads all of it
/// and no more.
pub proof fn law_answer_tells_its_length(detail: Seq<char>)
    ensures
        exists|before: Seq<char>, digits: Seq<char>, after: Seq<char>, body: Seq<char>|
            {
                &&& bad_gateway(detail) == #[trigger] (before + digits + after + body)
                &&& text::starts_with(before, "HTTP/1.1 502 "@)
                &&& crate::keys::ends_with(before, "\r\nContent-Length: "@)
                &&& all_digits(digits)
                &&& digits_value(digits) == encode_utf8(body).len()
                &&& text::starts_with(after, "\r\n"@)
                &&& crate::keys::ends_with(after, "\r\n\r\n"@)
                &&& crate::keys::ends_with(body, detail)
                &&& text::contains(body, "ConnectFailed"@)
            },
{
    let before =
        "HTTP/1.1 502 Bad Gateway\r\nContent-Type: text/plain; charset=utf-8\r\nContent-Length: "@;
    let body = bad_gateway_body(detail);
    let digits = text::decimal(encode_utf8(body).len());
    let after = "\r\nConnection: close\r\n\r\n"@;
    reveal_strlit(
        "HTTP/1.1 502 Bad Gateway\r\nContent-Type: text/plain; charset=utf-8\r\nContent-Length: ",
    );
    reveal_strlit("HTTP/1.1 502 ");
    reveal_strlit("\r\nContent-Length: ");
    reveal_strlit("\r\nConnection: close\r\n\r\n");
    reveal_strlit("\r\n");
    reveal_strlit("\r\n\r\n");
    reveal_strlit("SSH tunnel ConnectFailed: ");
    reveal_strlit("ConnectFailed");
    text::law_decimal_reads_back(encode_utf8(body).len());
    assert(before.subrange(0, 13) =~= "HTTP/1.1 502 "@);
    assert(before.skip(before.len() - 18) =~= "\r\nContent-Length: "@);
    assert(after.subrange(0, 2) =~= "\r\n"@);
    assert(after.skip(after.len() - 4) =~= "\r\n\r\n"@);
    assert(body.skip(body.len() - detail.len()) =~= detail);
    assert(body.subrange(11, 24) =~= "ConnectFailed"@);
    assert(text::occurs_at(body, "ConnectFailed"@, 11));
    assert(bad_gateway(detail) == before + digits + after + body);
}

/// What a client is told of a tunnel that is open is a head that says so, and nothing behind it.
pub proof fn law_opened_tunnel_is_told(host: Seq<char>, port: u16)
    ensures
        ({
            let told = (RequestModel::Connect { host, port }).opened_reply();
            &&& text::starts_with(told, "HTTP/1.1 200 "@)
            &&& crate::keys::ends_with(told, "\r\n\r\n"@)
            &&& forall|i: int|
                0 <= i && text::occurs_at(told, "\r\n\r\n"@, i) ==> i + 4 == told.len()
        }),
{
    let told = "HTTP/1.1 200 Connection Established\r\n\r\n"@;
    reveal_strlit("HTTP/1.1 200 Connection Established\r\n\r\n");
    reveal_strlit("HTTP/1.1 200 ");
    reveal_strlit("\r\n\r\n");
    assert(told.subrange(0, 13) =~= "HTTP/1.1 200 "@);
    assert(told.skip(told.len() - 4) =~= "\r\n\r\n"@);
    assert forall|i: int| 0 <= i && text::occurs_at(told, "\r\n\r\n"@, i) implies i + 4
        == told.len() by {
        assert(told.subrange(i, i + 4)[0] == told[i]);
        assert(told.subrange(i, i + 4)[2] == told[i + 2]);
    }
}

} // verus!
