use sway::socks5::{
    dotted_string, reply, Socks5, Socks5Error, Socks5Step, REFUSED, SUCCEEDED,
};

enum Ending {
    Served(String, u16),
    Refused(Socks5Error),
}

fn converse(bytes: &[u8]) -> (Vec<u8>, Ending) {
    let mut state = Socks5::start();
    let mut at = 0;
    let mut said = Vec::new();
    loop {
        let n = state.wanted();
        let piece = &bytes[at..at + n];
        at += n;
        match state.advance(piece) {
            Socks5Step::Continue { next, reply } => {
                said.extend(reply);
                state = next;
            }
            Socks5Step::Connect { host, port } => {
                assert_eq!(at, bytes.len());
                return (said, Ending::Served(host, port));
            }
            Socks5Step::Refuse { error, reply } => {
                said.extend(reply);
                return (said, Ending::Refused(error));
            }
        }
    }
}

#[test]
fn an_ipv4_request_is_served() {
    let (said, end) = converse(&[5, 1, 0, 5, 1, 0, 1, 10, 0, 255, 7, 0x1f, 0x90]);
    assert_eq!(said, [5, 0]);
    assert!(matches!(end, Ending::Served(h, 8080) if h == "10.0.255.7"));
}

#[test]
fn a_domain_request_is_served() {
    let mut bytes = vec![5, 2, 0, 2, 5, 1, 0, 3, 11];
    bytes.extend(b"example.org");
    bytes.extend([1, 187]);
    let (said, end) = converse(&bytes);
    assert_eq!(said, [5, 0]);
    assert!(matches!(end, Ending::Served(h, 443) if h == "example.org"));
}

#[test]
fn a_name_that_is_no_text_is_shown_by_replacement() {
    let (_, end) = converse(&[5, 0, 5, 1, 0, 3, 2, b'a', 0xff, 0, 80]);
    assert!(matches!(end, Ending::Served(h, 80) if h == "a\u{fffd}"));
}

#[test]
fn an_empty_name_is_served() {
    let (_, end) = converse(&[5, 0, 5, 1, 0, 3, 0, 0, 80]);
    assert!(matches!(end, Ending::Served(h, 80) if h.is_empty()));
}

#[test]
fn each_refusal() {
    let (said, end) = converse(&[4, 1]);
    assert!(said.is_empty());
    assert!(matches!(end, Ending::Refused(Socks5Error::NotSocks5)));
    let (said, end) = converse(&[5, 0, 5, 2, 0, 1]);
    assert_eq!(said, [5, 0, 5, 7, 0, 1, 0, 0, 0, 0, 0, 0]);
    assert!(matches!(end, Ending::Refused(Socks5Error::NotConnect)));
    let (said, end) = converse(&[5, 0, 5, 1, 0, 4]);
    assert_eq!(said, [5, 0]);
    assert!(matches!(end, Ending::Refused(Socks5Error::Ipv6Target)));
    let (_, end) = converse(&[5, 0, 5, 1, 0, 9]);
    assert!(matches!(end, Ending::Refused(Socks5Error::UnknownAddressType(9))));
}

#[test]
fn error_texts_of_socks5() {
    assert_eq!(Socks5Error::NotSocks5.message(), "非 SOCKS5 协议");
    assert_eq!(Socks5Error::NotConnect.message(), "仅支持 SOCKS5 CONNECT");
    assert_eq!(Socks5Error::Ipv6Target.message(), "暂不支持 IPv6 目标");
    assert_eq!(Socks5Error::UnknownAddressType(9).message(), "未知地址类型 9");
}

#[test]
fn replies_of_socks5() {
    assert_eq!(reply(SUCCEEDED), [5, 0, 0, 1, 0, 0, 0, 0, 0, 0]);
    assert_eq!(reply(REFUSED), [5, 5, 0, 1, 0, 0, 0, 0, 0, 0]);
    assert_eq!(dotted_string(1, 22, 0, 255), "1.22.0.255");
}
