use sway::http_proxy::{
    bad_gateway_response, collect_head, parse_absolute_http_url, parse_host_port, plan_request,
    read_request, HeadProgress, HttpError, HttpRequest, HEAD_LIMIT,
};

#[test]
fn hosts_and_ports() {
    let pair = |s: &str, p| parse_host_port(s, p).unwrap();
    assert_eq!(pair("example.org:8443", 443), ("example.org".to_string(), 8443));
    assert_eq!(pair("example.org", 443), ("example.org".to_string(), 443));
    assert_eq!(pair("[::1]:80", 443), ("::1".to_string(), 80));
    assert_eq!(pair("[::1]", 443), ("[::1]".to_string(), 443));
    assert_eq!(pair(":80", 443), (":80".to_string(), 443));
    assert_eq!(pair("h:8x", 443), ("h:8x".to_string(), 443));
    assert_eq!(parse_host_port("h:", 443), Err(HttpError::BadPort));
    assert_eq!(parse_host_port("h:99999", 443), Err(HttpError::BadPort));
}

#[test]
fn absolute_urls() {
    let url = |s: &str| parse_absolute_http_url(s).unwrap();
    assert_eq!(url("http://h/a/b?c"), ("h".to_string(), 80, "/a/b?c".to_string()));
    assert_eq!(url("HTTP://h:81"), ("h".to_string(), 81, "/".to_string()));
    assert_eq!(parse_absolute_http_url("/a"), Err(HttpError::NotAbsolute));
    assert_eq!(parse_absolute_http_url("Http://h/"), Err(HttpError::NotAbsolute));
    assert_eq!(parse_absolute_http_url("http://h:70000/"), Err(HttpError::BadPort));
}

#[test]
fn error_texts_of_the_http_proxy() {
    assert_eq!(HttpError::HeadTooLarge.message(), "HTTP 请求头过大");
    assert_eq!(HttpError::NotAbsolute.message(), "仅支持 http:// 绝对 URL 代理");
    assert!(HttpError::BadPort.message().starts_with("端口解析失败"));
}

#[test]
fn heads_are_collected() {
    let mut head = Vec::new();
    assert_eq!(collect_head(&mut head, b"GET / HTTP/1.1\r\n"), HeadProgress::NeedMore);
    assert_eq!(collect_head(&mut head, b"\r\nbody"), HeadProgress::Complete);
    assert_eq!(head, b"GET / HTTP/1.1\r\n\r\nbody");
    assert_eq!(collect_head(&mut Vec::new(), b""), HeadProgress::Closed);
    let mut long = vec![b'a'; HEAD_LIMIT];
    assert_eq!(collect_head(&mut long, b"a"), HeadProgress::TooLarge);
    let mut full = vec![b'a'; HEAD_LIMIT - 1];
    assert_eq!(collect_head(&mut full, b"a"), HeadProgress::NeedMore);
    let mut long = vec![b'a'; HEAD_LIMIT];
    assert_eq!(collect_head(&mut long, b"\r\n\r\n"), HeadProgress::Complete);
}

#[test]
fn connect_asks_for_a_tunnel() {
    let q = plan_request(b"connect example.org HTTP/1.1\r\n\r\n").unwrap();
    assert!(matches!(&q, HttpRequest::Connect { host, port: 443 } if host == "example.org"));
    assert_eq!(q.protocol(), "HTTPS");
    assert_eq!(q.destination(), ("example.org", 443));
    assert_eq!(q.opened_reply(), "HTTP/1.1 200 Connection Established\r\n\r\n");
    assert!(q.sent_ahead().is_empty());
    assert_eq!(q.sent_ahead_length(), 0);
    let failed = q.failed_reply("原因").unwrap();
    assert_eq!(failed, bad_gateway_response("原因"));
}

#[test]
fn other_methods_are_passed_on() {
    let q = plan_request(b"POST http://h:81/p HTTP/1.0\r\nHost: h\r\n\r\nbody").unwrap();
    assert_eq!(q.protocol(), "HTTP");
    assert_eq!(q.destination(), ("h", 81));
    assert_eq!(q.opened_reply(), "");
    let pieces = q.sent_ahead();
    assert_eq!(pieces[0], &b"POST /p HTTP/1.1\r\nHost: h\r\n\r\nbody"[..]);
    assert_eq!(pieces[1], &b"body"[..]);
    assert_eq!(q.sent_ahead_length(), (pieces[0].len() + pieces[1].len()) as u64);
    assert!(q.failed_reply("x").is_none());
}

#[test]
fn bytes_that_are_no_text_are_shown_by_replacement() {
    let q = plan_request(b"GET http://h/\xff HTTP/1.1\r\n\r\n").unwrap();
    let HttpRequest::Forward { head, body, .. } = q else { panic!("not forwarded") };
    assert_eq!(head, "GET /\u{fffd} HTTP/1.1\r\n\r\n");
    assert!(body.is_empty());
}

#[test]
fn requests_that_cannot_be_served() {
    assert!(matches!(plan_request(b"GET / HTTP/1.1\r\n\r\n"), Err(HttpError::NotAbsolute)));
    assert!(matches!(plan_request(b"\r\n\r\n"), Err(HttpError::NotAbsolute)));
    assert!(matches!(plan_request(b"CONNECT h:70000 HTTP/1.1\r\n\r\n"), Err(HttpError::BadPort)));
}

#[test]
fn a_head_without_an_empty_line_gets_one() {
    let q = read_request(b"GET http://h/", "GET http://h/").unwrap();
    let HttpRequest::Forward { head, .. } = q else { panic!("not forwarded") };
    assert_eq!(head, "GET / HTTP/1.1\r\n\r\n");
}

#[test]
fn the_answer_to_a_closed_way_counts_bytes() {
    let r = bad_gateway_response("失败");
    assert_eq!(
        r,
        "HTTP/1.1 502 Bad Gateway\r\nContent-Type: text/plain; charset=utf-8\r\nContent-Length: 32\r\nConnection: close\r\n\r\nSSH tunnel ConnectFailed: 失败"
    );
}

#[test]
fn what_a_target_leaves_out_is_filled_in() {
    let q = plan_request(b"GET HTTP://h HTTP/1.1\r\nA: b\r\n\r\n").unwrap();
    assert_eq!(q.destination(), ("h", 80));
    assert!(matches!(&q, HttpRequest::Forward { head, .. }
        if head == "GET / HTTP/1.1\r\nA: b\r\n\r\n"));
    let q = plan_request(b"CONNECT [::1]:8443 HTTP/1.1\r\n\r\n").unwrap();
    assert_eq!(q.destination(), ("::1", 8443));
    let q = plan_request(b"CONNECT [::1] HTTP/1.1\r\n\r\n").unwrap();
    assert_eq!(q.destination(), ("[::1]", 443));
    assert!(matches!(plan_request(b"CONNECT h:99999 HTTP/1.1\r\n\r\n"), Err(HttpError::BadPort)));
}
