use sway::text;

#[test]
fn trim_agrees_with_std() {
    let samples = ["", "  ", " a ", "\u{3000}中文\u{00a0}\n", "a b", "\u{0085}x\u{2029}", "\u{200b}x"];
    for s in samples {
        assert_eq!(text::trim(s), s.trim());
        assert_eq!(text::trim(text::trim(s)), text::trim(s));
    }
}

#[test]
fn lines_agree_with_std() {
    let samples = ["", "\n", "a", "a\n", "a\r\nb", "a\n\nb\r\n", "\r\r\n", "x\r"];
    for s in samples {
        let lines = text::split_lines(s);
        let expected: Vec<String> = s.lines().map(|l| l.to_string()).collect();
        assert_eq!(lines, expected);
        let first = text::first_line_of(&text::chars_of(s));
        assert_eq!(text::string_of(&first), s.lines().next().unwrap_or(""));
    }
}

#[test]
fn words_agree_with_std() {
    let samples = ["", "  ", "GET http://x HTTP/1.1", "  a\tb  c "];
    for s in samples {
        let (first, rest) = text::split_first_word(&text::chars_of(s));
        let (second, _) = text::split_first_word(&rest);
        let mut words = s.split_whitespace();
        assert_eq!(text::string_of(&first), words.next().unwrap_or(""));
        assert_eq!(text::string_of(&second), words.next().unwrap_or(""));
    }
}

#[test]
fn searching_agrees_with_std() {
    let hay = "abcabcabd";
    assert_eq!(text::find_chars(&text::chars_of(hay), &text::chars_of("abd")), hay.find("abd"));
    assert_eq!(text::find_chars(&text::chars_of(hay), &text::chars_of("")), Some(0));
    assert_eq!(text::find_chars(&text::chars_of(hay), &text::chars_of("xyz")), None);
    assert_eq!(text::find_bytes(b"ab\r\n\r\ncd", b"\r\n\r\n"), Some(2));
    assert_eq!(text::find_bytes(b"ab", b"abc"), None);
    assert!(text::has_text("本地代理端口无效", "端口"));
    assert!(!text::has_text("请填写用户名", "端口"));
    assert!(text::has_prefix("enabled: yes", "enabled:"));
    assert!(!text::has_prefix("ena", "enabled:"));
    assert_eq!(text::position_of(&text::chars_of("a:b:c"), ':'), Some(1));
    assert_eq!(text::last_position_of(&text::chars_of("a:b:c"), ':'), Some(3));
    assert_eq!(text::position_of(&text::chars_of("abc"), ':'), None);
}

#[test]
fn numbers_agree_with_std() {
    for n in [0u128, 9, 10, 65535, u64::MAX as u128, u128::MAX] {
        assert_eq!(text::decimal_string(n), n.to_string());
    }
    assert_eq!(text::parse_u16(&text::chars_of("65535")), Some(65535));
    assert_eq!(text::parse_u16(&text::chars_of("65536")), None);
    assert_eq!(text::parse_u16(&text::chars_of("00080")), Some(80));
    assert_eq!(text::parse_u16(&text::chars_of("")), None);
    for n in [0u64, 7, 10, 99, 100] {
        assert_eq!(text::two_wide_string(n, '0'), format!("{n:02}"));
        assert_eq!(text::two_wide_string(n, ' '), format!("{n:>2}"));
    }
    assert_eq!(text::address_string("example.org", 443), "example.org:443");
}

#[test]
fn lowering_leaves_other_letters() {
    assert_eq!(text::to_lower("ÄBC[Z]中"), "ÄBC[Z]中".to_ascii_lowercase());
}

#[test]
fn addresses_are_found_as_a_whole() {
    assert!(text::has_address("a:1", "a:1"));
    assert!(text::has_address("http://a:1/", "a:1"));
    assert!(text::has_address("ba:1;a:1", "a:1"));
    assert!(text::has_address("a:12,a:1", "a:1"));
    assert!(!text::has_address("a:12", "a:1"));
    assert!(!text::has_address("ba:1", "a:1"));
    for before in ["0", "B", ".", "-", "_"] {
        assert!(!text::has_address(&format!("{before}a:1"), "a:1"));
    }
    assert!(!text::has_address("", "a:1"));
    assert!(!text::has_address("a:", "a:1"));
}

#[test]
fn hosts_are_found_as_a_whole() {
    assert!(text::has_host("a.b", "a.b"));
    assert!(text::has_host(" http://a.b/", "a.b"));
    assert!(text::has_host("a.bc a.b", "a.b"));
    assert!(!text::has_host("a.bc", "a.b") && !text::has_host("a.b.c", "a.b"));
    assert!(!text::has_host("x.a.b", "a.b") && !text::has_host("-a.b", "a.b"));
    assert!(!text::has_host("", "a.b") && !text::has_host("a.", "a.b"));
}
