use webview_host::admission::{screen_parsed_url, validate_url, ParsedUrl, MAX_URL_LEN};

fn parsed(scheme: &str, host: Option<&str>, href: &str) -> ParsedUrl {
    ParsedUrl {
        scheme: scheme.to_string(),
        host: host.map(|h| h.to_string()),
        href: href.to_string(),
    }
}

#[test]
fn accepts_https_sites() {
    assert!(validate_url("https://chat.deepseek.com/").is_ok());
    assert!(validate_url("https://www.kimi.com/chat").is_ok());
    assert!(validate_url("  https://chat.deepseek.com/a/chat/s/xxx  ").is_ok());
}

#[test]
fn rejects_non_https_schemes() {
    for bad in [
        "http://chat.deepseek.com/",
        "file:///C:/Windows/win.ini",
        "javascript:alert(1)",
        "data:text/html,<h1>x</h1>",
        "about:blank",
    ] {
        assert!(validate_url(bad).is_err(), "{bad} 应被拒绝");
    }
}

#[test]
fn rejects_local_and_ip_hosts() {
    for bad in [
        "https://127.0.0.1/",
        "https://127.0.0.1:3000/admin",
        "https://192.168.1.1/",
        "https://10.0.0.5/router",
        "https://[::1]/",
        "https://[fe80::1]/",
        "https://localhost/",
        "https://foo.localhost/",
        "https://printer.local/",
        "https://svc.internal/",
    ] {
        assert!(validate_url(bad).is_err(), "{bad} 应被拒绝");
    }
}

#[test]
fn rejects_empty_and_overlong() {
    assert!(validate_url("").is_err());
    assert!(validate_url("   ").is_err());
    assert!(validate_url(&format!("https://a.com/{}", "x".repeat(MAX_URL_LEN))).is_err());
}

#[test]
fn each_refusal_has_its_message() {
    assert_eq!(validate_url(" \t\n ").unwrap_err(), "INVALID_ARGUMENT: url 不能为空");
    assert_eq!(
        validate_url(&format!("https://a.com/{}", "x".repeat(MAX_URL_LEN))).unwrap_err(),
        "INVALID_ARGUMENT: url 超过 2048 字符"
    );
    assert_eq!(
        validate_url("chat.deepseek.com").unwrap_err(),
        "INVALID_ARGUMENT: url 解析失败（relative URL without a base）"
    );
    assert_eq!(validate_url("http://a.com/").unwrap_err(), "INVALID_ARGUMENT: 只允许 https 地址");
    assert_eq!(
        validate_url("https://10.0.0.5/").unwrap_err(),
        "INVALID_ARGUMENT: 不允许直接打开 IP 地址"
    );
    assert_eq!(
        validate_url("https://svc.internal/").unwrap_err(),
        "INVALID_ARGUMENT: 不允许打开本机/内网地址"
    );
    assert_eq!(
        screen_parsed_url(Ok(parsed("https", None, "https:x"))).unwrap_err(),
        "INVALID_ARGUMENT: url 缺少主机名"
    );
}

#[test]
fn length_limit_counts_utf8_bytes_after_trimming() {
    // 2048 bytes exactly: accepted; one more byte: refused.
    let base = "https://a.com/";
    let exact = format!("  {}{}  ", base, "x".repeat(MAX_URL_LEN - base.len()));
    assert!(validate_url(&exact).is_ok());
    let over = format!("{}{}", base, "x".repeat(MAX_URL_LEN - base.len() + 1));
    assert!(validate_url(&over).is_err());
    // Multi-byte characters count by their UTF-8 length.
    let wide = format!("{}{}", base, "é".repeat((MAX_URL_LEN - base.len()) / 2 + 1));
    assert_eq!(validate_url(&wide).unwrap_err(), "INVALID_ARGUMENT: url 超过 2048 字符");
}

#[test]
fn admitted_url_is_the_parsers_serialization() {
    let u = validate_url("  HTTPS://Chat.DeepSeek.com  ").unwrap();
    assert_eq!(u.as_str(), "https://chat.deepseek.com/");
    assert_eq!(u.scheme(), "https");
    assert_eq!(u.host_str(), Some("chat.deepseek.com"));
}

#[test]
fn surrounding_space_gives_the_same_target() {
    let a = validate_url("https://www.kimi.com/chat").unwrap();
    let b = validate_url("\u{3000} https://www.kimi.com/chat\t\n").unwrap();
    assert_eq!(a.as_str(), b.as_str());
}

#[test]
fn host_checks_ignore_ascii_case() {
    let r = screen_parsed_url(Ok(parsed("https", Some("LocalHost"), "https://localhost/")));
    assert_eq!(r.unwrap_err(), "INVALID_ARGUMENT: 不允许打开本机/内网地址");
    let r = screen_parsed_url(Ok(parsed("https", Some("Printer.LOCAL"), "https://printer.local/")));
    assert!(r.is_err());
}

#[test]
fn only_strict_ipv4_literals_count_as_ip() {
    for ip in ["1.2.3.4", "0.0.0.0", "255.255.255.255", "[::1]", "[a:b]", "a:b"] {
        let r = screen_parsed_url(Ok(parsed("https", Some(ip), "https://x/")));
        assert_eq!(r.unwrap_err(), "INVALID_ARGUMENT: 不允许直接打开 IP 地址", "{ip}");
    }
    for name in ["256.1.1.1", "01.2.3.4", "1.2.3", "1.2.3.4.5", "1..3.4", "1.2.3.4.", "a.b.c.d", "1234.1.1.1"] {
        let r = screen_parsed_url(Ok(parsed("https", Some(name), "https://x/")));
        assert!(r.is_ok(), "{name}");
    }
}

#[test]
fn suffix_checks_need_the_dot() {
    for name in ["notlocal", "mylocalhost", "internal", "x.localhost.com"] {
        let r = screen_parsed_url(Ok(parsed("https", Some(name), "https://x/")));
        assert!(r.is_ok(), "{name}");
    }
}

#[test]
fn parse_errors_are_passed_through() {
    let r = screen_parsed_url(Err("empty host".to_string()));
    assert_eq!(r.unwrap_err(), "INVALID_ARGUMENT: url 解析失败（empty host）");
}

#[test]
fn acceptable_url_is_handed_back_unchanged() {
    let r = screen_parsed_url(Ok(parsed("https", Some("example.org"), "https://example.org/p?q=1"))).unwrap();
    assert_eq!(r.as_str(), "https://example.org/p?q=1");
    assert_eq!(r.host_str(), Some("example.org"));
}

#[test]
fn local_names_with_a_final_dot_are_refused() {
    for bad in [
        "https://localhost./",
        "https://foo.localhost./",
        "https://printer.local./",
        "https://svc.internal./",
        "https://LOCALHOST./x",
    ] {
        assert_eq!(
            validate_url(bad).unwrap_err(),
            "INVALID_ARGUMENT: 不允许打开本机/内网地址",
            "{bad}"
        );
    }
    let r = screen_parsed_url(Ok(parsed("https", Some("localhost."), "https://localhost./")));
    assert!(r.is_err());
    // Only one final dot is dropped, and only a real suffix counts.
    assert!(validate_url("https://example.com./").is_ok());
    let r = screen_parsed_url(Ok(parsed("https", Some("localhost.."), "https://x/")));
    assert!(r.is_ok());
}

#[test]
fn admitted_serialization_starts_with_the_scheme() {
    let u = validate_url("https://www.kimi.com/chat").unwrap();
    assert!(u.as_str().starts_with("https:"));
}
