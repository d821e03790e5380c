use turkeydpi::request::{
    classify_request, extract_connect_target, extract_host_header, extract_http_target,
    rewrite_http_request, ClientRequest, RequestError,
};

#[test]
fn test_extract_connect_target() {
    let req = "CONNECT discord.com:443 HTTP/1.1\r\nHost: discord.com\r\n\r\n";
    assert_eq!(extract_connect_target(req).unwrap(), "discord.com:443");

    let req2 = "CONNECT example.com HTTP/1.1\r\n\r\n";
    assert_eq!(extract_connect_target(req2).unwrap(), "example.com:443");
}

#[test]
fn connect_target_needs_two_words_on_the_first_line() {
    assert_eq!(extract_connect_target(""), Err(RequestError::Empty));
    assert_eq!(extract_connect_target("CONNECT"), Err(RequestError::Invalid));
    assert_eq!(extract_connect_target("CONNECT \r\nexample.com"), Err(RequestError::Invalid));
    assert_eq!(extract_connect_target("\n"), Err(RequestError::Invalid));
    assert_eq!(extract_connect_target("  CONNECT\t a:1\r\n").unwrap(), "a:1");
    assert_eq!(extract_connect_target("X [::1]:8443 Y").unwrap(), "[::1]:8443");
    assert_eq!(extract_connect_target("CONNECT\u{a0}h\u{3000}HTTP/1.1").unwrap(), "h:443");
    assert_eq!(extract_connect_target("CONNECT h\u{e9}").unwrap(), "h\u{e9}:443");
    assert_eq!(RequestError::Empty.describe(), "Empty request");
    assert_eq!(RequestError::Invalid.describe(), "Invalid CONNECT");
}

#[test]
fn http_target_comes_from_the_url_or_the_host_header() {
    assert_eq!(
        extract_http_target("GET http://example.com/index.html HTTP/1.1\r\n\r\n").as_deref(),
        Some("example.com:80")
    );
    assert_eq!(
        extract_http_target("POST http://example.com:8080/a/b HTTP/1.1\r\n\r\n").as_deref(),
        Some("example.com:8080")
    );
    assert_eq!(
        extract_http_target("GET http://example.com HTTP/1.1\r\nHost: other\r\n\r\n").as_deref(),
        Some("example.com:80")
    );
    assert_eq!(
        extract_http_target("GET / HTTP/1.1\r\nAccept: */*\r\nhOSt:  example.org \r\n\r\n")
            .as_deref(),
        Some("example.org:80")
    );
    assert_eq!(
        extract_http_target("HEAD / HTTP/1.1\nHost:example.org:81\n\n").as_deref(),
        Some("example.org:81")
    );
    assert_eq!(extract_http_target("GET / HTTP/1.1\r\n\r\n"), None);
    assert_eq!(extract_http_target("BREW / HTTP/1.1\r\nHost: a\r\n\r\n"), None);
    assert_eq!(extract_http_target("CONNECT a:1 HTTP/1.1\r\nHost: a\r\n\r\n"), None);
    assert_eq!(extract_http_target("get / HTTP/1.1\r\nHost: a\r\n\r\n"), None);
    assert_eq!(extract_http_target("GET"), None);
    assert_eq!(extract_http_target(""), None);
    for method in ["GET", "POST", "PUT", "DELETE", "HEAD", "OPTIONS", "PATCH"] {
        let request = format!("{} / HTTP/1.1\r\nHost: h\r\n\r\n", method);
        assert_eq!(extract_http_target(&request).as_deref(), Some("h:80"));
    }
}

#[test]
fn host_header_value_is_trimmed() {
    assert_eq!(
        extract_host_header("GET / HTTP/1.1\r\nHost: discord.com\r\n\r\n").as_deref(),
        Some("discord.com")
    );
    assert_eq!(extract_host_header("Host:\t a b \t\r\n").as_deref(), Some("a b"));
    assert_eq!(extract_host_header("HOST:\r\n").as_deref(), Some(""));
    assert_eq!(extract_host_header("GET / HTTP/1.1\r\n\r\n"), None);
    assert_eq!(extract_host_header("X-Host: a\r\n"), None);
    assert_eq!(extract_host_header("a\nhost:first\nhost:second\n").as_deref(), Some("first"));
}

#[test]
fn request_line_is_rewritten_to_the_origin_form() {
    let raw = b"GET http://example.com/a/b?c=d HTTP/1.1\r\nHost: example.com\r\n\r\n";
    let text = std::str::from_utf8(raw).unwrap();
    assert_eq!(
        rewrite_http_request(text, raw),
        b"GET /a/b?c=d HTTP/1.1\r\nHost: example.com\r\n\r\n".to_vec()
    );
    let raw = b"GET http://example.com HTTP/1.1\r\n\r\n";
    assert_eq!(
        rewrite_http_request(std::str::from_utf8(raw).unwrap(), raw),
        b"GET / HTTP/1.1\r\n\r\n".to_vec()
    );
    let raw = b"POST   /submit \t HTTP/1.0\nbody";
    assert_eq!(
        rewrite_http_request(std::str::from_utf8(raw).unwrap(), raw),
        b"POST /submit HTTP/1.0\nbody".to_vec()
    );
    let raw = b"GET /";
    assert_eq!(rewrite_http_request("GET /", raw), raw.to_vec());
    assert_eq!(rewrite_http_request("", raw), raw.to_vec());
    // Without a line break the whole of the bytes follows the new line.
    let raw = b"GET /x HTTP/1.1";
    assert_eq!(
        rewrite_http_request("GET /x HTTP/1.1", raw),
        b"GET /x HTTP/1.1GET /x HTTP/1.1".to_vec()
    );
}

#[test]
fn requests_are_told_apart() {
    let raw = b"CONNECT discord.com:443 HTTP/1.1\r\n\r\n";
    match classify_request(std::str::from_utf8(raw).unwrap(), raw) {
        ClientRequest::Connect(target) => assert_eq!(target, "discord.com:443"),
        other => panic!("unexpected {:?}", other),
    }
    let raw = b"CONNECT \r\n\r\n";
    match classify_request(std::str::from_utf8(raw).unwrap(), raw) {
        ClientRequest::Rejected(error) => assert_eq!(error, RequestError::Invalid),
        other => panic!("unexpected {:?}", other),
    }
    let raw = b"GET http://example.com/x HTTP/1.1\r\n\r\n";
    match classify_request(std::str::from_utf8(raw).unwrap(), raw) {
        ClientRequest::Forward { target, request } => {
            assert_eq!(target, "example.com:80");
            assert_eq!(request, b"GET /x HTTP/1.1\r\n\r\n".to_vec());
        }
        other => panic!("unexpected {:?}", other),
    }
    let raw = b"\x16\x03\x01\x00\x05hello";
    let text = String::from_utf8_lossy(raw);
    assert!(matches!(classify_request(&text, raw), ClientRequest::Unsupported));
    assert!(matches!(classify_request("CONNECTED a", b"CONNECTED a"), ClientRequest::Unsupported));
    assert_eq!(
        turkeydpi::request::RESPONSE_ESTABLISHED,
        "HTTP/1.1 200 Connection Established\r\n\r\n"
    );
    assert_eq!(turkeydpi::request::RESPONSE_BAD_GATEWAY, "HTTP/1.1 502 Bad Gateway\r\n\r\n");
    assert_eq!(
        turkeydpi::request::RESPONSE_GATEWAY_TIMEOUT,
        "HTTP/1.1 504 Gateway Timeout\r\n\r\n"
    );
    assert_eq!(
        turkeydpi::request::RESPONSE_BAD_REQUEST,
        "HTTP/1.1 400 Bad Request\r\n\r\nUnsupported request\r\n"
    );
}
