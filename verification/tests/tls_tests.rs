use turkeydpi::tls::{
    find_host_header_start, find_http_host, is_client_hello, is_http_request, parse_client_hello,
    ClientHelloInfo,
};

fn sample_client_hello() -> Vec<u8> {
    vec![
        0x16, 0x03, 0x01, 0x00, 0xf1, 0x01, 0x00, 0x00, 0xed, 0x03, 0x03, 0x01, 0x02, 0x03, 0x04,
        0x05, 0x06, 0x07, 0x08, 0x09, 0x0a, 0x0b, 0x0c, 0x0d, 0x0e, 0x0f, 0x10, 0x11, 0x12, 0x13,
        0x14, 0x15, 0x16, 0x17, 0x18, 0x19, 0x1a, 0x1b, 0x1c, 0x1d, 0x1e, 0x1f, 0x20, 0x00, 0x00,
        0x04, 0x13, 0x01, 0x13, 0x02, 0x01, 0x00, 0x00, 0x1e, 0x00, 0x00, 0x00, 0x10, 0x00, 0x0e,
        0x00, 0x00, 0x0b, 0x64, 0x69, 0x73, 0x63, 0x6f, 0x72, 0x64, 0x2e, 0x63, 0x6f, 0x6d, 0x00,
        0x15, 0x00, 0x06, 0x00, 0x00, 0x00, 0x00, 0x00, 0x00,
    ]
}

#[test]
fn test_is_client_hello() {
    let data = sample_client_hello();
    assert!(is_client_hello(&data));

    assert!(!is_client_hello(&[0x17, 0x03, 0x01, 0x00, 0x10, 0x00]));
    assert!(!is_client_hello(b"GET / HTTP/1.1"));
}

#[test]
fn test_parse_client_hello() {
    let data = sample_client_hello();
    let info = parse_client_hello(&data).unwrap();

    assert!(info.is_valid);
    assert_eq!(info.record_version, (0x03, 0x01));
    assert_eq!(info.client_version, (0x03, 0x03));
    assert!(info.sni_offset.is_some());
    assert_eq!(info.sni_hostname.as_deref(), Some("discord.com"));
}

#[test]
fn test_get_split_points() {
    let data = sample_client_hello();
    let info = parse_client_hello(&data).unwrap();

    let points = info.get_split_points();
    assert!(!points.is_empty());

    for point in &points {
        assert!(*point < data.len());
    }
}

#[test]
fn test_turkey_split_point() {
    let data = sample_client_hello();
    let info = parse_client_hello(&data).unwrap();

    let split = info.get_turkey_split_point();
    assert!(split.is_some());
    assert!(split.unwrap() < 10);
}

#[test]
fn test_is_http_request() {
    assert!(is_http_request(b"GET / HTTP/1.1\r\n"));
    assert!(is_http_request(b"POST /api HTTP/1.1\r\n"));
    assert!(!is_http_request(b"\x16\x03\x01"));
    assert!(!is_http_request(b"HTTP/1.1 200"));
}

#[test]
fn test_find_http_host() {
    let request = b"GET / HTTP/1.1\r\nHost: discord.com\r\nConnection: close\r\n\r\n";
    let (offset, len) = find_http_host(request).unwrap();

    let host = std::str::from_utf8(&request[offset..offset + len]).unwrap();
    assert_eq!(host, "discord.com");
}

#[test]
fn parse_reports_exact_layout() {
    let data = sample_client_hello();
    let info = parse_client_hello(&data).unwrap();
    assert_eq!(info.record_offset, 0);
    assert_eq!(info.record_length, 0xf1 + 5);
    assert_eq!(info.sni_offset, Some(63));
    assert_eq!(info.sni_length, Some(11));
    assert_eq!(&data[63..74], b"discord.com");
    assert_eq!(info.get_split_points(), vec![62, 68]);
    assert_eq!(info.get_turkey_split_point(), Some(3));
}

#[test]
fn parse_rejects_short_and_foreign_buffers() {
    assert!(parse_client_hello(&[]).is_none());
    assert!(parse_client_hello(&[0x16, 0x03, 0x01, 0x00, 0x10]).is_none());
    assert!(parse_client_hello(&[0x17, 0x03, 0x01, 0x00, 0x10, 0x01]).is_none());
    assert!(parse_client_hello(&[0x16, 0x03, 0x01, 0x00, 0x10, 0x02]).is_none());
}

#[test]
fn parse_of_truncated_hello_keeps_what_it_read() {
    let data = sample_client_hello();
    for cut in 6..data.len() {
        let info = parse_client_hello(&data[..cut]).unwrap();
        assert!(info.is_valid);
        assert_eq!(info.record_version, (0x03, 0x01));
        if cut >= 11 {
            assert_eq!(info.client_version, (0x03, 0x03));
        } else {
            assert_eq!(info.client_version, (0, 0));
        }
        // The extension is read only once the buffer holds all of it.
        if cut < 74 {
            assert_eq!(info.sni_offset, None);
            assert_eq!(info.sni_length, None);
            assert_eq!(info.sni_hostname, None);
        } else {
            assert_eq!(info.sni_offset, Some(63));
            assert_eq!(info.sni_length, Some(11));
            assert_eq!(info.sni_hostname.as_deref(), Some("discord.com"));
        }
    }
}

#[test]
fn parse_keeps_offsets_of_a_name_that_runs_past_the_end() {
    let mut data = sample_client_hello();
    // Declares a name of 0x0c bytes inside an extension of sixteen.
    data[62] = 0x20;
    let info = parse_client_hello(&data).unwrap();
    assert_eq!(info.sni_offset, Some(63));
    assert_eq!(info.sni_length, Some(0x20));
    assert_eq!(info.sni_hostname, None);
}

#[test]
fn parse_keeps_offsets_of_a_name_that_is_not_text() {
    let mut data = sample_client_hello();
    data[63] = 0xff;
    let info = parse_client_hello(&data).unwrap();
    assert_eq!(info.sni_offset, Some(63));
    assert_eq!(info.sni_hostname, None);
}

#[test]
fn default_info_is_empty_and_clone_is_equal() {
    let info = ClientHelloInfo::default();
    assert!(!info.is_valid);
    assert_eq!(info.get_split_points(), Vec::<usize>::new());
    assert_eq!(info.get_turkey_split_point(), None);
    let parsed = parse_client_hello(&sample_client_hello()).unwrap();
    let copy = parsed.clone();
    assert_eq!(copy.sni_hostname, parsed.sni_hostname);
    assert_eq!(copy.sni_offset, parsed.sni_offset);
    assert_eq!(copy.record_length, parsed.record_length);
}

#[test]
fn classification_is_repeatable() {
    let inputs: Vec<Vec<u8>> = vec![
        sample_client_hello(),
        b"GET / HTTP/1.1\r\n".to_vec(),
        b"PATCH".to_vec(),
        b"PUT".to_vec(),
        vec![],
        vec![0x16, 0x03, 0x05, 0x00, 0x00, 0x01],
    ];
    for input in &inputs {
        assert_eq!(is_client_hello(input), is_client_hello(input));
        assert_eq!(is_http_request(input), is_http_request(input));
    }
    assert!(is_http_request(b"PATCH"));
    assert!(!is_http_request(b"PUT"));
    assert!(is_http_request(b"PUT /x"));
    assert!(is_http_request(b"HEAD"));
    assert!(is_http_request(b"DELETE /"));
    assert!(is_http_request(b"OPTIONS *"));
    assert!(is_http_request(b"CONNECT a:1"));
    assert!(!is_http_request(b"get / HTTP/1.1"));
    assert!(!is_client_hello(&[0x16, 0x03, 0x05, 0x00, 0x00, 0x01]));
    assert!(is_client_hello(&[0x16, 0x03, 0x04, 0x00, 0x00, 0x01]));
}

#[test]
fn host_header_is_found_without_regard_to_case() {
    let request = b"GET / HTTP/1.1\r\nhOsT: \t example.org\r\n\r\n";
    let (offset, len) = find_http_host(request).unwrap();
    assert_eq!(&request[offset..offset + len], b"example.org");
    assert_eq!(find_host_header_start(request), Some(16));
}

#[test]
fn host_header_needs_a_line_before_it_and_text_around_it() {
    assert_eq!(find_http_host(b"Host: a\r\n"), None);
    assert_eq!(find_http_host(b"GET / HTTP/1.1\r\n\r\n"), None);
    assert_eq!(find_http_host(b"GET /\nHost: a\xff\r\n"), None);
    assert_eq!(find_host_header_start(b"GET /\nHost: a\xff\r\n"), None);
    assert_eq!(find_http_host(b"GET /\nHost:"), Some((11, 0)));
    assert_eq!(find_http_host(b"GET /\nHost: a\nX: b\r\n"), Some((12, 1)));
    assert_eq!(find_http_host(b"GET /\nHost: a\nX: b"), Some((12, 1)));
}

#[test]
fn test_fragment_at_offsets() {
    let data = b"Hello, World!";

    let fragments = turkeydpi::tls::fragment_at_offsets(data, &[5, 7]);
    assert_eq!(fragments.len(), 3);
    assert_eq!(&fragments[0][..], b"Hello");
    assert_eq!(&fragments[1][..], b", ");
    assert_eq!(&fragments[2][..], b"World!");
}

#[test]
fn offsets_are_taken_in_any_order_once_and_only_inside() {
    let data = b"Hello, World!";
    let fragments = turkeydpi::tls::fragment_at_offsets(data, &[7, 0, 5, 13, 7, 99, 5, 12]);
    let texts: Vec<&[u8]> = fragments.iter().map(|f| &f[..]).collect();
    assert_eq!(texts, vec![&b"Hello"[..], &b", "[..], &b"World"[..], &b"!"[..]]);
    let whole = turkeydpi::tls::fragment_at_offsets(data, &[]);
    assert_eq!(whole.len(), 1);
    assert_eq!(&whole[0][..], data);
    assert!(turkeydpi::tls::fragment_at_offsets(b"", &[0, 1]).is_empty());
    let one = turkeydpi::tls::fragment_at_offsets(b"x", &[1, 0]);
    assert_eq!(one.len(), 1);
}

#[test]
fn host_value_ends_at_the_first_line_break_of_either_kind() {
    let data = b"GET / HTTP/1.1\nHost: a.com\nX: y\r\n\r\n";
    assert_eq!(find_http_host(data), Some((21, 5)));
    assert_eq!(&data[21..26], b"a.com");
    let data = b"GET / HTTP/1.1\r\nHost: a.com\r\nX: y\n\n";
    assert_eq!(find_http_host(data), Some((22, 5)));
    let data = b"GET / HTTP/1.1\nHost: a.com\rX: y\n";
    assert_eq!(find_http_host(data), Some((21, 5)));
    assert_eq!(find_http_host(b"GET /\nHost: \t\n"), Some((13, 0)));
    assert_eq!(find_http_host(b"GET /\nHost: tail"), Some((12, 4)));
}
