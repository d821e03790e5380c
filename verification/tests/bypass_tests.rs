use turkeydpi::bypass::{BypassConfig, BypassEngine, DetectedProtocol};

fn sample_tls_client_hello() -> Vec<u8> {
    vec![
        0x16, 0x03, 0x01, 0x00, 0x5a, 0x01, 0x00, 0x00, 0x56, 0x03, 0x03, 0x00, 0x01, 0x02, 0x03,
        0x04, 0x05, 0x06, 0x07, 0x08, 0x09, 0x0a, 0x0b, 0x0c, 0x0d, 0x0e, 0x0f, 0x10, 0x11, 0x12,
        0x13, 0x14, 0x15, 0x16, 0x17, 0x18, 0x19, 0x1a, 0x1b, 0x1c, 0x1d, 0x1e, 0x1f, 0x00, 0x00,
        0x02, 0x13, 0x01, 0x01, 0x00, 0x00, 0x17, 0x00, 0x00, 0x00, 0x10, 0x00, 0x0e, 0x00, 0x00,
        0x0b, 0x64, 0x69, 0x73, 0x63, 0x6f, 0x72, 0x64, 0x2e, 0x63, 0x6f, 0x6d, 0x00, 0x15, 0x00,
        0x03, 0x00, 0x00, 0x00,
    ]
}

fn reassemble(fragments: &[bytes::Bytes]) -> Vec<u8> {
    let mut reassembled = Vec::new();
    for frag in fragments {
        reassembled.extend_from_slice(frag);
    }
    reassembled
}

#[test]
fn test_bypass_tls() {
    let engine = BypassEngine::new(BypassConfig::default());
    let data = sample_tls_client_hello();

    let result = engine.process_outgoing(&data);

    assert!(result.modified);
    assert_eq!(result.protocol, DetectedProtocol::TlsClientHello);
    assert!(result.fragments.len() >= 2);
    assert_eq!(result.hostname.as_deref(), Some("discord.com"));

    let mut reassembled = Vec::new();
    for frag in &result.fragments {
        reassembled.extend_from_slice(frag);
    }
    assert_eq!(reassembled, data);
}

#[test]
fn test_bypass_http() {
    let engine = BypassEngine::new(BypassConfig::default());
    let data = b"GET / HTTP/1.1\r\nHost: discord.com\r\nConnection: close\r\n\r\n";

    let result = engine.process_outgoing(data);

    assert!(result.modified);
    assert_eq!(result.protocol, DetectedProtocol::HttpRequest);
    assert!(result.fragments.len() >= 2);
    assert_eq!(result.hostname.as_deref(), Some("discord.com"));

    let mut reassembled = Vec::new();
    for frag in &result.fragments {
        reassembled.extend_from_slice(frag);
    }
    assert_eq!(&reassembled[..], &data[..]);
}

#[test]
fn test_isp_presets() {
    let data = sample_tls_client_hello();

    for config in [
        BypassConfig::turk_telekom(),
        BypassConfig::vodafone_tr(),
        BypassConfig::superonline(),
        BypassConfig::aggressive(),
    ] {
        let engine = BypassEngine::new(config);
        let result = engine.process_outgoing(&data);

        assert!(result.modified);

        let mut reassembled = Vec::new();
        for frag in &result.fragments {
            reassembled.extend_from_slice(frag);
        }
        assert_eq!(reassembled, data);
    }
}

#[test]
fn test_unknown_protocol_passthrough() {
    let engine = BypassEngine::new(BypassConfig::default());
    let data = b"some random binary data\x00\x01\x02";

    let result = engine.process_outgoing(data);

    assert!(!result.modified);
    assert_eq!(result.protocol, DetectedProtocol::Unknown);
    assert_eq!(result.fragments.len(), 1);
    assert_eq!(&result.fragments[0][..], &data[..]);
}

#[test]
fn default_policy_splits_a_client_hello_after_three_bytes() {
    let engine = BypassEngine::new(BypassConfig::default());
    let data = sample_tls_client_hello();
    let result = engine.process_outgoing(&data);
    assert_eq!(result.fragments.len(), 2);
    assert_eq!(result.fragments[0].len(), 3);
    assert_eq!(result.fragments[1].len(), data.len() - 3);
    assert_eq!(&result.fragments[0][..], &data[..3]);
    assert_eq!(&result.fragments[1][..], &data[3..]);
    assert_eq!(result.inter_fragment_delay, None);
    assert!(result.fake_packet.is_none());
}

#[test]
fn preset_values_are_as_documented() {
    let tt = BypassConfig::turk_telekom();
    assert_eq!((tt.tls_split_pos, tt.max_segment_size, tt.fragment_delay_us), (2, 20, 0));
    let vf = BypassConfig::vodafone_tr();
    assert_eq!((vf.tls_split_pos, vf.max_segment_size, vf.fragment_delay_us), (3, 30, 100));
    let so = BypassConfig::superonline();
    assert_eq!((so.tls_split_pos, so.max_segment_size, so.fragment_delay_us), (1, 15, 0));
    let ag = BypassConfig::aggressive();
    assert_eq!((ag.tls_split_pos, ag.max_segment_size, ag.fragment_delay_us), (0, 5, 10000));
    assert_eq!(ag.fake_packet_ttl, 3);
    let d = BypassConfig::default();
    assert_eq!((d.tls_split_pos, d.http_split_pos, d.max_segment_size), (3, 2, 40));
    assert!(d.fragment_sni && d.fragment_http_host && !d.send_fake_packets);
}

#[test]
fn aggressive_policy_splits_inside_the_server_name_in_small_pieces() {
    let engine = BypassEngine::new(BypassConfig::aggressive());
    let data = sample_tls_client_hello();
    let result = engine.process_outgoing(&data);
    // The name begins at offset 61 and has 11 bytes: the split is at 61 + 5.
    let split = 66;
    let lengths: Vec<usize> = result.fragments.iter().map(|f| f.len()).collect();
    let mut expected = vec![5; 13];
    expected.push(1);
    expected.push(data.len() - split);
    assert_eq!(lengths, expected);
    assert_eq!(reassemble(&result.fragments), data);
    assert_eq!(result.inter_fragment_delay, Some(10000));
}

#[test]
fn vodafone_policy_asks_for_its_delay() {
    let engine = BypassEngine::new(BypassConfig::vodafone_tr());
    let result = engine.process_outgoing(&sample_tls_client_hello());
    assert_eq!(result.inter_fragment_delay, Some(100));
    let http = engine.process_outgoing(b"GET / HTTP/1.1\r\nHost: a.example\r\n\r\n");
    assert_eq!(http.inter_fragment_delay, Some(100));
    let lengths: Vec<usize> = http.fragments.iter().map(|f| f.len()).collect();
    assert_eq!(lengths, vec![19, 16]);
}

#[test]
fn http_split_falls_two_bytes_into_the_host_header() {
    let engine = BypassEngine::new(BypassConfig::default());
    let data = b"GET / HTTP/1.1\r\nHost: discord.com\r\nConnection: close\r\n\r\n";
    let result = engine.process_outgoing(data);
    assert_eq!(result.fragments.len(), 2);
    assert_eq!(&result.fragments[0][..], b"GET / HTTP/1.1\r\nHo");
    assert_eq!(&result.fragments[1][..], &data[18..]);
}

#[test]
fn http_without_host_header_passes_unchanged() {
    let engine = BypassEngine::new(BypassConfig::default());
    let data = b"GET / HTTP/1.0\r\n\r\n";
    let result = engine.process_outgoing(data);
    assert!(!result.modified);
    assert_eq!(result.protocol, DetectedProtocol::HttpRequest);
    assert_eq!(result.fragments.len(), 1);
    assert_eq!(&result.fragments[0][..], &data[..]);
    assert_eq!(result.hostname, None);
}

#[test]
fn switched_off_policy_passes_both_protocols_unchanged() {
    let mut config = BypassConfig::default();
    config.fragment_sni = false;
    config.fragment_http_host = false;
    config.send_fake_packets = true;
    config.fragment_delay_us = 50;
    let engine = BypassEngine::new(config);
    let tls = sample_tls_client_hello();
    let result = engine.process_outgoing(&tls);
    assert!(!result.modified);
    assert_eq!(result.protocol, DetectedProtocol::TlsClientHello);
    assert_eq!(reassemble(&result.fragments), tls);
    assert_eq!(result.fragments.len(), 1);
    assert_eq!(result.hostname, None);
    assert_eq!(result.inter_fragment_delay, None);
    assert!(result.fake_packet.is_none());
    let http = engine.process_outgoing(b"GET / HTTP/1.1\r\nHost: a\r\n\r\n");
    assert!(!http.modified);
    assert_eq!(http.fragments.len(), 1);
}

#[test]
fn decoy_hides_the_server_name() {
    let mut config = BypassConfig::default();
    config.send_fake_packets = true;
    let engine = BypassEngine::new(config);
    let data = sample_tls_client_hello();
    let result = engine.process_outgoing(&data);
    let fake = result.fake_packet.unwrap();
    assert_eq!(fake.len(), data.len());
    assert_eq!(&fake[61..72], b"xxxxxxxxxxx");
    assert_eq!(&fake[..61], &data[..61]);
    assert_eq!(&fake[72..], &data[72..]);
    assert_eq!(reassemble(&result.fragments), data);
}

#[test]
fn split_position_is_kept_inside_the_buffer() {
    let mut config = BypassConfig::default();
    config.tls_split_pos = 10_000;
    config.max_segment_size = 0;
    let engine = BypassEngine::new(config);
    let data = vec![0x16, 0x03, 0x03, 0x00, 0x01, 0x01];
    let result = engine.process_outgoing(&data);
    let lengths: Vec<usize> = result.fragments.iter().map(|f| f.len()).collect();
    assert_eq!(lengths, vec![1, 1, 1, 1, 1, 1]);
    assert_eq!(reassemble(&result.fragments), data);
}

#[test]
fn the_host_name_stops_at_the_first_line_break() {
    let engine = BypassEngine::new(BypassConfig::default());
    let result = engine.process_outgoing(b"GET / HTTP/1.1\nHost: a.com\nX: y\r\n\r\n");
    assert_eq!(result.protocol, DetectedProtocol::HttpRequest);
    assert_eq!(result.hostname.as_deref(), Some("a.com"));
    let result = engine.process_outgoing(b"GET / HTTP/1.1\r\nHost: b.org\r\nX: y\n\n");
    assert_eq!(result.hostname.as_deref(), Some("b.org"));
}
