use bytes::BytesMut;
use turkeydpi::backend::{
    admits_connection, check_stop, parse_ipv4_flow_key, proxy_start_settings, BackendConfig,
    BackendError, BackendSettings, IspPreset, Packet, PacketDirection, ProxyConfig, ProxySettings,
    ProxyStats, ProxyType, SocketAddress, TunSettings,
};
use turkeydpi::bypass::DetectedProtocol;
use turkeydpi::config::Protocol;
use turkeydpi::error::EngineError;
use turkeydpi::net::IpAddress;

fn create_ipv4_tcp_packet() -> BytesMut {
    let mut packet = BytesMut::with_capacity(60);
    packet.extend_from_slice(&[
        0x45, 0x00, 0x00, 0x3C, 0x00, 0x00, 0x00, 0x00, 0x40, 0x06, 0x00, 0x00, 192, 168, 1, 1, 8,
        8, 8, 8,
    ]);
    packet.extend_from_slice(&[
        0x30, 0x39, 0x01, 0xBB, 0x00, 0x00, 0x00, 0x00, 0x00, 0x00, 0x00, 0x00, 0x50, 0x02, 0x00,
        0x00, 0x00, 0x00, 0x00, 0x00,
    ]);
    packet
}

#[test]
fn test_packet_creation() {
    let data = BytesMut::from(&b"test packet"[..]);
    let packet = Packet::outbound(data.clone(), 0);

    assert_eq!(packet.direction, PacketDirection::Outbound);
    assert!(packet.flow_key.is_none());
    assert_eq!(packet.data, data);
}

#[test]
fn test_default_configs() {
    let tun = TunSettings::default();
    assert_eq!(tun.mtu, 1500);
    assert_eq!(tun.address, "10.0.85.1");

    let proxy = ProxySettings::default();
    assert_eq!(proxy.proxy_type, ProxyType::Socks5);
    assert_eq!(proxy.max_connections, 1000);
}

#[test]
fn test_default_config() {
    let config = ProxyConfig::default();
    assert_eq!(config.listen_addr.port, 8844);
    assert!(config.bypass.fragment_sni);
    assert!(config.bypass.fragment_http_host);
}

#[test]
fn test_parse_ipv4_flow_key() {
    let packet = create_ipv4_tcp_packet();
    let key = parse_ipv4_flow_key(&packet);

    assert!(key.is_some());
    let key = key.unwrap();

    assert_eq!(key.src_port, 12345);
    assert_eq!(key.dst_port, 443);
    assert!(matches!(key.protocol, Protocol::Tcp));
}

#[test]
fn test_parse_invalid_packet() {
    let packet = BytesMut::from(&b"too short"[..]);
    let key = parse_ipv4_flow_key(&packet);
    assert!(key.is_none());
}

#[test]
fn flow_keys_are_read_exactly() {
    let packet = create_ipv4_tcp_packet();
    let key = parse_ipv4_flow_key(&packet).unwrap();
    assert_eq!(key.src_ip, IpAddress::v4(192, 168, 1, 1));
    assert_eq!(key.dst_ip, IpAddress::v4(8, 8, 8, 8));
    let mut udp = packet.to_vec();
    udp[9] = 17;
    assert_eq!(parse_ipv4_flow_key(&udp).unwrap().protocol, Protocol::Udp);
    let mut ping = packet.to_vec();
    ping[9] = 1;
    let key = parse_ipv4_flow_key(&ping[..20]).unwrap();
    assert_eq!((key.src_port, key.dst_port, key.protocol), (0, 0, Protocol::Icmp));
    let mut other = packet.to_vec();
    other[9] = 47;
    assert!(parse_ipv4_flow_key(&other).is_none());
    let mut v6 = packet.to_vec();
    v6[0] = 0x65;
    assert!(parse_ipv4_flow_key(&v6).is_none());
    assert!(parse_ipv4_flow_key(&packet[..19]).is_none());
    assert!(parse_ipv4_flow_key(&packet[..23]).is_none());
    assert!(parse_ipv4_flow_key(&packet[..24]).is_some());
    let mut long_header = packet.to_vec();
    long_header[0] = 0x4f;
    // A header of sixty bytes does not fit a packet of forty.
    assert!(parse_ipv4_flow_key(&long_header).is_none());
    long_header.extend_from_slice(&[0; 24]);
    long_header[60] = 0x12;
    long_header[61] = 0x34;
    long_header[62] = 0xab;
    long_header[63] = 0xcd;
    let key = parse_ipv4_flow_key(&long_header).unwrap();
    assert_eq!((key.src_port, key.dst_port), (0x1234, 0xabcd));
}

#[test]
fn packets_keep_what_they_are_given() {
    let data = BytesMut::from(&b"in"[..]);
    let packet = Packet::inbound(data.clone(), 99);
    assert_eq!(packet.direction, PacketDirection::Inbound);
    assert_eq!(packet.timestamp, 99);
    let key = parse_ipv4_flow_key(&create_ipv4_tcp_packet()).unwrap();
    let packet = packet.with_flow_key(key);
    assert_eq!(packet.flow_key, Some(key));
    assert_eq!(packet.data, data);
    assert_eq!(packet.direction, PacketDirection::Inbound);
    assert_eq!(packet.timestamp, 99);
}

#[test]
fn settings_defaults_are_as_documented() {
    let tun = TunSettings::default();
    assert_eq!(tun.device_name, None);
    assert_eq!(tun.netmask, "255.255.255.0");
    let proxy = ProxySettings::default();
    assert_eq!(proxy.listen_addr, SocketAddress { ip: IpAddress::v4(127, 0, 0, 1), port: 1080 });
    assert_eq!(proxy.timeout_secs, 300);
    let backend = BackendConfig::default();
    assert_eq!(backend.max_queue_size, 1000);
    assert!(matches!(backend.backend_settings, BackendSettings::Tun(_)));
    assert!(backend.engine_config.validate().is_ok());
    let config = ProxyConfig::default();
    assert_eq!(config.listen_addr.ip, IpAddress::v4(127, 0, 0, 1));
    assert_eq!(config.connect_timeout_secs, 30);
    assert_eq!(config.buffer_size, 65536);
    assert!(!config.verbose);
    assert_eq!(config.bypass.tls_split_pos, 3);
}

#[test]
fn presets_name_their_policies() {
    assert_eq!(IspPreset::TurkTelekom.to_bypass_config().max_segment_size, 20);
    assert_eq!(IspPreset::Vodafone.to_bypass_config().fragment_delay_us, 100);
    assert_eq!(IspPreset::Superonline.to_bypass_config().tls_split_pos, 1);
    assert_eq!(IspPreset::Aggressive.to_bypass_config().tls_split_pos, 0);
    assert_eq!(IspPreset::Aggressive.to_bypass_config().max_segment_size, 5);
}

#[test]
fn backends_start_and_stop_only_in_turn() {
    let proxy = BackendSettings::Proxy(ProxySettings::default());
    let tun = BackendSettings::Tun(TunSettings::default());
    assert!(matches!(proxy_start_settings(true, &proxy), Err(BackendError::AlreadyRunning)));
    match proxy_start_settings(false, &proxy) {
        Ok(settings) => assert_eq!(settings.max_connections, 1000),
        other => panic!("unexpected {:?}", other),
    }
    match proxy_start_settings(false, &tun) {
        Err(BackendError::NotSupported(text)) => {
            assert_eq!(text, "ProxyBackend requires ProxySettings")
        }
        other => panic!("unexpected {:?}", other),
    }
    assert!(check_stop(true).is_ok());
    assert!(matches!(check_stop(false), Err(BackendError::NotRunning)));
    assert!(admits_connection(0, 1));
    assert!(admits_connection(999, 1000));
    assert!(!admits_connection(1000, 1000));
    assert!(!admits_connection(0, 0));
}

#[test]
fn proxy_counters_count() {
    let mut stats = ProxyStats::new();
    assert_eq!(stats, ProxyStats::default());
    stats.connection_opened();
    stats.connection_opened();
    stats.connection_closed(true);
    stats.record_first_bytes(DetectedProtocol::TlsClientHello, true);
    stats.record_first_bytes(DetectedProtocol::HttpRequest, false);
    stats.record_first_bytes(DetectedProtocol::Unknown, false);
    stats.record_sent(10);
    stats.record_sent(5);
    stats.record_received(7);
    stats.record_dns_query();
    assert_eq!(stats.connections_total, 2);
    assert_eq!(stats.connections_active, 1);
    assert_eq!(stats.errors, 1);
    assert_eq!(stats.tls_connections, 1);
    assert_eq!(stats.http_connections, 1);
    assert_eq!(stats.bypass_applied, 1);
    assert_eq!(stats.bytes_sent, 15);
    assert_eq!(stats.bytes_received, 7);
    assert_eq!(stats.dns_queries, 1);
    stats.connection_closed(false);
    assert_eq!((stats.connections_active, stats.errors), (0, 1));
}

#[test]
fn backend_errors_describe_themselves() {
    assert_eq!(BackendError::AlreadyRunning.describe(), "Backend already running");
    assert_eq!(BackendError::NotRunning.describe(), "Backend not running");
    assert_eq!(
        BackendError::PacketTooLarge { size: 2000, max: 1500 }.describe(),
        "Packet too large: 2000 bytes (max: 1500)"
    );
    assert_eq!(
        BackendError::Engine(EngineError::NotRunning).describe(),
        "Engine error: Engine not running"
    );
    assert_eq!(
        BackendError::BindFailed("in use".to_string()).describe(),
        "Failed to bind to address: in use"
    );
    assert_eq!(
        BackendError::NotSupported("x".to_string()).describe(),
        "Backend not supported on this platform: x"
    );
    assert_eq!(BackendError::Timeout.describe(), "Timeout waiting for operation");
    assert_eq!(BackendError::Shutdown.describe(), "Shutdown requested");
    assert_eq!(BackendError::Io("x".to_string()).describe(), "IO error: x");
    assert_eq!(BackendError::QueueFull("rx".to_string()).describe(), "Queue full: rx");
    assert_eq!(
        BackendError::PermissionDenied("root".to_string()).describe(),
        "Permission denied: root"
    );
    assert_eq!(
        BackendError::TunCreationFailed("x".to_string()).describe(),
        "Failed to create TUN device: x"
    );
    assert_eq!(
        BackendError::NetworkConfig("x".to_string()).describe(),
        "Failed to configure network: x"
    );
    assert_eq!(BackendError::Connection("x".to_string()).describe(), "Connection error: x");
    assert_eq!(BackendError::InvalidPacket("x".to_string()).describe(), "Invalid packet: x");
}
