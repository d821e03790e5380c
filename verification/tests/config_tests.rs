use std::collections::HashMap;
use turkeydpi::config::{
    Config, DecoyParams, FragmentParams, GlobalConfig, HeaderParams, JitterParams, Limits,
    MatchCriteria, PaddingParams, Protocol, ResegmentParams, Rule, TransformParams, TransformType,
};
use turkeydpi::error::EngineError;
use turkeydpi::net::{IpAddress, IpNetwork};

fn fault_of(config: &Config) -> (String, String) {
    match config.validate() {
        Err(EngineError::ConfigValidation { field, message }) => (field, message),
        other => panic!("expected a validation error, got {:?}", other),
    }
}

fn rule(name: &str, transforms: Vec<TransformType>) -> Rule {
    Rule {
        name: name.to_string(),
        enabled: true,
        priority: 0,
        match_criteria: MatchCriteria::default(),
        transforms,
        overrides: HashMap::new(),
    }
}

#[test]
fn test_default_config_is_valid() {
    let config = Config::default();
    assert!(config.validate().is_ok());
}

#[test]
fn test_invalid_max_flows() {
    let mut config = Config::default();
    config.limits.max_flows = 0;
    assert!(config.validate().is_err());
}

#[test]
fn test_invalid_fragment_sizes() {
    let mut config = Config::default();
    config.transforms.fragment.max_size = 0;
    config.transforms.fragment.min_size = 10;
    assert!(config.validate().is_err());
}

#[test]
fn test_jitter_exceeds_limit() {
    let mut config = Config::default();
    config.transforms.jitter.max_ms = 1000;
    config.limits.max_jitter_ms = 500;
    assert!(config.validate().is_err());
}

#[test]
fn test_valid_rule() {
    let rule = Rule {
        name: "test-rule".to_string(),
        enabled: true,
        priority: 10,
        match_criteria: MatchCriteria {
            dst_ports: Some(vec![443]),
            protocols: Some(vec![Protocol::Tcp]),
            ..Default::default()
        },
        transforms: vec![TransformType::Fragment, TransformType::Padding],
        overrides: HashMap::new(),
    };
    assert!(rule.validate().is_ok());
}

#[test]
fn defaults_are_as_documented() {
    let g = GlobalConfig::default();
    assert!(g.enabled && g.enable_fragmentation && !g.enable_jitter && g.enable_padding);
    assert!(g.enable_header_normalization && !g.json_logging);
    assert_eq!(g.log_level, "info");
    let l = Limits::default();
    assert_eq!(
        (l.max_flows, l.max_queue_size, l.max_memory_mb, l.max_jitter_ms, l.flow_timeout_secs),
        (10_000, 1_000, 128, 500, 120)
    );
    assert_eq!(l.log_rate_limit, 100);
    let f = FragmentParams::default();
    assert_eq!((f.min_size, f.max_size, f.split_at_offset, f.randomize), (1, 40, None, true));
    let r = ResegmentParams::default();
    assert_eq!((r.segment_size, r.max_segments), (16, 8));
    let p = PaddingParams::default();
    assert_eq!((p.min_bytes, p.max_bytes, p.fill_byte), (0, 64, None));
    let j = JitterParams::default();
    assert_eq!((j.min_ms, j.max_ms), (0, 50));
    assert_eq!(j.as_duration_range(), (0, 50));
    let h = HeaderParams::default();
    assert_eq!(
        (h.normalize_ttl, h.ttl_value, h.normalize_window, h.randomize_ip_id),
        (false, 64, false, true)
    );
    let d = DecoyParams::default();
    assert_eq!((d.send_before, d.send_after, d.ttl, d.probability_permille), (false, false, 1, 0));
    let t = TransformParams::default();
    assert_eq!(t.fragment.max_size, 40);
    assert!(Config::default().rules.is_empty());
}

#[test]
fn validation_names_the_first_broken_rule_of_each_kind() {
    let mut c = Config::default();
    c.limits.max_flows = 0;
    c.limits.max_queue_size = 0;
    assert_eq!(fault_of(&c), ("limits.max_flows".to_string(), "must be > 0".to_string()));

    let mut c = Config::default();
    c.limits.max_queue_size = 0;
    c.limits.max_memory_mb = 0;
    assert_eq!(fault_of(&c), ("limits.max_queue_size".to_string(), "must be > 0".to_string()));

    let mut c = Config::default();
    c.limits.max_memory_mb = 0;
    assert_eq!(fault_of(&c), ("limits.max_memory_mb".to_string(), "must be > 0".to_string()));

    let mut c = Config::default();
    c.transforms.fragment.min_size = 0;
    assert_eq!(
        fault_of(&c),
        ("transforms.fragment.min_size".to_string(), "must be > 0".to_string())
    );

    let mut c = Config::default();
    c.transforms.fragment.min_size = 41;
    assert_eq!(
        fault_of(&c),
        ("transforms.fragment.max_size".to_string(), "must be >= min_size".to_string())
    );

    let mut c = Config::default();
    c.transforms.jitter.max_ms = 501;
    assert_eq!(
        fault_of(&c),
        ("transforms.jitter.max_ms".to_string(), "exceeds safety limit of 500ms".to_string())
    );

    let mut c = Config::default();
    c.transforms.padding.max_bytes = 1501;
    assert_eq!(
        fault_of(&c),
        ("transforms.padding.max_bytes".to_string(), "exceeds MTU (1500 bytes)".to_string())
    );
}

#[test]
fn validation_accepts_the_limits_themselves() {
    let mut c = Config::default();
    c.transforms.jitter.max_ms = 500;
    c.transforms.padding.max_bytes = 1500;
    c.transforms.fragment.min_size = 40;
    c.limits.max_flows = 1;
    assert!(c.validate().is_ok());
}

#[test]
fn validation_names_the_faulty_rule_by_its_place() {
    let mut c = Config::default();
    c.rules.push(rule("fine", vec![TransformType::Padding]));
    c.rules.push(rule("", vec![TransformType::Padding]));
    c.rules.push(rule("also-broken", vec![]));
    assert_eq!(
        fault_of(&c),
        (
            "rules[1]".to_string(),
            "Configuration validation failed: cannot be empty".to_string()
        )
    );
    c.rules[1].name = "named".to_string();
    assert_eq!(
        fault_of(&c),
        (
            "rules[2]".to_string(),
            "Configuration validation failed: must specify at least one transform".to_string()
        )
    );
    let mut many = Config::default();
    for i in 0..12 {
        many.rules.push(rule(&format!("r{}", i), vec![TransformType::Jitter]));
    }
    many.rules[11].transforms.clear();
    assert_eq!(fault_of(&many).0, "rules[11]");
}

#[test]
fn rule_validation_reports_each_fault() {
    let unnamed = rule("", vec![]);
    match unnamed.validate() {
        Err(EngineError::ConfigValidation { field, message }) => {
            assert_eq!(field, "name");
            assert_eq!(message, "cannot be empty");
        }
        other => panic!("unexpected {:?}", other),
    }
    let idle = rule("idle", vec![]);
    match idle.validate() {
        Err(EngineError::ConfigValidation { field, message }) => {
            assert_eq!(field, "transforms");
            assert_eq!(message, "must specify at least one transform");
        }
        other => panic!("unexpected {:?}", other),
    }
    let mut wide = rule("wide", vec![TransformType::Padding]);
    wide.match_criteria.src_ip = Some(vec![
        IpNetwork::new(IpAddress::v4(10, 0, 0, 0), 8),
        IpNetwork::new(IpAddress::V6(1), 129),
    ]);
    match wide.validate() {
        Err(EngineError::ConfigValidation { field, message }) => {
            assert_eq!(field, "src_ip");
            assert_eq!(message, "invalid IP/CIDR: prefix length 129");
        }
        other => panic!("unexpected {:?}", other),
    }
    wide.match_criteria.dst_ip = Some(vec![IpNetwork::new(IpAddress::v4(10, 0, 0, 0), 33)]);
    match wide.match_criteria.validate() {
        Err(EngineError::ConfigValidation { field, message }) => {
            assert_eq!(field, "dst_ip");
            assert_eq!(message, "invalid IP/CIDR: prefix length 33");
        }
        other => panic!("unexpected {:?}", other),
    }
    wide.match_criteria.dst_ip = Some(vec![IpNetwork::new(IpAddress::v4(10, 0, 0, 0), 32)]);
    wide.match_criteria.src_ip = Some(vec![IpNetwork::new(IpAddress::V6(1), 128)]);
    assert!(wide.validate().is_ok());
}

#[test]
fn catch_all_means_no_criterion_is_set() {
    let mut criteria = MatchCriteria::default();
    assert!(criteria.is_catch_all());
    criteria.process = Some("curl".to_string());
    assert!(!criteria.is_catch_all());
    let mut criteria = MatchCriteria::default();
    criteria.domains = Some(vec![]);
    assert!(!criteria.is_catch_all());
    let mut criteria = MatchCriteria::default();
    criteria.dst_ports = Some(vec![80]);
    assert!(!criteria.is_catch_all());
}

#[test]
fn merge_keeps_rules_when_none_come() {
    let mut held = Config::default();
    held.rules.push(rule("kept", vec![TransformType::Padding]));
    let mut other = Config::default();
    other.limits.max_flows = 7;
    other.global.enabled = false;
    other.transforms.padding.max_bytes = 9;
    held.merge(other);
    assert_eq!(held.rules.len(), 1);
    assert_eq!(held.rules[0].name, "kept");
    assert_eq!(held.limits.max_flows, 7);
    assert!(!held.global.enabled);
    assert_eq!(held.transforms.padding.max_bytes, 9);
    let mut other = Config::default();
    other.rules.push(rule("new", vec![TransformType::Jitter]));
    other.rules.push(rule("newer", vec![TransformType::Jitter]));
    held.merge(other);
    assert_eq!(held.rules.len(), 2);
    assert_eq!(held.rules[0].name, "new");
}

#[test]
fn example_config_is_valid_and_has_two_rules() {
    let config = Config::example();
    assert!(config.validate().is_ok());
    assert_eq!(config.rules.len(), 2);
    assert_eq!(config.rules[0].name, "https-evasion");
    assert_eq!(config.rules[0].priority, 100);
    assert_eq!(config.rules[0].match_criteria.dst_ports, Some(vec![443]));
    assert_eq!(
        config.rules[0].transforms,
        vec![TransformType::Fragment, TransformType::Padding]
    );
    assert_eq!(config.rules[1].name, "dns-protection");
    assert_eq!(config.rules[1].match_criteria.protocols, Some(vec![Protocol::Udp]));
    assert_eq!(config.rules[1].match_criteria.dst_ports, Some(vec![53]));
}

#[test]
fn errors_describe_themselves() {
    assert_eq!(
        EngineError::validation("limits.max_flows", "must be > 0").describe(),
        "Configuration validation failed: must be > 0"
    );
    assert_eq!(
        EngineError::transform("padding", "no room").describe(),
        "Transform error in 'padding': no room"
    );
    assert_eq!(EngineError::Config("bad".to_string()).describe(), "Configuration error: bad");
    assert_eq!(
        EngineError::FlowLimitExceeded { max: 10000, current: 10001 }.describe(),
        "Flow limit exceeded: max 10000 flows, current 10001"
    );
    assert_eq!(
        EngineError::QueueFull { queue_name: "rx".to_string(), max_size: 0 }.describe(),
        "Queue full: rx (max size: 0)"
    );
    assert_eq!(EngineError::InvalidPacket("x".to_string()).describe(), "Invalid packet: x");
    assert_eq!(EngineError::Pipeline("x".to_string()).describe(), "Pipeline error: x");
    assert_eq!(
        EngineError::InvalidIpAddr("1.2.3.4".to_string()).describe(),
        "Invalid IP address: 1.2.3.4"
    );
    assert_eq!(EngineError::Io("gone".to_string()).describe(), "IO error: gone");
    assert_eq!(
        EngineError::Serialization("eof".to_string()).describe(),
        "Serialization error: eof"
    );
    assert_eq!(EngineError::TomlParse("eof".to_string()).describe(), "TOML parse error: eof");
    assert_eq!(EngineError::NotRunning.describe(), "Engine not running");
    assert_eq!(EngineError::AlreadyRunning.describe(), "Engine already running");
    assert_eq!(EngineError::Shutdown.describe(), "Shutdown requested");
}

#[test]
fn decimal_text_is_exact() {
    assert_eq!(turkeydpi::text::to_decimal(0), "0");
    assert_eq!(turkeydpi::text::to_decimal(7), "7");
    assert_eq!(turkeydpi::text::to_decimal(10), "10");
    assert_eq!(turkeydpi::text::to_decimal(1500), "1500");
    assert_eq!(turkeydpi::text::to_decimal(u64::MAX), "18446744073709551615");
    assert_eq!(turkeydpi::text::concat("ab", "cd"), "abcd");
}

#[test]
fn networks_cover_their_addresses() {
    let net = IpNetwork::new(IpAddress::v4(8, 8, 8, 0), 24);
    assert!(net.is_valid());
    assert!(net.contains(&IpAddress::v4(8, 8, 8, 8)));
    assert!(net.contains(&IpAddress::v4(8, 8, 8, 255)));
    assert!(!net.contains(&IpAddress::v4(8, 8, 9, 0)));
    assert!(!net.contains(&IpAddress::v4(1, 1, 1, 1)));
    assert!(!net.contains(&IpAddress::V6(0x0808_0808)));
    let all = IpNetwork::new(IpAddress::v4(1, 2, 3, 4), 0);
    assert!(all.contains(&IpAddress::v4(200, 1, 1, 1)));
    let one = IpNetwork::host(IpAddress::v4(1, 2, 3, 4));
    assert_eq!(one.prefix_len, 32);
    assert!(one.contains(&IpAddress::v4(1, 2, 3, 4)));
    assert!(!one.contains(&IpAddress::v4(1, 2, 3, 5)));
    let private = IpNetwork::new(IpAddress::v4(172, 16, 0, 0), 12);
    assert!(private.contains(&IpAddress::v4(172, 31, 255, 255)));
    assert!(!private.contains(&IpAddress::v4(172, 32, 0, 0)));
    let v6 = IpNetwork::new(IpAddress::V6(0x2001_0db8 << 96), 32);
    assert!(v6.contains(&IpAddress::V6((0x2001_0db8 << 96) | 1)));
    assert!(!v6.contains(&IpAddress::V6(0x2001_0db9 << 96)));
    assert!(!v6.contains(&IpAddress::v4(32, 1, 13, 184)));
    assert_eq!(IpNetwork::host(IpAddress::V6(5)).prefix_len, 128);
    assert!(!IpNetwork::new(IpAddress::v4(0, 0, 0, 0), 33).is_valid());
    assert_eq!(IpAddress::v4(192, 168, 1, 1), IpAddress::V4(0xc0a8_0101));
    assert!(IpAddress::v4(0, 0, 0, 0).is_ipv4());
    assert!(!IpAddress::V6(0).is_ipv4());
    assert_ne!(IpAddress::V4(1), IpAddress::V6(1));
}

#[test]
fn ranges_are_read_from_cidr_notation() {
    assert_eq!(
        IpNetwork::parse("8.8.8.0/24"),
        Some(IpNetwork::new(IpAddress::v4(8, 8, 8, 0), 24))
    );
    assert_eq!(
        IpNetwork::parse("192.168.1.77/16"),
        Some(IpNetwork::new(IpAddress::v4(192, 168, 1, 77), 16))
    );
    assert_eq!(IpNetwork::parse("0.0.0.0/0"), Some(IpNetwork::new(IpAddress::v4(0, 0, 0, 0), 0)));
    assert_eq!(
        IpNetwork::parse("2001:db8::/32"),
        Some(IpNetwork::new(IpAddress::V6(0x2001_0db8 << 96), 32))
    );
    assert_eq!(IpNetwork::parse("::1/128"), Some(IpNetwork::new(IpAddress::V6(1), 128)));
    for bad in ["", "8.8.8.8", "8.8.8.0/33", "8.8.8/24", "::1/129", "example.com/8", "1.2.3.4/ 8"] {
        assert_eq!(IpNetwork::parse(bad), None, "{}", bad);
    }
    let net = IpNetwork::parse("10.0.0.0/8").unwrap();
    assert!(net.is_valid());
    assert!(net.contains(&IpAddress::v4(10, 200, 3, 4)));
    assert!(!net.contains(&IpAddress::v4(11, 0, 0, 0)));
}
