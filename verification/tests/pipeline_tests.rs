use bytes::BytesMut;
use std::collections::HashMap;
use turkeydpi::config::{Config, MatchCriteria, Protocol, Rule, TransformType};
use turkeydpi::error::EngineError;
use turkeydpi::flow::FlowKey;
use turkeydpi::net::{IpAddress, IpNetwork};
use turkeydpi::pipeline::{Pipeline, PipelineOutput};
use turkeydpi::stats::Stats;

fn test_config() -> Config {
    let mut config = Config::default();
    config.rules.push(Rule {
        name: "test-https".to_string(),
        enabled: true,
        priority: 10,
        match_criteria: MatchCriteria {
            dst_ports: Some(vec![443]),
            protocols: Some(vec![Protocol::Tcp]),
            ..Default::default()
        },
        transforms: vec![TransformType::Fragment, TransformType::Padding],
        overrides: HashMap::new(),
    });
    config
}

fn test_flow_key(dst_port: u16) -> FlowKey {
    FlowKey::new(
        IpAddress::v4(192, 168, 1, 1),
        IpAddress::v4(8, 8, 8, 8),
        12345,
        dst_port,
        Protocol::Tcp,
    )
}

fn simple_rule(name: &str, priority: i32, transforms: Vec<TransformType>) -> Rule {
    Rule {
        name: name.to_string(),
        enabled: true,
        priority,
        match_criteria: MatchCriteria::default(),
        transforms,
        overrides: HashMap::new(),
    }
}

#[test]
fn test_pipeline_creation() {
    let config = test_config();
    let stats = Stats::new();
    let pipeline = Pipeline::new(config, stats);
    assert!(pipeline.is_ok());
}

#[test]
fn test_pipeline_rule_matching() {
    let config = test_config();
    let stats = Stats::new();
    let pipeline = Pipeline::new(config, stats).unwrap();

    let key_443 = test_flow_key(443);
    let rule = pipeline.find_matching_rule(&key_443);
    assert!(rule.is_some());
    assert_eq!(rule.unwrap().name, "test-https");

    let key_80 = test_flow_key(80);
    let rule = pipeline.find_matching_rule(&key_80);
    assert!(rule.is_none());
}

#[test]
fn test_pipeline_passthrough() {
    let mut config = Config::default();
    config.global.enabled = true;

    let stats = Stats::new();
    let mut pipeline = Pipeline::new(config, stats).unwrap();

    let key = test_flow_key(80);
    let data = BytesMut::from(&b"test data"[..]);

    let output = pipeline.process(key, data.clone(), 0).unwrap();

    assert!(!output.dropped);
    assert!(output.primary.is_some());
    assert_eq!(output.primary.unwrap(), data);
    assert!(output.additional.is_empty());
}

#[test]
fn test_pipeline_disabled() {
    let mut config = Config::default();
    config.global.enabled = false;

    let stats = Stats::new();
    let mut pipeline = Pipeline::new(config, stats).unwrap();

    let key = test_flow_key(443);
    let data = BytesMut::from(&b"test data"[..]);

    let output = pipeline.process(key, data.clone(), 0).unwrap();

    assert!(!output.dropped);
    assert!(output.primary.is_some());
    assert_eq!(output.primary.unwrap(), data);
}

#[test]
fn test_pipeline_transform_application() {
    let config = test_config();
    let stats = Stats::new();
    let mut pipeline = Pipeline::new(config, stats).unwrap();

    let key = test_flow_key(443);
    let data = BytesMut::from(&b"This is a longer test message for fragmentation testing"[..]);
    let original_len = data.len();

    let output = pipeline.process(key, data, 0).unwrap();

    assert!(!output.dropped);
    assert!(output.matched_rule.is_some());

    let total_len: usize = output.all_packets().iter().map(|p| p.len()).sum();
    assert!(total_len >= original_len);
}

#[test]
fn test_pipeline_stats_tracking() {
    let config = test_config();
    let stats = Stats::new();
    let mut pipeline = Pipeline::new(config, stats).unwrap();

    let key = test_flow_key(443);
    let data = BytesMut::from(&b"test data"[..]);

    let _ = pipeline.process(key, data, 0);

    let snapshot = pipeline.stats().snapshot();
    assert_eq!(snapshot.packets_in, 1);
    assert!(snapshot.packets_out >= 1);
    assert_eq!(snapshot.packets_matched, 1);
}

#[test]
fn pipeline_test_pipeline_config_reload() {
    let config = test_config();
    let stats = Stats::new();
    let mut pipeline = Pipeline::new(config, stats).unwrap();

    let mut new_config = Config::default();
    new_config.rules.push(Rule {
        name: "new-rule".to_string(),
        enabled: true,
        priority: 20,
        match_criteria: MatchCriteria { dst_ports: Some(vec![8080]), ..Default::default() },
        transforms: vec![TransformType::Padding],
        overrides: HashMap::new(),
    });

    assert!(pipeline.reload_config(new_config).is_ok());

    let key = FlowKey::new(
        IpAddress::v4(192, 168, 1, 1),
        IpAddress::v4(10, 0, 0, 1),
        12345,
        8080,
        Protocol::Tcp,
    );
    let rule = pipeline.find_matching_rule(&key);
    assert!(rule.is_some());
    assert_eq!(rule.unwrap().name, "new-rule");
}

#[test]
fn test_rule_priority() {
    let mut config = Config::default();

    config.rules.push(Rule {
        name: "catch-all".to_string(),
        enabled: true,
        priority: 0,
        match_criteria: MatchCriteria::default(),
        transforms: vec![TransformType::Padding],
        overrides: HashMap::new(),
    });

    config.rules.push(Rule {
        name: "specific".to_string(),
        enabled: true,
        priority: 100,
        match_criteria: MatchCriteria { dst_ports: Some(vec![443]), ..Default::default() },
        transforms: vec![TransformType::Fragment],
        overrides: HashMap::new(),
    });

    let stats = Stats::new();
    let pipeline = Pipeline::new(config, stats).unwrap();

    let key = test_flow_key(443);
    let rule = pipeline.find_matching_rule(&key);
    assert!(rule.is_some());
    assert_eq!(rule.unwrap().name, "specific");
}

#[test]
fn test_ip_matching() {
    let mut config = Config::default();
    config.rules.push(Rule {
        name: "google-dns".to_string(),
        enabled: true,
        priority: 10,
        match_criteria: MatchCriteria {
            dst_ip: Some(vec![IpNetwork::parse("8.8.8.0/24").unwrap()]),
            ..Default::default()
        },
        transforms: vec![TransformType::Padding],
        overrides: HashMap::new(),
    });

    let stats = Stats::new();
    let pipeline = Pipeline::new(config, stats).unwrap();

    let key1 = FlowKey::new(
        IpAddress::v4(192, 168, 1, 1),
        IpAddress::v4(8, 8, 8, 8),
        12345,
        53,
        Protocol::Udp,
    );
    assert!(pipeline.find_matching_rule(&key1).is_some());

    let key2 = FlowKey::new(
        IpAddress::v4(192, 168, 1, 1),
        IpAddress::v4(1, 1, 1, 1),
        12345,
        53,
        Protocol::Udp,
    );
    assert!(pipeline.find_matching_rule(&key2).is_none());
}

#[test]
fn priority_decides_and_declaration_breaks_ties() {
    let mut config = Config::default();
    config.rules.push(simple_rule("low", -5, vec![TransformType::Padding]));
    config.rules.push(simple_rule("first-high", 7, vec![TransformType::Padding]));
    config.rules.push(simple_rule("second-high", 7, vec![TransformType::Padding]));
    let mut port = simple_rule("port", 9, vec![TransformType::Padding]);
    port.match_criteria.src_ports = Some(vec![1, 2, 3]);
    config.rules.push(port);
    let mut off = simple_rule("off", 1000, vec![TransformType::Padding]);
    off.enabled = false;
    config.rules.push(off);
    let mut pipeline = Pipeline::new(config, Stats::new()).unwrap();
    let mut key = test_flow_key(443);
    assert_eq!(pipeline.find_matching_rule(&key).unwrap().name, "first-high");
    key.src_port = 2;
    assert_eq!(pipeline.find_matching_rule(&key).unwrap().name, "port");
    let mut only_low = Config::default();
    only_low.rules.push(simple_rule("low", i32::MIN, vec![TransformType::Padding]));
    only_low.rules.push(simple_rule("high", i32::MAX, vec![TransformType::Padding]));
    pipeline.reload_config(only_low).unwrap();
    assert_eq!(pipeline.find_matching_rule(&key).unwrap().name, "high");
}

#[test]
fn criteria_are_all_required_and_empty_address_lists_admit_everyone() {
    let mut config = Config::default();
    let mut rule = simple_rule("narrow", 1, vec![TransformType::Padding]);
    rule.match_criteria = MatchCriteria {
        dst_ip: Some(vec![]),
        src_ip: Some(vec![
            IpNetwork::new(IpAddress::v4(10, 0, 0, 0), 8),
            IpNetwork::new(IpAddress::v4(192, 168, 0, 0), 16),
        ]),
        dst_ports: Some(vec![80, 443]),
        src_ports: None,
        protocols: Some(vec![Protocol::Tcp, Protocol::Udp]),
        domains: Some(vec!["ignored".to_string()]),
        process: Some("ignored".to_string()),
    };
    config.rules.push(rule);
    let pipeline = Pipeline::new(config, Stats::new()).unwrap();
    let key = test_flow_key(443);
    assert!(pipeline.find_matching_rule(&key).is_some());
    let mut other = key;
    other.dst_port = 8080;
    assert!(pipeline.find_matching_rule(&other).is_none());
    let mut other = key;
    other.protocol = Protocol::Icmp;
    assert!(pipeline.find_matching_rule(&other).is_none());
    let mut other = key;
    other.src_ip = IpAddress::v4(172, 16, 0, 1);
    assert!(pipeline.find_matching_rule(&other).is_none());
    let mut other = key;
    other.dst_ip = IpAddress::V6(9);
    other.src_ip = IpAddress::v4(10, 255, 0, 1);
    assert!(pipeline.find_matching_rule(&other).is_some());
}

#[test]
fn invalid_config_builds_no_pipeline_and_reloads_nothing() {
    let mut broken = test_config();
    broken.limits.max_flows = 0;
    match Pipeline::new(broken, Stats::new()) {
        Err(EngineError::ConfigValidation { field, message }) => {
            assert_eq!(field, "limits.max_flows");
            assert_eq!(message, "must be > 0");
        }
        _ => panic!("an invalid configuration was taken"),
    }
    let mut pipeline = Pipeline::new(test_config(), Stats::new()).unwrap();
    pipeline.process(test_flow_key(443), BytesMut::from(&b"abc"[..]), 1).unwrap();
    let before = pipeline.stats().snapshot();
    let mut broken = Config::default();
    broken.rules.push(simple_rule("", 1, vec![TransformType::Padding]));
    match pipeline.reload_config(broken) {
        Err(EngineError::ConfigValidation { field, .. }) => assert_eq!(field, "rules[0]"),
        _ => panic!("an invalid configuration was installed"),
    }
    assert_eq!(pipeline.config().rules.len(), 1);
    assert_eq!(pipeline.config().rules[0].name, "test-https");
    assert_eq!(pipeline.find_matching_rule(&test_flow_key(443)).unwrap().name, "test-https");
    assert_eq!(pipeline.stats().snapshot(), before);
    assert_eq!(pipeline.flow_cache().len(), 1);
}

#[test]
fn process_gives_exact_packets_and_counts() {
    let mut config = Config::default();
    config.transforms.fragment.min_size = 1;
    config.transforms.fragment.max_size = 4;
    config.transforms.fragment.randomize = false;
    config.transforms.padding.min_bytes = 2;
    config.transforms.padding.max_bytes = 2;
    config.transforms.padding.fill_byte = Some(0xee);
    config.transforms.jitter.min_ms = 5;
    config.transforms.jitter.max_ms = 5;
    config.global.enable_jitter = true;
    config.rules.push(simple_rule(
        "all",
        1,
        vec![
            TransformType::Reorder,
            TransformType::Fragment,
            TransformType::Jitter,
            TransformType::Padding,
        ],
    ));
    let mut pipeline = Pipeline::new(config, Stats::new()).unwrap();
    let key = test_flow_key(443);
    let output = pipeline.process(key, BytesMut::from(&b"0123456789"[..]), 7).unwrap();
    assert!(!output.dropped);
    assert_eq!(output.matched_rule.as_deref(), Some("all"));
    assert_eq!(output.delay, Some(5));
    // The padding is appended to the first fragment, which is the packet
    // that the later transforms see.
    assert_eq!(&output.primary.as_ref().unwrap()[..], b"0123\xee\xee");
    assert_eq!(output.additional.len(), 2);
    assert_eq!(&output.additional[0][..], b"4567");
    assert_eq!(&output.additional[1][..], b"89");
    let s = pipeline.stats().snapshot();
    assert_eq!(s.packets_in, 1);
    assert_eq!(s.bytes_in, 10);
    assert_eq!(s.packets_matched, 1);
    assert_eq!(s.flows_created, 1);
    assert_eq!(s.active_flows, 1);
    assert_eq!(s.packets_transformed, 2);
    assert_eq!(s.fragments_generated, 3);
    assert_eq!(s.total_jitter_ms, 5);
    assert_eq!(s.packets_out, 3);
    assert_eq!(s.bytes_out, 12);
    assert_eq!(s.transform_errors, 0);
    assert_eq!(s.packets_dropped, 0);
    let packets = output.all_packets();
    assert_eq!(packets.len(), 3);
    assert_eq!(&packets[0][..], b"0123\xee\xee");
    assert_eq!(&packets[2][..], b"89");

    // The flow remembers the packet as it left, the rule and the time.
    let state = pipeline.flow_cache().len();
    assert_eq!(state, 1);
    let again = pipeline.process(key, BytesMut::from(&b"ab"[..]), 9).unwrap();
    assert_eq!(&again.primary.as_ref().unwrap()[..], b"ab\xee\xee");
    assert!(again.additional.is_empty());
    let s = pipeline.stats().snapshot();
    assert_eq!(s.packets_in, 2);
    assert_eq!(s.flows_created, 1);
    assert_eq!(s.packets_transformed, 3);
    assert_eq!(s.fragments_generated, 3);
    assert_eq!(s.total_jitter_ms, 10);
}

#[test]
fn switched_off_kinds_are_skipped_and_failures_are_counted() {
    let mut config = Config::default();
    config.global.enable_fragmentation = false;
    config.global.enable_padding = true;
    config.transforms.fragment.max_size = 2;
    config.transforms.fragment.randomize = false;
    config.transforms.padding.min_bytes = 9;
    config.transforms.padding.max_bytes = 3;
    config.rules.push(simple_rule(
        "rule",
        1,
        vec![TransformType::Fragment, TransformType::Padding, TransformType::Resegment],
    ));
    let mut pipeline = Pipeline::new(config, Stats::new()).unwrap();
    let data = vec![7u8; 40];
    let output = pipeline.process(test_flow_key(1), BytesMut::from(&data[..]), 0).unwrap();
    // Fragmenting is off, padding fails, resegmenting cuts at sixteen bytes.
    assert_eq!(output.primary.as_ref().unwrap().len(), 16);
    let lengths: Vec<usize> = output.additional.iter().map(|p| p.len()).collect();
    assert_eq!(lengths, vec![16, 8]);
    let s = pipeline.stats().snapshot();
    assert_eq!(s.transform_errors, 1);
    assert_eq!(s.packets_transformed, 1);
    assert_eq!(s.fragments_generated, 3);
    assert_eq!(s.packets_out, 3);
    assert_eq!(s.bytes_out, 40);
}

#[test]
fn unmatched_traffic_is_counted_and_tracked() {
    let mut pipeline = Pipeline::new(test_config(), Stats::new()).unwrap();
    let key = test_flow_key(80);
    for i in 0..3 {
        let output = pipeline.process(key, BytesMut::from(&b"plain"[..]), i).unwrap();
        assert_eq!(output.matched_rule, None);
        assert_eq!(&output.primary.unwrap()[..], b"plain");
    }
    let s = pipeline.stats().snapshot();
    assert_eq!(s.packets_in, 3);
    assert_eq!(s.bytes_in, 15);
    assert_eq!(s.packets_matched, 0);
    assert_eq!(s.packets_out, 0);
    assert_eq!(s.flows_created, 1);
    assert_eq!(pipeline.flow_cache().len(), 1);
}

#[test]
fn disabled_engine_counts_nothing() {
    let mut config = test_config();
    config.global.enabled = false;
    let mut pipeline = Pipeline::new(config, Stats::new()).unwrap();
    pipeline.process(test_flow_key(443), BytesMut::from(&b"x"[..]), 0).unwrap();
    assert_eq!(pipeline.stats().snapshot(), Stats::new().snapshot());
    assert!(pipeline.flow_cache().is_empty());
}

#[test]
fn pipeline_cache_stays_within_its_limit_and_cleanup_counts() {
    let mut config = test_config();
    config.limits.max_flows = 4;
    config.limits.flow_timeout_secs = 10;
    let mut pipeline = Pipeline::new(config, Stats::new()).unwrap();
    for port in 0..20u16 {
        let mut key = test_flow_key(443);
        key.src_port = port;
        pipeline.process(key, BytesMut::from(&b"x"[..]), port as u64).unwrap();
        assert!(pipeline.flow_cache().len() <= 4);
    }
    assert_eq!(pipeline.flow_cache().len(), 4);
    assert_eq!(pipeline.stats().snapshot().flows_created, 20);
    // The flows left were last seen at 16, 17, 18 and 19.
    assert_eq!(pipeline.cleanup(27), 1);
    assert_eq!(pipeline.cleanup(29), 2);
    assert_eq!(pipeline.flow_cache().len(), 1);
    let s = pipeline.stats().snapshot();
    assert_eq!(s.flows_evicted, 3);
    assert_eq!(s.active_flows, 17);
}

#[test]
fn output_constructors_and_packet_order() {
    let dropped = PipelineOutput::dropped();
    assert!(dropped.dropped && dropped.primary.is_none() && dropped.additional.is_empty());
    assert!(dropped.all_packets().is_empty());
    let passed = PipelineOutput::passthrough(BytesMut::from(&b"p"[..]));
    assert!(!passed.dropped && passed.matched_rule.is_none() && passed.delay.is_none());
    let mut output = PipelineOutput::passthrough(BytesMut::from(&b"first"[..]));
    output.additional.push(BytesMut::from(&b"second"[..]));
    output.additional.push(BytesMut::from(&b"third"[..]));
    let packets = output.all_packets();
    let texts: Vec<&[u8]> = packets.iter().map(|p| &p[..]).collect();
    assert_eq!(texts, vec![&b"first"[..], &b"second"[..], &b"third"[..]]);
    let mut headless = PipelineOutput::dropped();
    headless.additional.push(BytesMut::from(&b"only"[..]));
    assert_eq!(headless.all_packets().len(), 1);
}

fn busy_config() -> Config {
    let mut config = Config::default();
    config.transforms.fragment.min_size = 2;
    config.transforms.fragment.max_size = 9;
    config.transforms.fragment.randomize = true;
    config.transforms.padding.min_bytes = 1;
    config.transforms.padding.max_bytes = 16;
    config.transforms.padding.fill_byte = None;
    config.transforms.jitter.min_ms = 1;
    config.transforms.jitter.max_ms = 50;
    config.global.enable_jitter = true;
    config.rules.push(simple_rule(
        "all",
        1,
        vec![
            TransformType::Fragment,
            TransformType::Resegment,
            TransformType::Jitter,
            TransformType::Padding,
            TransformType::HeaderNormalization,
            TransformType::Decoy,
        ],
    ));
    config
}

#[test]
fn pipelines_that_begin_alike_put_out_the_same_at_every_step() {
    let mut first = Pipeline::new(busy_config(), Stats::new()).unwrap();
    let mut second = Pipeline::new(busy_config(), Stats::new()).unwrap();
    let packets: Vec<(u16, Vec<u8>, u64)> = vec![
        (443, b"0123456789abcdefghijklmnopqrstuvwxyz".to_vec(), 1),
        (443, vec![0x16, 0x03, 0x01, 0x00, 0x05, 0x01, 0x00, 0x00, 0x01, 0x00], 2),
        (80, b"GET / HTTP/1.1\r\nHost: example.com\r\n\r\n".to_vec(), 2),
        (443, vec![0x45; 64], 3),
        (53, Vec::new(), 4),
        (80, vec![0xff; 300], 9),
        (443, b"x".to_vec(), 9),
    ];
    let mut changed = false;
    for (port, bytes, now) in packets {
        let key = test_flow_key(port);
        let a = first.process(key, BytesMut::from(&bytes[..]), now).unwrap();
        let b = second.process(key, BytesMut::from(&bytes[..]), now).unwrap();
        assert_eq!(a.primary, b.primary);
        assert_eq!(a.additional, b.additional);
        assert_eq!(a.delay, b.delay);
        assert_eq!(a.dropped, b.dropped);
        assert_eq!(a.matched_rule, b.matched_rule);
        assert_eq!(first.stats().snapshot(), second.stats().snapshot());
        assert_eq!(first.flow_cache().len(), second.flow_cache().len());
        if a.primary.as_ref().map(|p| p.to_vec()) != Some(bytes.clone()) {
            changed = true;
        }
    }
    assert!(changed);
}
