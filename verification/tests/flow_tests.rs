use turkeydpi::config::{Limits, Protocol};
use turkeydpi::flow::{FlowCache, FlowContext, FlowKey, FlowState};
use turkeydpi::net::IpAddress;

fn key(port: u16) -> FlowKey {
    FlowKey::new(
        IpAddress::v4(192, 168, 1, 1),
        IpAddress::v4(8, 8, 8, 8),
        port,
        443,
        Protocol::Tcp,
    )
}

fn limits(max_flows: usize, timeout: u64) -> Limits {
    let mut limits = Limits::default();
    limits.max_flows = max_flows;
    limits.flow_timeout_secs = timeout;
    limits
}

#[test]
fn reverse_swaps_the_ends_and_twice_gives_the_key_back() {
    let k = FlowKey::new(
        IpAddress::v4(10, 0, 0, 1),
        IpAddress::V6(77),
        1234,
        443,
        Protocol::Udp,
    );
    let r = k.reverse();
    assert_eq!(r.src_ip, IpAddress::V6(77));
    assert_eq!(r.dst_ip, IpAddress::v4(10, 0, 0, 1));
    assert_eq!(r.src_port, 443);
    assert_eq!(r.dst_port, 1234);
    assert_eq!(r.protocol, Protocol::Udp);
    assert_eq!(r.reverse(), k);
    assert_ne!(r, k);
}

#[test]
fn keys_differ_when_any_field_differs() {
    let a = key(1);
    let mut b = a;
    assert_eq!(a, b);
    b.protocol = Protocol::Udp;
    assert_ne!(a, b);
    let mut c = a;
    c.dst_ip = IpAddress::V6(0x0808_0808);
    assert_ne!(a, c);
}

#[test]
fn new_state_is_empty_and_update_counts() {
    let mut state = FlowState::new(key(1));
    assert_eq!(state.packet_count, 0);
    assert_eq!(state.bytes, 0);
    assert_eq!(state.first_seen, 0);
    assert_eq!(state.matched_rule, None);
    state.update(100, 5);
    state.update(50, 9);
    assert_eq!(state.packet_count, 2);
    assert_eq!(state.bytes, 150);
    assert_eq!(state.first_seen, 0);
    assert_eq!(state.last_seen, 9);
    assert!(!state.is_expired(9, 0));
    assert!(state.is_expired(10, 0));
    assert!(!state.is_expired(19, 10));
    assert!(state.is_expired(20, 10));
    assert!(!state.is_expired(3, 0));
    let seen = FlowState::first_seen_at(key(2), 77);
    assert_eq!((seen.first_seen, seen.last_seen), (77, 77));
}

#[test]
fn context_collects_what_transforms_ask_for() {
    let k = key(1);
    let mut state = FlowState::new(k);
    let mut ctx = FlowContext::new(&k, &mut state, None);
    assert!(ctx.output_packets.is_empty());
    assert_eq!(ctx.delay, None);
    assert!(!ctx.drop);
    ctx.emit(bytes::BytesMut::from(&b"one"[..]));
    ctx.emit(bytes::BytesMut::from(&b"two"[..]));
    ctx.request_delay(5);
    ctx.request_delay(7);
    ctx.mark_drop();
    assert_eq!(ctx.output_packets.len(), 2);
    assert_eq!(&ctx.output_packets[1][..], b"two");
    assert_eq!(ctx.delay, Some(7));
    assert!(ctx.drop);
    ctx.state.update(3, 1);
    assert_eq!(state.packet_count, 1);
}

#[test]
fn cache_never_holds_more_than_its_limit() {
    let mut cache = FlowCache::new(&limits(3, 100));
    assert!(cache.is_empty());
    for port in 0..50u16 {
        let state = cache.get_or_create(key(port), port as u64);
        assert_eq!(state.packet_count, 0);
        assert!(cache.len() <= 3);
        assert!(cache.stats().size <= 3);
    }
    assert_eq!(cache.len(), 3);
    assert_eq!(cache.stats().max_flows, 3);
    // The three flows seen last stay.
    for port in 47..50u16 {
        let mut state = cache.get_or_create(key(port), 60);
        assert_eq!(state.first_seen, port as u64);
        state.update(1, 60);
        cache.update(state);
        assert_eq!(cache.len(), 3);
    }
    assert_eq!(cache.get_or_create(key(0), 70).first_seen, 70);
}

#[test]
fn cache_of_no_capacity_stays_empty() {
    let mut cache = FlowCache::new(&limits(0, 100));
    let mut state = cache.get_or_create(key(1), 1);
    state.update(10, 1);
    cache.update(state);
    assert!(cache.is_empty());
    assert_eq!(cache.get_or_create(key(1), 2).packet_count, 0);
}

#[test]
fn cache_returns_what_was_written_back_last() {
    let mut cache = FlowCache::new(&limits(10, 100));
    let mut state = cache.get_or_create(key(1), 1);
    assert_eq!(cache.len(), 1);
    state.update(10, 2);
    state.matched_rule = Some("r".to_string());
    cache.update(state);
    let mut again = cache.get_or_create(key(1), 3);
    assert_eq!(again.packet_count, 1);
    assert_eq!(again.bytes, 10);
    assert_eq!(again.first_seen, 1);
    assert_eq!(again.matched_rule.as_deref(), Some("r"));
    again.update(5, 4);
    cache.update(again);
    assert_eq!(cache.get_or_create(key(1), 5).bytes, 15);
    assert_eq!(cache.len(), 1);
    let other = cache.get_or_create(key(2), 5);
    assert_eq!(other.packet_count, 0);
    assert_eq!(cache.len(), 2);
}

#[test]
fn eviction_takes_the_flow_seen_longest_ago() {
    let mut cache = FlowCache::new(&limits(2, 100));
    let mut a = cache.get_or_create(key(1), 10);
    let _b = cache.get_or_create(key(2), 20);
    a.update(1, 30);
    cache.update(a);
    // Flow 2 was last seen at 20, flow 1 at 30.
    let _c = cache.get_or_create(key(3), 40);
    assert_eq!(cache.len(), 2);
    assert_eq!(cache.get_or_create(key(1), 50).packet_count, 1);
    assert_eq!(cache.len(), 2);
    // Flow 2 is gone: asking for it makes it anew.
    assert_eq!(cache.get_or_create(key(2), 60).first_seen, 60);
}

#[test]
fn cleanup_gives_up_expired_flows_only() {
    let mut cache = FlowCache::new(&limits(10, 30));
    for port in 0..5u16 {
        cache.get_or_create(key(port), 10 * port as u64);
    }
    // Last seen at 0, 10, 20, 30, 40; at 51 those before 21 are older than 30.
    assert_eq!(cache.cleanup(40), 1);
    assert_eq!(cache.len(), 4);
    assert_eq!(cache.cleanup(51), 2);
    assert_eq!(cache.len(), 2);
    assert_eq!(cache.cleanup(51), 0);
    assert_eq!(cache.get_or_create(key(3), 52).first_seen, 30);
    assert_eq!(cache.get_or_create(key(4), 52).first_seen, 40);
    assert_eq!(cache.cleanup(1000), 2);
    assert!(cache.is_empty());
    assert_eq!(cache.cleanup(0), 0);
}
