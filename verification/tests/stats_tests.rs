use turkeydpi::stats::Stats;

#[test]
fn test_stats_recording() {
    let mut stats = Stats::new();

    stats.record_packet_in(100);
    stats.record_packet_in(200);
    stats.record_packet_out(50);
    stats.record_packet_out(50);
    stats.record_packet_out(50);

    let snapshot = stats.snapshot();
    assert_eq!(snapshot.packets_in, 2);
    assert_eq!(snapshot.packets_out, 3);
    assert_eq!(snapshot.bytes_in, 300);
    assert_eq!(snapshot.bytes_out, 150);
}

#[test]
fn test_stats_flow_tracking() {
    let mut stats = Stats::new();

    stats.record_flow_created();
    stats.record_flow_created();
    stats.record_flow_created();
    stats.record_flow_evicted();

    let snapshot = stats.snapshot();
    assert_eq!(snapshot.flows_created, 3);
    assert_eq!(snapshot.active_flows, 2);
    assert_eq!(snapshot.flows_evicted, 1);
}

#[test]
fn test_stats_reset() {
    let mut stats = Stats::new();

    stats.record_packet_in(100);
    stats.record_flow_created();
    stats.record_fragments(10);

    stats.reset();

    let snapshot = stats.snapshot();
    assert_eq!(snapshot.packets_in, 0);
    assert_eq!(snapshot.flows_created, 0);
    assert_eq!(snapshot.fragments_generated, 0);
}

#[test]
fn every_counter_counts_its_own_event() {
    let mut stats = Stats::default();
    stats.record_drop();
    stats.record_match();
    stats.record_match();
    stats.record_transform();
    stats.record_transform_error();
    stats.record_queue_overflow();
    stats.record_fragments(7);
    stats.record_jitter(40);
    stats.record_jitter(2);
    stats.record_decoys(3);
    stats.set_active_flows(9);
    let s = stats.snapshot();
    assert_eq!(s.packets_dropped, 1);
    assert_eq!(s.packets_matched, 2);
    assert_eq!(s.packets_transformed, 1);
    assert_eq!(s.transform_errors, 1);
    assert_eq!(s.queue_overflows, 1);
    assert_eq!(s.fragments_generated, 7);
    assert_eq!(s.total_jitter_ms, 42);
    assert_eq!(s.decoys_sent, 3);
    assert_eq!(s.active_flows, 9);
    assert_eq!(s.packets_in, 0);
}

#[test]
fn counters_wrap_around() {
    let mut stats = Stats::new();
    stats.total_jitter_ms = u64::MAX;
    stats.record_jitter(2);
    assert_eq!(stats.total_jitter_ms, 1);
    stats.record_flow_evicted();
    assert_eq!(stats.active_flows, u64::MAX);
    assert_eq!(stats.flows_evicted, 1);
}

#[test]
fn a_hundred_packets_accumulate() {
    let mut stats = Stats::new();
    for _ in 0..100 {
        stats.record_packet_in(13);
    }
    assert_eq!(stats.packets_in, 100);
    assert_eq!(stats.bytes_in, 1300);
}
