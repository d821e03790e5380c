//! Counters of what the engine has done.
//!
//! A counter that passes the largest `u64` starts again from zero.

use vstd::prelude::*;

verus! {

/// `a + b`, starting again from zero past the largest `u64`.
pub open spec fn wrapping_sum(a: u64, b: u64) -> u64 {
    if a + b > u64::MAX {
        (a + b - 0x1_0000_0000_0000_0000) as u64
    } else {
        (a + b) as u64
    }
}

/// `a - 1`, or the largest `u64` below zero.
pub open spec fn wrapping_pred(a: u64) -> u64 {
    if a == 0 {
        u64::MAX
    } else {
        (a - 1) as u64
    }
}

fn bump(a: u64, b: u64) -> (sum: u64)
    ensures
        sum == wrapping_sum(a, b),
{
    a.wrapping_add(b)
}

fn step_back(a: u64) -> (less: u64)
    ensures
        less == wrapping_pred(a),
{
    a.wrapping_sub(1)
}

#[derive(Debug, Clone, Copy, PartialEq, Eq, Structural)]
pub struct Stats {
    pub packets_in: u64,
    pub packets_out: u64,
    pub bytes_in: u64,
    pub bytes_out: u64,
    pub packets_dropped: u64,
    pub packets_matched: u64,
    pub packets_transformed: u64,
    pub transform_errors: u64,
    pub active_flows: u64,
    pub flows_created: u64,
    pub flows_evicted: u64,
    pub queue_overflows: u64,
    pub fragments_generated: u64,
    pub total_jitter_ms: u64,
    pub decoys_sent: u64,
}

impl Default for Stats {
    fn default() -> (stats: Self)
        ensures
            stats == Stats::zero(),
    {
        Stats::new()
    }
}

impl Stats {
    /// The counters before anything was counted.
    pub open spec fn zero() -> Self {
        Stats {
            packets_in: 0,
            packets_out: 0,
            bytes_in: 0,
            bytes_out: 0,
            packets_dropped: 0,
            packets_matched: 0,
            packets_transformed: 0,
            transform_errors: 0,
            active_flows: 0,
            flows_created: 0,
            flows_evicted: 0,
            queue_overflows: 0,
            fragments_generated: 0,
            total_jitter_ms: 0,
            decoys_sent: 0,
        }
    }

    pub fn new() -> (stats: Self)
        ensures
            stats == Stats::zero(),
    {
        Stats {
            packets_in: 0,
            packets_out: 0,
            bytes_in: 0,
            bytes_out: 0,
            packets_dropped: 0,
            packets_matched: 0,
            packets_transformed: 0,
            transform_errors: 0,
            active_flows: 0,
            flows_created: 0,
            flows_evicted: 0,
            queue_overflows: 0,
            fragments_generated: 0,
            total_jitter_ms: 0,
            decoys_sent: 0,
        }
    }

    /// The counters after a packet of `size` bytes came in.
    pub open spec fn with_packet_in(self, size: usize) -> Self {
        Stats {
            packets_in: wrapping_sum(self.packets_in, 1),
            bytes_in: wrapping_sum(self.bytes_in, size as u64),
            ..self
        }
    }

    pub fn record_packet_in(&mut self, size: usize)
        ensures
            *final(self) == old(self).with_packet_in(size),
    {
        self.packets_in = bump(self.packets_in, 1);
        self.bytes_in = bump(self.bytes_in, size as u64);
    }

    /// The counters after a packet of `size` bytes went out.
    pub open spec fn with_packet_out(self, size: usize) -> Self {
        Stats {
            packets_out: wrapping_sum(self.packets_out, 1),
            bytes_out: wrapping_sum(self.bytes_out, size as u64),
            ..self
        }
    }

    pub fn record_packet_out(&mut self, size: usize)
        ensures
            *final(self) == old(self).with_packet_out(size),
    {
        self.packets_out = bump(self.packets_out, 1);
        self.bytes_out = bump(self.bytes_out, size as u64);
    }

    /// The counters after a packet was dropped.
    pub open spec fn with_drop(self) -> Self {
        Stats {
            packets_dropped: wrapping_sum(self.packets_dropped, 1),
            ..self
        }
    }

    pub fn record_drop(&mut self)
        ensures
            *final(self) == old(self).with_drop(),
    {
        self.packets_dropped = bump(self.packets_dropped, 1);
    }

    /// The counters after a packet matched a rule.
    pub open spec fn with_match(self) -> Self {
        Stats {
            packets_matched: wrapping_sum(self.packets_matched, 1),
            ..self
        }
    }

    pub fn record_match(&mut self)
        ensures
            *final(self) == old(self).with_match(),
    {
        self.packets_matched = bump(self.packets_matched, 1);
    }

    /// The counters after a transform changed a packet.
    pub open spec fn with_transform(self) -> Self {
        Stats {
            packets_transformed: wrapping_sum(self.packets_transformed, 1),
            ..self
        }
    }

    pub fn record_transform(&mut self)
        ensures
            *final(self) == old(self).with_transform(),
    {
        self.packets_transformed = bump(self.packets_transformed, 1);
    }

    /// The counters after a transform failed.
    pub open spec fn with_transform_error(self) -> Self {
        Stats {
            transform_errors: wrapping_sum(self.transform_errors, 1),
            ..self
        }
    }

    pub fn record_transform_error(&mut self)
        ensures
            *final(self) == old(self).with_transform_error(),
    {
        self.transform_errors = bump(self.transform_errors, 1);
    }

    /// The counters after a flow was first seen.
    pub open spec fn with_flow_created(self) -> Self {
        Stats {
            flows_created: wrapping_sum(self.flows_created, 1),
            active_flows: wrapping_sum(self.active_flows, 1),
            ..self
        }
    }

    pub fn record_flow_created(&mut self)
        ensures
            *final(self) == old(self).with_flow_created(),
    {
        self.flows_created = bump(self.flows_created, 1);
        self.active_flows = bump(self.active_flows, 1);
    }

    /// The counters after a flow was evicted.
    pub open spec fn with_flow_evicted(self) -> Self {
        Stats {
            flows_evicted: wrapping_sum(self.flows_evicted, 1),
            active_flows: wrapping_pred(self.active_flows),
            ..self
        }
    }

    pub fn record_flow_evicted(&mut self)
        ensures
            *final(self) == old(self).with_flow_evicted(),
    {
        self.flows_evicted = bump(self.flows_evicted, 1);
        self.active_flows = step_back(self.active_flows);
    }

    /// The counters after a queue overflowed.
    pub open spec fn with_queue_overflow(self) -> Self {
        Stats {
            queue_overflows: wrapping_sum(self.queue_overflows, 1),
            ..self
        }
    }

    pub fn record_queue_overflow(&mut self)
        ensures
            *final(self) == old(self).with_queue_overflow(),
    {
        self.queue_overflows = bump(self.queue_overflows, 1);
    }

    /// The counters after `count` fragments were made.
    pub open spec fn with_fragments(self, count: u32) -> Self {
        Stats {
            fragments_generated: wrapping_sum(self.fragments_generated, count as u64),
            ..self
        }
    }

    pub fn record_fragments(&mut self, count: u32)
        ensures
            *final(self) == old(self).with_fragments(count),
    {
        self.fragments_generated = bump(self.fragments_generated, count as u64);
    }

    /// The counters after a delay of `ms` milliseconds was asked for.
    pub open spec fn with_jitter(self, ms: u64) -> Self {
        Stats {
            total_jitter_ms: wrapping_sum(self.total_jitter_ms, ms),
            ..self
        }
    }

    pub fn record_jitter(&mut self, ms: u64)
        ensures
            *final(self) == old(self).with_jitter(ms),
    {
        self.total_jitter_ms = bump(self.total_jitter_ms, ms);
    }

    /// The counters after `count` decoys were sent.
    pub open spec fn with_decoys(self, count: u32) -> Self {
        Stats {
            decoys_sent: wrapping_sum(self.decoys_sent, count as u64),
            ..self
        }
    }

    pub fn record_decoys(&mut self, count: u32)
        ensures
            *final(self) == old(self).with_decoys(count),
    {
        self.decoys_sent = bump(self.decoys_sent, count as u64);
    }

    /// The counters after the number of flows held was set to `count`.
    pub open spec fn with_active_flows(self, count: usize) -> Self {
        Stats {
            active_flows: count as u64,
            ..self
        }
    }

    pub fn set_active_flows(&mut self, count: usize)
        ensures
            *final(self) == old(self).with_active_flows(count),
    {
        self.active_flows = count as u64;
    }

    /// The counters as they stand.
    pub open spec fn view(&self) -> StatsSnapshot {
        StatsSnapshot {
            packets_in: self.packets_in,
            packets_out: self.packets_out,
            bytes_in: self.bytes_in,
            bytes_out: self.bytes_out,
            packets_dropped: self.packets_dropped,
            packets_matched: self.packets_matched,
            packets_transformed: self.packets_transformed,
            transform_errors: self.transform_errors,
            active_flows: self.active_flows,
            flows_created: self.flows_created,
            flows_evicted: self.flows_evicted,
            queue_overflows: self.queue_overflows,
            fragments_generated: self.fragments_generated,
            total_jitter_ms: self.total_jitter_ms,
            decoys_sent: self.decoys_sent,
        }
    }

    pub fn snapshot(&self) -> (snapshot: StatsSnapshot)
        ensures
            snapshot == self@,
    {
        StatsSnapshot {
            packets_in: self.packets_in,
            packets_out: self.packets_out,
            bytes_in: self.bytes_in,
            bytes_out: self.bytes_out,
            packets_dropped: self.packets_dropped,
            packets_matched: self.packets_matched,
            packets_transformed: self.packets_transformed,
            transform_errors: self.transform_errors,
            active_flows: self.active_flows,
            flows_created: self.flows_created,
            flows_evicted: self.flows_evicted,
            queue_overflows: self.queue_overflows,
            fragments_generated: self.fragments_generated,
            total_jitter_ms: self.total_jitter_ms,
            decoys_sent: self.decoys_sent,
        }
    }

    pub fn reset(&mut self)
        ensures
            *final(self) == Stats::zero(),
    {
        self.packets_in = 0;
        self.packets_out = 0;
        self.bytes_in = 0;
        self.bytes_out = 0;
        self.packets_dropped = 0;
        self.packets_matched = 0;
        self.packets_transformed = 0;
        self.transform_errors = 0;
        self.active_flows = 0;
        self.flows_created = 0;
        self.flows_evicted = 0;
        self.queue_overflows = 0;
        self.fragments_generated = 0;
        self.total_jitter_ms = 0;
        self.decoys_sent = 0;
    }
}

#[derive(Debug, Clone, Copy, PartialEq, Eq, Structural)]
pub struct StatsSnapshot {
    pub packets_in: u64,
    pub packets_out: u64,
    pub bytes_in: u64,
    pub bytes_out: u64,
    pub packets_dropped: u64,
    pub packets_matched: u64,
    pub packets_transformed: u64,
    pub transform_errors: u64,
    pub active_flows: u64,
    pub flows_created: u64,
    pub flows_evicted: u64,
    pub queue_overflows: u64,
    pub fragments_generated: u64,
    pub total_jitter_ms: u64,
    pub decoys_sent: u64,
}

/// Counting `n` packets of `size` bytes each, one after the other.
pub open spec fn after_packets_in(stats: Stats, n: nat, size: usize) -> Stats
    decreases n,
{
    if n == 0 {
        stats
    } else {
        after_packets_in(stats, (n - 1) as nat, size).with_packet_in(size)
    }
}

/// Counting `n` packets of `size` bytes from zero gives `n` packets and
/// `n * size` bytes, as long as both numbers fit a `u64`.
pub proof fn lemma_packets_in_accumulate(n: nat, size: usize)
    requires
        n <= u64::MAX,
        n * size <= u64::MAX,
    ensures
        after_packets_in(Stats::zero(), n, size).packets_in == n,
        after_packets_in(Stats::zero(), n, size).bytes_in == n * size,
    decreases n,
{
    if n > 0 {
        assert((n - 1) * size <= n * size) by (nonlinear_arith)
            requires
                n >= 1,
        ;
        assert(n * size == (n - 1) * size + size) by (nonlinear_arith);
        lemma_packets_in_accumulate((n - 1) as nat, size);
    } else {
        assert(n * size == 0) by (nonlinear_arith)
            requires
                n == 0,
        ;
    }
}

} // verus!
