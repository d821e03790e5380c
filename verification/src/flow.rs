//! Flows: their identity, what the engine remembers of each, and the
//! bounded cache that holds them.
//!
//! Time is a number of seconds on a clock that the caller reads; the engine
//! only compares such numbers.

use crate::config::{Limits, Protocol, Rule};
use crate::net::IpAddress;
use crate::stats::wrapping_sum;
use bytes::BytesMut;
use vstd::prelude::*;

verus! {

/// The five values that identify a flow.
#[derive(Debug, Clone, Copy, PartialEq, Eq, Hash, Structural)]
pub struct FlowKey {
    pub src_ip: IpAddress,
    pub dst_ip: IpAddress,
    pub src_port: u16,
    pub dst_port: u16,
    pub protocol: Protocol,
}

impl FlowKey {
    pub fn new(
        src_ip: IpAddress,
        dst_ip: IpAddress,
        src_port: u16,
        dst_port: u16,
        protocol: Protocol,
    ) -> (key: Self)
        ensures
            key == (FlowKey { src_ip, dst_ip, src_port, dst_port, protocol }),
    {
        FlowKey { src_ip, dst_ip, src_port, dst_port, protocol }
    }

    /// The key of the same flow seen from the other end.
    pub open spec fn reversed(self) -> Self {
        FlowKey {
            src_ip: self.dst_ip,
            dst_ip: self.src_ip,
            src_port: self.dst_port,
            dst_port: self.src_port,
            protocol: self.protocol,
        }
    }

    pub fn reverse(&self) -> (key: Self)
        ensures
            key == self.reversed(),
    {
        FlowKey {
            src_ip: self.dst_ip,
            dst_ip: self.src_ip,
            src_port: self.dst_port,
            dst_port: self.src_port,
            protocol: self.protocol,
        }
    }
}

/// Reversing a key swaps source and destination and keeps the protocol;
/// reversing it twice gives the key back.
pub proof fn lemma_reverse_involution(key: FlowKey)
    ensures
        key.reversed().reversed() == key,
        key.reversed().src_ip == key.dst_ip,
        key.reversed().dst_ip == key.src_ip,
        key.reversed().src_port == key.dst_port,
        key.reversed().dst_port == key.src_port,
        key.reversed().protocol == key.protocol,
{
}

#[derive(Debug, Clone, Copy, PartialEq, Eq, Structural)]
pub struct FragmentState {
    pub fragments_generated: u32,
}

#[derive(Debug, Clone, Copy, PartialEq, Eq, Structural)]
pub struct ResegmentState {
    pub segments_generated: u32,
}

#[derive(Debug, Clone, Copy, PartialEq, Eq, Structural)]
pub struct JitterState {
    pub last_jitter_ms: u64,
    pub total_jitter_ms: u64,
}

/// What the transforms remember of a flow.
#[derive(Debug, Clone, Copy, PartialEq, Eq, Structural)]
pub struct TransformState {
    pub fragment: FragmentState,
    pub resegment: ResegmentState,
    pub jitter: JitterState,
}

impl TransformState {
    pub open spec fn zero() -> Self {
        TransformState {
            fragment: FragmentState { fragments_generated: 0 },
            resegment: ResegmentState { segments_generated: 0 },
            jitter: JitterState { last_jitter_ms: 0, total_jitter_ms: 0 },
        }
    }
}

impl Default for TransformState {
    fn default() -> (state: Self)
        ensures
            state == Self::zero(),
    {
        TransformState {
            fragment: FragmentState { fragments_generated: 0 },
            resegment: ResegmentState { segments_generated: 0 },
            jitter: JitterState { last_jitter_ms: 0, total_jitter_ms: 0 },
        }
    }
}

/// What the engine remembers of one flow.
#[derive(Debug)]
pub struct FlowState {
    pub key: FlowKey,
    pub packet_count: u64,
    pub bytes: u64,
    /// When the flow was first seen, in seconds.
    pub first_seen: u64,
    /// When the flow was last seen, in seconds.
    pub last_seen: u64,
    pub matched_rule: Option<String>,
    pub transform_state: TransformState,
}

impl Clone for FlowState {
    fn clone(&self) -> (copy: Self)
        ensures
            copy == *self,
    {
        FlowState {
            key: self.key,
            packet_count: self.packet_count,
            bytes: self.bytes,
            first_seen: self.first_seen,
            last_seen: self.last_seen,
            matched_rule: match &self.matched_rule {
                Some(name) => Some(name.clone()),
                None => None,
            },
            transform_state: self.transform_state,
        }
    }
}

impl FlowState {
    /// The state of a flow first seen at `now`, before its first packet.
    pub open spec fn fresh(key: FlowKey, now: u64) -> Self {
        FlowState {
            key,
            packet_count: 0,
            bytes: 0,
            first_seen: now,
            last_seen: now,
            matched_rule: None,
            transform_state: TransformState::zero(),
        }
    }

    /// The state of a flow before its first packet, with the clock at zero.
    pub fn new(key: FlowKey) -> (state: Self)
        ensures
            state == Self::fresh(key, 0),
    {
        FlowState::first_seen_at(key, 0)
    }

    /// The state of a flow first seen at `now`, before its first packet.
    pub fn first_seen_at(key: FlowKey, now: u64) -> (state: Self)
        ensures
            state == Self::fresh(key, now),
    {
        FlowState {
            key,
            packet_count: 0,
            bytes: 0,
            first_seen: now,
            last_seen: now,
            matched_rule: None,
            transform_state: TransformState::default(),
        }
    }

    /// The state after one more packet of `size` bytes, seen at `now`.
    pub open spec fn counted(self, size: usize, now: u64) -> Self {
        FlowState {
            packet_count: wrapping_sum(self.packet_count, 1),
            bytes: wrapping_sum(self.bytes, size as u64),
            last_seen: now,
            ..self
        }
    }

    /// Counts one more packet of `size` bytes, seen at `now`.
    pub fn update(&mut self, size: usize, now: u64)
        ensures
            *final(self) == old(self).counted(size, now),
    {
        self.packet_count = self.packet_count.wrapping_add(1);
        self.bytes = self.bytes.wrapping_add(size as u64);
        self.last_seen = now;
    }

    /// Whether the flow was last seen more than `timeout` seconds before
    /// `now`.
    pub open spec fn expired(self, now: u64, timeout: u64) -> bool {
        now > self.last_seen && now - self.last_seen > timeout
    }

    pub fn is_expired(&self, now: u64, timeout: u64) -> (yes: bool)
        ensures
            yes == self.expired(now, timeout),
    {
        now > self.last_seen && now - self.last_seen > timeout
    }
}

/// What a transform works with besides the packet: the flow, and what the
/// transform asks of the pipeline.
pub struct FlowContext<'a> {
    pub key: &'a FlowKey,
    pub state: &'a mut FlowState,
    pub rule: Option<&'a Rule>,
    /// Packets to send after the one being transformed, in order.
    pub output_packets: Vec<BytesMut>,
    /// The delay asked for before sending, in milliseconds.
    pub delay: Option<u64>,
    pub drop: bool,
}

impl<'a> FlowContext<'a> {
    pub fn new(key: &'a FlowKey, state: &'a mut FlowState, rule: Option<&'a Rule>) -> (ctx: Self)
        ensures
            ctx.key == key,
            *ctx.state == *old(state),
            *final(ctx.state) == *final(state),
            ctx.rule == rule,
            ctx.output_packets@.len() == 0,
            ctx.delay is None,
            !ctx.drop,
    {
        FlowContext { key, state, rule, output_packets: Vec::new(), delay: None, drop: false }
    }

    /// Hands the pipeline one more packet to send.
    pub fn emit(&mut self, packet: BytesMut)
        ensures
            final(self).output_packets@ == old(self).output_packets@.push(packet),
            final(self).key == old(self).key,
            final(self).rule == old(self).rule,
            final(self).delay == old(self).delay,
            final(self).drop == old(self).drop,
            *final(self).state == *old(self).state,
            *final(final(self).state) == *final(old(self).state),
    {
        self.output_packets.push(packet);
    }

    /// Asks the pipeline to wait `ms` milliseconds before sending.
    pub fn request_delay(&mut self, ms: u64)
        ensures
            final(self).delay == Some(ms),
            final(self).output_packets == old(self).output_packets,
            final(self).key == old(self).key,
            final(self).rule == old(self).rule,
            final(self).drop == old(self).drop,
            *final(self).state == *old(self).state,
            *final(final(self).state) == *final(old(self).state),
    {
        self.delay = Some(ms);
    }

    /// Asks the pipeline to drop the packet.
    pub fn mark_drop(&mut self)
        ensures
            final(self).drop,
            final(self).output_packets == old(self).output_packets,
            final(self).key == old(self).key,
            final(self).rule == old(self).rule,
            final(self).delay == old(self).delay,
            *final(self).state == *old(self).state,
            *final(final(self).state) == *final(old(self).state),
    {
        self.drop = true;
    }
}

/// The first entry at or after `from` that belongs to `key`, or the number
/// of entries when none does.
pub open spec fn position_from(entries: Seq<FlowState>, key: FlowKey, from: int) -> int
    decreases entries.len() - from,
{
    if from < 0 || from >= entries.len() {
        entries.len() as int
    } else if entries[from].key == key {
        from
    } else {
        position_from(entries, key, from + 1)
    }
}

/// The entry of `key`, or the number of entries when it has none.
pub open spec fn position_of(entries: Seq<FlowState>, key: FlowKey) -> int {
    position_from(entries, key, 0)
}

/// Among the first `n` entries, the one seen longest ago; the first of
/// several.
pub open spec fn oldest_among(entries: Seq<FlowState>, n: int) -> int
    decreases n,
{
    if n <= 1 {
        0
    } else {
        let best = oldest_among(entries, n - 1);
        if entries[n - 1].last_seen < entries[best].last_seen {
            n - 1
        } else {
            best
        }
    }
}

/// No two entries belong to one key.
pub open spec fn distinct_keys(entries: Seq<FlowState>) -> bool {
    forall|i: int, j: int|
        0 <= i < j < entries.len() ==> (#[trigger] entries[i]).key != (#[trigger] entries[j]).key
}

/// The entries after `state` was written back to a cache that holds at most
/// `capacity`: in the place of the entry with its key; else at the end, and
/// when the cache is full, in exchange for the entry seen longest ago. A cache
/// of no capacity stays empty.
pub open spec fn stored(entries: Seq<FlowState>, state: FlowState, capacity: int) -> Seq<
    FlowState,
> {
    let at = position_of(entries, state.key);
    if at < entries.len() {
        entries.update(at, state)
    } else if entries.len() < capacity {
        entries.push(state)
    } else if entries.len() == 0 {
        entries
    } else {
        entries.remove(oldest_among(entries, entries.len() as int)).push(state)
    }
}

/// The entries that stay at `now`: those not expired, in their order.
pub open spec fn unexpired(entries: Seq<FlowState>, now: u64, timeout: u64) -> Seq<FlowState> {
    entries.filter(|state: FlowState| !state.expired(now, timeout))
}

proof fn lemma_position(entries: Seq<FlowState>, key: FlowKey, from: int)
    requires
        0 <= from <= entries.len(),
    ensures
        from <= position_from(entries, key, from) <= entries.len(),
        forall|i: int| from <= i < position_from(entries, key, from) ==> entries[i].key != key,
        position_from(entries, key, from) < entries.len() ==> entries[position_from(
            entries,
            key,
            from,
        )].key == key,
    decreases entries.len() - from,
{
    if from < entries.len() && entries[from].key != key {
        lemma_position(entries, key, from + 1);
    }
}

proof fn lemma_oldest(entries: Seq<FlowState>, n: int)
    requires
        1 <= n <= entries.len(),
    ensures
        0 <= oldest_among(entries, n) < n,
    decreases n,
{
    if n > 1 {
        lemma_oldest(entries, n - 1);
    }
}

/// Writing a state back keeps the keys distinct and the cache within its
/// capacity, and leaves the state as the entry of its key whenever the cache
/// has any capacity.
pub proof fn lemma_stored(entries: Seq<FlowState>, state: FlowState, capacity: int)
    requires
        distinct_keys(entries),
        entries.len() <= capacity,
    ensures
        distinct_keys(stored(entries, state, capacity)),
        stored(entries, state, capacity).len() <= capacity,
        capacity > 0 ==> position_of(stored(entries, state, capacity), state.key) < stored(
            entries,
            state,
            capacity,
        ).len() && stored(entries, state, capacity)[position_of(
            stored(entries, state, capacity),
            state.key,
        )] == state,
{
    let at = position_of(entries, state.key);
    let after = stored(entries, state, capacity);
    lemma_position(entries, state.key, 0);
    if at < entries.len() {
        assert forall|i: int, j: int| 0 <= i < j < after.len() implies (#[trigger] after[i]).key
            != (#[trigger] after[j]).key by {
            assert(entries[i].key != entries[j].key);
        }
    } else if entries.len() < capacity {
        assert forall|i: int, j: int| 0 <= i < j < after.len() implies (#[trigger] after[i]).key
            != (#[trigger] after[j]).key by {
            if j < entries.len() {
                assert(entries[i].key != entries[j].key);
            }
        }
    } else if entries.len() > 0 {
        let gone = oldest_among(entries, entries.len() as int);
        lemma_oldest(entries, entries.len() as int);
        let kept = entries.remove(gone);
        assert forall|i: int, j: int| 0 <= i < j < after.len() implies (#[trigger] after[i]).key
            != (#[trigger] after[j]).key by {
            let oi = if i < gone {
                i
            } else {
                i + 1
            };
            if j < kept.len() {
                let oj = if j < gone {
                    j
                } else {
                    j + 1
                };
                assert(entries[oi].key != entries[oj].key);
            } else {
                assert(entries[oi].key != state.key);
            }
        }
    }
    if capacity > 0 {
        lemma_position(after, state.key, 0);
        let found = position_of(after, state.key);
        if at < entries.len() {
            assert(after[at].key == state.key);
            if found != at {
                assert(after[found].key != after[at].key);
            }
        } else {
            let end = after.len() - 1;
            assert(after[end] == state);
            if found != end {
                assert(after[found].key != after[end].key);
            }
        }
    }
}

/// The size of a cache.
#[derive(Debug, Clone, Copy, PartialEq, Eq, Structural)]
pub struct FlowCacheStats {
    pub size: usize,
    pub max_flows: usize,
}

/// The flows that the engine remembers: at most one state for a key, and
/// never more states than the limit given.
pub struct FlowCache {
    entries: Vec<FlowState>,
    max_flows: usize,
    flow_timeout_secs: u64,
}

impl FlowCache {
    /// The states held, in the order in which their flows were first stored.
    pub closed spec fn view(&self) -> Seq<FlowState> {
        self.entries@
    }

    /// The most states that the cache holds.
    pub closed spec fn capacity(&self) -> usize {
        self.max_flows
    }

    /// The number of seconds after which a flow not seen is given up.
    pub closed spec fn timeout(&self) -> u64 {
        self.flow_timeout_secs
    }

    /// What holds of every cache: it is within its capacity and holds no key
    /// twice.
    pub open spec fn wf(&self) -> bool {
        self@.len() <= self.capacity() && distinct_keys(self@)
    }

    /// A cache never holds more states than its capacity.
    pub proof fn lemma_within_capacity(&self)
        requires
            self.wf(),
        ensures
            self@.len() <= self.capacity(),
    {
    }

    pub fn new(limits: &Limits) -> (cache: Self)
        ensures
            cache.wf(),
            cache@.len() == 0,
            cache.capacity() == limits.max_flows,
            cache.timeout() == limits.flow_timeout_secs,
    {
        FlowCache {
            entries: Vec::new(),
            max_flows: limits.max_flows,
            flow_timeout_secs: limits.flow_timeout_secs,
        }
    }

    fn find(&self, key: &FlowKey) -> (at: usize)
        ensures
            at == position_of(self@, *key),
            at <= self@.len(),
    {
        let mut i: usize = 0;
        while i < self.entries.len()
            invariant
                i <= self.entries@.len(),
                position_from(self.entries@, *key, i as int) == position_of(self.entries@, *key),
            decreases self.entries@.len() - i,
        {
            if self.entries[i].key == *key {
                return i;
            }
            i += 1;
        }
        i
    }

    fn find_oldest(&self) -> (at: usize)
        requires
            self@.len() > 0,
        ensures
            at == oldest_among(self@, self@.len() as int),
            at < self@.len(),
    {
        let mut best: usize = 0;
        let mut i: usize = 1;
        while i < self.entries.len()
            invariant
                1 <= i <= self.entries@.len(),
                best == oldest_among(self.entries@, i as int),
                best < i,
            decreases self.entries@.len() - i,
        {
            if self.entries[i].last_seen < self.entries[best].last_seen {
                best = i;
            }
            i += 1;
        }
        best
    }

    fn store(&mut self, state: FlowState)
        requires
            old(self).wf(),
        ensures
            final(self).wf(),
            final(self)@ == stored(old(self)@, state, old(self).capacity() as int),
            final(self).capacity() == old(self).capacity(),
            final(self).timeout() == old(self).timeout(),
    {
        proof {
            lemma_stored(self@, state, self.capacity() as int);
        }
        let at = self.find(&state.key);
        if at < self.entries.len() {
            self.entries.set(at, state);
        } else if self.entries.len() < self.max_flows {
            self.entries.push(state);
        } else if self.entries.len() > 0 {
            let gone = self.find_oldest();
            let _ = self.entries.remove(gone);
            self.entries.push(state);
        }
    }

    /// The state of the flow `key`; a flow not yet held is first stored as
    /// one first seen at `now`.
    pub fn get_or_create(&mut self, key: FlowKey, now: u64) -> (state: FlowState)
        requires
            old(self).wf(),
        ensures
            final(self).wf(),
            final(self).capacity() == old(self).capacity(),
            final(self).timeout() == old(self).timeout(),
            position_of(old(self)@, key) < old(self)@.len() ==> final(self)@ == old(self)@ && state
                == old(self)@[position_of(old(self)@, key)],
            position_of(old(self)@, key) >= old(self)@.len() ==> state == FlowState::fresh(key, now)
                && final(self)@ == stored(old(self)@, state, old(self).capacity() as int),
    {
        let at = self.find(&key);
        if at < self.entries.len() {
            self.entries[at].clone()
        } else {
            let state = FlowState::first_seen_at(key, now);
            self.store(state.clone());
            state
        }
    }

    /// Writes `state` back as the state of its flow. Unless the cache has no
    /// capacity at all, the state is then what the cache holds for its key.
    pub fn update(&mut self, state: FlowState)
        requires
            old(self).wf(),
        ensures
            final(self).wf(),
            final(self)@ == stored(old(self)@, state, old(self).capacity() as int),
            final(self).capacity() == old(self).capacity(),
            final(self).timeout() == old(self).timeout(),
            old(self).capacity() > 0 ==> position_of(final(self)@, state.key) < final(self)@.len()
                && final(self)@[position_of(final(self)@, state.key)] == state,
    {
        proof {
            lemma_stored(self@, state, self.capacity() as int);
        }
        self.store(state);
    }

    /// Gives up every flow that has expired at `now`, and says how many
    /// those were.
    pub fn cleanup(&mut self, now: u64) -> (evicted: usize)
        requires
            old(self).wf(),
        ensures
            final(self).wf(),
            final(self)@ == unexpired(old(self)@, now, old(self).timeout()),
            evicted == old(self)@.len() - final(self)@.len(),
            final(self).capacity() == old(self).capacity(),
            final(self).timeout() == old(self).timeout(),
    {
        let ghost before = self.entries@;
        let ghost keep = |state: FlowState| !state.expired(now, self.flow_timeout_secs);
        let timeout = self.flow_timeout_secs;
        let mut evicted: usize = 0;
        let mut i: usize = 0;
        proof {
            assert(before.take(0) =~= Seq::<FlowState>::empty());
            assert(before.skip(0) =~= before);
            assert(self.entries@.take(0) =~= Seq::<FlowState>::empty());
            reveal(Seq::filter);
        }
        while i < self.entries.len()
            invariant
                i <= self.entries@.len(),
                i + evicted <= before.len() <= usize::MAX,
                self.entries@.len() + evicted == before.len(),
                self.entries@.take(i as int) == before.take(i + evicted).filter(keep),
                self.entries@.skip(i as int) == before.skip(i + evicted),
                keep == (|state: FlowState| !state.expired(now, timeout)),
                self.max_flows == old(self).max_flows,
                self.flow_timeout_secs == old(self).flow_timeout_secs,
                timeout == self.flow_timeout_secs,
            decreases self.entries@.len() - i,
        {
            let ghost seen = i + evicted;
            let ghost current = self.entries@;
            proof {
                assert(current[i as int] == current.skip(i as int)[0]);
                assert(before.take(seen + 1) =~= before.take(seen).push(before[seen]));
                lemma_filter_push(before.take(seen), before[seen], keep);
            }
            if self.entries[i].is_expired(now, timeout) {
                let _ = self.entries.remove(i);
                evicted += 1;
                proof {
                    assert(self.entries@.take(i as int) =~= current.take(i as int));
                    assert(self.entries@.skip(i as int) =~= current.skip(i as int).skip(1));
                    assert(before.skip(seen).skip(1) =~= before.skip(seen + 1));
                }
            } else {
                proof {
                    assert(current.take(i + 1) =~= current.take(i as int).push(current[i as int]));
                    assert(current.skip(i + 1) =~= current.skip(i as int).skip(1));
                    assert(before.skip(seen).skip(1) =~= before.skip(seen + 1));
                }
                i += 1;
            }
        }
        proof {
            assert(self.entries@.take(i as int) =~= self.entries@);
            assert(before.take(before.len() as int) =~= before);
            lemma_filter_distinct(before, keep);
        }
        evicted
    }

    pub fn stats(&self) -> (stats: FlowCacheStats)
        ensures
            stats.size == self@.len(),
            stats.max_flows == self.capacity(),
    {
        FlowCacheStats { size: self.entries.len(), max_flows: self.max_flows }
    }

    pub fn len(&self) -> (n: usize)
        ensures
            n == self@.len(),
    {
        self.entries.len()
    }

    pub fn is_empty(&self) -> (yes: bool)
        ensures
            yes == (self@.len() == 0),
    {
        self.entries.len() == 0
    }
}

/// Filtering a list with one more entry filters the list and then takes the
/// entry or leaves it.
proof fn lemma_filter_push(entries: Seq<FlowState>, last: FlowState, keep: spec_fn(FlowState) -> bool)
    ensures
        entries.push(last).filter(keep) == if keep(last) {
            entries.filter(keep).push(last)
        } else {
            entries.filter(keep)
        },
{
    reveal(Seq::filter);
    assert(entries.push(last).drop_last() =~= entries);
}

/// What is left of a list of distinct keys holds distinct keys, is no longer,
/// and holds only entries of the list.
proof fn lemma_filter_distinct(entries: Seq<FlowState>, keep: spec_fn(FlowState) -> bool)
    requires
        distinct_keys(entries),
    ensures
        distinct_keys(entries.filter(keep)),
        entries.filter(keep).len() <= entries.len(),
        forall|i: int|
            0 <= i < entries.filter(keep).len() ==> entries.contains(
                #[trigger] entries.filter(keep)[i],
            ),
    decreases entries.len(),
{
    reveal(Seq::filter);
    if entries.len() > 0 {
        let front = entries.drop_last();
        assert forall|i: int, j: int| 0 <= i < j < front.len() implies (#[trigger] front[i]).key
            != (#[trigger] front[j]).key by {
            assert(entries[i].key != entries[j].key);
        }
        lemma_filter_distinct(front, keep);
        let kept = front.filter(keep);
        let all = entries.filter(keep);
        assert forall|i: int| 0 <= i < all.len() implies entries.contains(#[trigger] all[i]) by {
            if i < kept.len() {
                assert(front.contains(kept[i]));
                let k = choose|k: int| 0 <= k < front.len() && front[k] == kept[i];
                assert(entries[k] == all[i]);
            } else {
                assert(entries[entries.len() - 1] == all[i]);
            }
        }
        if keep(entries.last()) {
            assert forall|i: int, j: int| 0 <= i < j < all.len() implies (#[trigger] all[i]).key
                != (#[trigger] all[j]).key by {
                if j < kept.len() {
                    assert(kept[i].key != kept[j].key);
                } else {
                    assert(front.contains(kept[i]));
                    let k = choose|k: int| 0 <= k < front.len() && front[k] == kept[i];
                    assert(entries[k].key != entries[entries.len() - 1].key);
                }
            }
        }
    }
}

} // verus!
