//! The transform pipeline: finds the rule for a packet's flow, applies the
//! rule's transforms in order, and keeps the flow cache and the counters.
//!
//! What `Pipeline::process` does is stated in full by `processed`, a function
//! of the configuration, the flows held, the counters, the packet and the
//! time.

use crate::buffers::{contents, contents_of};
use crate::config::{Config, GlobalConfig, TransformParams, TransformType};
use crate::error::EngineError;
use crate::flow::{position_of, stored, unexpired, FlowCache, FlowContext, FlowKey, FlowState, TransformState};
use crate::rules::{compile_rules, compiled_from, find_match, matching_rule, CompiledRule};
use crate::stats::Stats;
use crate::transform::fragment::sound;
use crate::transform::{
    DecoyTransform, Effect, FragmentTransform, HeaderNormalizationTransform, JitterTransform,
    Outcome, PaddingTransform, ResegmentTransform, Transform, TransformResult,
};
use bytes::BytesMut;
use vstd::prelude::*;

verus! {

/// What became of a packet.
#[derive(Debug)]
pub struct PipelineOutput {
    /// The packet to send first.
    pub primary: Option<BytesMut>,
    /// The packets to send after it, in order.
    pub additional: Vec<BytesMut>,
    /// How long to wait before sending, in milliseconds.
    pub delay: Option<u64>,
    pub dropped: bool,
    pub matched_rule: Option<String>,
}

impl PipelineOutput {
    pub fn dropped() -> (output: Self)
        ensures
            output.primary is None,
            output.additional@.len() == 0,
            output.delay is None,
            output.dropped,
            output.matched_rule is None,
    {
        PipelineOutput {
            primary: None,
            additional: Vec::new(),
            delay: None,
            dropped: true,
            matched_rule: None,
        }
    }

    pub fn passthrough(data: BytesMut) -> (output: Self)
        ensures
            output.primary == Some(data),
            output.additional@.len() == 0,
            output.delay is None,
            !output.dropped,
            output.matched_rule is None,
    {
        PipelineOutput {
            primary: Some(data),
            additional: Vec::new(),
            delay: None,
            dropped: false,
            matched_rule: None,
        }
    }

    /// The bytes of every packet to send, in the order of sending.
    pub open spec fn packets(self) -> Seq<Seq<u8>> {
        match self.primary {
            Some(first) => seq![contents(first)] + contents_of(self.additional@),
            None => contents_of(self.additional@),
        }
    }

    /// Every packet to send: the primary one, then the additional ones.
    pub fn all_packets(self) -> (packets: Vec<BytesMut>)
        ensures
            contents_of(packets@) == self.packets(),
    {
        let mut packets: Vec<BytesMut> = Vec::new();
        let mut additional = self.additional;
        if let Some(primary) = self.primary {
            packets.push(primary);
        }
        let ghost first = packets@;
        packets.append(&mut additional);
        proof {
            assert(contents_of(packets@) =~= contents_of(first) + contents_of(self.additional@));
            if self.primary is Some {
                assert(contents_of(first) =~= seq![contents(self.primary.unwrap())]);
            } else {
                assert(contents_of(first) + contents_of(self.additional@) =~= contents_of(
                    self.additional@,
                ));
            }
        }
        packets
    }
}

/// One transform of each kind.
pub struct TransformSet {
    pub fragment: FragmentTransform,
    pub resegment: ResegmentTransform,
    pub padding: PaddingTransform,
    pub jitter: JitterTransform,
    pub header: HeaderNormalizationTransform,
    pub decoy: DecoyTransform,
}

impl TransformSet {
    /// Whether each transform has the parameters that `params` holds for its
    /// kind.
    pub open spec fn made_from(&self, params: TransformParams) -> bool {
        &&& self.fragment.params() == params.fragment
        &&& self.resegment.params() == params.resegment
        &&& self.padding.params() == params.padding
        &&& self.jitter.params() == params.jitter
        &&& self.header.params() == params.header
        &&& self.decoy.params() == params.decoy
    }

    pub fn new(params: &TransformParams) -> (set: Self)
        ensures
            set.made_from(*params),
    {
        TransformSet {
            fragment: FragmentTransform::new(&params.fragment),
            resegment: ResegmentTransform::new(&params.resegment),
            padding: PaddingTransform::new(&params.padding),
            jitter: JitterTransform::new(&params.jitter),
            header: HeaderNormalizationTransform::new(&params.header),
            decoy: DecoyTransform::new(&params.decoy),
        }
    }

    /// What the transform of `kind` does; `None` for a kind that has no
    /// transform.
    pub open spec fn effect_of(
        &self,
        kind: TransformType,
        packet_count: u64,
        state: TransformState,
        data: Seq<u8>,
    ) -> Option<Effect> {
        match kind {
            TransformType::Fragment => Some(self.fragment.effect(packet_count, state, data)),
            TransformType::Resegment => Some(self.resegment.effect(packet_count, state, data)),
            TransformType::Padding => Some(self.padding.effect(packet_count, state, data)),
            TransformType::Jitter => Some(self.jitter.effect(packet_count, state, data)),
            TransformType::HeaderNormalization => Some(
                self.header.effect(packet_count, state, data),
            ),
            TransformType::Decoy => Some(self.decoy.effect(packet_count, state, data)),
            TransformType::Reorder => None,
        }
    }
}

/// Whether the global switches allow transforms of `kind`. Resegmenting,
/// decoys and reordering have no switch.
pub open spec fn switched_on(global: GlobalConfig, kind: TransformType) -> bool {
    match kind {
        TransformType::Fragment => global.enable_fragmentation,
        TransformType::Jitter => global.enable_jitter,
        TransformType::Padding => global.enable_padding,
        TransformType::HeaderNormalization => global.enable_header_normalization,
        _ => true,
    }
}

/// A packet on its way through the transforms of a rule.
pub struct Run {
    /// The bytes of the packet.
    pub data: Seq<u8>,
    /// The packets emitted so far.
    pub emitted: Seq<Seq<u8>>,
    /// The delay asked for last.
    pub delay: Option<u64>,
    pub dropped: bool,
    /// Whether a transform has ended the run.
    pub stopped: bool,
    /// The flow's transform counters.
    pub state: TransformState,
    /// The engine's counters.
    pub stats: Stats,
}

/// The number of packets counted when a transform has fragmented: those
/// emitted so far and the packet itself, as a `u32`.
pub open spec fn fragment_count(emitted: nat) -> u32 {
    ((emitted + 1) % 0x1_0000_0000) as u32
}

/// The run after the transform of `kind` had its turn. A kind that is
/// switched off or has no transform changes nothing. Otherwise the
/// transform's effect is taken over, and by its outcome: a fragmenting and a
/// delaying transform are counted, with the fragments and the delay; a
/// failure is counted; a drop and a skip end the run.
pub open spec fn step(
    set: TransformSet,
    global: GlobalConfig,
    kind: TransformType,
    packet_count: u64,
    run: Run,
) -> Run {
    if !switched_on(global, kind) {
        run
    } else {
        match set.effect_of(kind, packet_count, run.state, run.data) {
            None => run,
            Some(effect) => {
                let after = Run {
                    data: effect.data,
                    emitted: run.emitted + effect.emitted,
                    delay: match effect.delay {
                        Some(ms) => Some(ms),
                        None => run.delay,
                    },
                    state: effect.state,
                    ..run
                };
                match effect.outcome {
                    Outcome::Continue => after,
                    Outcome::Fragmented => Run {
                        stats: run.stats.with_transform().with_fragments(
                            fragment_count(after.emitted.len()),
                        ),
                        ..after
                    },
                    Outcome::Delay => Run {
                        stats: match after.delay {
                            Some(ms) => run.stats.with_transform().with_jitter(ms),
                            None => run.stats.with_transform(),
                        },
                        ..after
                    },
                    Outcome::Drop => Run { dropped: true, stopped: true, ..after },
                    Outcome::Skip => Run { stopped: true, ..after },
                    Outcome::Error(_) => Run { stats: run.stats.with_transform_error(), ..after },
                }
            },
        }
    }
}

/// The run after the transforms of `kinds` from place `from` on had their
/// turns, in order, or until one of them ended the run.
pub open spec fn run_from(
    set: TransformSet,
    global: GlobalConfig,
    kinds: Seq<TransformType>,
    from: int,
    packet_count: u64,
    run: Run,
) -> Run
    decreases kinds.len() - from,
{
    if from < 0 || from >= kinds.len() || run.stopped {
        run
    } else {
        run_from(set, global, kinds, from + 1, packet_count, step(
            set,
            global,
            kinds[from],
            packet_count,
            run,
        ))
    }
}

/// The counters after each packet of `packets` from place `from` on was
/// counted as sent.
pub open spec fn sent(stats: Stats, packets: Seq<Seq<u8>>, from: int) -> Stats
    decreases packets.len() - from,
{
    if from < 0 || from >= packets.len() {
        stats
    } else {
        sent(stats.with_packet_out(packets[from].len() as usize), packets, from + 1)
    }
}

/// The counters after `n` flows were counted as evicted.
pub open spec fn evicted(stats: Stats, n: nat) -> Stats
    decreases n,
{
    if n == 0 {
        stats
    } else {
        evicted(stats, (n - 1) as nat).with_flow_evicted()
    }
}

/// What processing one packet comes to.
pub struct Processed {
    pub primary: Option<Seq<u8>>,
    pub additional: Seq<Seq<u8>>,
    pub delay: Option<u64>,
    pub dropped: bool,
    pub matched_rule: Option<String>,
    /// The engine's counters afterwards.
    pub stats: Stats,
    /// The flows held afterwards.
    pub flows: Seq<FlowState>,
}

/// What processing a packet of the flow `key` that holds `data` comes to at
/// the time `now`.
///
/// A disabled engine passes the packet on and changes nothing. Otherwise the
/// packet is counted and the state of its flow is taken from the cache; a
/// flow not yet held is stored and counted as created. With no matching rule
/// the packet passes unchanged, and the flow counts it. With a matching rule
/// its transforms run in order; the flow counts the packet as it then is,
/// remembers the rule, and is written back. A dropped packet is counted as
/// dropped and gives an output with nothing in it; any other is counted as
/// sent, together with each packet emitted on the way.
pub open spec fn processed(
    config: Config,
    set: TransformSet,
    flows: Seq<FlowState>,
    capacity: int,
    stats: Stats,
    key: FlowKey,
    data: Seq<u8>,
    now: u64,
) -> Processed {
    if !config.global.enabled {
        Processed {
            primary: Some(data),
            additional: Seq::<Seq<u8>>::empty(),
            delay: None,
            dropped: false,
            matched_rule: None,
            stats,
            flows,
        }
    } else {
        let counted = stats.with_packet_in(data.len() as usize);
        let at = position_of(flows, key);
        let state = if at < flows.len() {
            flows[at]
        } else {
            FlowState::fresh(key, now)
        };
        let held = if at < flows.len() {
            flows
        } else {
            stored(flows, state, capacity)
        };
        let known = if state.packet_count == 0 {
            counted.with_flow_created()
        } else {
            counted
        };
        match matching_rule(config.rules@, key) {
            None => Processed {
                primary: Some(data),
                additional: Seq::<Seq<u8>>::empty(),
                delay: None,
                dropped: false,
                matched_rule: None,
                stats: known,
                flows: stored(held, state.counted(data.len() as usize, now), capacity),
            },
            Some(r) => {
                let rule = config.rules@[r];
                let run = run_from(
                    set,
                    config.global,
                    rule.transforms@,
                    0,
                    state.packet_count,
                    Run {
                        data,
                        emitted: Seq::<Seq<u8>>::empty(),
                        delay: None,
                        dropped: false,
                        stopped: false,
                        state: state.transform_state,
                        stats: known.with_match(),
                    },
                );
                let left = FlowState {
                    matched_rule: Some(rule.name),
                    ..(FlowState { transform_state: run.state, ..state }).counted(
                        run.data.len() as usize,
                        now,
                    )
                };
                if run.dropped {
                    Processed {
                        primary: None,
                        additional: Seq::<Seq<u8>>::empty(),
                        delay: None,
                        dropped: true,
                        matched_rule: None,
                        stats: run.stats.with_drop(),
                        flows: stored(held, left, capacity),
                    }
                } else {
                    Processed {
                        primary: Some(run.data),
                        additional: run.emitted,
                        delay: run.delay,
                        dropped: false,
                        matched_rule: Some(rule.name),
                        stats: sent(
                            run.stats.with_packet_out(run.data.len() as usize),
                            run.emitted,
                            0,
                        ),
                        flows: stored(held, left, capacity),
                    }
                }
            },
        }
    }
}

/// Two sets of transforms made from the same parameters do the same to
/// every packet.
pub proof fn lemma_sets_act_alike(first: TransformSet, second: TransformSet, params: TransformParams)
    requires
        first.made_from(params),
        second.made_from(params),
    ensures
        forall|kind: TransformType, packet_count: u64, state: TransformState, data: Seq<u8>|
            #[trigger] first.effect_of(kind, packet_count, state, data) == second.effect_of(
                kind,
                packet_count,
                state,
                data,
            ),
{
}

/// With two sets of transforms made from the same parameters, a run takes
/// the same course.
pub proof fn lemma_runs_alike(
    first: TransformSet,
    second: TransformSet,
    params: TransformParams,
    global: GlobalConfig,
    kinds: Seq<TransformType>,
    from: int,
    packet_count: u64,
    run: Run,
)
    requires
        first.made_from(params),
        second.made_from(params),
    ensures
        run_from(first, global, kinds, from, packet_count, run) == run_from(
            second,
            global,
            kinds,
            from,
            packet_count,
            run,
        ),
    decreases kinds.len() - from,
{
    if 0 <= from < kinds.len() && !run.stopped {
        lemma_sets_act_alike(first, second, params);
        let next = step(first, global, kinds[from], packet_count, run);
        assert(first.effect_of(kinds[from], packet_count, run.state, run.data) == second.effect_of(
            kinds[from],
            packet_count,
            run.state,
            run.data,
        ));
        assert(next == step(second, global, kinds[from], packet_count, run));
        lemma_runs_alike(first, second, params, global, kinds, from + 1, packet_count, next);
    }
}

/// Whether `output` is the output that `expected` describes.
pub open spec fn delivers(output: PipelineOutput, expected: Processed) -> bool {
    &&& match expected.primary {
        Some(bytes) => output.primary matches Some(packet) && contents(packet) == bytes,
        None => output.primary is None,
    }
    &&& contents_of(output.additional@) == expected.additional
    &&& output.delay == expected.delay
    &&& output.dropped == expected.dropped
    &&& output.matched_rule == expected.matched_rule
}

/// Runs the transforms of `kinds` on a packet, in order, as `run_from` says.
fn apply_rule(
    set: &TransformSet,
    global: &GlobalConfig,
    kinds: &Vec<TransformType>,
    ctx: &mut FlowContext<'_>,
    data: &mut BytesMut,
    stats: &mut Stats,
)
    requires
        sound(set.fragment.params()),
    ensures
        ({
            let end = run_from(
                *set,
                *global,
                kinds@,
                0,
                old(ctx).state.packet_count,
                Run {
                    data: contents(*old(data)),
                    emitted: contents_of(old(ctx).output_packets@),
                    delay: old(ctx).delay,
                    dropped: old(ctx).drop,
                    stopped: false,
                    state: old(ctx).state.transform_state,
                    stats: *old(stats),
                },
            );
            &&& contents(*final(data)) == end.data
            &&& contents_of(final(ctx).output_packets@) == end.emitted
            &&& final(ctx).delay == end.delay
            &&& final(ctx).drop == end.dropped
            &&& *final(stats) == end.stats
            &&& *final(ctx).state == (FlowState { transform_state: end.state, ..*old(ctx).state })
        }),
        final(ctx).key == old(ctx).key,
        final(ctx).rule == old(ctx).rule,
        *final(final(ctx).state) == *final(old(ctx).state),
{
    let ghost before = *ctx.state;
    let ghost start = Run {
        data: contents(*data),
        emitted: contents_of(ctx.output_packets@),
        delay: ctx.delay,
        dropped: ctx.drop,
        stopped: false,
        state: ctx.state.transform_state,
        stats: *stats,
    };
    let ghost mut run = start;
    let mut i: usize = 0;
    let mut stopped = false;
    while i < kinds.len() && !stopped
        invariant
            i <= kinds@.len(),
            sound(set.fragment.params()),
            run_from(
                *set,
                *global,
                kinds@,
                if stopped {
                    kinds@.len() as int
                } else {
                    i as int
                },
                before.packet_count,
                run,
            ) == run_from(*set, *global, kinds@, 0, before.packet_count, start),
            run.data == contents(*data),
            run.emitted == contents_of(ctx.output_packets@),
            run.delay == ctx.delay,
            run.dropped == ctx.drop,
            run.stopped == stopped,
            run.stats == *stats,
            *ctx.state == (FlowState { transform_state: run.state, ..before }),
            ctx.key == old(ctx).key,
            ctx.rule == old(ctx).rule,
            *final(ctx.state) == *final(old(ctx).state),
        decreases kinds@.len() - i,
    {
        let kind = kinds[i];
        let ghost was = run;
        if is_switched_on(global, kind) {
            let applied = match kind {
                TransformType::Fragment => Some(set.fragment.apply(ctx, data)),
                TransformType::Resegment => Some(set.resegment.apply(ctx, data)),
                TransformType::Padding => Some(set.padding.apply(ctx, data)),
                TransformType::Jitter => Some(set.jitter.apply(ctx, data)),
                TransformType::HeaderNormalization => Some(set.header.apply(ctx, data)),
                TransformType::Decoy => Some(set.decoy.apply(ctx, data)),
                TransformType::Reorder => None,
            };
            match applied {
                None => {},
                Some(Err(_)) => {
                    stats.record_transform_error();
                },
                Some(Ok(verdict)) => {
                    stopped = account(verdict, ctx, stats);
                },
            }
        }
        proof {
            run = step(*set, *global, kind, before.packet_count, was);
        }
        i += 1;
    }
}

/// Whether the global switches allow transforms of `kind`.
fn is_switched_on(global: &GlobalConfig, kind: TransformType) -> (yes: bool)
    ensures
        yes == switched_on(*global, kind),
{
    match kind {
        TransformType::Fragment => global.enable_fragmentation,
        TransformType::Jitter => global.enable_jitter,
        TransformType::Padding => global.enable_padding,
        TransformType::HeaderNormalization => global.enable_header_normalization,
        _ => true,
    }
}

/// Counts what a transform has done, and says whether it ended the run.
fn account(verdict: TransformResult, ctx: &mut FlowContext<'_>, stats: &mut Stats) -> (stop: bool)
    ensures
        stop == (verdict.outcome() is Drop || verdict.outcome() is Skip),
        final(ctx).drop == (old(ctx).drop || verdict.outcome() is Drop),
        *final(stats) == match verdict.outcome() {
            Outcome::Fragmented => old(stats).with_transform().with_fragments(
                fragment_count(old(ctx).output_packets@.len()),
            ),
            Outcome::Delay => match old(ctx).delay {
                Some(ms) => old(stats).with_transform().with_jitter(ms),
                None => old(stats).with_transform(),
            },
            Outcome::Error(_) => old(stats).with_transform_error(),
            _ => *old(stats),
        },
        final(ctx).output_packets == old(ctx).output_packets,
        final(ctx).delay == old(ctx).delay,
        final(ctx).key == old(ctx).key,
        final(ctx).rule == old(ctx).rule,
        *final(ctx).state == *old(ctx).state,
        *final(final(ctx).state) == *final(old(ctx).state),
{
    match verdict {
        TransformResult::Continue => false,
        TransformResult::Fragmented => {
            stats.record_transform();
            let count: u128 = ctx.output_packets.len() as u128 + 1;
            stats.record_fragments((count % 0x1_0000_0000) as u32);
            false
        },
        TransformResult::Delay => {
            stats.record_transform();
            if let Some(delay) = ctx.delay {
                stats.record_jitter(delay);
            }
            false
        },
        TransformResult::Drop => {
            ctx.mark_drop();
            true
        },
        TransformResult::Skip => true,
        TransformResult::Error(_) => {
            stats.record_transform_error();
            false
        },
    }
}

/// Counts each of `packets` as sent.
fn count_sent(stats: &mut Stats, packets: &Vec<BytesMut>)
    ensures
        *final(stats) == sent(*old(stats), contents_of(packets@), 0),
{
    let mut k: usize = 0;
    while k < packets.len()
        invariant
            k <= packets@.len(),
            sent(*stats, contents_of(packets@), k as int) == sent(
                *old(stats),
                contents_of(packets@),
                0,
            ),
        decreases packets@.len() - k,
    {
        stats.record_packet_out(packets[k].len());
        k += 1;
    }
}

pub struct Pipeline {
    config: Config,
    flow_cache: FlowCache,
    stats: Stats,
    transforms: TransformSet,
    compiled_rules: Vec<CompiledRule>,
}

impl Pipeline {
    /// The configuration in use.
    pub closed spec fn settings(&self) -> Config {
        self.config
    }

    /// The transforms in use.
    pub closed spec fn transforms(&self) -> TransformSet {
        self.transforms
    }

    /// The flows held.
    pub closed spec fn flows(&self) -> Seq<FlowState> {
        self.flow_cache@
    }

    /// The most flows that are held.
    pub closed spec fn capacity(&self) -> usize {
        self.flow_cache.capacity()
    }

    /// The number of seconds after which a flow not seen is given up.
    pub closed spec fn timeout(&self) -> u64 {
        self.flow_cache.timeout()
    }

    /// The counters.
    pub closed spec fn counters(&self) -> Stats {
        self.stats
    }

    /// What holds of every pipeline: its configuration is valid, its
    /// transforms and its order of lookup were made from that configuration,
    /// and its cache is within bounds.
    pub closed spec fn wf(&self) -> bool {
        &&& self.config.valid()
        &&& self.transforms.made_from(self.config.transforms)
        &&& compiled_from(self.compiled_rules@, self.config.rules@, self.config.rules@.len() as int)
        &&& self.flow_cache.wf()
    }

    /// What processing a packet of the flow `key` that holds `data` comes to
    /// for this pipeline at the time `now`.
    pub open spec fn outcome(&self, key: FlowKey, data: Seq<u8>, now: u64) -> Processed {
        processed(
            self.settings(),
            self.transforms(),
            self.flows(),
            self.capacity() as int,
            self.counters(),
            key,
            data,
            now,
        )
    }

    /// Whether two pipelines are in the same state: they have the same
    /// configuration, hold the same flows within the same bounds, and have
    /// counted the same.
    pub open spec fn agrees_with(&self, other: &Pipeline) -> bool {
        &&& self.settings() == other.settings()
        &&& self.flows() =~= other.flows()
        &&& self.capacity() == other.capacity()
        &&& self.timeout() == other.timeout()
        &&& self.counters() == other.counters()
    }

    /// Processing is a function of the pipeline's state and the packet: two
    /// pipelines in the same state come to the same for a packet, in what
    /// they put out, in what they count and in the flows they hold
    /// afterwards. Their transforms are made from the same parameters, and
    /// need not be the same values.
    pub proof fn lemma_processing_is_determined(
        &self,
        other: &Pipeline,
        key: FlowKey,
        data: Seq<u8>,
        now: u64,
    )
        requires
            self.wf(),
            other.wf(),
            self.agrees_with(other),
        ensures
            self.outcome(key, data, now) == other.outcome(key, data, now),
    {
        let config = self.settings();
        if config.global.enabled {
            match matching_rule(config.rules@, key) {
                Some(r) => {
                    let at = position_of(self.flows(), key);
                    let state = if at < self.flows().len() {
                        self.flows()[at]
                    } else {
                        FlowState::fresh(key, now)
                    };
                    let counted = self.counters().with_packet_in(data.len() as usize);
                    let known = if state.packet_count == 0 {
                        counted.with_flow_created()
                    } else {
                        counted
                    };
                    lemma_runs_alike(
                        self.transforms(),
                        other.transforms(),
                        config.transforms,
                        config.global,
                        config.rules@[r].transforms@,
                        0,
                        state.packet_count,
                        Run {
                            data,
                            emitted: Seq::<Seq<u8>>::empty(),
                            delay: None,
                            dropped: false,
                            stopped: false,
                            state: state.transform_state,
                            stats: known.with_match(),
                        },
                    );
                },
                None => {},
            }
        }
    }

    /// Two pipelines that were in the same state and have each processed the
    /// same packet at the same time are in the same state again. So two
    /// pipelines that begin alike and are given the same packets at the same
    /// times put out the same at every step.
    pub proof fn lemma_agreement_is_kept(
        first: &Pipeline,
        first_after: &Pipeline,
        second: &Pipeline,
        second_after: &Pipeline,
        key: FlowKey,
        data: Seq<u8>,
        now: u64,
    )
        requires
            first.wf(),
            second.wf(),
            first.agrees_with(second),
            first_after.follows(first, key, data, now),
            second_after.follows(second, key, data, now),
        ensures
            first_after.agrees_with(second_after),
    {
        first.lemma_processing_is_determined(second, key, data, now);
    }

    /// Whether this is the state in which processing a packet leaves a
    /// pipeline that was in the state `before`.
    pub open spec fn follows(&self, before: &Pipeline, key: FlowKey, data: Seq<u8>, now: u64) -> bool {
        &&& self.counters() == before.outcome(key, data, now).stats
        &&& self.flows() == before.outcome(key, data, now).flows
        &&& self.settings() == before.settings()
        &&& self.transforms() == before.transforms()
        &&& self.capacity() == before.capacity()
        &&& self.timeout() == before.timeout()
    }

    /// A pipeline holds no more flows than its limit.
    pub proof fn lemma_cache_bound(&self)
        requires
            self.wf(),
        ensures
            self.flows().len() <= self.capacity(),
    {
    }

    /// Builds a pipeline for `config`, which has to be valid, with the
    /// counters `stats`, an empty cache, and transforms that have the
    /// parameters of `config`.
    pub fn new(config: Config, stats: Stats) -> (built: Result<Self, EngineError>)
        ensures
            match config.fault() {
                Some((field, message)) => built matches Err(error) && error.is_validation(
                    field,
                    message,
                ),
                None => built matches Ok(pipeline) && pipeline.wf() && pipeline.settings() == config
                    && pipeline.transforms().made_from(config.transforms) && pipeline.counters()
                    == stats && pipeline.flows().len() == 0 && pipeline.capacity()
                    == config.limits.max_flows && pipeline.timeout()
                    == config.limits.flow_timeout_secs,
            },
    {
        match config.validate() {
            Err(error) => Err(error),
            Ok(()) => {
                let flow_cache = FlowCache::new(&config.limits);
                let transforms = TransformSet::new(&config.transforms);
                let compiled_rules = compile_rules(&config.rules);
                Ok(Pipeline { config, flow_cache, stats, transforms, compiled_rules })
            },
        }
    }

    /// Takes a new configuration into use, if it is valid, and makes the
    /// transforms anew from its parameters. A configuration that is not valid
    /// is refused and changes nothing. The flows held and the counters stay,
    /// and so do the bounds of the cache.
    pub fn reload_config(&mut self, new_config: Config) -> (reloaded: Result<(), EngineError>)
        requires
            old(self).wf(),
        ensures
            final(self).wf(),
            match new_config.fault() {
                Some((field, message)) => reloaded matches Err(error) && error.is_validation(
                    field,
                    message,
                ) && *final(self) == *old(self),
                None => reloaded is Ok && final(self).settings() == new_config
                    && final(self).transforms().made_from(new_config.transforms),
            },
            final(self).flows() == old(self).flows(),
            final(self).counters() == old(self).counters(),
            final(self).capacity() == old(self).capacity(),
            final(self).timeout() == old(self).timeout(),
    {
        match new_config.validate() {
            Err(error) => Err(error),
            Ok(()) => {
                self.transforms = TransformSet::new(&new_config.transforms);
                self.compiled_rules = compile_rules(&new_config.rules);
                self.config = new_config;
                Ok(())
            },
        }
    }

    pub fn config(&self) -> (config: &Config)
        ensures
            *config == self.settings(),
    {
        &self.config
    }

    /// The rule that applies to the flow `key`.
    pub fn find_matching_rule(&self, key: &FlowKey) -> (found: Option<&crate::config::Rule>)
        requires
            self.wf(),
        ensures
            match matching_rule(self.settings().rules@, *key) {
                Some(i) => found == Some(&self.settings().rules@[i]),
                None => found is None,
            },
    {
        match find_match(&self.config.rules, &self.compiled_rules, key) {
            Some(index) => Some(&self.config.rules[index]),
            None => None,
        }
    }

    /// Processes one packet of the flow `key` at the time `now`, as
    /// `processed` says: the output is the one described there, and the
    /// pipeline is left with the counters and the flows described there.
    pub fn process(&mut self, key: FlowKey, data: BytesMut, now: u64) -> (result: Result<
        PipelineOutput,
        EngineError,
    >)
        requires
            old(self).wf(),
        ensures
            final(self).wf(),
            result matches Ok(output) && delivers(
                output,
                old(self).outcome(key, contents(data), now),
            ),
            final(self).follows(old(self), key, contents(data), now),
    {
        if !self.config.global.enabled {
            let output = PipelineOutput::passthrough(data);
            assert(contents_of(output.additional@) =~= Seq::<Seq<u8>>::empty());
            return Ok(output);
        }
        let mut data = data;
        let ghost input = contents(data);
        let size = data.len();
        self.stats.record_packet_in(size);
        let mut flow_state = self.flow_cache.get_or_create(key, now);
        if flow_state.packet_count == 0 {
            self.stats.record_flow_created();
        }
        let index = match find_match(&self.config.rules, &self.compiled_rules, &key) {
            Some(index) => index,
            None => {
                flow_state.update(size, now);
                self.flow_cache.update(flow_state);
                let output = PipelineOutput::passthrough(data);
                assert(contents_of(output.additional@) =~= Seq::<Seq<u8>>::empty());
                return Ok(output);
            },
        };
        self.stats.record_match();
        let rule = &self.config.rules[index];
        let mut ctx = FlowContext::new(&key, &mut flow_state, Some(rule));
        proof {
            assert(contents_of(ctx.output_packets@) =~= Seq::<Seq<u8>>::empty());
        }
        apply_rule(
            &self.transforms,
            &self.config.global,
            &rule.transforms,
            &mut ctx,
            &mut data,
            &mut self.stats,
        );
        ctx.state.update(data.len(), now);
        ctx.state.matched_rule = Some(rule.name.clone());
        let FlowContext { output_packets, delay, drop: should_drop, .. } = ctx;
        self.flow_cache.update(flow_state);
        if should_drop {
            self.stats.record_drop();
            let output = PipelineOutput::dropped();
            assert(contents_of(output.additional@) =~= Seq::<Seq<u8>>::empty());
            return Ok(output);
        }
        self.stats.record_packet_out(data.len());
        count_sent(&mut self.stats, &output_packets);
        Ok(
            PipelineOutput {
                primary: Some(data),
                additional: output_packets,
                delay,
                dropped: false,
                matched_rule: Some(rule.name.clone()),
            },
        )
    }

    pub fn flow_cache(&self) -> (cache: &FlowCache)
        ensures
            cache@ == self.flows(),
    {
        &self.flow_cache
    }

    pub fn stats(&self) -> (stats: &Stats)
        ensures
            *stats == self.counters(),
    {
        &self.stats
    }

    /// Starts the counters anew. Nothing else changes.
    pub fn reset_stats(&mut self)
        requires
            old(self).wf(),
        ensures
            final(self).wf(),
            final(self).counters() == Stats::zero(),
            final(self).flows() == old(self).flows(),
            final(self).settings() == old(self).settings(),
            final(self).transforms() == old(self).transforms(),
            final(self).capacity() == old(self).capacity(),
            final(self).timeout() == old(self).timeout(),
    {
        self.stats.reset();
    }

    /// Counts a packet of `size` bytes that passed through untouched, on its
    /// way back to the client: once as come in and once as sent.
    pub fn count_relayed(&mut self, size: usize)
        requires
            old(self).wf(),
        ensures
            final(self).wf(),
            final(self).counters() == old(self).counters().with_packet_in(size).with_packet_out(
                size,
            ),
            final(self).flows() == old(self).flows(),
            final(self).settings() == old(self).settings(),
            final(self).transforms() == old(self).transforms(),
            final(self).capacity() == old(self).capacity(),
            final(self).timeout() == old(self).timeout(),
    {
        self.stats.record_packet_in(size);
        self.stats.record_packet_out(size);
    }

    /// Gives up the flows that have expired at `now`, counts each as
    /// evicted, and says how many they were.
    pub fn cleanup(&mut self, now: u64) -> (count: usize)
        requires
            old(self).wf(),
        ensures
            final(self).wf(),
            final(self).flows() == unexpired(old(self).flows(), now, old(self).timeout()),
            count == old(self).flows().len() - final(self).flows().len(),
            final(self).counters() == evicted(old(self).counters(), count as nat),
            final(self).settings() == old(self).settings(),
            final(self).transforms() == old(self).transforms(),
            final(self).capacity() == old(self).capacity(),
            final(self).timeout() == old(self).timeout(),
    {
        let count = self.flow_cache.cleanup(now);
        let ghost cache = self.flow_cache;
        let mut i: usize = 0;
        while i < count
            invariant
                i <= count,
                self.stats == evicted(old(self).stats, i as nat),
                self.config == old(self).config,
                self.transforms == old(self).transforms,
                self.compiled_rules == old(self).compiled_rules,
                self.flow_cache == cache,
            decreases count - i,
        {
            self.stats.record_flow_evicted();
            i += 1;
        }
        count
    }
}

} // verus!
