//! The transforms that a rule can apply to a packet.
//!
//! A transform changes the packet in place, may hand the pipeline further
//! packets to send after it, and may ask for a delay. What it does is a
//! function of the transform's parameters, the number of packets the flow has
//! seen, the flow's transform counters and the bytes of the packet: the
//! `effect` of the transform.

pub mod decoy;
pub mod fragment;
pub mod header;
pub mod jitter;
pub mod padding;
pub mod resegment;

use crate::buffers::{contents, contents_of};
use crate::config::TransformParams;
use crate::error::EngineError;
use crate::flow::{FlowContext, FlowState, TransformState};
use crate::pipeline::TransformSet;
use bytes::BytesMut;
use vstd::prelude::*;

pub use decoy::DecoyTransform;
pub use fragment::FragmentTransform;
pub use header::HeaderNormalizationTransform;
pub use jitter::JitterTransform;
pub use padding::PaddingTransform;
pub use resegment::ResegmentTransform;

verus! {

/// What a transform tells the pipeline.
#[derive(Debug, Clone, PartialEq, Eq)]
pub enum TransformResult {
    /// The packet was changed in place, or left alone.
    Continue,
    /// The packet now holds the first of several; the others were emitted.
    Fragmented,
    /// A delay was asked for.
    Delay,
    /// The packet is to be dropped.
    Drop,
    /// No further transform is to be applied.
    Skip,
    /// The transform could not do its work.
    Error(String),
}

/// A `TransformResult`, with the message of an error as its characters.
pub enum Outcome {
    Continue,
    Fragmented,
    Delay,
    Drop,
    Skip,
    Error(Seq<char>),
}

impl TransformResult {
    pub open spec fn outcome(self) -> Outcome {
        match self {
            TransformResult::Continue => Outcome::Continue,
            TransformResult::Fragmented => Outcome::Fragmented,
            TransformResult::Delay => Outcome::Delay,
            TransformResult::Drop => Outcome::Drop,
            TransformResult::Skip => Outcome::Skip,
            TransformResult::Error(message) => Outcome::Error(message@),
        }
    }
}

/// What a transform does to one packet.
pub struct Effect {
    pub outcome: Outcome,
    /// The bytes of the packet afterwards.
    pub data: Seq<u8>,
    /// The packets emitted, in order.
    pub emitted: Seq<Seq<u8>>,
    /// The delay asked for, in milliseconds.
    pub delay: Option<u64>,
    /// The flow's transform counters afterwards.
    pub state: TransformState,
}

impl Effect {
    /// The effect of leaving everything as it is.
    pub open spec fn none(state: TransformState, data: Seq<u8>) -> Effect {
        Effect {
            outcome: Outcome::Continue,
            data,
            emitted: Seq::<Seq<u8>>::empty(),
            delay: None,
            state,
        }
    }

    /// The effect of failing with `message` and leaving everything as it is.
    pub open spec fn failure(state: TransformState, data: Seq<u8>, message: Seq<char>) -> Effect {
        Effect {
            outcome: Outcome::Error(message),
            data,
            emitted: Seq::<Seq<u8>>::empty(),
            delay: None,
            state,
        }
    }

    /// The effect of cutting the packet into `pieces`, of which there are at
    /// least two: the packet keeps the first, the others are emitted.
    pub open spec fn pieces(state: TransformState, pieces: Seq<Seq<u8>>) -> Effect {
        Effect {
            outcome: Outcome::Fragmented,
            data: pieces[0],
            emitted: pieces.skip(1),
            delay: None,
            state,
        }
    }
}

/// `count + more`, starting again from zero past the largest `u32`.
pub open spec fn wrapping_count(count: u32, more: nat) -> u32 {
    ((count + more) % 0x1_0000_0000) as u32
}

/// Adds a number of pieces to a counter.
pub fn add_count(count: u32, more: usize) -> (sum: u32)
    ensures
        sum == wrapping_count(count, more as nat),
{
    let low: u32 = ((more as u64) % 0x1_0000_0000) as u32;
    count.wrapping_add(low)
}

pub trait Transform {
    /// The transform's name.
    spec fn label(&self) -> Seq<char>;

    /// Whether the transform's parameters allow it to run.
    spec fn ready(&self) -> bool;

    /// What the transform does to a packet holding `data`, for a flow that
    /// has seen `packet_count` packets and has the transform counters `state`.
    spec fn effect(&self, packet_count: u64, state: TransformState, data: Seq<u8>) -> Effect;

    /// Whether `params` switch this kind of transform on.
    spec fn enabled_by(&self, params: TransformParams) -> bool;

    fn name(&self) -> (name: &'static str)
        ensures
            name@ == self.label(),
    ;

    /// Applies the transform: the packet, the context and the flow end up as
    /// `effect` says, and nothing else changes.
    fn apply(&self, ctx: &mut FlowContext<'_>, data: &mut BytesMut) -> (result: Result<
        TransformResult,
        EngineError,
    >)
        requires
            self.ready(),
        ensures
            result matches Ok(verdict) && verdict.outcome() == self.effect(
                old(ctx).state.packet_count,
                old(ctx).state.transform_state,
                contents(*old(data)),
            ).outcome,
            contents(*final(data)) == self.effect(
                old(ctx).state.packet_count,
                old(ctx).state.transform_state,
                contents(*old(data)),
            ).data,
            contents_of(final(ctx).output_packets@) == contents_of(old(ctx).output_packets@)
                + self.effect(
                old(ctx).state.packet_count,
                old(ctx).state.transform_state,
                contents(*old(data)),
            ).emitted,
            final(ctx).delay == match self.effect(
                old(ctx).state.packet_count,
                old(ctx).state.transform_state,
                contents(*old(data)),
            ).delay {
                Some(ms) => Some(ms),
                None => old(ctx).delay,
            },
            *final(ctx).state == (FlowState {
                transform_state: self.effect(
                    old(ctx).state.packet_count,
                    old(ctx).state.transform_state,
                    contents(*old(data)),
                ).state,
                ..*old(ctx).state
            }),
            final(ctx).drop == old(ctx).drop,
            final(ctx).key == old(ctx).key,
            final(ctx).rule == old(ctx).rule,
            *final(final(ctx).state) == *final(old(ctx).state),
    ;

    fn is_enabled(&self, params: &TransformParams) -> (yes: bool)
        ensures
            yes == self.enabled_by(*params),
    ;

    /// Forgets whatever the transform keeps between packets.
    fn reset(&self);
}

/// A transform of any kind, behind one type. It is the transform that it
/// holds: it has that transform's name and does what that transform does.
pub struct BoxedTransform(pub Box<dyn Transform>);

impl Transform for BoxedTransform {
    open spec fn label(&self) -> Seq<char> {
        self.0.label()
    }

    open spec fn ready(&self) -> bool {
        self.0.ready()
    }

    open spec fn effect(&self, packet_count: u64, state: TransformState, data: Seq<u8>) -> Effect {
        self.0.effect(packet_count, state, data)
    }

    open spec fn enabled_by(&self, params: TransformParams) -> bool {
        self.0.enabled_by(params)
    }

    fn name(&self) -> (name: &'static str) {
        self.0.name()
    }

    fn apply(&self, ctx: &mut FlowContext<'_>, data: &mut BytesMut) -> (result: Result<
        TransformResult,
        EngineError,
    >) {
        self.0.apply(ctx, data)
    }

    fn is_enabled(&self, params: &TransformParams) -> (yes: bool) {
        self.0.is_enabled(params)
    }

    fn reset(&self) {
        self.0.reset()
    }
}

impl BoxedTransform {
    /// Whether this is `transform` behind the common type: it has its name,
    /// runs when it runs, does what it does, and is switched on with it.
    pub open spec fn holds<T: Transform>(self, transform: T) -> bool {
        &&& self.label() == transform.label()
        &&& self.ready() == transform.ready()
        &&& forall|packet_count: u64, state: TransformState, data: Seq<u8>|
            #[trigger] self.effect(packet_count, state, data) == transform.effect(
                packet_count,
                state,
                data,
            )
        &&& forall|params: TransformParams| #[trigger]
            self.enabled_by(params) == transform.enabled_by(params)
    }

    /// Puts a fragmenting transform behind the common type.
    pub fn from_fragment(transform: FragmentTransform) -> (boxed: Self)
        ensures
            boxed.holds(transform),
    {
        BoxedTransform(Box::new(transform))
    }

    /// Puts a resegmenting transform behind the common type.
    pub fn from_resegment(transform: ResegmentTransform) -> (boxed: Self)
        ensures
            boxed.holds(transform),
    {
        BoxedTransform(Box::new(transform))
    }

    /// Puts a padding transform behind the common type.
    pub fn from_padding(transform: PaddingTransform) -> (boxed: Self)
        ensures
            boxed.holds(transform),
    {
        BoxedTransform(Box::new(transform))
    }

    /// Puts a jitter transform behind the common type.
    pub fn from_jitter(transform: JitterTransform) -> (boxed: Self)
        ensures
            boxed.holds(transform),
    {
        BoxedTransform(Box::new(transform))
    }

    /// Puts a header-normalizing transform behind the common type.
    pub fn from_header(transform: HeaderNormalizationTransform) -> (boxed: Self)
        ensures
            boxed.holds(transform),
    {
        BoxedTransform(Box::new(transform))
    }

    /// Puts a decoy transform behind the common type.
    pub fn from_decoy(transform: DecoyTransform) -> (boxed: Self)
        ensures
            boxed.holds(transform),
    {
        BoxedTransform(Box::new(transform))
    }
}

/// Whether `list` holds the six transforms of `set`: fragment, resegment,
/// padding, jitter, header normalization and decoy, in this order.
pub open spec fn lists(list: Seq<BoxedTransform>, set: TransformSet) -> bool {
    &&& list.len() == 6
    &&& list[0].holds(set.fragment)
    &&& list[1].holds(set.resegment)
    &&& list[2].holds(set.padding)
    &&& list[3].holds(set.jitter)
    &&& list[4].holds(set.header)
    &&& list[5].holds(set.decoy)
}

/// One transform of each kind, made from `params`: fragment, resegment,
/// padding, jitter, header normalization and decoy, in this order. They are
/// the transforms of every set that is made from `params`.
pub fn create_all_transforms(params: &TransformParams) -> (transforms: Vec<BoxedTransform>)
    ensures
        transforms@.len() == 6,
        transforms@[0].label() == "fragment"@,
        transforms@[1].label() == "resegment"@,
        transforms@[2].label() == "padding"@,
        transforms@[3].label() == "jitter"@,
        transforms@[4].label() == "header_normalization"@,
        transforms@[5].label() == "decoy"@,
        forall|set: TransformSet| #[trigger] set.made_from(*params) ==> lists(transforms@, set),
{
    let mut transforms: Vec<BoxedTransform> = Vec::new();
    transforms.push(BoxedTransform::from_fragment(FragmentTransform::new(&params.fragment)));
    transforms.push(BoxedTransform::from_resegment(ResegmentTransform::new(&params.resegment)));
    transforms.push(BoxedTransform::from_padding(PaddingTransform::new(&params.padding)));
    transforms.push(BoxedTransform::from_jitter(JitterTransform::new(&params.jitter)));
    transforms.push(BoxedTransform::from_header(HeaderNormalizationTransform::new(&params.header)));
    transforms.push(BoxedTransform::from_decoy(DecoyTransform::new(&params.decoy)));
    transforms
}

/// What a transform does depends on nothing but its parameters, the number
/// of packets that the flow has seen, the flow's transform counters and the
/// bytes of the packet: two runs that begin alike end alike. The flow's key
/// plays no part.
pub proof fn lemma_effect_is_determined<T: Transform>(
    transform: T,
    packet_count: u64,
    state: TransformState,
    data: Seq<u8>,
    first: Effect,
    second: Effect,
)
    requires
        first == transform.effect(packet_count, state, data),
        second == transform.effect(packet_count, state, data),
    ensures
        first == second,
{
}

} // verus!
