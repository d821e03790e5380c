//! Cuts a packet into segments of one size.

use crate::buffers::{contents_of, joined, slice_of};
use crate::config::{ResegmentParams, TransformParams};
use crate::error::EngineError;
use crate::flow::{FlowContext, ResegmentState, TransformState};
use crate::transform::fragment::{hand_out, push_piece};
use crate::transform::{add_count, wrapping_count, Effect, Transform, TransformResult};
use bytes::BytesMut;
use vstd::prelude::*;

verus! {

pub struct ResegmentTransform {
    params: ResegmentParams,
}

/// `s` cut from the front into at most `left` segments of `size` bytes, and
/// one more segment for whatever is left after those.
pub open spec fn cut_segments(s: Seq<u8>, size: int, left: int) -> Seq<Seq<u8>>
    decreases left,
{
    if s.len() == 0 {
        Seq::<Seq<u8>>::empty()
    } else if left <= 0 {
        seq![s]
    } else {
        let k = if size < s.len() {
            size
        } else {
            s.len() as int
        };
        seq![s.take(k)] + cut_segments(s.skip(k), size, left - 1)
    }
}

/// The segments of `s` under `params`.
pub open spec fn segments_of(params: ResegmentParams, s: Seq<u8>) -> Seq<Seq<u8>> {
    cut_segments(s, params.segment_size as int, params.max_segments as int)
}

/// The segments of a packet, joined in their order, are the packet.
pub proof fn lemma_segments_join(s: Seq<u8>, size: int, left: int)
    requires
        0 <= size,
    ensures
        joined(cut_segments(s, size, left)) == s,
    decreases left,
{
    if s.len() == 0 {
        assert(joined(cut_segments(s, size, left)) =~= s);
    } else if left <= 0 {
        crate::buffers::lemma_joined_push(Seq::<Seq<u8>>::empty(), s);
        assert(Seq::<Seq<u8>>::empty().push(s) =~= seq![s]);
        assert(joined(Seq::<Seq<u8>>::empty()) + s =~= s);
    } else {
        let k = if size < s.len() {
            size
        } else {
            s.len() as int
        };
        lemma_segments_join(s.skip(k), size, left - 1);
        crate::buffers::lemma_joined_concat(seq![s.take(k)], cut_segments(s.skip(k), size, left - 1));
        crate::buffers::lemma_joined_push(Seq::<Seq<u8>>::empty(), s.take(k));
        assert(Seq::<Seq<u8>>::empty().push(s.take(k)) =~= seq![s.take(k)]);
        assert(joined(Seq::<Seq<u8>>::empty()) + s.take(k) =~= s.take(k));
        assert(s.take(k) + s.skip(k) =~= s);
    }
}

/// What a resegmenting transform leaves in the packet and what it emits,
/// joined in that order, are the bytes that the packet held.
pub proof fn lemma_resegmenting_keeps_the_bytes(
    transform: ResegmentTransform,
    packet_count: u64,
    state: TransformState,
    data: Seq<u8>,
)
    ensures
        joined(
            seq![transform.effect(packet_count, state, data).data] + transform.effect(
                packet_count,
                state,
                data,
            ).emitted,
        ) == data,
{
    let pieces = segments_of(transform.params(), data);
    lemma_segments_join(
        data,
        transform.params().segment_size as int,
        transform.params().max_segments as int,
    );
    if data.len() <= transform.params().segment_size || pieces.len() <= 1 {
        crate::buffers::lemma_joined_push(Seq::<Seq<u8>>::empty(), data);
        assert(seq![data] + Seq::<Seq<u8>>::empty() =~= Seq::<Seq<u8>>::empty().push(data));
        assert(joined(Seq::<Seq<u8>>::empty()) + data =~= data);
    } else {
        assert(seq![pieces[0]] + pieces.skip(1) =~= pieces);
    }
}

impl ResegmentTransform {
    /// The parameters that the transform was made with.
    pub closed spec fn params(&self) -> ResegmentParams {
        self.params
    }

    pub fn new(params: &ResegmentParams) -> (transform: Self)
        ensures
            transform.params() == *params,
    {
        ResegmentTransform { params: *params }
    }

    /// Cuts `data` into the segments of `segments_of`. Joined in order they
    /// are `data`.
    pub fn segment_data(&self, data: &[u8]) -> (segments: Vec<BytesMut>)
        ensures
            contents_of(segments@) == segments_of(self.params(), data@),
            joined(contents_of(segments@)) == data@,
    {
        let mut segments: Vec<BytesMut> = Vec::new();
        let len = data.len();
        let size = self.params.segment_size;
        let max = self.params.max_segments;
        let mut offset: usize = 0;
        let mut count: usize = 0;
        proof {
            assert(data@.skip(0) =~= data@);
            assert(contents_of(segments@) + cut_segments(data@, size as int, max as int)
                =~= cut_segments(data@, size as int, max as int));
            assert(data@.take(0) =~= Seq::<u8>::empty());
        }
        while offset < len && count < max
            invariant
                offset <= len == data@.len(),
                count <= max,
                contents_of(segments@) + cut_segments(
                    data@.skip(offset as int),
                    size as int,
                    max - count,
                ) == cut_segments(data@, size as int, max as int),
                joined(contents_of(segments@)) == data@.take(offset as int),
            decreases max - count,
        {
            let remaining = len - offset;
            let k = if size < remaining {
                size
            } else {
                remaining
            };
            let ghost before = contents_of(segments@);
            let ghost rest = data@.skip(offset as int);
            push_piece(&mut segments, data, offset, offset + k);
            proof {
                assert(rest.take(k as int) =~= data@.subrange(offset as int, offset + k));
                assert(rest.skip(k as int) =~= data@.skip(offset + k));
                assert(before.push(rest.take(k as int)) + cut_segments(
                    data@.skip(offset + k),
                    size as int,
                    max - count - 1,
                ) =~= before + (seq![rest.take(k as int)] + cut_segments(
                    data@.skip(offset + k),
                    size as int,
                    max - count - 1,
                )));
                assert(data@.take(offset as int) + data@.subrange(offset as int, offset + k)
                    =~= data@.take(offset + k));
            }
            offset += k;
            count += 1;
        }
        if offset < len {
            let ghost before = contents_of(segments@);
            let ghost rest = data@.skip(offset as int);
            push_piece(&mut segments, data, offset, len);
            proof {
                assert(rest =~= data@.subrange(offset as int, len as int));
                assert(before.push(rest) =~= before + seq![rest]);
                assert(data@.take(offset as int) + rest =~= data@);
            }
        } else {
            proof {
                assert(data@.skip(offset as int) =~= Seq::<u8>::empty());
                assert(contents_of(segments@) + Seq::<Seq<u8>>::empty() =~= contents_of(
                    segments@,
                ));
                assert(data@.take(len as int) =~= data@);
            }
        }
        segments
    }
}

impl Transform for ResegmentTransform {
    open spec fn label(&self) -> Seq<char> {
        "resegment"@
    }

    open spec fn ready(&self) -> bool {
        true
    }

    /// A packet no longer than one segment is left alone, and so is one that
    /// gives a single segment. Any other is cut into its segments, which are
    /// counted.
    open spec fn effect(&self, packet_count: u64, state: TransformState, data: Seq<u8>) -> Effect {
        let pieces = segments_of(self.params(), data);
        if data.len() <= self.params().segment_size || pieces.len() <= 1 {
            Effect::none(state, data)
        } else {
            Effect::pieces(
                TransformState {
                    resegment: ResegmentState {
                        segments_generated: wrapping_count(
                            state.resegment.segments_generated,
                            pieces.len(),
                        ),
                    },
                    ..state
                },
                pieces,
            )
        }
    }

    open spec fn enabled_by(&self, params: TransformParams) -> bool {
        true
    }

    fn name(&self) -> (name: &'static str) {
        "resegment"
    }

    fn apply(&self, ctx: &mut FlowContext<'_>, data: &mut BytesMut) -> (result: Result<
        TransformResult,
        EngineError,
    >) {
        if data.len() <= self.params.segment_size {
            return Ok(TransformResult::Continue);
        }
        let segments = self.segment_data(slice_of(data));
        if segments.len() <= 1 {
            return Ok(TransformResult::Continue);
        }
        ctx.state.transform_state.resegment.segments_generated = add_count(
            ctx.state.transform_state.resegment.segments_generated,
            segments.len(),
        );
        hand_out(ctx, data, segments);
        Ok(TransformResult::Fragmented)
    }

    fn is_enabled(&self, params: &TransformParams) -> (yes: bool) {
        true
    }

    fn reset(&self) {
    }
}

} // verus!
