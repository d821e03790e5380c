//! Cuts a packet into fragments.

use crate::buffers::{contents, contents_of, joined, lemma_joined_push, slice_of};
use crate::config::{FragmentParams, TransformParams};
use crate::error::EngineError;
use crate::flow::{FlowContext, TransformState};
use crate::transform::{add_count, wrapping_count, Effect, Transform, TransformResult};
use bytes::BytesMut;
use vstd::prelude::*;
use vstd::slice::slice_subrange;

verus! {

pub struct FragmentTransform {
    params: FragmentParams,
}

/// The size of the next fragment when `remaining` bytes are left: the
/// largest size, or, when sizes vary, a size between the smallest and the
/// largest that is derived from `remaining`.
pub open spec fn fragment_size(params: FragmentParams, remaining: int) -> int {
    if params.randomize {
        let range = params.max_size - params.min_size;
        if range == 0 {
            params.min_size as int
        } else {
            params.min_size + (remaining * 31337) % (range + 1)
        }
    } else {
        params.max_size as int
    }
}

/// `s` cut from the front into fragments of `fragment_size`; the last holds
/// what is left.
pub open spec fn sized_pieces(params: FragmentParams, s: Seq<u8>) -> Seq<Seq<u8>>
    decreases s.len(),
{
    let size = fragment_size(params, s.len() as int);
    if s.len() == 0 {
        Seq::<Seq<u8>>::empty()
    } else if size <= 0 || size >= s.len() {
        seq![s]
    } else {
        seq![s.take(size)] + sized_pieces(params, s.skip(size))
    }
}

/// The fragments of `s`: the two sides of the configured offset when that
/// lies inside `s`, and `sized_pieces` otherwise.
pub open spec fn fragments_of(params: FragmentParams, s: Seq<u8>) -> Seq<Seq<u8>> {
    match params.split_at_offset {
        Some(at) if 0 < at < s.len() => seq![s.take(at as int), s.skip(at as int)],
        _ => sized_pieces(params, s),
    }
}

/// The smallest fragment is positive and no larger than the largest.
pub open spec fn sound(params: FragmentParams) -> bool {
    params.min_size > 0 && params.max_size >= params.min_size
}

/// The fragments of a packet, joined in their order, are the packet.
pub proof fn lemma_fragments_join(params: FragmentParams, s: Seq<u8>)
    requires
        sound(params),
    ensures
        joined(fragments_of(params, s)) == s,
{
    match params.split_at_offset {
        Some(at) if 0 < at < s.len() => {
            lemma_joined_push(Seq::<Seq<u8>>::empty(), s.take(at as int));
            lemma_joined_push(seq![s.take(at as int)], s.skip(at as int));
            assert(Seq::<Seq<u8>>::empty().push(s.take(at as int)) =~= seq![s.take(at as int)]);
            assert(seq![s.take(at as int)].push(s.skip(at as int)) =~= seq![
                s.take(at as int),
                s.skip(at as int),
            ]);
            assert(joined(Seq::<Seq<u8>>::empty()) + s.take(at as int) + s.skip(at as int) =~= s);
        },
        _ => {
            lemma_sized_pieces_join(params, s);
        },
    }
}

proof fn lemma_sized_pieces_join(params: FragmentParams, s: Seq<u8>)
    requires
        sound(params),
    ensures
        joined(sized_pieces(params, s)) == s,
    decreases s.len(),
{
    let size = fragment_size(params, s.len() as int);
    if s.len() == 0 {
        assert(joined(sized_pieces(params, s)) =~= s);
    } else if size <= 0 || size >= s.len() {
        lemma_joined_push(Seq::<Seq<u8>>::empty(), s);
        assert(Seq::<Seq<u8>>::empty().push(s) =~= seq![s]);
        assert(joined(Seq::<Seq<u8>>::empty()) + s =~= s);
    } else {
        lemma_sized_pieces_join(params, s.skip(size));
        crate::buffers::lemma_joined_concat(seq![s.take(size)], sized_pieces(params, s.skip(size)));
        lemma_joined_push(Seq::<Seq<u8>>::empty(), s.take(size));
        assert(Seq::<Seq<u8>>::empty().push(s.take(size)) =~= seq![s.take(size)]);
        assert(joined(Seq::<Seq<u8>>::empty()) + s.take(size) =~= s.take(size));
        assert(s.take(size) + s.skip(size) =~= s);
    }
}

/// What a fragmenting transform leaves in the packet and what it emits,
/// joined in that order, are the bytes that the packet held.
pub proof fn lemma_fragmenting_keeps_the_bytes(
    transform: FragmentTransform,
    packet_count: u64,
    state: TransformState,
    data: Seq<u8>,
)
    requires
        transform.ready(),
    ensures
        joined(
            seq![transform.effect(packet_count, state, data).data] + transform.effect(
                packet_count,
                state,
                data,
            ).emitted,
        ) == data,
{
    let pieces = fragments_of(transform.params(), data);
    lemma_fragments_join(transform.params(), data);
    if data.len() <= transform.params().min_size || pieces.len() <= 1 {
        lemma_joined_push(Seq::<Seq<u8>>::empty(), data);
        assert(seq![data] + Seq::<Seq<u8>>::empty() =~= Seq::<Seq<u8>>::empty().push(data));
        assert(joined(Seq::<Seq<u8>>::empty()) + data =~= data);
    } else {
        assert(seq![pieces[0]] + pieces.skip(1) =~= pieces);
    }
}

impl FragmentTransform {
    /// The parameters that the transform was made with.
    pub closed spec fn params(&self) -> FragmentParams {
        self.params
    }

    pub fn new(params: &FragmentParams) -> (transform: Self)
        ensures
            transform.params() == *params,
    {
        FragmentTransform { params: *params }
    }

    pub fn calculate_fragment_size(&self, remaining: usize) -> (size: usize)
        requires
            sound(self.params()),
        ensures
            size == fragment_size(self.params(), remaining as int),
            self.params().min_size <= size <= self.params().max_size,
    {
        if self.params.randomize {
            let range = self.params.max_size - self.params.min_size;
            if range == 0 {
                self.params.min_size
            } else {
                let modulus: u128 = range as u128 + 1;
                let pseudo_random: u128 = (remaining as u128 * 31337) % modulus;
                self.params.min_size + (pseudo_random as usize)
            }
        } else {
            self.params.max_size
        }
    }

    /// Cuts `data` into the fragments of `fragments_of`. Joined in order they
    /// are `data`.
    pub fn fragment_data(&self, data: &[u8]) -> (fragments: Vec<BytesMut>)
        requires
            sound(self.params()),
        ensures
            contents_of(fragments@) == fragments_of(self.params(), data@),
            joined(contents_of(fragments@)) == data@,
    {
        let mut fragments: Vec<BytesMut> = Vec::new();
        let len = data.len();
        if let Some(split_at) = self.params.split_at_offset {
            if split_at > 0 && split_at < len {
                push_piece(&mut fragments, data, 0, split_at);
                push_piece(&mut fragments, data, split_at, len);
                proof {
                    assert(data@.subrange(0, split_at as int) =~= data@.take(split_at as int));
                    assert(data@.subrange(split_at as int, len as int) =~= data@.skip(
                        split_at as int,
                    ));
                    assert(contents_of(fragments@) =~= seq![
                        data@.take(split_at as int),
                        data@.skip(split_at as int),
                    ]);
                    assert(Seq::<u8>::empty() + data@.take(split_at as int) + data@.skip(
                        split_at as int,
                    ) =~= data@);
                }
                return fragments;
            }
        }
        let mut offset: usize = 0;
        proof {
            assert(data@.skip(0) =~= data@);
            assert(contents_of(fragments@) + sized_pieces(self.params, data@) =~= sized_pieces(
                self.params,
                data@,
            ));
            assert(data@.take(0) =~= Seq::<u8>::empty());
        }
        while offset < len
            invariant
                offset <= len == data@.len(),
                sound(self.params),
                contents_of(fragments@) + sized_pieces(self.params, data@.skip(offset as int))
                    == sized_pieces(self.params, data@),
                joined(contents_of(fragments@)) == data@.take(offset as int),
            decreases len - offset,
        {
            let remaining = len - offset;
            let wanted = self.calculate_fragment_size(remaining);
            let size = if wanted < remaining {
                wanted
            } else {
                remaining
            };
            let ghost before = contents_of(fragments@);
            let ghost rest = data@.skip(offset as int);
            push_piece(&mut fragments, data, offset, offset + size);
            proof {
                assert(rest.len() == remaining);
                if wanted >= remaining {
                    assert(rest =~= data@.subrange(offset as int, offset + size));
                    assert(data@.skip(offset + size) =~= Seq::<u8>::empty());
                    assert(before.push(rest) + Seq::<Seq<u8>>::empty() =~= before + seq![rest]);
                } else {
                    assert(rest.take(size as int) =~= data@.subrange(offset as int, offset + size));
                    assert(rest.skip(size as int) =~= data@.skip(offset + size));
                    assert(before.push(rest.take(size as int)) + sized_pieces(
                        self.params,
                        data@.skip(offset + size),
                    ) =~= before + (seq![rest.take(size as int)] + sized_pieces(
                        self.params,
                        data@.skip(offset + size),
                    )));
                }
                assert(data@.take(offset as int) + data@.subrange(offset as int, offset + size)
                    =~= data@.take(offset + size));
            }
            offset += size;
        }
        proof {
            assert(data@.skip(len as int) =~= Seq::<u8>::empty());
            assert(contents_of(fragments@) + Seq::<Seq<u8>>::empty() =~= contents_of(fragments@));
            assert(data@.take(len as int) =~= data@);
        }
        fragments
    }
}

/// Appends a buffer holding a copy of `data[from..to]`.
pub fn push_piece(pieces: &mut Vec<BytesMut>, data: &[u8], from: usize, to: usize)
    requires
        from <= to <= data@.len(),
    ensures
        final(pieces)@.len() == old(pieces)@.len() + 1,
        contents_of(final(pieces)@) == contents_of(old(pieces)@).push(
            data@.subrange(from as int, to as int),
        ),
        joined(contents_of(final(pieces)@)) == joined(contents_of(old(pieces)@)) + data@.subrange(
            from as int,
            to as int,
        ),
{
    let piece = BytesMut::from(slice_subrange(data, from, to));
    pieces.push(piece);
    proof {
        assert(contents_of(pieces@) =~= contents_of(old(pieces)@).push(
            data@.subrange(from as int, to as int),
        ));
        lemma_joined_push(contents_of(old(pieces)@), data@.subrange(from as int, to as int));
    }
}

/// Puts the first of `pieces` into `data` and emits the others, in order.
pub fn hand_out(ctx: &mut FlowContext<'_>, data: &mut BytesMut, pieces: Vec<BytesMut>)
    requires
        pieces@.len() >= 1,
    ensures
        contents(*final(data)) == contents_of(pieces@)[0],
        contents_of(final(ctx).output_packets@) == contents_of(old(ctx).output_packets@)
            + contents_of(pieces@).skip(1),
        final(ctx).delay == old(ctx).delay,
        final(ctx).drop == old(ctx).drop,
        final(ctx).key == old(ctx).key,
        final(ctx).rule == old(ctx).rule,
        *final(ctx).state == *old(ctx).state,
        *final(final(ctx).state) == *final(old(ctx).state),
{
    let ghost all = contents_of(pieces@);
    let ghost start = contents_of(ctx.output_packets@);
    let mut rest = pieces;
    let mut first = true;
    let mut taken: usize = 0;
    let total = rest.len();
    // The pieces come off the end of the list, so they are put in place
    // back to front.
    let mut reversed: Vec<BytesMut> = Vec::new();
    while rest.len() > 0
        invariant
            rest@.len() + reversed@.len() == total,
            total == all.len(),
            contents_of(rest@) == all.take(rest@.len() as int),
            forall|i: int|
                0 <= i < reversed@.len() ==> contents(#[trigger] reversed@[i]) == all[total - 1
                    - i],
        decreases rest@.len(),
    {
        let ghost before = rest@;
        let piece = rest.pop().unwrap();
        reversed.push(piece);
        proof {
            assert(contents_of(rest@) =~= all.take(rest@.len() as int));
            assert(contents(piece) == contents_of(before)[before.len() - 1]);
        }
    }
    while reversed.len() > 0
        invariant
            taken + reversed@.len() == total,
            total == all.len(),
            total >= 1,
            forall|i: int|
                0 <= i < reversed@.len() ==> contents(#[trigger] reversed@[i]) == all[total - 1
                    - i],
            taken >= 1 ==> contents(*data) == all[0],
            taken >= 1 ==> contents_of(ctx.output_packets@) == start + all.subrange(
                1,
                taken as int,
            ),
            taken == 0 ==> ctx.output_packets == old(ctx).output_packets,
            start == contents_of(old(ctx).output_packets@),
            ctx.delay == old(ctx).delay,
            ctx.drop == old(ctx).drop,
            ctx.key == old(ctx).key,
            ctx.rule == old(ctx).rule,
            *ctx.state == *old(ctx).state,
            *final(ctx.state) == *final(old(ctx).state),
        decreases reversed@.len(),
    {
        let piece = reversed.pop().unwrap();
        if taken == 0 {
            *data = piece;
            proof {
                assert(start + all.subrange(1, 1) =~= start);
            }
        } else {
            let ghost held = contents_of(ctx.output_packets@);
            ctx.emit(piece);
            proof {
                assert(contents_of(ctx.output_packets@) =~= held.push(contents(piece)));
                assert(start + all.subrange(1, taken as int + 1) =~= (start + all.subrange(
                    1,
                    taken as int,
                )).push(all[taken as int]));
            }
        }
        taken += 1;
    }
    proof {
        assert(all.subrange(1, total as int) =~= all.skip(1));
    }
}

impl Transform for FragmentTransform {
    open spec fn label(&self) -> Seq<char> {
        "fragment"@
    }

    open spec fn ready(&self) -> bool {
        sound(self.params())
    }

    /// A packet no longer than the smallest fragment is left alone, and so
    /// is one that gives a single fragment. Any other is cut into its
    /// fragments, which are counted.
    open spec fn effect(&self, packet_count: u64, state: TransformState, data: Seq<u8>) -> Effect {
        let pieces = fragments_of(self.params(), data);
        if data.len() <= self.params().min_size || pieces.len() <= 1 {
            Effect::none(state, data)
        } else {
            Effect::pieces(
                TransformState {
                    fragment: crate::flow::FragmentState {
                        fragments_generated: wrapping_count(
                            state.fragment.fragments_generated,
                            pieces.len(),
                        ),
                    },
                    ..state
                },
                pieces,
            )
        }
    }

    open spec fn enabled_by(&self, params: TransformParams) -> bool {
        true
    }

    fn name(&self) -> (name: &'static str) {
        "fragment"
    }

    fn apply(&self, ctx: &mut FlowContext<'_>, data: &mut BytesMut) -> (result: Result<
        TransformResult,
        EngineError,
    >) {
        if data.len() <= self.params.min_size {
            return Ok(TransformResult::Continue);
        }
        let fragments = self.fragment_data(slice_of(data));
        if fragments.len() <= 1 {
            return Ok(TransformResult::Continue);
        }
        ctx.state.transform_state.fragment.fragments_generated = add_count(
            ctx.state.transform_state.fragment.fragments_generated,
            fragments.len(),
        );
        hand_out(ctx, data, fragments);
        Ok(TransformResult::Fragmented)
    }

    fn is_enabled(&self, params: &TransformParams) -> (yes: bool) {
        true
    }

    fn reset(&self) {
    }
}

} // verus!
