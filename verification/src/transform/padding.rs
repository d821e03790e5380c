//! Appends padding to a packet.

use crate::config::{PaddingParams, TransformParams};
use crate::error::EngineError;
use crate::flow::{FlowContext, TransformState};
use crate::transform::{Effect, Outcome, Transform, TransformResult};
use bytes::BytesMut;
use vstd::prelude::*;

verus! {

pub struct PaddingTransform {
    params: PaddingParams,
}

/// The number from which the padding of a packet is derived: the number of
/// packets that its flow has seen, times 48271, plus the packet's length.
pub open spec fn padding_seed(packet_count: u64, len: usize) -> u64 {
    packet_count.wrapping_mul(48271).wrapping_add(len as u64)
}

/// How many bytes of padding `seed` gives: none when the most is none, and
/// else a number between the least and the most.
pub open spec fn padding_size(params: PaddingParams, seed: u64) -> int {
    if params.max_bytes == 0 {
        0
    } else if params.max_bytes == params.min_bytes {
        params.min_bytes as int
    } else {
        params.min_bytes + (seed as int) % (params.max_bytes - params.min_bytes + 1)
    }
}

/// One step of the generator that fills the padding.
pub open spec fn lcg_next(value: u64) -> u64 {
    value.wrapping_mul(1103515245).wrapping_add(12345)
}

/// The generator's value after `steps` steps from `seed`.
pub open spec fn lcg_value(seed: u64, steps: nat) -> u64
    decreases steps,
{
    if steps == 0 {
        seed
    } else {
        lcg_next(lcg_value(seed, (steps - 1) as nat))
    }
}

/// The byte that the generator's value gives: its bits 16 to 23.
pub open spec fn lcg_byte(value: u64) -> u8 {
    ((value >> 16) & 0xff) as u8
}

/// `size` bytes of padding: the fill byte throughout when there is one, and
/// else the bytes of the generator's first `size` steps from `seed`.
pub open spec fn padding_bytes(params: PaddingParams, size: nat, seed: u64) -> Seq<u8> {
    Seq::new(
        size,
        |i: int|
            match params.fill_byte {
                Some(byte) => byte,
                None => lcg_byte(lcg_value(seed, (i + 1) as nat)),
            },
    )
}

impl PaddingTransform {
    /// The parameters that the transform was made with.
    pub closed spec fn params(&self) -> PaddingParams {
        self.params
    }

    pub fn new(params: &PaddingParams) -> (transform: Self)
        ensures
            transform.params() == *params,
    {
        PaddingTransform { params: *params }
    }

    pub fn calculate_padding_size(&self, seed: u64) -> (size: usize)
        requires
            self.params().min_bytes <= self.params().max_bytes,
        ensures
            size == padding_size(self.params(), seed),
            self.params().max_bytes > 0 ==> self.params().min_bytes <= size
                <= self.params().max_bytes,
    {
        if self.params.max_bytes == 0 {
            return 0;
        }
        let range = self.params.max_bytes - self.params.min_bytes;
        if range == 0 {
            return self.params.min_bytes;
        }
        let modulus: u128 = range as u128 + 1;
        let extra: u128 = (seed as u128) % modulus;
        self.params.min_bytes + (extra as usize)
    }

    pub fn generate_padding(&self, size: usize, seed: u64) -> (padding: Vec<u8>)
        ensures
            padding@ == padding_bytes(self.params(), size as nat, seed),
    {
        let mut padding: Vec<u8> = Vec::new();
        let mut value = seed;
        let mut i: usize = 0;
        while i < size
            invariant
                i <= size,
                value == lcg_value(seed, i as nat),
                padding@ == padding_bytes(self.params, i as nat, seed),
            decreases size - i,
        {
            value = value.wrapping_mul(1103515245).wrapping_add(12345);
            let byte = match self.params.fill_byte {
                Some(byte) => byte,
                None => {
                    let low: u64 = (value >> 16) & 0xff;
                    assert(low <= 0xff) by (bit_vector)
                        requires
                            low == (value >> 16) & 0xff,
                    ;
                    low as u8
                },
            };
            padding.push(byte);
            i += 1;
            assert(padding@ =~= padding_bytes(self.params, i as nat, seed));
        }
        padding
    }
}

/// Where the range of sizes is not empty and the packet leaves room for the
/// most padding, padding keeps the packet's bytes and appends to them: as
/// many bytes as the packet's seed gives, which is no less than the least and
/// no more than the most, and with a fill byte nothing but that byte. It
/// emits nothing, asks for no delay and leaves the flow's counters alone.
pub proof fn lemma_padding_appends(
    transform: PaddingTransform,
    packet_count: u64,
    state: TransformState,
    data: Seq<u8>,
)
    requires
        0 < transform.params().max_bytes,
        transform.params().min_bytes <= transform.params().max_bytes,
        data.len() + transform.params().max_bytes <= isize::MAX,
    ensures
        ({
            let after = transform.effect(packet_count, state, data);
            let seed = padding_seed(packet_count, data.len() as usize);
            &&& after.outcome == Outcome::Continue
            &&& after.data.len() == data.len() + padding_size(transform.params(), seed)
            &&& transform.params().min_bytes <= after.data.len() - data.len()
                <= transform.params().max_bytes
            &&& after.data.subrange(0, data.len() as int) == data
            &&& after.data.subrange(data.len() as int, after.data.len() as int) == padding_bytes(
                transform.params(),
                (after.data.len() - data.len()) as nat,
                seed,
            )
            &&& forall|i: int|
                data.len() <= i < after.data.len() ==> (transform.params().fill_byte matches Some(
                    byte,
                ) ==> #[trigger] after.data[i] == byte)
            &&& after.emitted.len() == 0
            &&& after.delay is None
            &&& after.state == state
        }),
{
    let params = transform.params();
    let seed = padding_seed(packet_count, data.len() as usize);
    let size = padding_size(params, seed);
    if params.max_bytes != params.min_bytes {
        let span = params.max_bytes - params.min_bytes + 1;
        assert(0 <= (seed as int) % span < span);
    }
    let after = transform.effect(packet_count, state, data);
    if size == 0 {
        assert(after.data.subrange(0, data.len() as int) =~= data);
        assert(after.data.subrange(data.len() as int, after.data.len() as int)
            =~= padding_bytes(params, 0, seed));
    } else {
        let added = padding_bytes(params, size as nat, seed);
        assert(after.data == data + added);
        assert(after.data.subrange(0, data.len() as int) =~= data);
        assert(after.data.subrange(data.len() as int, after.data.len() as int) =~= added);
        assert forall|i: int| data.len() <= i < after.data.len() implies (params.fill_byte matches Some(
            byte,
        ) ==> #[trigger] after.data[i] == byte) by {
            assert(after.data[i] == added[i - data.len()]);
        }
    }
}

/// Padding is a function of the parameters, the number of packets that the
/// flow has seen and the packet: two transforms with the same parameters do
/// the same to equal packets at equal counts, whatever the flows' keys and
/// counters are otherwise.
pub proof fn lemma_padding_is_determined(
    first: PaddingTransform,
    second: PaddingTransform,
    packet_count: u64,
    first_state: TransformState,
    second_state: TransformState,
    data: Seq<u8>,
)
    requires
        first.params() == second.params(),
    ensures
        first.effect(packet_count, first_state, data).outcome == second.effect(
            packet_count,
            second_state,
            data,
        ).outcome,
        first.effect(packet_count, first_state, data).data == second.effect(
            packet_count,
            second_state,
            data,
        ).data,
        first.effect(packet_count, first_state, data).emitted == second.effect(
            packet_count,
            second_state,
            data,
        ).emitted,
        first.effect(packet_count, first_state, data).delay == second.effect(
            packet_count,
            second_state,
            data,
        ).delay,
{
}

impl Transform for PaddingTransform {
    open spec fn label(&self) -> Seq<char> {
        "padding"@
    }

    open spec fn ready(&self) -> bool {
        true
    }

    /// Appends the padding that the packet's seed gives. Nothing is appended
    /// when the most is no padding at all or the seed gives none. A least
    /// above the most, and a packet that would outgrow the largest buffer,
    /// are failures that leave the packet alone.
    open spec fn effect(&self, packet_count: u64, state: TransformState, data: Seq<u8>) -> Effect {
        let seed = padding_seed(packet_count, data.len() as usize);
        let size = padding_size(self.params(), seed);
        if self.params().max_bytes == 0 {
            Effect::none(state, data)
        } else if self.params().min_bytes > self.params().max_bytes {
            Effect::failure(state, data, "padding range is empty"@)
        } else if size == 0 {
            Effect::none(state, data)
        } else if data.len() + size > isize::MAX {
            Effect::failure(state, data, "padded packet would be too large"@)
        } else {
            Effect {
                outcome: Outcome::Continue,
                data: data + padding_bytes(self.params(), size as nat, seed),
                emitted: Seq::<Seq<u8>>::empty(),
                delay: None,
                state,
            }
        }
    }

    open spec fn enabled_by(&self, params: TransformParams) -> bool {
        params.padding.max_bytes > 0
    }

    fn name(&self) -> (name: &'static str) {
        "padding"
    }

    fn apply(&self, ctx: &mut FlowContext<'_>, data: &mut BytesMut) -> (result: Result<
        TransformResult,
        EngineError,
    >) {
        if self.params.max_bytes == 0 {
            return Ok(TransformResult::Continue);
        }
        if self.params.min_bytes > self.params.max_bytes {
            return Ok(TransformResult::Error("padding range is empty".to_owned()));
        }
        let len = data.len();
        let seed = ctx.state.packet_count.wrapping_mul(48271).wrapping_add(len as u64);
        let padding_size = self.calculate_padding_size(seed);
        if padding_size == 0 {
            return Ok(TransformResult::Continue);
        }
        let largest: usize = isize::MAX as usize;
        if len > largest || padding_size > largest - len {
            return Ok(TransformResult::Error("padded packet would be too large".to_owned()));
        }
        let padding = self.generate_padding(padding_size, seed);
        data.extend_from_slice(padding.as_slice());
        Ok(TransformResult::Continue)
    }

    fn is_enabled(&self, params: &TransformParams) -> (yes: bool) {
        params.padding.max_bytes > 0
    }

    fn reset(&self) {
    }
}

} // verus!
