//! Asks for a delay before a packet is sent.

use crate::config::{JitterParams, TransformParams};
use crate::error::EngineError;
use crate::flow::{FlowContext, JitterState, TransformState};
use crate::transform::{Effect, Outcome, Transform, TransformResult};
use bytes::BytesMut;
use vstd::prelude::*;

verus! {

pub struct JitterTransform {
    params: JitterParams,
}

/// The number from which the delay of a packet is derived: the number of
/// packets that its flow has seen, times 31337, plus the packet's length.
pub open spec fn jitter_seed(packet_count: u64, len: usize) -> u64 {
    packet_count.wrapping_mul(31337).wrapping_add(len as u64)
}

/// How many milliseconds of delay `seed` gives: none when the longest is
/// none, and else a number between the shortest and the longest.
pub open spec fn jitter_ms(params: JitterParams, seed: u64) -> int {
    if params.max_ms == 0 {
        0
    } else if params.max_ms == params.min_ms {
        params.min_ms as int
    } else {
        params.min_ms + (seed as int) % (params.max_ms - params.min_ms + 1)
    }
}

impl JitterTransform {
    /// The parameters that the transform was made with.
    pub closed spec fn params(&self) -> JitterParams {
        self.params
    }

    pub fn new(params: &JitterParams) -> (transform: Self)
        ensures
            transform.params() == *params,
    {
        JitterTransform { params: *params }
    }

    /// The delay that `seed` gives, in milliseconds.
    pub fn calculate_jitter(&self, seed: u64) -> (ms: u64)
        requires
            self.params().min_ms <= self.params().max_ms,
        ensures
            ms == jitter_ms(self.params(), seed),
            self.params().max_ms > 0 ==> self.params().min_ms <= ms <= self.params().max_ms,
    {
        if self.params.max_ms == 0 {
            return 0;
        }
        let range = self.params.max_ms - self.params.min_ms;
        if range == 0 {
            return self.params.min_ms;
        }
        let modulus: u128 = range as u128 + 1;
        let extra: u128 = (seed as u128) % modulus;
        self.params.min_ms + (extra as u64)
    }
}

impl Transform for JitterTransform {
    open spec fn label(&self) -> Seq<char> {
        "jitter"@
    }

    open spec fn ready(&self) -> bool {
        true
    }

    /// Asks for the delay that the packet's seed gives, and adds it to the
    /// flow's jitter. No delay is asked for when the longest is none or the
    /// seed gives none. A shortest above the longest is a failure.
    open spec fn effect(&self, packet_count: u64, state: TransformState, data: Seq<u8>) -> Effect {
        let seed = jitter_seed(packet_count, data.len() as usize);
        let ms = jitter_ms(self.params(), seed);
        if self.params().max_ms == 0 {
            Effect::none(state, data)
        } else if self.params().min_ms > self.params().max_ms {
            Effect::failure(state, data, "jitter range is empty"@)
        } else if ms == 0 {
            Effect::none(state, data)
        } else {
            Effect {
                outcome: Outcome::Delay,
                data,
                emitted: Seq::<Seq<u8>>::empty(),
                delay: Some(ms as u64),
                state: TransformState {
                    jitter: JitterState {
                        last_jitter_ms: ms as u64,
                        total_jitter_ms: state.jitter.total_jitter_ms.wrapping_add(ms as u64),
                    },
                    ..state
                },
            }
        }
    }

    open spec fn enabled_by(&self, params: TransformParams) -> bool {
        params.jitter.max_ms > 0
    }

    fn name(&self) -> (name: &'static str) {
        "jitter"
    }

    fn apply(&self, ctx: &mut FlowContext<'_>, data: &mut BytesMut) -> (result: Result<
        TransformResult,
        EngineError,
    >) {
        if self.params.max_ms == 0 {
            return Ok(TransformResult::Continue);
        }
        if self.params.min_ms > self.params.max_ms {
            return Ok(TransformResult::Error("jitter range is empty".to_owned()));
        }
        let seed = ctx.state.packet_count.wrapping_mul(31337).wrapping_add(data.len() as u64);
        let jitter = self.calculate_jitter(seed);
        if jitter == 0 {
            return Ok(TransformResult::Continue);
        }
        ctx.state.transform_state.jitter.last_jitter_ms = jitter;
        ctx.state.transform_state.jitter.total_jitter_ms =
            ctx.state.transform_state.jitter.total_jitter_ms.wrapping_add(jitter);
        ctx.request_delay(jitter);
        Ok(TransformResult::Delay)
    }

    fn is_enabled(&self, params: &TransformParams) -> (yes: bool) {
        params.jitter.max_ms > 0
    }

    fn reset(&self) {
    }
}

} // verus!
