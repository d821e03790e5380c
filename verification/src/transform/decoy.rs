//! Sends a decoy beside a packet: a copy that a middlebox reads and that
//! expires before it reaches the destination.

use crate::buffers::{contents, contents_of, set_byte, slice_of};
use crate::config::{DecoyParams, TransformParams};
use crate::error::EngineError;
use crate::flow::{FlowContext, TransformState};
use crate::transform::header::is_ipv4;
use crate::transform::{Effect, Outcome, Transform, TransformResult};
use bytes::BytesMut;
use vstd::prelude::*;

verus! {

pub struct DecoyTransform {
    params: DecoyParams,
}

/// The number that decides whether a packet gets a decoy: the number of
/// packets that its flow has seen, times 0x1337CAFE, plus the packet's
/// length.
pub open spec fn decoy_seed(packet_count: u64, len: usize) -> u64 {
    packet_count.wrapping_mul(0x1337CAFE).wrapping_add(len as u64)
}

/// Whether `seed` gives a decoy: never at a probability of nothing, always
/// at a thousand in a thousand, and else when the seed's last three decimal
/// digits lie below the probability.
pub open spec fn wants_decoy(params: DecoyParams, seed: u64) -> bool {
    if params.probability_permille == 0 {
        false
    } else if params.probability_permille >= 1000 {
        true
    } else {
        seed % 1000 < params.probability_permille
    }
}

/// The decoy of the IPv4 packet `s`: a copy with the configured TTL in byte
/// 8 and with every bit of the identification (bytes 4 and 5) turned over.
/// `None` for bytes that do not begin with an IPv4 header.
pub open spec fn decoy_of(params: DecoyParams, s: Seq<u8>) -> Option<Seq<u8>> {
    if is_ipv4(s) {
        Some(s.update(8, params.ttl).update(4, s[4] ^ 0xff).update(5, s[5] ^ 0xff))
    } else {
        None
    }
}

impl DecoyTransform {
    /// The parameters that the transform was made with.
    pub closed spec fn params(&self) -> DecoyParams {
        self.params
    }

    pub fn new(params: &DecoyParams) -> (transform: Self)
        ensures
            transform.params() == *params,
    {
        DecoyTransform { params: *params }
    }

    pub fn create_decoy(&self, packet: &[u8]) -> (decoy: Option<BytesMut>)
        ensures
            match decoy_of(self.params(), packet@) {
                Some(bytes) => decoy matches Some(buffer) && contents(buffer) == bytes,
                None => decoy is None,
            },
    {
        if packet.len() < 20 {
            return None;
        }
        let version = (packet[0] >> 4) & 0x0f;
        if version != 4 {
            return None;
        }
        let mut decoy = BytesMut::from(packet);
        set_byte(&mut decoy, 8, self.params.ttl);
        set_byte(&mut decoy, 4, packet[4] ^ 0xff);
        set_byte(&mut decoy, 5, packet[5] ^ 0xff);
        Some(decoy)
    }

    pub fn should_send_decoy(&self, seed: u64) -> (yes: bool)
        ensures
            yes == wants_decoy(self.params(), seed),
    {
        if self.params.probability_permille == 0 {
            return false;
        }
        if self.params.probability_permille >= 1000 {
            return true;
        }
        (seed % 1000) < self.params.probability_permille as u64
    }
}

impl Transform for DecoyTransform {
    open spec fn label(&self) -> Seq<char> {
        "decoy"@
    }

    open spec fn ready(&self) -> bool {
        true
    }

    /// When the seed gives a decoy and the packet is an IPv4 packet: a decoy
    /// sent before takes the packet's place and the packet is emitted after
    /// it; a decoy sent after is emitted last. Otherwise nothing happens.
    open spec fn effect(&self, packet_count: u64, state: TransformState, data: Seq<u8>) -> Effect {
        let seed = decoy_seed(packet_count, data.len() as usize);
        if !self.params().send_before && !self.params().send_after {
            Effect::none(state, data)
        } else if !wants_decoy(self.params(), seed) {
            Effect::none(state, data)
        } else {
            match decoy_of(self.params(), data) {
                Some(decoy) => Effect {
                    outcome: Outcome::Fragmented,
                    data: if self.params().send_before {
                        decoy
                    } else {
                        data
                    },
                    emitted: (if self.params().send_before {
                        seq![data]
                    } else {
                        Seq::<Seq<u8>>::empty()
                    }) + (if self.params().send_after {
                        seq![decoy]
                    } else {
                        Seq::<Seq<u8>>::empty()
                    }),
                    delay: None,
                    state,
                },
                None => Effect::none(state, data),
            }
        }
    }

    open spec fn enabled_by(&self, params: TransformParams) -> bool {
        params.decoy.probability_permille > 0 && (params.decoy.send_before
            || params.decoy.send_after)
    }

    fn name(&self) -> (name: &'static str) {
        "decoy"
    }

    fn apply(&self, ctx: &mut FlowContext<'_>, data: &mut BytesMut) -> (result: Result<
        TransformResult,
        EngineError,
    >) {
        if !self.params.send_before && !self.params.send_after {
            return Ok(TransformResult::Continue);
        }
        let seed = ctx.state.packet_count.wrapping_mul(0x1337CAFE).wrapping_add(data.len() as u64);
        if !self.should_send_decoy(seed) {
            return Ok(TransformResult::Continue);
        }
        let decoy = match self.create_decoy(slice_of(data)) {
            Some(decoy) => decoy,
            None => {
                return Ok(TransformResult::Continue);
            },
        };
        let ghost start = contents_of(ctx.output_packets@);
        let ghost packet_bytes = contents(*data);
        if self.params.send_before {
            let packet = data.clone();
            *data = decoy.clone();
            ctx.emit(packet);
            proof {
                assert(contents_of(ctx.output_packets@) =~= start + seq![packet_bytes]);
            }
        }
        let ghost middle = contents_of(ctx.output_packets@);
        if self.params.send_after {
            ctx.emit(decoy);
            proof {
                assert(contents_of(ctx.output_packets@) =~= middle + seq![contents(decoy)]);
            }
        }
        proof {
            assert(start + Seq::<Seq<u8>>::empty() =~= start);
            assert(start + (seq![packet_bytes] + seq![contents(decoy)]) =~= start + seq![packet_bytes]
                + seq![contents(decoy)]);
            assert(Seq::<Seq<u8>>::empty() + seq![contents(decoy)] =~= seq![contents(decoy)]);
            assert(seq![packet_bytes] + Seq::<Seq<u8>>::empty() =~= seq![packet_bytes]);
            assert(Seq::<Seq<u8>>::empty() + Seq::<Seq<u8>>::empty() =~= Seq::<Seq<u8>>::empty());
        }
        Ok(TransformResult::Fragmented)
    }

    fn is_enabled(&self, params: &TransformParams) -> (yes: bool) {
        params.decoy.probability_permille > 0 && (params.decoy.send_before
            || params.decoy.send_after)
    }

    fn reset(&self) {
    }
}

} // verus!
