//! Rewrites fields of an IPv4 header and of the TCP header behind it.

use crate::buffers::{contents, set_byte, slice_of};
use crate::config::{HeaderParams, TransformParams};
use crate::error::EngineError;
use crate::flow::{FlowContext, TransformState};
use crate::transform::{Effect, Outcome, Transform, TransformResult};
use bytes::BytesMut;
use vstd::prelude::*;

verus! {

pub struct HeaderNormalizationTransform {
    params: HeaderParams,
}

/// The number from which a packet's new IP identification is derived: the
/// number of packets that its flow has seen, times 0xDEADBEEF.
pub open spec fn header_seed(packet_count: u64) -> u64 {
    packet_count.wrapping_mul(0xDEADBEEF)
}

/// Whether `s` begins with an IPv4 header: at least twenty bytes, of which
/// the first has 4 in its high half.
pub open spec fn is_ipv4(s: Seq<u8>) -> bool {
    s.len() >= 20 && (s[0] >> 4) & 0x0f == 4
}

/// The high byte of the new IP identification: bits 24 to 31 of the seed.
pub open spec fn ip_id_high(seed: u64) -> u8 {
    ((seed >> 24) & 0xff) as u8
}

/// The low byte of the new IP identification: bits 16 to 23 of the seed.
pub open spec fn ip_id_low(seed: u64) -> u8 {
    ((seed >> 16) & 0xff) as u8
}

/// The IPv4 header after normalization: the TTL (byte 8) set to the
/// configured value and the identification (bytes 4 and 5) taken from the
/// seed, each as far as the parameters ask. Bytes that are no IPv4 packet
/// stay as they are.
pub open spec fn normalized_ipv4(params: HeaderParams, s: Seq<u8>, seed: u64) -> Seq<u8> {
    if !is_ipv4(s) {
        s
    } else {
        let with_ttl = if params.normalize_ttl {
            s.update(8, params.ttl_value)
        } else {
            s
        };
        if params.randomize_ip_id {
            with_ttl.update(4, ip_id_high(seed)).update(5, ip_id_low(seed))
        } else {
            with_ttl
        }
    }
}

/// Where the TCP header of the IPv4 packet `s` begins: after as many 32-bit
/// words as the low half of the first byte says. `None` unless the packet
/// carries TCP (protocol 6) and has twenty bytes from there on.
pub open spec fn tcp_header_at(s: Seq<u8>) -> Option<int> {
    if is_ipv4(s) && s[9] == 6 && s.len() >= (s[0] & 0x0f) * 4 + 20 {
        Some((s[0] & 0x0f) * 4)
    } else {
        None
    }
}

/// The packet after its TCP window (bytes 14 and 15 of the TCP header) was
/// set to 0xFFFF, when the parameters ask for it and there is a TCP header.
pub open spec fn normalized_tcp(params: HeaderParams, s: Seq<u8>) -> Seq<u8> {
    match tcp_header_at(s) {
        Some(at) if params.normalize_window => s.update(at + 14, 0xffu8).update(at + 15, 0xffu8),
        _ => s,
    }
}

/// A packet that does not begin with an IPv4 header, or has fewer than
/// twenty bytes, leaves the transform as it came.
pub proof fn lemma_leaves_other_packets(
    transform: HeaderNormalizationTransform,
    packet_count: u64,
    state: TransformState,
    data: Seq<u8>,
)
    requires
        data.len() < 20 || (data[0] >> 4) & 0x0f != 4,
    ensures
        transform.effect(packet_count, state, data).data == data,
        transform.effect(packet_count, state, data).emitted.len() == 0,
        transform.effect(packet_count, state, data).outcome is Continue,
{
}

impl HeaderNormalizationTransform {
    /// The parameters that the transform was made with.
    pub closed spec fn params(&self) -> HeaderParams {
        self.params
    }

    pub fn new(params: &HeaderParams) -> (transform: Self)
        ensures
            transform.params() == *params,
    {
        HeaderNormalizationTransform { params: *params }
    }

    fn starts_ipv4(data: &[u8]) -> (yes: bool)
        ensures
            yes == is_ipv4(data@),
    {
        if data.len() < 20 {
            return false;
        }
        let version = (data[0] >> 4) & 0x0f;
        version == 4
    }

    fn normalize_ipv4(&self, data: &mut BytesMut, seed: u64)
        ensures
            contents(*final(data)) == normalized_ipv4(self.params, contents(*old(data)), seed),
    {
        if !Self::starts_ipv4(slice_of(data)) {
            return ;
        }
        if self.params.normalize_ttl {
            set_byte(data, 8, self.params.ttl_value);
        }
        if self.params.randomize_ip_id {
            let high: u64 = (seed >> 24) & 0xff;
            let low: u64 = (seed >> 16) & 0xff;
            assert(high <= 0xff && low <= 0xff) by (bit_vector)
                requires
                    high == (seed >> 24) & 0xff,
                    low == (seed >> 16) & 0xff,
            ;
            set_byte(data, 4, high as u8);
            set_byte(data, 5, low as u8);
        }
    }

    pub fn tcp_offset(&self, data: &[u8]) -> (offset: Option<usize>)
        ensures
            match offset {
                Some(at) => tcp_header_at(data@) == Some(at as int) && at + 20 <= data@.len(),
                None => tcp_header_at(data@) is None,
            },
    {
        if !Self::starts_ipv4(data) {
            return None;
        }
        if data[9] != 6 {
            return None;
        }
        let first: u8 = data[0];
        let words: u8 = first & 0x0f;
        assert(words <= 15) by (bit_vector)
            requires
                words == first & 0x0f,
        ;
        let ihl: usize = (words as usize) * 4;
        if data.len() < ihl + 20 {
            return None;
        }
        Some(ihl)
    }

    fn normalize_tcp(&self, data: &mut BytesMut)
        ensures
            contents(*final(data)) == normalized_tcp(self.params, contents(*old(data))),
    {
        if let Some(tcp_offset) = self.tcp_offset(slice_of(data)) {
            if self.params.normalize_window {
                set_byte(data, tcp_offset + 14, 0xff);
                set_byte(data, tcp_offset + 15, 0xff);
            }
        }
    }
}

impl Transform for HeaderNormalizationTransform {
    open spec fn label(&self) -> Seq<char> {
        "header_normalization"@
    }

    open spec fn ready(&self) -> bool {
        true
    }

    /// Normalizes the IPv4 header and then the TCP header, in place.
    open spec fn effect(&self, packet_count: u64, state: TransformState, data: Seq<u8>) -> Effect {
        Effect {
            outcome: Outcome::Continue,
            data: normalized_tcp(
                self.params(),
                normalized_ipv4(self.params(), data, header_seed(packet_count)),
            ),
            emitted: Seq::<Seq<u8>>::empty(),
            delay: None,
            state,
        }
    }

    open spec fn enabled_by(&self, params: TransformParams) -> bool {
        params.header.normalize_ttl || params.header.normalize_window
            || params.header.randomize_ip_id
    }

    fn name(&self) -> (name: &'static str) {
        "header_normalization"
    }

    fn apply(&self, ctx: &mut FlowContext<'_>, data: &mut BytesMut) -> (result: Result<
        TransformResult,
        EngineError,
    >) {
        let seed = ctx.state.packet_count.wrapping_mul(0xDEADBEEF);
        self.normalize_ipv4(data, seed);
        self.normalize_tcp(data);
        Ok(TransformResult::Continue)
    }

    fn is_enabled(&self, params: &TransformParams) -> (yes: bool) {
        params.header.normalize_ttl || params.header.normalize_window
            || params.header.randomize_ip_id
    }

    fn reset(&self) {
    }
}

} // verus!
