//! The fragment engine: reshapes the first bytes of a flow into several
//! writes, so that the host name never travels in one piece.

use crate::buffers::{
    contents, fixed_pieces, frozen, frozen_of, joined, lemma_fixed_pieces_join, lemma_joined_push,
    set_byte,
};
use crate::tls::{
    find_host_header_start, find_http_host, host_header_start, http_host_field, is_client_hello,
    is_http_request, lemma_sni_field_bounds, looks_like_client_hello, looks_like_http_request,
    parse_client_hello, sni_bytes, sni_field,
};
use bytes::{Bytes, BytesMut};
use vstd::prelude::*;
use vstd::slice::slice_subrange;
use vstd::utf8::{encode_utf8, valid_utf8};

verus! {

/// The fragmentation policy.
#[derive(Debug, Clone, Copy)]
pub struct BypassConfig {
    /// Whether a TLS ClientHello is fragmented at all.
    pub fragment_sni: bool,
    /// The offset at which a ClientHello is split; 0 asks for a split in the
    /// middle of the server name.
    pub tls_split_pos: usize,
    /// Whether an HTTP request is fragmented at all.
    pub fragment_http_host: bool,
    /// The offset of the split, counted from the `h` of the `Host` header.
    pub http_split_pos: usize,
    /// Whether a decoy copy of the ClientHello is produced.
    pub send_fake_packets: bool,
    /// The IP TTL with which the caller should send the decoy.
    pub fake_packet_ttl: u8,
    /// The pause between two fragment writes, in microseconds; 0 for none.
    pub fragment_delay_us: u64,
    pub use_tcp_segmentation: bool,
    pub min_segment_size: usize,
    /// The largest piece into which the part before the split is cut.
    pub max_segment_size: usize,
}

impl Default for BypassConfig {
    fn default() -> (config: Self)
        ensures
            config == Self::preset(3, 2, 1, 0, 40),
    {
        BypassConfig {
            fragment_sni: true,
            tls_split_pos: 3,
            fragment_http_host: true,
            http_split_pos: 2,
            send_fake_packets: false,
            fake_packet_ttl: 1,
            fragment_delay_us: 0,
            use_tcp_segmentation: true,
            min_segment_size: 1,
            max_segment_size: 40,
        }
    }
}

impl BypassConfig {
    /// A policy that fragments both protocols, sends no decoys and differs
    /// from the others only in the values given.
    pub open spec fn preset(
        tls_split_pos: usize,
        http_split_pos: usize,
        fake_packet_ttl: u8,
        fragment_delay_us: u64,
        max_segment_size: usize,
    ) -> Self {
        BypassConfig {
            fragment_sni: true,
            tls_split_pos,
            fragment_http_host: true,
            http_split_pos,
            send_fake_packets: false,
            fake_packet_ttl,
            fragment_delay_us,
            use_tcp_segmentation: true,
            min_segment_size: 1,
            max_segment_size,
        }
    }

    pub fn turk_telekom() -> (config: Self)
        ensures
            config == Self::preset(2, 2, 1, 0, 20),
    {
        BypassConfig {
            fragment_sni: true,
            tls_split_pos: 2,
            fragment_http_host: true,
            http_split_pos: 2,
            send_fake_packets: false,
            fake_packet_ttl: 1,
            fragment_delay_us: 0,
            use_tcp_segmentation: true,
            min_segment_size: 1,
            max_segment_size: 20,
        }
    }

    pub fn vodafone_tr() -> (config: Self)
        ensures
            config == Self::preset(3, 3, 1, 100, 30),
    {
        BypassConfig {
            fragment_sni: true,
            tls_split_pos: 3,
            fragment_http_host: true,
            http_split_pos: 3,
            send_fake_packets: false,
            fake_packet_ttl: 1,
            fragment_delay_us: 100,
            use_tcp_segmentation: true,
            min_segment_size: 1,
            max_segment_size: 30,
        }
    }

    pub fn superonline() -> (config: Self)
        ensures
            config == Self::preset(1, 1, 1, 0, 15),
    {
        BypassConfig {
            fragment_sni: true,
            tls_split_pos: 1,
            fragment_http_host: true,
            http_split_pos: 1,
            send_fake_packets: false,
            fake_packet_ttl: 1,
            fragment_delay_us: 0,
            use_tcp_segmentation: true,
            min_segment_size: 1,
            max_segment_size: 15,
        }
    }

    pub fn aggressive() -> (config: Self)
        ensures
            config == Self::preset(0, 1, 3, 10000, 5),
    {
        BypassConfig {
            fragment_sni: true,
            tls_split_pos: 0,
            fragment_http_host: true,
            http_split_pos: 1,
            send_fake_packets: false,
            fake_packet_ttl: 3,
            fragment_delay_us: 10000,
            use_tcp_segmentation: true,
            min_segment_size: 1,
            max_segment_size: 5,
        }
    }

    /// The offset at which the ClientHello `s` is split: the configured
    /// offset; with none configured, the middle of the server name (its start
    /// when the name has two bytes or fewer); with no server name found,
    /// offset 5. Never past the last byte.
    pub open spec fn tls_split(&self, s: Seq<u8>) -> int {
        let last = s.len() - 1;
        let wanted: int = if self.tls_split_pos > 0 {
            self.tls_split_pos as int
        } else {
            match sni_field(s) {
                Some((offset, len)) => if len > 2 {
                    offset + len / 2
                } else {
                    offset
                },
                None => 5,
            }
        };
        if wanted < last {
            wanted
        } else {
            last
        }
    }

    /// The offset at which the HTTP request `s` is split, given the offset of
    /// its `Host` header. Never past the last byte.
    pub open spec fn http_split(&self, s: Seq<u8>, header: int) -> int {
        let last = s.len() - 1;
        if header + self.http_split_pos < last {
            header + self.http_split_pos
        } else {
            last
        }
    }

    /// The largest piece of the part before a TLS split: at least one byte.
    pub open spec fn segment_size(&self) -> int {
        if self.max_segment_size >= 1 {
            self.max_segment_size as int
        } else {
            1
        }
    }

    /// Whether the policy reshapes the buffer `s`.
    pub open spec fn modifies(&self, s: Seq<u8>) -> bool {
        if looks_like_client_hello(s) {
            self.fragment_sni
        } else if looks_like_http_request(s) {
            self.fragment_http_host && http_host_field(s) is Some
        } else {
            false
        }
    }

    /// The fragments into which the policy cuts the buffer `s`.
    pub open spec fn fragments_of(&self, s: Seq<u8>) -> Seq<Seq<u8>> {
        if !self.modifies(s) {
            seq![s]
        } else if looks_like_client_hello(s) {
            let split = self.tls_split(s);
            fixed_pieces(s.take(split), self.segment_size()).push(s.skip(split))
        } else {
            let split = self.http_split(s, host_header_start(s).unwrap());
            seq![s.take(split), s.skip(split)]
        }
    }

    /// The bytes in which the host name of `s` was found, whether or not
    /// they are text.
    pub open spec fn hostname_bytes(&self, s: Seq<u8>) -> Option<Seq<u8>> {
        if looks_like_client_hello(s) {
            if self.fragment_sni {
                sni_bytes(s)
            } else {
                None
            }
        } else if looks_like_http_request(s) && self.fragment_http_host {
            match http_host_field(s) {
                Some((offset, len)) => Some(s.subrange(offset, offset + len)),
                None => None,
            }
        } else {
            None
        }
    }

    /// The decoy for the buffer `s`: a copy in which every byte of the server
    /// name is `x`. The copy is unchanged when no name was found or the name
    /// runs past the end of the buffer. No decoy unless the policy asks for it
    /// and the buffer is a ClientHello being fragmented.
    pub open spec fn decoy_of(&self, s: Seq<u8>) -> Option<Seq<u8>> {
        if self.send_fake_packets && self.fragment_sni && looks_like_client_hello(s) {
            Some(masked_name(s))
        } else {
            None
        }
    }
}

/// The ClientHello `s` with its server name overwritten by `x`, when the name
/// lies within the buffer; `s` itself otherwise.
pub open spec fn masked_name(s: Seq<u8>) -> Seq<u8> {
    match sni_field(s) {
        Some((offset, len)) => if offset + len <= s.len() {
            Seq::new(
                s.len(),
                |i: int|
                    if offset <= i < offset + len {
                        0x78u8
                    } else {
                        s[i]
                    },
            )
        } else {
            s
        },
        None => s,
    }
}

/// Whatever the policy and whatever the bytes: the fragments of a buffer,
/// joined in their order, are the buffer.
pub proof fn lemma_fragments_reassemble(config: BypassConfig, s: Seq<u8>)
    ensures
        joined(config.fragments_of(s)) == s,
{
    if !config.modifies(s) {
        lemma_joined_push(Seq::<Seq<u8>>::empty(), s);
        assert(Seq::<Seq<u8>>::empty().push(s) =~= seq![s]);
        assert(joined(Seq::<Seq<u8>>::empty()) + s =~= s);
    } else if looks_like_client_hello(s) {
        lemma_sni_field_bounds(s);
        let split = config.tls_split(s);
        assert(0 <= split <= s.len());
        lemma_fixed_pieces_join(s.take(split), config.segment_size());
        lemma_joined_push(fixed_pieces(s.take(split), config.segment_size()), s.skip(split));
        assert(s.take(split) + s.skip(split) =~= s);
    } else {
        crate::tls::lemma_host_marker_bounds(s, 0);
        let split = config.http_split(s, host_header_start(s).unwrap());
        assert(0 <= split <= s.len());
        lemma_joined_push(Seq::<Seq<u8>>::empty(), s.take(split));
        lemma_joined_push(seq![s.take(split)], s.skip(split));
        assert(Seq::<Seq<u8>>::empty().push(s.take(split)) =~= seq![s.take(split)]);
        assert(seq![s.take(split)].push(s.skip(split)) =~= seq![s.take(split), s.skip(split)]);
        assert(joined(Seq::<Seq<u8>>::empty()) + s.take(split) + s.skip(split) =~= s);
    }
}

/// What the engine made of a buffer.
#[derive(Debug)]
pub struct BypassResult {
    /// The writes to make, in order. Joined, they are the input.
    pub fragments: Vec<Bytes>,
    /// The pause between two writes, in microseconds.
    pub inter_fragment_delay: Option<u64>,
    /// A decoy to send with a low TTL, for backends that can.
    pub fake_packet: Option<Bytes>,
    pub modified: bool,
    pub protocol: DetectedProtocol,
    pub hostname: Option<String>,
}

impl Default for BypassResult {
    fn default() -> (result: Self)
        ensures
            result.fragments@.len() == 0,
            result.inter_fragment_delay is None,
            result.fake_packet is None,
            !result.modified,
            result.protocol == DetectedProtocol::Unknown,
            result.hostname is None,
    {
        BypassResult {
            fragments: Vec::new(),
            inter_fragment_delay: None,
            fake_packet: None,
            modified: false,
            protocol: DetectedProtocol::Unknown,
            hostname: None,
        }
    }
}

#[derive(Debug, Clone, Copy, PartialEq, Eq, Structural)]
pub enum DetectedProtocol {
    TlsClientHello,
    HttpRequest,
    Unknown,
}

/// The protocol that the first bytes of a flow speak.
pub open spec fn protocol_of(s: Seq<u8>) -> DetectedProtocol {
    if looks_like_client_hello(s) {
        DetectedProtocol::TlsClientHello
    } else if looks_like_http_request(s) {
        DetectedProtocol::HttpRequest
    } else {
        DetectedProtocol::Unknown
    }
}

pub struct BypassEngine {
    config: BypassConfig,
}

impl BypassEngine {
    /// The policy that the engine applies.
    pub closed spec fn policy(&self) -> BypassConfig {
        self.config
    }

    pub fn new(config: BypassConfig) -> (engine: Self)
        ensures
            engine.policy() == config,
    {
        BypassEngine { config }
    }

    /// Reshapes the first bytes of a flow.
    ///
    /// The fragments are those of `BypassConfig::fragments_of`; joined in
    /// order they are `data`, byte for byte.
    pub fn process_outgoing(&self, data: &[u8]) -> (result: BypassResult)
        ensures
            result.protocol == protocol_of(data@),
            result.modified == self.policy().modifies(data@),
            frozen_of(result.fragments@) == self.policy().fragments_of(data@),
            joined(frozen_of(result.fragments@)) == data@,
            result.inter_fragment_delay == if self.policy().modifies(data@)
                && self.policy().fragment_delay_us > 0 {
                Some(self.policy().fragment_delay_us)
            } else {
                None
            },
            match self.policy().decoy_of(data@) {
                Some(decoy) => result.fake_packet matches Some(packet) && frozen(packet) == decoy,
                None => result.fake_packet is None,
            },
            match self.policy().hostname_bytes(data@) {
                Some(name) => if valid_utf8(name) {
                    result.hostname matches Some(host) && encode_utf8(host@) == name
                } else {
                    result.hostname is None
                },
                None => result.hostname is None,
            },
    {
        let mut result = BypassResult::default();
        if is_client_hello(data) {
            result.protocol = DetectedProtocol::TlsClientHello;
            self.process_tls_client_hello(data, &mut result);
        } else if is_http_request(data) {
            result.protocol = DetectedProtocol::HttpRequest;
            self.process_http_request(data, &mut result);
        } else {
            push_copy(&mut result.fragments, data, 0, data.len());
            proof {
                lemma_whole(data@);
            }
        }
        result
    }

    fn process_tls_client_hello(&self, data: &[u8], result: &mut BypassResult)
        requires
            looks_like_client_hello(data@),
            old(result).fragments@.len() == 0,
            old(result).inter_fragment_delay is None,
            old(result).fake_packet is None,
            !old(result).modified,
            old(result).hostname is None,
        ensures
            final(result).protocol == old(result).protocol,
            final(result).modified == self.config.fragment_sni,
            frozen_of(final(result).fragments@) == self.config.fragments_of(data@),
            joined(frozen_of(final(result).fragments@)) == data@,
            final(result).inter_fragment_delay == if self.config.fragment_sni
                && self.config.fragment_delay_us > 0 {
                Some(self.config.fragment_delay_us)
            } else {
                None
            },
            match self.config.decoy_of(data@) {
                Some(decoy) => final(result).fake_packet matches Some(packet) && frozen(packet)
                    == decoy,
                None => final(result).fake_packet is None,
            },
            match self.config.hostname_bytes(data@) {
                Some(name) => if valid_utf8(name) {
                    final(result).hostname matches Some(host) && encode_utf8(host@) == name
                } else {
                    final(result).hostname is None
                },
                None => final(result).hostname is None,
            },
    {
        if !self.config.fragment_sni {
            push_copy(&mut result.fragments, data, 0, data.len());
            proof {
                lemma_whole(data@);
            }
            return ;
        }
        let len = data.len();
        let last = len - 1;
        let mut split: usize = 5;
        proof {
            lemma_sni_field_bounds(data@);
        }
        if let Some(info) = parse_client_hello(data) {
            result.hostname = info.sni_hostname;
            if self.config.tls_split_pos > 0 {
                split = self.config.tls_split_pos;
            } else if let (Some(offset), Some(name_len)) = (info.sni_offset, info.sni_length) {
                let half = if name_len > 2 {
                    name_len / 2
                } else {
                    0
                };
                split = if offset >= last || half >= last - offset {
                    last
                } else {
                    offset + half
                };
            }
        }
        if split > last {
            split = last;
        }
        assert(split == self.config.tls_split(data@));
        let segment_size = if self.config.max_segment_size >= 1 {
            self.config.max_segment_size
        } else {
            1
        };
        let ghost prefix = data@.take(split as int);
        let ghost hostname = result.hostname;
        let mut pos: usize = 0;
        proof {
            assert(prefix.skip(0) =~= prefix);
            assert(frozen_of(result.fragments@) + fixed_pieces(prefix, segment_size as int)
                =~= fixed_pieces(prefix, segment_size as int));
            assert(data@.take(0) =~= Seq::<u8>::empty());
        }
        while pos < split
            invariant
                pos <= split < len == data@.len(),
                segment_size >= 1,
                prefix == data@.take(split as int),
                frozen_of(result.fragments@) + fixed_pieces(
                    prefix.skip(pos as int),
                    segment_size as int,
                ) == fixed_pieces(prefix, segment_size as int),
                joined(frozen_of(result.fragments@)) == data@.take(pos as int),
                result.protocol == old(result).protocol,
                result.inter_fragment_delay is None,
                result.fake_packet is None,
                !result.modified,
                result.hostname == hostname,
            decreases split - pos,
        {
            let end = if segment_size >= split - pos {
                split
            } else {
                pos + segment_size
            };
            let ghost before = frozen_of(result.fragments@);
            let ghost rest = prefix.skip(pos as int);
            push_copy(&mut result.fragments, data, pos, end);
            proof {
                assert(rest.len() == split - pos);
                if segment_size >= split - pos {
                    assert(rest =~= data@.subrange(pos as int, end as int));
                    assert(prefix.skip(end as int) =~= Seq::<u8>::empty());
                    assert(before.push(rest) + Seq::<Seq<u8>>::empty() =~= before + seq![rest]);
                } else {
                    assert(rest.take(segment_size as int) =~= data@.subrange(
                        pos as int,
                        end as int,
                    ));
                    assert(rest.skip(segment_size as int) =~= prefix.skip(end as int));
                    assert(before.push(rest.take(segment_size as int)) + fixed_pieces(
                        prefix.skip(end as int),
                        segment_size as int,
                    ) =~= before + (seq![rest.take(segment_size as int)] + fixed_pieces(
                        prefix.skip(end as int),
                        segment_size as int,
                    )));
                }
                assert(data@.take(pos as int) + data@.subrange(pos as int, end as int)
                    =~= data@.take(end as int));
            }
            pos = end;
        }
        proof {
            assert(prefix.skip(split as int) =~= Seq::<u8>::empty());
            assert(frozen_of(result.fragments@) + Seq::<Seq<u8>>::empty() =~= frozen_of(
                result.fragments@,
            ));
        }
        push_copy(&mut result.fragments, data, split, len);
        proof {
            assert(data@.subrange(split as int, len as int) =~= data@.skip(split as int));
            assert(data@.take(split as int) + data@.skip(split as int) =~= data@);
        }
        result.modified = true;
        if self.config.fragment_delay_us > 0 {
            result.inter_fragment_delay = Some(self.config.fragment_delay_us);
        }
        if self.config.send_fake_packets {
            result.fake_packet = Some(self.generate_fake_tls_packet(data));
        }
    }

    fn process_http_request(&self, data: &[u8], result: &mut BypassResult)
        requires
            !looks_like_client_hello(data@),
            looks_like_http_request(data@),
            old(result).fragments@.len() == 0,
            old(result).inter_fragment_delay is None,
            old(result).fake_packet is None,
            !old(result).modified,
            old(result).hostname is None,
        ensures
            final(result).protocol == old(result).protocol,
            final(result).modified == self.config.modifies(data@),
            frozen_of(final(result).fragments@) == self.config.fragments_of(data@),
            joined(frozen_of(final(result).fragments@)) == data@,
            final(result).inter_fragment_delay == if self.config.modifies(data@)
                && self.config.fragment_delay_us > 0 {
                Some(self.config.fragment_delay_us)
            } else {
                None
            },
            final(result).fake_packet is None,
            match self.config.hostname_bytes(data@) {
                Some(name) => if valid_utf8(name) {
                    final(result).hostname matches Some(host) && encode_utf8(host@) == name
                } else {
                    final(result).hostname is None
                },
                None => final(result).hostname is None,
            },
    {
        if !self.config.fragment_http_host {
            push_copy(&mut result.fragments, data, 0, data.len());
            proof {
                lemma_whole(data@);
            }
            return ;
        }
        let len = data.len();
        match (find_http_host(data), find_host_header_start(data)) {
            (Some((host_offset, host_len)), Some(header)) => {
                let value = slice_subrange(data, host_offset, host_offset + host_len);
                if let Ok(host) = core::str::from_utf8(value) {
                    result.hostname = Some(host.to_owned());
                }
                let last = len - 1;
                let split = if self.config.http_split_pos >= last - header {
                    last
                } else {
                    header + self.config.http_split_pos
                };
                push_copy(&mut result.fragments, data, 0, split);
                push_copy(&mut result.fragments, data, split, len);
                proof {
                    assert(data@.subrange(0, split as int) =~= data@.take(split as int));
                    assert(data@.subrange(split as int, len as int) =~= data@.skip(split as int));
                    assert(data@.take(split as int) + data@.skip(split as int) =~= data@);
                    assert(frozen_of(result.fragments@) =~= seq![
                        data@.take(split as int),
                        data@.skip(split as int),
                    ]);
                }
                result.modified = true;
                if self.config.fragment_delay_us > 0 {
                    result.inter_fragment_delay = Some(self.config.fragment_delay_us);
                }
            },
            _ => {
                push_copy(&mut result.fragments, data, 0, data.len());
                proof {
                    lemma_whole(data@);
                }
            },
        }
    }

    fn generate_fake_tls_packet(&self, hello: &[u8]) -> (fake: Bytes)
        requires
            looks_like_client_hello(hello@),
        ensures
            frozen(fake) == masked_name(hello@),
    {
        let mut fake = BytesMut::from(hello);
        proof {
            lemma_sni_field_bounds(hello@);
        }
        if let Some(info) = parse_client_hello(hello) {
            if let (Some(offset), Some(len)) = (info.sni_offset, info.sni_length) {
                if len <= hello.len() - offset {
                    let mut i: usize = 0;
                    while i < len
                        invariant
                            i <= len,
                            offset + len <= hello@.len() <= usize::MAX,
                            contents(fake).len() == hello@.len(),
                            forall|j: int|
                                0 <= j < hello@.len() ==> contents(fake)[j] == if offset <= j
                                    < offset + i {
                                    0x78u8
                                } else {
                                    hello@[j]
                                },
                        decreases len - i,
                    {
                        set_byte(&mut fake, offset + i, 0x78);
                        i += 1;
                    }
                    assert(contents(fake) =~= masked_name(hello@));
                }
            }
        }
        fake.freeze()
    }
}

/// Appends a copy of `data[from..to]` to the fragments.
fn push_copy(fragments: &mut Vec<Bytes>, data: &[u8], from: usize, to: usize)
    requires
        from <= to <= data@.len(),
    ensures
        final(fragments)@.len() == old(fragments)@.len() + 1,
        frozen_of(final(fragments)@) == frozen_of(old(fragments)@).push(
            data@.subrange(from as int, to as int),
        ),
        joined(frozen_of(final(fragments)@)) == joined(frozen_of(old(fragments)@)) + data@.subrange(
            from as int,
            to as int,
        ),
{
    let piece = Bytes::copy_from_slice(slice_subrange(data, from, to));
    fragments.push(piece);
    proof {
        assert(frozen_of(fragments@) =~= frozen_of(old(fragments)@).push(
            data@.subrange(from as int, to as int),
        ));
        lemma_joined_push(frozen_of(old(fragments)@), data@.subrange(from as int, to as int));
    }
}

/// A list of the one part `s` joins to `s`.
proof fn lemma_whole(s: Seq<u8>)
    ensures
        s.subrange(0, s.len() as int) == s,
        Seq::<Seq<u8>>::empty().push(s) == seq![s],
        joined(Seq::<Seq<u8>>::empty()) + s == s,
{
    assert(s.subrange(0, s.len() as int) =~= s);
    assert(Seq::<Seq<u8>>::empty().push(s) =~= seq![s]);
    assert(joined(Seq::<Seq<u8>>::empty()) + s =~= s);
}

} // verus!
