//! Protocol sniffing on the first bytes of a flow.
//!
//! Everything here reads a byte slice and never changes it. The contracts are
//! stated over the slice's view, a `Seq<u8>`; offsets are offsets into that
//! slice.

use vstd::prelude::*;
use vstd::utf8::{encode_utf8, valid_utf8};

verus! {

pub const TLS_HANDSHAKE: u8 = 0x16;

pub const TLS_CHANGE_CIPHER_SPEC: u8 = 0x14;

pub const TLS_ALERT: u8 = 0x15;

pub const TLS_APPLICATION_DATA: u8 = 0x17;

pub const HANDSHAKE_CLIENT_HELLO: u8 = 0x01;

pub const HANDSHAKE_SERVER_HELLO: u8 = 0x02;

pub const EXT_SERVER_NAME: u16 = 0x0000;

pub const EXT_STATUS_REQUEST: u16 = 0x0005;

pub const EXT_SUPPORTED_GROUPS: u16 = 0x000a;

pub const EXT_EC_POINT_FORMATS: u16 = 0x000b;

pub const EXT_SIGNATURE_ALGORITHMS: u16 = 0x000d;

pub const SNI_HOST_NAME: u8 = 0x00;

/// Where the interesting parts of a ClientHello lie in the buffer it was
/// parsed from.
#[derive(Debug)]
pub struct ClientHelloInfo {
    pub record_offset: usize,
    pub record_length: usize,
    pub sni_offset: Option<usize>,
    pub sni_length: Option<usize>,
    pub sni_hostname: Option<String>,
    pub record_version: (u8, u8),
    pub client_version: (u8, u8),
    pub is_valid: bool,
}

impl Clone for ClientHelloInfo {
    fn clone(&self) -> (copy: Self)
        ensures
            copy == *self,
    {
        ClientHelloInfo {
            record_offset: self.record_offset,
            record_length: self.record_length,
            sni_offset: self.sni_offset,
            sni_length: self.sni_length,
            sni_hostname: match &self.sni_hostname {
                Some(host) => Some(host.clone()),
                None => None,
            },
            record_version: self.record_version,
            client_version: self.client_version,
            is_valid: self.is_valid,
        }
    }
}

impl Default for ClientHelloInfo {
    fn default() -> (info: Self)
        ensures
            info.record_offset == 0,
            info.record_length == 0,
            info.sni_offset is None,
            info.sni_length is None,
            info.sni_hostname is None,
            info.record_version == (0u8, 0u8),
            info.client_version == (0u8, 0u8),
            !info.is_valid,
    {
        ClientHelloInfo {
            record_offset: 0,
            record_length: 0,
            sni_offset: None,
            sni_length: None,
            sni_hostname: None,
            record_version: (0, 0),
            client_version: (0, 0),
            is_valid: false,
        }
    }
}

impl ClientHelloInfo {
    /// The offsets at which a split would cut the server name: just before
    /// the name field when that lies past the record header, and the middle
    /// of the name when the name is longer than four bytes.
    pub open spec fn split_points(&self) -> Seq<usize> {
        match self.sni_offset {
            Some(offset) => {
                let before: Seq<usize> = if offset > 5 {
                    seq![(offset - 1) as usize]
                } else {
                    seq![]
                };
                match self.sni_length {
                    Some(len) if len > 4 => before.push((offset + len / 2) as usize),
                    _ => before,
                }
            },
            None => seq![],
        }
    }

    /// Whether the middle of the name is an offset a `usize` can hold.
    pub open spec fn offsets_fit(&self) -> bool {
        match (self.sni_offset, self.sni_length) {
            (Some(offset), Some(len)) => offset + len / 2 <= usize::MAX,
            _ => true,
        }
    }

    pub fn get_split_points(&self) -> (points: Vec<usize>)
        requires
            self.offsets_fit(),
        ensures
            points@ == self.split_points(),
    {
        let mut points: Vec<usize> = Vec::new();
        if let Some(sni_offset) = self.sni_offset {
            if sni_offset > 5 {
                points.push(sni_offset - 1);
            }
            if let Some(sni_len) = self.sni_length {
                if sni_len > 4 {
                    points.push(sni_offset + sni_len / 2);
                }
            }
        }
        points
    }

    /// The split three bytes into the record, offered for valid records of
    /// more than ten bytes.
    pub fn get_turkey_split_point(&self) -> (point: Option<usize>)
        requires
            self.record_offset + 3 <= usize::MAX,
        ensures
            point == if self.is_valid && self.record_length > 10 {
                Some((self.record_offset + 3) as usize)
            } else {
                None
            },
    {
        if self.is_valid && self.record_length > 10 {
            Some(self.record_offset + 3)
        } else {
            None
        }
    }
}

/// The big-endian 16-bit number at `s[i]`, `s[i + 1]`.
pub open spec fn be16(s: Seq<u8>, i: int) -> nat {
    s[i] as nat * 256 + s[i + 1] as nat
}

fn read_be16(data: &[u8], pos: usize) -> (v: usize)
    requires
        pos + 2 <= data@.len(),
    ensures
        v == be16(data@, pos as int),
        v <= 0xffff,
{
    (data[pos] as usize) * 256 + (data[pos + 1] as usize)
}

/// A TLS handshake record whose first handshake message is a ClientHello:
/// content type 0x16 and handshake type 0x01.
pub open spec fn has_client_hello_header(s: Seq<u8>) -> bool {
    s.len() >= 6 && s[0] == TLS_HANDSHAKE && s[5] == HANDSHAKE_CLIENT_HELLO
}

/// `has_client_hello_header` with a record version of TLS 1.0 to 1.3.
pub open spec fn looks_like_client_hello(s: Seq<u8>) -> bool {
    has_client_hello_header(s) && s[1] == 0x03 && s[2] <= 0x04
}

/// The legacy version of the ClientHello, once the buffer reaches past it.
pub open spec fn client_version_of(s: Seq<u8>) -> (u8, u8) {
    if s.len() >= 11 {
        (s[9], s[10])
    } else {
        (0u8, 0u8)
    }
}

/// Where the extensions begin and where their declared length ends, found by
/// stepping over the random, the session id, the cipher suites and the
/// compression methods. `None` when the buffer ends before the extensions'
/// length field does.
pub open spec fn extensions_window(s: Seq<u8>) -> Option<(int, int)> {
    if s.len() <= 43 {
        None
    } else {
        let ciphers = 44 + s[43] as int;
        if ciphers + 2 > s.len() {
            None
        } else {
            let compression = ciphers + 2 + be16(s, ciphers);
            if compression >= s.len() {
                None
            } else {
                let extensions = compression + 1 + s[compression] as int;
                if extensions + 2 > s.len() {
                    None
                } else {
                    Some((extensions + 2, extensions + 2 + be16(s, extensions) as int))
                }
            }
        }
    }
}

/// Walks the extensions from `pos` and stops at the first `server_name`
/// extension. Gives the offset and declared length of its host name, when the
/// extension lies within the buffer and its first entry is a host name.
pub open spec fn scan_for_sni(s: Seq<u8>, pos: int, end: int) -> Option<(int, int)>
    decreases s.len() - pos,
{
    if 0 <= pos && pos + 4 <= s.len() && pos < end {
        let body = pos + 4;
        let len = be16(s, pos + 2);
        if be16(s, pos) == EXT_SERVER_NAME as int {
            if body + 5 <= s.len() && body + len <= s.len() && s[body + 2] == SNI_HOST_NAME {
                Some((body + 5, be16(s, body + 3) as int))
            } else {
                None
            }
        } else if body + len <= s.len() {
            scan_for_sni(s, body + len, end)
        } else {
            None
        }
    } else {
        None
    }
}

/// Offset and declared length of the host name in the ClientHello `s`.
pub open spec fn sni_field(s: Seq<u8>) -> Option<(int, int)> {
    match extensions_window(s) {
        Some((pos, end)) => scan_for_sni(s, pos, end),
        None => None,
    }
}

/// The host name field begins within the buffer and declares a length of at
/// most 65535.
pub proof fn lemma_sni_field_bounds(s: Seq<u8>)
    ensures
        sni_field(s) matches Some((offset, len)) ==> 0 <= offset <= s.len() && 0 <= len <= 0xffff,
{
    match extensions_window(s) {
        Some((pos, end)) => lemma_scan_bounds(s, pos, end),
        None => {},
    }
}

proof fn lemma_scan_bounds(s: Seq<u8>, pos: int, end: int)
    ensures
        scan_for_sni(s, pos, end) matches Some((offset, len)) ==> 0 <= offset <= s.len() && 0
            <= len <= 0xffff,
    decreases s.len() - pos,
{
    if 0 <= pos && pos + 4 <= s.len() && pos < end {
        let body = pos + 4;
        let len = be16(s, pos + 2);
        if be16(s, pos) != EXT_SERVER_NAME as int && body + len <= s.len() {
            lemma_scan_bounds(s, body + len, end);
        }
    }
}

/// The bytes of the host name, when the field found lies within the buffer.
pub open spec fn sni_bytes(s: Seq<u8>) -> Option<Seq<u8>> {
    match sni_field(s) {
        Some((offset, len)) => if offset + len <= s.len() {
            Some(s.subrange(offset, offset + len))
        } else {
            None
        },
        None => None,
    }
}

/// What `parse_client_hello` reports of a buffer that has a ClientHello
/// header.
pub open spec fn describes(info: ClientHelloInfo, s: Seq<u8>) -> bool {
    &&& info.is_valid
    &&& info.record_offset == 0
    &&& info.record_length == be16(s, 3) + 5
    &&& info.record_version == (s[1], s[2])
    &&& info.client_version == client_version_of(s)
    &&& match sni_field(s) {
        Some((offset, len)) => info.sni_offset == Some(offset as usize) && info.sni_length
            == Some(len as usize),
        None => info.sni_offset is None && info.sni_length is None,
    }
    &&& match sni_bytes(s) {
        Some(name) => if valid_utf8(name) {
            info.sni_hostname matches Some(host) && encode_utf8(host@) == name
        } else {
            info.sni_hostname is None
        },
        None => info.sni_hostname is None,
    }
}

fn find_extensions(data: &[u8]) -> (window: Option<(usize, usize)>)
    ensures
        match window {
            Some((pos, end)) => extensions_window(data@) == Some((pos as int, end as int)) && pos
                <= data@.len(),
            None => extensions_window(data@) is None,
        },
{
    let len = data.len();
    if len <= 43 {
        return None;
    }
    let ciphers: usize = 44 + data[43] as usize;
    if len < 2 || ciphers > len - 2 {
        return None;
    }
    let compression: usize = ciphers + 2 + read_be16(data, ciphers);
    if compression >= len {
        return None;
    }
    let extensions: usize = compression + 1 + data[compression] as usize;
    if extensions > len - 2 {
        return None;
    }
    let declared = read_be16(data, extensions);
    Some((extensions + 2, extensions + 2 + declared))
}

fn find_sni(data: &[u8], start: usize, end: usize) -> (field: Option<(usize, usize)>)
    requires
        start <= data@.len(),
    ensures
        match field {
            Some((offset, len)) => scan_for_sni(data@, start as int, end as int) == Some(
                (offset as int, len as int),
            ) && offset <= data@.len() && len <= 0xffff,
            None => scan_for_sni(data@, start as int, end as int) is None,
        },
{
    let len = data.len();
    let mut pos = start;
    while len - pos >= 4 && pos < end
        invariant
            len == data@.len(),
            pos <= len,
            scan_for_sni(data@, pos as int, end as int) == scan_for_sni(
                data@,
                start as int,
                end as int,
            ),
        decreases len - pos,
    {
        let ext_type = read_be16(data, pos);
        let ext_len = read_be16(data, pos + 2);
        let body = pos + 4;
        if ext_type == 0 {
            if len - body >= 5 && ext_len <= len - body {
                if data[body + 2] == SNI_HOST_NAME {
                    let name_len = read_be16(data, body + 3);
                    return Some((body + 5, name_len));
                }
            }
            return None;
        }
        if ext_len > len - body {
            return None;
        }
        pos = body + ext_len;
    }
    None
}

/// Reads the layout of a TLS ClientHello.
///
/// Gives `None` unless the buffer has at least six bytes, content type 0x16
/// and handshake type 0x01. Otherwise the record header is reported, and every
/// later field as far as the buffer reaches: a buffer cut short still gives a
/// valid info, with the fields past the cut left unset.
pub fn parse_client_hello(data: &[u8]) -> (parsed: Option<ClientHelloInfo>)
    ensures
        parsed is Some <==> has_client_hello_header(data@),
        parsed matches Some(info) ==> describes(info, data@),
{
    if data.len() < 6 {
        return None;
    }
    if data[0] != TLS_HANDSHAKE {
        return None;
    }
    if data[5] != HANDSHAKE_CLIENT_HELLO {
        return None;
    }
    let mut info = ClientHelloInfo::default();
    info.record_version = (data[1], data[2]);
    info.record_length = read_be16(data, 3) + 5;
    info.is_valid = true;
    if data.len() >= 11 {
        info.client_version = (data[9], data[10]);
    }
    if let Some((pos, end)) = find_extensions(data) {
        if let Some((offset, len)) = find_sni(data, pos, end) {
            info.sni_offset = Some(offset);
            info.sni_length = Some(len);
            if len <= data.len() - offset {
                let name = vstd::slice::slice_subrange(data, offset, offset + len);
                if let Ok(host) = core::str::from_utf8(name) {
                    info.sni_hostname = Some(host.to_owned());
                }
            }
        }
    }
    Some(info)
}

/// Whether the buffer opens with a TLS 1.0 to 1.3 ClientHello.
pub fn is_client_hello(data: &[u8]) -> (yes: bool)
    ensures
        yes == looks_like_client_hello(data@),
{
    if data.len() < 6 {
        return false;
    }
    if data[0] != TLS_HANDSHAKE {
        return false;
    }
    if data[1] != 0x03 || data[2] > 0x04 {
        return false;
    }
    if data[5] != HANDSHAKE_CLIENT_HELLO {
        return false;
    }
    true
}

pub const HTTP_GET: [u8; 4] = [0x47, 0x45, 0x54, 0x20];

pub const HTTP_POST: [u8; 4] = [0x50, 0x4f, 0x53, 0x54];

pub const HTTP_HEAD: [u8; 4] = [0x48, 0x45, 0x41, 0x44];

pub const HTTP_PUT: [u8; 4] = [0x50, 0x55, 0x54, 0x20];

pub const HTTP_DELETE: [u8; 6] = [0x44, 0x45, 0x4c, 0x45, 0x54, 0x45];

pub const HTTP_OPTIONS: [u8; 7] = [0x4f, 0x50, 0x54, 0x49, 0x4f, 0x4e, 0x53];

pub const HTTP_CONNECT: [u8; 7] = [0x43, 0x4f, 0x4e, 0x4e, 0x45, 0x43, 0x54];

pub const HTTP_PATCH: [u8; 5] = [0x50, 0x41, 0x54, 0x43, 0x48];

/// Whether the buffer opens with the name of an HTTP method: `GET ` and
/// `PUT ` with their space, `POST`, `HEAD`, `DELETE`, `OPTIONS`, `CONNECT`
/// and `PATCH` without.
pub open spec fn looks_like_http_request(s: Seq<u8>) -> bool {
    ||| HTTP_GET@.is_prefix_of(s)
    ||| HTTP_POST@.is_prefix_of(s)
    ||| HTTP_HEAD@.is_prefix_of(s)
    ||| HTTP_PUT@.is_prefix_of(s)
    ||| HTTP_DELETE@.is_prefix_of(s)
    ||| HTTP_OPTIONS@.is_prefix_of(s)
    ||| HTTP_CONNECT@.is_prefix_of(s)
    ||| HTTP_PATCH@.is_prefix_of(s)
}

/// Whether `data` begins with `prefix`.
pub fn starts_with(data: &[u8], prefix: &[u8]) -> (yes: bool)
    ensures
        yes == prefix@.is_prefix_of(data@),
{
    if prefix.len() > data.len() {
        return false;
    }
    let mut i: usize = 0;
    while i < prefix.len()
        invariant
            i <= prefix@.len() <= data@.len(),
            forall|j: int| 0 <= j < i ==> data@[j] == prefix@[j],
        decreases prefix@.len() - i,
    {
        if data[i] != prefix[i] {
            assert(data@.subrange(0, prefix@.len() as int)[i as int] != prefix@[i as int]);
            return false;
        }
        i += 1;
    }
    assert(data@.subrange(0, prefix@.len() as int) =~= prefix@);
    true
}

/// Whether the buffer opens with an HTTP request line.
pub fn is_http_request(data: &[u8]) -> (yes: bool)
    ensures
        yes == looks_like_http_request(data@),
{
    if data.len() < 4 {
        return false;
    }
    starts_with(data, HTTP_GET.as_slice()) || starts_with(data, HTTP_POST.as_slice())
        || starts_with(data, HTTP_HEAD.as_slice()) || starts_with(data, HTTP_PUT.as_slice())
        || starts_with(data, HTTP_DELETE.as_slice()) || starts_with(data, HTTP_OPTIONS.as_slice())
        || starts_with(data, HTTP_CONNECT.as_slice()) || starts_with(data, HTTP_PATCH.as_slice())
}

/// What a buffer is taken for depends on its bytes alone: buffers that hold
/// the same bytes are taken for the same, however often they are asked.
pub proof fn lemma_classification_is_pure(first: Seq<u8>, second: Seq<u8>)
    requires
        first == second,
    ensures
        looks_like_client_hello(first) == looks_like_client_hello(second),
        looks_like_http_request(first) == looks_like_http_request(second),
{
}

/// An ASCII capital as its small letter; any other byte as it is.
pub open spec fn ascii_lower(b: u8) -> u8 {
    if 0x41 <= b <= 0x5a {
        (b + 0x20) as u8
    } else {
        b
    }
}

/// Whether a line feed and then `host:`, in any mix of capitals and small
/// letters, stand at `i`.
pub open spec fn host_marker_at(s: Seq<u8>, i: int) -> bool {
    &&& 0 <= i
    &&& i + 6 <= s.len()
    &&& s[i] == 0x0a
    &&& ascii_lower(s[i + 1]) == 0x68
    &&& ascii_lower(s[i + 2]) == 0x6f
    &&& ascii_lower(s[i + 3]) == 0x73
    &&& ascii_lower(s[i + 4]) == 0x74
    &&& s[i + 5] == 0x3a
}

/// The first place at or after `from` where the host marker stands, or the
/// length of `s` when there is none.
pub open spec fn host_marker_from(s: Seq<u8>, from: int) -> int
    decreases s.len() - from,
{
    if from < 0 || from + 6 > s.len() {
        s.len() as int
    } else if host_marker_at(s, from) {
        from
    } else {
        host_marker_from(s, from + 1)
    }
}

/// The first host marker at or after `from` lies between `from` and the end
/// of the buffer.
pub proof fn lemma_host_marker_bounds(s: Seq<u8>, from: int)
    requires
        0 <= from,
    ensures
        from <= host_marker_from(s, from) || s.len() < from,
        host_marker_from(s, from) <= s.len() || s.len() < from,
        host_marker_from(s, from) < s.len() ==> host_marker_from(s, from) + 6 <= s.len(),
    decreases s.len() - from,
{
    if from + 6 <= s.len() && !host_marker_at(s, from) {
        lemma_host_marker_bounds(s, from + 1);
    }
}

/// The first place at or after `from` that holds neither a space nor a tab.
pub open spec fn skip_blanks(s: Seq<u8>, from: int) -> int
    decreases s.len() - from,
{
    if 0 <= from < s.len() && (s[from] == 0x20 || s[from] == 0x09) {
        skip_blanks(s, from + 1)
    } else {
        from
    }
}

/// The first place at or after `from` that holds `byte`, or the length of `s`
/// when there is none.
pub open spec fn index_of_from(s: Seq<u8>, from: int, byte: u8) -> int
    decreases s.len() - from,
{
    if from < 0 || from >= s.len() {
        s.len() as int
    } else if s[from] == byte {
        from
    } else {
        index_of_from(s, from + 1, byte)
    }
}

/// Where a header value that begins at `start` ends: at the first carriage
/// return or line feed at or after `start`, or at the end of the buffer when
/// neither follows.
pub open spec fn value_end(s: Seq<u8>, start: int) -> int
    decreases s.len() - start,
{
    if start < 0 || start >= s.len() {
        s.len() as int
    } else if s[start] == 0x0d || s[start] == 0x0a {
        start
    } else {
        value_end(s, start + 1)
    }
}

/// Offset and length of the value of the first `Host` header. The buffer as
/// a whole has to be well-formed UTF-8, and the header must not be on the
/// first line: the marker begins with the line feed that ends the line
/// before.
pub open spec fn http_host_field(s: Seq<u8>) -> Option<(int, int)> {
    let marker = host_marker_from(s, 0);
    if valid_utf8(s) && marker < s.len() {
        let start = skip_blanks(s, marker + 6);
        Some((start, value_end(s, start) - start))
    } else {
        None
    }
}

/// The offset of the `h` of the first `Host` header, under the conditions of
/// `http_host_field`.
pub open spec fn host_header_start(s: Seq<u8>) -> Option<int> {
    let marker = host_marker_from(s, 0);
    if valid_utf8(s) && marker < s.len() {
        Some(marker + 1)
    } else {
        None
    }
}

fn lower(b: u8) -> (l: u8)
    ensures
        l == ascii_lower(b),
{
    if 0x41 <= b && b <= 0x5a {
        b + 0x20
    } else {
        b
    }
}

fn find_host_marker(data: &[u8]) -> (marker: usize)
    ensures
        marker == host_marker_from(data@, 0),
        marker <= data@.len(),
        marker < data@.len() ==> marker + 6 <= data@.len(),
{
    let len = data.len();
    let mut i: usize = 0;
    while len - i >= 6
        invariant
            len == data@.len(),
            i <= len,
            host_marker_from(data@, i as int) == host_marker_from(data@, 0),
        decreases len - i,
    {
        if data[i] == 0x0a && lower(data[i + 1]) == 0x68 && lower(data[i + 2]) == 0x6f && lower(
            data[i + 3],
        ) == 0x73 && lower(data[i + 4]) == 0x74 && data[i + 5] == 0x3a {
            return i;
        }
        i += 1;
    }
    len
}

/// Finds the value of the first `Host` header: its offset and its length.
///
/// The header name is matched without regard to letter case and must follow
/// a line feed; spaces and tabs before the value are left out of it.
pub fn find_http_host(data: &[u8]) -> (found: Option<(usize, usize)>)
    ensures
        match found {
            Some((offset, len)) => http_host_field(data@) == Some((offset as int, len as int))
                && offset + len <= data@.len(),
            None => http_host_field(data@) is None,
        },
{
    if core::str::from_utf8(data).is_err() {
        return None;
    }
    let marker = find_host_marker(data);
    if marker >= data.len() {
        return None;
    }
    let mut start = marker + 6;
    while start < data.len() && (data[start] == 0x20 || data[start] == 0x09)
        invariant
            marker + 6 <= start <= data@.len(),
            skip_blanks(data@, start as int) == skip_blanks(data@, marker + 6),
        decreases data@.len() - start,
    {
        start += 1;
    }
    let mut end = start;
    while end < data.len() && data[end] != 0x0d && data[end] != 0x0a
        invariant
            start <= end <= data@.len(),
            value_end(data@, end as int) == value_end(data@, start as int),
        decreases data@.len() - end,
    {
        end += 1;
    }
    Some((start, end - start))
}

/// Finds the first `Host` header itself: the offset of its `h`.
pub fn find_host_header_start(data: &[u8]) -> (found: Option<usize>)
    ensures
        match found {
            Some(at) => host_header_start(data@) == Some(at as int) && at < data@.len(),
            None => host_header_start(data@) is None,
        },
{
    if core::str::from_utf8(data).is_err() {
        return None;
    }
    let marker = find_host_marker(data);
    if marker >= data.len() {
        return None;
    }
    Some(marker + 1)
}

/// Whether `offsets` asks for a cut at `at`, inside a buffer of `len` bytes.
pub open spec fn is_cut(len: int, offsets: Seq<usize>, at: int) -> bool {
    0 < at < len && offsets.contains(at as usize)
}

/// The first cut at or after `at`, or `len` when there is none.
pub open spec fn cut_from(len: int, offsets: Seq<usize>, at: int) -> int
    decreases len - at,
{
    if at >= len {
        len
    } else if is_cut(len, offsets, at) {
        at
    } else {
        cut_from(len, offsets, at + 1)
    }
}

/// `s` from `from` on, cut at every cut that `offsets` asks for.
pub open spec fn cut_pieces(s: Seq<u8>, offsets: Seq<usize>, from: int) -> Seq<Seq<u8>>
    decreases s.len() - from,
{
    if from < 0 || from >= s.len() {
        Seq::<Seq<u8>>::empty()
    } else {
        let next = cut_from(s.len() as int, offsets, from + 1);
        if from < next <= s.len() {
            seq![s.subrange(from, next)] + cut_pieces(s, offsets, next)
        } else {
            Seq::<Seq<u8>>::empty()
        }
    }
}

proof fn lemma_cut_from(len: int, offsets: Seq<usize>, at: int)
    requires
        0 <= at <= len,
    ensures
        at <= cut_from(len, offsets, at) <= len,
        cut_from(len, offsets, at) < len ==> is_cut(len, offsets, cut_from(len, offsets, at)),
        forall|i: int| at <= i < cut_from(len, offsets, at) ==> !is_cut(len, offsets, i),
    decreases len - at,
{
    if at < len && !is_cut(len, offsets, at) {
        lemma_cut_from(len, offsets, at + 1);
    }
}

/// The cuts asked for, in rising order and each once.
fn sorted_cuts(len: usize, offsets: &[usize]) -> (cuts: Vec<usize>)
    ensures
        forall|k: int| 0 <= k < cuts@.len() ==> is_cut(len as int, offsets@, #[trigger] cuts@[k] as int),
        forall|at: int| is_cut(len as int, offsets@, at) ==> cuts@.contains(at as usize),
        forall|k: int, l: int| 0 <= k < l < cuts@.len() ==> cuts@[k] < cuts@[l],
{
    let mut cuts: Vec<usize> = Vec::new();
    let mut i: usize = 0;
    while i < offsets.len()
        invariant
            i <= offsets@.len(),
            forall|k: int|
                0 <= k < cuts@.len() ==> is_cut(len as int, offsets@, #[trigger] cuts@[k] as int),
            forall|j: int|
                0 <= j < i && 0 < offsets@[j] < len ==> cuts@.contains(#[trigger] offsets@[j]),
            forall|k: int, l: int| 0 <= k < l < cuts@.len() ==> cuts@[k] < cuts@[l],
        decreases offsets@.len() - i,
    {
        let offset = offsets[i];
        if offset > 0 && offset < len {
            let mut at: usize = 0;
            while at < cuts.len() && cuts[at] < offset
                invariant
                    at <= cuts@.len(),
                    forall|k: int| 0 <= k < at ==> cuts@[k] < offset,
                decreases cuts@.len() - at,
            {
                at += 1;
            }
            if at < cuts.len() && cuts[at] == offset {
                assert(cuts@.contains(offset));
            } else {
                let ghost before = cuts@;
                cuts.insert(at, offset);
                proof {
                    let after = cuts@;
                    assert(after[at as int] == offset);
                    assert forall|j: int| 0 <= j < i + 1 && 0 < offsets@[j] < len implies after.contains(
                        #[trigger] offsets@[j],
                    ) by {
                        if j < i {
                            let k = choose|k: int| 0 <= k < before.len() && before[k] == offsets@[j];
                            if k < at {
                                assert(after[k] == offsets@[j]);
                            } else {
                                assert(after[k + 1] == offsets@[j]);
                            }
                        }
                    }
                    assert forall|k: int, l: int| 0 <= k < l < after.len() implies after[k]
                        < after[l] by {
                        if l < at {
                        } else if l == at {
                        } else if k < at {
                            assert(before[k] < offset);
                            if at < l - 1 {
                                assert(before[at as int] < before[l - 1]);
                            }
                        } else if k == at {
                            if at < l - 1 {
                                assert(before[at as int] < before[l - 1]);
                            }
                        } else {
                            assert(before[k - 1] < before[l - 1]);
                        }
                    }
                    assert forall|k: int| 0 <= k < after.len() implies is_cut(
                        len as int,
                        offsets@,
                        #[trigger] after[k] as int,
                    ) by {
                        if k < at {
                            assert(after[k] == before[k]);
                        } else if k > at {
                            assert(after[k] == before[k - 1]);
                        }
                    }
                }
            }
        }
        i += 1;
    }
    proof {
        assert forall|at: int| is_cut(len as int, offsets@, at) implies cuts@.contains(
            at as usize,
        ) by {
            let j = choose|j: int| 0 <= j < offsets@.len() && offsets@[j] == at as usize;
            assert(cuts@.contains(offsets@[j]));
        }
    }
    cuts
}

/// Cuts `data` at every offset of `offsets` that lies inside it: after the
/// first byte at the earliest and before the last at the latest. The order
/// of the offsets does not matter, nor how often one is given. Joined in
/// order the pieces are `data`.
pub fn fragment_at_offsets(data: &[u8], offsets: &[usize]) -> (fragments: Vec<bytes::BytesMut>)
    ensures
        crate::buffers::contents_of(fragments@) == cut_pieces(data@, offsets@, 0),
        crate::buffers::joined(crate::buffers::contents_of(fragments@)) == data@,
{
    let len = data.len();
    let cuts = sorted_cuts(len, offsets);
    let mut fragments: Vec<bytes::BytesMut> = Vec::new();
    let mut prev: usize = 0;
    let mut k: usize = 0;
    proof {
        assert(crate::buffers::contents_of(fragments@) + cut_pieces(data@, offsets@, 0)
            =~= cut_pieces(data@, offsets@, 0));
        assert(data@.take(0) =~= Seq::<u8>::empty());
        if cuts@.len() > 0 {
            assert(is_cut(len as int, offsets@, cuts@[0] as int));
        }
    }
    while k < cuts.len()
        invariant
            k <= cuts@.len(),
            len == data@.len(),
            prev < len || k == cuts@.len(),
            prev <= len,
            k > 0 ==> prev == cuts@[k - 1],
            k == 0 ==> prev == 0,
            forall|i: int| 0 <= i < cuts@.len() ==> is_cut(len as int, offsets@, #[trigger] cuts@[i] as int),
            forall|at: int| is_cut(len as int, offsets@, at) ==> cuts@.contains(at as usize),
            forall|i: int, j: int| 0 <= i < j < cuts@.len() ==> cuts@[i] < cuts@[j],
            crate::buffers::contents_of(fragments@) + cut_pieces(data@, offsets@, prev as int)
                == cut_pieces(data@, offsets@, 0),
            crate::buffers::joined(crate::buffers::contents_of(fragments@)) == data@.take(
                prev as int,
            ),
        decreases cuts@.len() - k,
    {
        let offset = cuts[k];
        let ghost before = crate::buffers::contents_of(fragments@);
        proof {
            assert(is_cut(len as int, offsets@, cuts@[k as int] as int));
            if k > 0 {
                assert(cuts@[k - 1] < cuts@[k as int]);
            }
            lemma_cut_from(len as int, offsets@, prev + 1);
            let next = cut_from(len as int, offsets@, prev + 1);
            if next < offset {
                assert(cuts@.contains(next as usize));
                let j = choose|j: int| 0 <= j < cuts@.len() && cuts@[j] == next as usize;
                if j < k {
                    if j < k - 1 {
                        assert(cuts@[j] < cuts@[k - 1]);
                    }
                } else if j > k {
                    assert(cuts@[k as int] < cuts@[j]);
                }
            }
            assert(next == offset);
        }
        crate::transform::fragment::push_piece(&mut fragments, data, prev, offset);
        proof {
            assert(before.push(data@.subrange(prev as int, offset as int)) + cut_pieces(
                data@,
                offsets@,
                offset as int,
            ) =~= before + (seq![data@.subrange(prev as int, offset as int)] + cut_pieces(
                data@,
                offsets@,
                offset as int,
            )));
            assert(data@.take(prev as int) + data@.subrange(prev as int, offset as int)
                =~= data@.take(offset as int));
        }
        prev = offset;
        k += 1;
    }
    if prev < len {
        let ghost before = crate::buffers::contents_of(fragments@);
        proof {
            lemma_cut_from(len as int, offsets@, prev + 1);
            let next = cut_from(len as int, offsets@, prev + 1);
            if next < len {
                assert(cuts@.contains(next as usize));
                let j = choose|j: int| 0 <= j < cuts@.len() && cuts@[j] == next as usize;
                if cuts@.len() > 0 && j < cuts@.len() - 1 {
                    assert(cuts@[j] < cuts@[cuts@.len() - 1]);
                }
            }
            assert(next == len);
            assert(cut_pieces(data@, offsets@, len as int) =~= Seq::<Seq<u8>>::empty());
            assert(cut_pieces(data@, offsets@, prev as int) =~= seq![
                data@.subrange(prev as int, len as int),
            ] + cut_pieces(data@, offsets@, len as int));
        }
        crate::transform::fragment::push_piece(&mut fragments, data, prev, len);
        proof {
            assert(before.push(data@.subrange(prev as int, len as int)) + Seq::<
                Seq<u8>,
            >::empty() =~= before + (seq![data@.subrange(prev as int, len as int)] + Seq::<
                Seq<u8>,
            >::empty()));
            assert(crate::buffers::contents_of(fragments@) + Seq::<Seq<u8>>::empty()
                =~= crate::buffers::contents_of(fragments@));
            assert(data@.take(prev as int) + data@.subrange(prev as int, len as int) =~= data@);
        }
    } else {
        proof {
            assert(cut_pieces(data@, offsets@, prev as int) =~= Seq::<Seq<u8>>::empty());
            assert(crate::buffers::contents_of(fragments@) + Seq::<Seq<u8>>::empty()
                =~= crate::buffers::contents_of(fragments@));
            assert(data@.take(len as int) =~= data@);
        }
    }
    fragments
}

} // verus!
