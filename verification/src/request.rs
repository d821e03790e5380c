//! Reading the first request of a proxy client.
//!
//! A request is read as bytes. A line ends at a line feed, and a carriage
//! return just before that line feed belongs to the line ending. Words are
//! separated by white space, and white space is what Unicode calls so: in
//! UTF-8, the bytes 09 to 0D and 20, and the sequences C2 85, C2 A0,
//! E1 9A 80, E2 80 80 to E2 80 8A, E2 80 A8, E2 80 A9, E2 80 AF, E2 81 9F and
//! E3 80 80.

use crate::buffers::text_of;
use crate::tls::{ascii_lower, index_of_from, starts_with};
use vstd::prelude::*;
use vstd::slice::slice_subrange;
use vstd::string::StringSliceAdditionalSpecFns;
use vstd::utf8::valid_utf8;

verus! {

/// Why a request could not be read.
#[derive(Debug, Clone, Copy, PartialEq, Eq, Structural)]
pub enum RequestError {
    /// The request holds nothing.
    Empty,
    /// The request line names no target.
    Invalid,
    /// The target is not text.
    NotText,
}

impl RequestError {
    pub fn describe(&self) -> (text: &'static str)
        ensures
            text@ == match self {
                RequestError::Empty => "Empty request"@,
                RequestError::Invalid => "Invalid CONNECT"@,
                RequestError::NotText => "Target is not valid UTF-8"@,
            },
    {
        match self {
            RequestError::Empty => "Empty request",
            RequestError::Invalid => "Invalid CONNECT",
            RequestError::NotText => "Target is not valid UTF-8",
        }
    }
}

/// The number of bytes of the white space character that begins at `i`, or 0
/// when none begins there.
pub open spec fn space_len(s: Seq<u8>, i: int) -> int {
    if i < 0 || i >= s.len() {
        0
    } else if (0x09 <= s[i] <= 0x0d) || s[i] == 0x20 {
        1
    } else if i + 1 < s.len() && s[i] == 0xc2 && (s[i + 1] == 0x85 || s[i + 1] == 0xa0) {
        2
    } else if i + 2 < s.len() && ((s[i] == 0xe1 && s[i + 1] == 0x9a && s[i + 2] == 0x80) || (s[i]
        == 0xe2 && s[i + 1] == 0x80 && (0x80 <= s[i + 2] <= 0x8a || s[i + 2] == 0xa8 || s[i + 2]
        == 0xa9 || s[i + 2] == 0xaf)) || (s[i] == 0xe2 && s[i + 1] == 0x81 && s[i + 2] == 0x9f)
        || (s[i] == 0xe3 && s[i + 1] == 0x80 && s[i + 2] == 0x80)) {
        3
    } else {
        0
    }
}

/// The first place at or after `from`, and before `end`, at which no white
/// space begins; `end` when white space fills the rest.
pub open spec fn skip_space(s: Seq<u8>, from: int, end: int) -> int
    decreases end - from,
{
    if from < end && space_len(s.take(end), from) > 0 && from + space_len(s.take(end), from)
        <= end {
        skip_space(s, from + space_len(s.take(end), from), end)
    } else if from < end {
        from
    } else {
        end
    }
}

/// The first place at or after `from`, and before `end`, at which white
/// space begins; `end` when there is none.
pub open spec fn word_end(s: Seq<u8>, from: int, end: int) -> int
    decreases end - from,
{
    if from < end && space_len(s.take(end), from) == 0 {
        word_end(s, from + 1, end)
    } else if from < end {
        from
    } else {
        end
    }
}

/// Where word number `k` of `s[from..end]` begins and ends, counting from 0;
/// `None` when there are fewer words.
pub open spec fn word(s: Seq<u8>, from: int, end: int, k: nat) -> Option<(int, int)>
    decreases k,
{
    let start = skip_space(s, from, end);
    if start >= end {
        None
    } else if k == 0 {
        Some((start, word_end(s, start, end)))
    } else {
        word(s, word_end(s, start, end), end, (k - 1) as nat)
    }
}

/// Where the text of a line that begins at `from` ends: before the line feed
/// that ends it, and before a carriage return ahead of that line feed. A last
/// line without a line feed runs to the end.
pub open spec fn line_end(s: Seq<u8>, from: int) -> int {
    let feed = index_of_from(s, from, 0x0a);
    if feed < s.len() && from < feed && s[feed - 1] == 0x0d {
        feed - 1
    } else {
        feed
    }
}

/// Where the line after the one that begins at `from` begins; past the end
/// when there is none.
pub open spec fn next_line(s: Seq<u8>, from: int) -> int {
    index_of_from(s, from, 0x0a) + 1
}

/// Where `s[from..end]` ends once white space at its end is left off: at the
/// end of its last word, or at `from` when it has no word. `from` must not
/// lie inside white space.
pub open spec fn text_end(s: Seq<u8>, from: int, end: int) -> int
    decreases end - from,
{
    let stop = word_end(s, from, end);
    let next = skip_space(s, stop, end);
    if next >= end || next <= from {
        stop
    } else {
        text_end(s, next, end)
    }
}

/// Whether `s` holds `byte` between `from` and `end`.
pub open spec fn holds(s: Seq<u8>, from: int, end: int, byte: u8) -> bool {
    exists|i: int| from <= i < end && s[i] == byte
}

pub const COLON: u8 = 0x3a;

pub const SLASH: u8 = 0x2f;

pub const DEFAULT_TLS_PORT: [u8; 4] = [0x3a, 0x34, 0x34, 0x33];

pub const DEFAULT_HTTP_PORT: [u8; 3] = [0x3a, 0x38, 0x30];

pub const HTTP_SCHEME: [u8; 7] = [0x68, 0x74, 0x74, 0x70, 0x3a, 0x2f, 0x2f];

/// `s[from..end]`, followed by `suffix` unless it holds a colon.
pub open spec fn with_port(s: Seq<u8>, from: int, end: int, suffix: Seq<u8>) -> Seq<u8> {
    if holds(s, from, end, COLON) {
        s.subrange(from, end)
    } else {
        s.subrange(from, end) + suffix
    }
}

/// The target of a CONNECT request: the second word of its first line, with
/// `:443` after it when it names no port.
pub open spec fn connect_target(s: Seq<u8>) -> Result<Seq<u8>, RequestError> {
    if s.len() == 0 {
        Err(RequestError::Empty)
    } else {
        match word(s, 0, line_end(s, 0), 1) {
            Some((from, end)) => Ok(with_port(s, from, end, DEFAULT_TLS_PORT@)),
            None => Err(RequestError::Invalid),
        }
    }
}

fn space_at(data: &[u8], i: usize, end: usize) -> (n: usize)
    requires
        i < end <= data@.len(),
    ensures
        n == space_len(data@.take(end as int), i as int),
        n <= 3,
        i + n <= end,
{
    let b = data[i];
    if (0x09 <= b && b <= 0x0d) || b == 0x20 {
        return 1;
    }
    if end - i >= 2 && b == 0xc2 && (data[i + 1] == 0x85 || data[i + 1] == 0xa0) {
        return 2;
    }
    if end - i >= 3 {
        let c = data[i + 1];
        let d = data[i + 2];
        if (b == 0xe1 && c == 0x9a && d == 0x80) || (b == 0xe2 && c == 0x80 && ((0x80 <= d && d
            <= 0x8a) || d == 0xa8 || d == 0xa9 || d == 0xaf)) || (b == 0xe2 && c == 0x81 && d
            == 0x9f) || (b == 0xe3 && c == 0x80 && d == 0x80) {
            return 3;
        }
    }
    0
}

fn find_word_start(data: &[u8], from: usize, end: usize) -> (at: usize)
    requires
        from <= end <= data@.len(),
    ensures
        at == skip_space(data@, from as int, end as int),
        from <= at <= end,
        at < end ==> space_len(data@.take(end as int), at as int) == 0,
{
    let mut i = from;
    while i < end
        invariant
            from <= i <= end <= data@.len(),
            skip_space(data@, i as int, end as int) == skip_space(data@, from as int, end as int),
        decreases end - i,
    {
        let n = space_at(data, i, end);
        if n == 0 {
            return i;
        }
        i += n;
    }
    end
}

fn find_word_end(data: &[u8], from: usize, end: usize) -> (at: usize)
    requires
        from <= end <= data@.len(),
    ensures
        at == word_end(data@, from as int, end as int),
        from <= at <= end,
        from < end && space_len(data@.take(end as int), from as int) == 0 ==> from < at,
{
    let mut i = from;
    while i < end
        invariant
            from <= i <= end <= data@.len(),
            word_end(data@, i as int, end as int) == word_end(data@, from as int, end as int),
        decreases end - i,
    {
        if space_at(data, i, end) > 0 {
            return i;
        }
        i += 1;
    }
    end
}

/// Finds word number `k` of `data[from..end]`.
pub fn find_word(data: &[u8], from: usize, end: usize, k: usize) -> (found: Option<(usize, usize)>)
    requires
        from <= end <= data@.len(),
    ensures
        match found {
            Some((a, b)) => word(data@, from as int, end as int, k as nat) == Some(
                (a as int, b as int),
            ) && from <= a < b <= end,
            None => word(data@, from as int, end as int, k as nat) is None,
        },
{
    let mut pos = from;
    let mut left = k;
    loop
        invariant
            from <= pos <= end <= data@.len(),
            left <= k,
            word(data@, pos as int, end as int, left as nat) == word(
                data@,
                from as int,
                end as int,
                k as nat,
            ),
        decreases left,
    {
        let start = find_word_start(data, pos, end);
        if start >= end {
            return None;
        }
        let stop = find_word_end(data, start, end);
        if left == 0 {
            return Some((start, stop));
        }
        pos = stop;
        left -= 1;
    }
}

fn find(data: &[u8], from: usize, byte: u8) -> (at: usize)
    requires
        from <= data@.len(),
    ensures
        at == index_of_from(data@, from as int, byte),
        from <= at <= data@.len(),
        at < data@.len() ==> data@[at as int] == byte,
        forall|i: int| from <= i < at ==> data@[i] != byte,
{
    let mut i = from;
    while i < data.len()
        invariant
            from <= i <= data@.len(),
            index_of_from(data@, i as int, byte) == index_of_from(data@, from as int, byte),
            forall|j: int| from <= j < i ==> data@[j] != byte,
        decreases data@.len() - i,
    {
        if data[i] == byte {
            return i;
        }
        i += 1;
    }
    i
}

/// Where the text of the line that begins at `from` ends.
pub fn find_line_end(data: &[u8], from: usize) -> (at: usize)
    requires
        from <= data@.len(),
    ensures
        at == line_end(data@, from as int),
        from <= at <= data@.len(),
{
    let feed = find(data, from, 0x0a);
    if feed < data.len() && from < feed && data[feed - 1] == 0x0d {
        feed - 1
    } else {
        feed
    }
}

fn has_byte(data: &[u8], from: usize, end: usize, byte: u8) -> (yes: bool)
    requires
        from <= end <= data@.len(),
    ensures
        yes == holds(data@, from as int, end as int, byte),
{
    let mut i = from;
    while i < end
        invariant
            from <= i <= end <= data@.len(),
            forall|j: int| from <= j < i ==> data@[j] != byte,
        decreases end - i,
    {
        if data[i] == byte {
            return true;
        }
        i += 1;
    }
    false
}

fn append(out: &mut Vec<u8>, data: &[u8], from: usize, end: usize)
    requires
        from <= end <= data@.len(),
    ensures
        final(out)@ == old(out)@ + data@.subrange(from as int, end as int),
{
    let mut i = from;
    while i < end
        invariant
            from <= i <= end <= data@.len(),
            out@ == old(out)@ + data@.subrange(from as int, i as int),
        decreases end - i,
    {
        out.push(data[i]);
        i += 1;
        assert(out@ =~= old(out)@ + data@.subrange(from as int, i as int));
    }
    assert(out@ =~= old(out)@ + data@.subrange(from as int, end as int));
}

fn target_with_port(data: &[u8], from: usize, end: usize, suffix: &[u8]) -> (target: Vec<u8>)
    requires
        from <= end <= data@.len(),
    ensures
        target@ == with_port(data@, from as int, end as int, suffix@),
{
    let mut target: Vec<u8> = Vec::new();
    append(&mut target, data, from, end);
    if !has_byte(data, from, end, COLON) {
        append(&mut target, suffix, 0, suffix.len());
        assert(suffix@.subrange(0, suffix@.len() as int) =~= suffix@);
    }
    assert(Seq::<u8>::empty() + data@.subrange(from as int, end as int) =~= data@.subrange(
        from as int,
        end as int,
    ));
    target
}

/// The target of a CONNECT request, as `host:port`.
///
/// The target is the second word of the request line; a target without a
/// colon gets the port 443. A request that holds nothing and a request line
/// of fewer than two words are refused.
pub fn extract_connect_target(request: &str) -> (target: Result<String, RequestError>)
    ensures
        match connect_target(request.spec_bytes()) {
            Ok(bytes) => if valid_utf8(bytes) {
                target matches Ok(text) && text@ == vstd::utf8::decode_utf8(bytes)
            } else {
                target == Err::<String, RequestError>(RequestError::NotText)
            },
            Err(error) => target == Err::<String, RequestError>(error),
        },
{
    let data = request.as_bytes();
    if data.len() == 0 {
        return Err(RequestError::Empty);
    }
    let end = find_line_end(data, 0);
    match find_word(data, 0, end, 1) {
        Some((from, to)) => {
            let bytes = target_with_port(data, from, to, DEFAULT_TLS_PORT.as_slice());
            match text_of(bytes.as_slice()) {
                Some(text) => Ok(text),
                None => Err(RequestError::NotText),
            }
        },
        None => Err(RequestError::Invalid),
    }
}

/// Whether `s[from..end]` is exactly `word`.
pub open spec fn is_word(s: Seq<u8>, from: int, end: int, word: Seq<u8>) -> bool {
    s.subrange(from, end) == word
}

/// Whether `s[from..end]` names a method that a proxy forwards: GET, POST,
/// PUT, DELETE, HEAD, OPTIONS or PATCH.
pub open spec fn is_forward_method(s: Seq<u8>, from: int, end: int) -> bool {
    let m = s.subrange(from, end);
    ||| m == seq![0x47u8, 0x45, 0x54]
    ||| m == seq![0x50u8, 0x4f, 0x53, 0x54]
    ||| m == seq![0x50u8, 0x55, 0x54]
    ||| m == crate::tls::HTTP_DELETE@
    ||| m == seq![0x48u8, 0x45, 0x41, 0x44]
    ||| m == crate::tls::HTTP_OPTIONS@
    ||| m == crate::tls::HTTP_PATCH@
}

/// Whether the line `s[from..end]` begins with `host:` in any mix of
/// capitals and small letters.
pub open spec fn is_host_line(s: Seq<u8>, from: int, end: int) -> bool {
    &&& from + 5 <= end
    &&& ascii_lower(s[from]) == 0x68
    &&& ascii_lower(s[from + 1]) == 0x6f
    &&& ascii_lower(s[from + 2]) == 0x73
    &&& ascii_lower(s[from + 3]) == 0x74
    &&& s[from + 4] == 0x3a
}

/// Where the first `Host` line at or after the line that begins at `from`
/// begins; past the end of `s` when there is none.
pub open spec fn host_line_from(s: Seq<u8>, from: int) -> int
    decreases s.len() - from,
{
    if from < 0 || from >= s.len() {
        s.len() as int + 1
    } else if is_host_line(s, from, line_end(s, from)) {
        from
    } else if from < next_line(s, from) <= s.len() {
        host_line_from(s, next_line(s, from))
    } else {
        s.len() as int + 1
    }
}

/// Where the value of the first `Host` header begins and ends, with the
/// white space around it left off.
pub open spec fn host_value(s: Seq<u8>) -> Option<(int, int)> {
    let line = host_line_from(s, 0);
    if line < s.len() {
        let end = line_end(s, line);
        let start = skip_space(s, line + 5, end);
        Some((start, text_end(s, start, end)))
    } else {
        None
    }
}

/// The target of a request to forward: for a URL that begins with
/// `http://`, what follows up to the next slash; for any other, the value of
/// the `Host` header; each with `:80` after it when it names no port.
/// `None` when the request line has fewer than two words or names no method
/// to forward, and when there is neither such a URL nor such a header.
pub open spec fn http_target(s: Seq<u8>) -> Option<Seq<u8>> {
    if s.len() == 0 {
        None
    } else {
        let end = line_end(s, 0);
        match (word(s, 0, end, 0), word(s, 0, end, 1)) {
            (Some((m0, m1)), Some((u0, u1))) => if !is_forward_method(s, m0, m1) {
                None
            } else if HTTP_SCHEME@.is_prefix_of(s.subrange(u0, u1)) {
                let stop = index_of_from(s.take(u1), u0 + 7, SLASH);
                Some(with_port(s, u0 + 7, stop, DEFAULT_HTTP_PORT@))
            } else {
                match host_value(s) {
                    Some((from, to)) => Some(with_port(s, from, to, DEFAULT_HTTP_PORT@)),
                    None => None,
                }
            },
            _ => None,
        }
    }
}

fn equals(data: &[u8], from: usize, end: usize, word: &[u8]) -> (yes: bool)
    requires
        from <= end <= data@.len(),
    ensures
        yes == (data@.subrange(from as int, end as int) == word@),
{
    if end - from != word.len() {
        return false;
    }
    let mut i: usize = 0;
    while i < word.len()
        invariant
            i <= word@.len(),
            end - from == word@.len(),
            from <= end <= data@.len(),
            forall|j: int| 0 <= j < i ==> data@[from + j] == word@[j],
        decreases word@.len() - i,
    {
        if data[from + i] != word[i] {
            assert(data@.subrange(from as int, end as int)[i as int] != word@[i as int]);
            return false;
        }
        i += 1;
    }
    assert(data@.subrange(from as int, end as int) =~= word@);
    true
}

fn forwards_method(data: &[u8], from: usize, end: usize) -> (yes: bool)
    requires
        from <= end <= data@.len(),
    ensures
        yes == is_forward_method(data@, from as int, end as int),
{
    let get: [u8; 3] = [0x47, 0x45, 0x54];
    let post: [u8; 4] = [0x50, 0x4f, 0x53, 0x54];
    let put: [u8; 3] = [0x50, 0x55, 0x54];
    let head: [u8; 4] = [0x48, 0x45, 0x41, 0x44];
    assert(get@ =~= seq![0x47u8, 0x45, 0x54]);
    assert(post@ =~= seq![0x50u8, 0x4f, 0x53, 0x54]);
    assert(put@ =~= seq![0x50u8, 0x55, 0x54]);
    assert(head@ =~= seq![0x48u8, 0x45, 0x41, 0x44]);
    equals(data, from, end, get.as_slice()) || equals(data, from, end, post.as_slice()) || equals(
        data,
        from,
        end,
        put.as_slice(),
    ) || equals(data, from, end, crate::tls::HTTP_DELETE.as_slice()) || equals(
        data,
        from,
        end,
        head.as_slice(),
    ) || equals(data, from, end, crate::tls::HTTP_OPTIONS.as_slice()) || equals(
        data,
        from,
        end,
        crate::tls::HTTP_PATCH.as_slice(),
    )
}

fn lower(b: u8) -> (l: u8)
    ensures
        l == ascii_lower(b),
{
    if 0x41 <= b && b <= 0x5a {
        b + 0x20
    } else {
        b
    }
}

fn host_line(data: &[u8], from: usize, end: usize) -> (yes: bool)
    requires
        from <= end <= data@.len(),
    ensures
        yes == is_host_line(data@, from as int, end as int),
{
    end - from >= 5 && lower(data[from]) == 0x68 && lower(data[from + 1]) == 0x6f && lower(
        data[from + 2],
    ) == 0x73 && lower(data[from + 3]) == 0x74 && data[from + 4] == 0x3a
}

fn find_text_end(data: &[u8], from: usize, end: usize) -> (at: usize)
    requires
        from <= end <= data@.len(),
    ensures
        at == text_end(data@, from as int, end as int),
        from <= at <= end,
{
    let mut pos = from;
    loop
        invariant
            from <= pos <= end <= data@.len(),
            text_end(data@, pos as int, end as int) == text_end(data@, from as int, end as int),
        decreases end - pos,
    {
        let stop = find_word_end(data, pos, end);
        let next = find_word_start(data, stop, end);
        if next >= end || next <= pos {
            return stop;
        }
        pos = next;
    }
}

/// Finds the value of the first `Host` header, as `host_value` defines it.
pub fn find_host_value(data: &[u8]) -> (found: Option<(usize, usize)>)
    ensures
        match found {
            Some((a, b)) => host_value(data@) == Some((a as int, b as int)) && a <= b
                <= data@.len(),
            None => host_value(data@) is None,
        },
{
    let len = data.len();
    let mut line: usize = 0;
    while line < len
        invariant
            line <= len,
            len == data@.len(),
            host_line_from(data@, line as int) == host_line_from(data@, 0),
        decreases len - line,
    {
        let end = find_line_end(data, line);
        if host_line(data, line, end) {
            let start = find_word_start(data, line + 5, end);
            let stop = find_text_end(data, start, end);
            return Some((start, stop));
        }
        let feed = find(data, line, 0x0a);
        if feed >= len {
            return None;
        }
        line = feed + 1;
    }
    None
}

/// The target of a request to forward, as `host:port`; see `http_target`.
pub fn extract_http_target(request: &str) -> (target: Option<String>)
    ensures
        match http_target(request.spec_bytes()) {
            Some(bytes) => if valid_utf8(bytes) {
                target matches Some(text) && text@ == vstd::utf8::decode_utf8(bytes)
            } else {
                target is None
            },
            None => target is None,
        },
{
    let data = request.as_bytes();
    if data.len() == 0 {
        return None;
    }
    let end = find_line_end(data, 0);
    let (m0, m1) = match find_word(data, 0, end, 0) {
        Some(method) => method,
        None => {
            return None;
        },
    };
    let (u0, u1) = match find_word(data, 0, end, 1) {
        Some(url) => url,
        None => {
            return None;
        },
    };
    if !forwards_method(data, m0, m1) {
        return None;
    }
    let url = slice_subrange(data, u0, u1);
    let bytes = if starts_with(url, HTTP_SCHEME.as_slice()) {
        let within = slice_subrange(data, 0, u1);
        let stop = find(within, u0 + 7, SLASH);
        proof {
            assert forall|i: int| u0 + 7 <= i < stop implies within@[i] == data@[i] by {}
            assert(within@ =~= data@.take(u1 as int));
            assert(holds(data@, u0 + 7, stop as int, COLON) == holds(
                within@,
                u0 + 7,
                stop as int,
                COLON,
            )) by {
                if holds(data@, u0 + 7, stop as int, COLON) {
                    let i = choose|i: int| u0 + 7 <= i < stop && data@[i] == COLON;
                    assert(within@[i] == COLON);
                }
                if holds(within@, u0 + 7, stop as int, COLON) {
                    let i = choose|i: int| u0 + 7 <= i < stop && within@[i] == COLON;
                    assert(data@[i] == COLON);
                }
            }
            assert(within@.subrange(u0 + 7, stop as int) =~= data@.subrange(u0 + 7, stop as int));
        }
        target_with_port(within, u0 + 7, stop, DEFAULT_HTTP_PORT.as_slice())
    } else {
        match find_host_value(data) {
            Some((from, to)) => target_with_port(data, from, to, DEFAULT_HTTP_PORT.as_slice()),
            None => {
                return None;
            },
        }
    };
    text_of(bytes.as_slice())
}

/// The value of the first `Host` header, with the white space around it left
/// off.
pub fn extract_host_header(request: &str) -> (host: Option<String>)
    ensures
        match host_value(request.spec_bytes()) {
            Some((from, to)) => if valid_utf8(request.spec_bytes().subrange(from, to)) {
                host matches Some(text) && text@ == vstd::utf8::decode_utf8(
                    request.spec_bytes().subrange(from, to),
                )
            } else {
                host is None
            },
            None => host is None,
        },
{
    let data = request.as_bytes();
    match find_host_value(data) {
        Some((from, to)) => {
            let mut bytes: Vec<u8> = Vec::new();
            append(&mut bytes, data, from, to);
            assert(bytes@ =~= data@.subrange(from as int, to as int));
            text_of(bytes.as_slice())
        },
        None => None,
    }
}

/// The place of the first carriage return or line feed of `s` at or after
/// `from`, or the length of `s` when it has neither.
pub open spec fn break_from(s: Seq<u8>, from: int) -> int
    decreases s.len() - from,
{
    if from < 0 || from >= s.len() {
        s.len() as int
    } else if s[from] == 0x0d || s[from] == 0x0a {
        from
    } else {
        break_from(s, from + 1)
    }
}

/// The path that the URL `s[from..end]` asks for: for a URL that begins with
/// `http://`, what follows from the first slash after the host on, or `/`
/// when no slash follows; any other URL as it is.
pub open spec fn origin_path(s: Seq<u8>, from: int, end: int) -> Seq<u8> {
    if HTTP_SCHEME@.is_prefix_of(s.subrange(from, end)) {
        let slash = index_of_from(s.take(end), from + 7, SLASH);
        if slash < end {
            s.subrange(slash, end)
        } else {
            seq![SLASH]
        }
    } else {
        s.subrange(from, end)
    }
}

/// The request `raw` with its request line rewritten for the origin server:
/// the method, the path and the version of `request`, each one space apart,
/// and then `raw` from its first line break on. When `raw` has no line
/// break, the whole of `raw` follows the new line. A request line of fewer
/// than three words leaves `raw` as it is.
pub open spec fn rewritten(request: Seq<u8>, raw: Seq<u8>) -> Seq<u8> {
    if request.len() == 0 {
        raw
    } else {
        let end = line_end(request, 0);
        match (word(request, 0, end, 0), word(request, 0, end, 1), word(request, 0, end, 2)) {
            (Some((m0, m1)), Some((u0, u1)), Some((v0, v1))) => {
                let tail = if break_from(raw, 0) < raw.len() {
                    raw.skip(break_from(raw, 0))
                } else {
                    raw
                };
                request.subrange(m0, m1) + seq![0x20u8] + origin_path(request, u0, u1)
                    + seq![0x20u8] + request.subrange(v0, v1) + tail
            },
            _ => raw,
        }
    }
}

fn copy_of(raw: &[u8]) -> (copy: Vec<u8>)
    ensures
        copy@ == raw@,
{
    let mut copy: Vec<u8> = Vec::new();
    append(&mut copy, raw, 0, raw.len());
    assert(copy@ =~= raw@);
    copy
}

/// Rewrites the request line of a request to forward; see `rewritten`.
pub fn rewrite_http_request(request: &str, raw: &[u8]) -> (out: Vec<u8>)
    ensures
        out@ == rewritten(request.spec_bytes(), raw@),
{
    let data = request.as_bytes();
    if data.len() == 0 {
        return copy_of(raw);
    }
    let end = find_line_end(data, 0);
    let (m0, m1) = match find_word(data, 0, end, 0) {
        Some(method) => method,
        None => {
            return copy_of(raw);
        },
    };
    let (u0, u1) = match find_word(data, 0, end, 1) {
        Some(url) => url,
        None => {
            return copy_of(raw);
        },
    };
    let (v0, v1) = match find_word(data, 0, end, 2) {
        Some(version) => version,
        None => {
            return copy_of(raw);
        },
    };
    let mut out: Vec<u8> = Vec::new();
    append(&mut out, data, m0, m1);
    out.push(0x20);
    let url = slice_subrange(data, u0, u1);
    if starts_with(url, HTTP_SCHEME.as_slice()) {
        let within = slice_subrange(data, 0, u1);
        let slash = find(within, u0 + 7, SLASH);
        assert(within@ =~= data@.take(u1 as int));
        if slash < u1 {
            append(&mut out, data, slash, u1);
        } else {
            out.push(SLASH);
        }
    } else {
        append(&mut out, data, u0, u1);
    }
    out.push(0x20);
    append(&mut out, data, v0, v1);
    let mut cut: usize = 0;
    while cut < raw.len() && raw[cut] != 0x0d && raw[cut] != 0x0a
        invariant
            cut <= raw@.len(),
            break_from(raw@, cut as int) == break_from(raw@, 0),
        decreases raw@.len() - cut,
    {
        cut += 1;
    }
    if cut < raw.len() {
        append(&mut out, raw, cut, raw.len());
        assert(raw@.subrange(cut as int, raw@.len() as int) =~= raw@.skip(cut as int));
    } else {
        append(&mut out, raw, 0, raw.len());
        assert(raw@.subrange(0, raw@.len() as int) =~= raw@);
    }
    assert(out@ =~= rewritten(data@, raw@));
    out
}

/// What a client of the proxy asks for.
#[derive(Debug)]
pub enum ClientRequest {
    /// A tunnel to this target.
    Connect(String),
    /// A request to forward to this target, with its request line rewritten.
    Forward { target: String, request: Vec<u8> },
    /// A tunnel to a target that cannot be read.
    Rejected(RequestError),
    /// Nothing that the proxy serves.
    Unsupported,
}

pub const CONNECT_PREFIX: [u8; 8] = [0x43, 0x4f, 0x4e, 0x4e, 0x45, 0x43, 0x54, 0x20];

/// Tells what a client asks for, from the text of its first bytes and the
/// bytes themselves. A request that begins with `CONNECT` and a space asks
/// for a tunnel to its target; any other request with a target is to be
/// forwarded, with its request line rewritten; the rest is not served.
pub fn classify_request(request: &str, raw: &[u8]) -> (asked: ClientRequest)
    ensures
        CONNECT_PREFIX@.is_prefix_of(request.spec_bytes()) ==> match connect_target(
            request.spec_bytes(),
        ) {
            Ok(bytes) => if valid_utf8(bytes) {
                asked matches ClientRequest::Connect(target) && target@
                    == vstd::utf8::decode_utf8(bytes)
            } else {
                asked matches ClientRequest::Rejected(RequestError::NotText)
            },
            Err(error) => asked matches ClientRequest::Rejected(e) && e == error,
        },
        !CONNECT_PREFIX@.is_prefix_of(request.spec_bytes()) ==> match http_target(
            request.spec_bytes(),
        ) {
            Some(bytes) => if valid_utf8(bytes) {
                asked matches ClientRequest::Forward { target, request: rewritten_request }
                    && target@ == vstd::utf8::decode_utf8(bytes) && rewritten_request@
                    == rewritten(request.spec_bytes(), raw@)
            } else {
                asked is Unsupported
            },
            None => asked is Unsupported,
        },
{
    if starts_with(request.as_bytes(), CONNECT_PREFIX.as_slice()) {
        match extract_connect_target(request) {
            Ok(target) => ClientRequest::Connect(target),
            Err(error) => ClientRequest::Rejected(error),
        }
    } else {
        match extract_http_target(request) {
            Some(target) => ClientRequest::Forward {
                target,
                request: rewrite_http_request(request, raw),
            },
            None => ClientRequest::Unsupported,
        }
    }
}

/// The answers of the proxy to its client.
pub const RESPONSE_ESTABLISHED: &'static str = "HTTP/1.1 200 Connection Established\r\n\r\n";

pub const RESPONSE_BAD_REQUEST: &'static str =
    "HTTP/1.1 400 Bad Request\r\n\r\nUnsupported request\r\n";

pub const RESPONSE_BAD_GATEWAY: &'static str = "HTTP/1.1 502 Bad Gateway\r\n\r\n";

pub const RESPONSE_GATEWAY_TIMEOUT: &'static str = "HTTP/1.1 504 Gateway Timeout\r\n\r\n";

} // verus!
