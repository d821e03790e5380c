//! The decisions of the DNS-over-HTTPS resolver: which provider to ask, what
//! to send, what to read out of an answer, and what to remember for how long.
//!
//! The resolver itself neither connects nor reads a clock. The caller asks a
//! provider and hands back what it answered; time is a number of seconds that
//! the caller reads.

use crate::buffers::text_of;
use crate::net::IpAddress;
use crate::tls::index_of_from;
use vstd::prelude::*;
use vstd::slice::slice_subrange;
use vstd::string::{StringExecFns, StringSliceAdditionalSpecFns};
use vstd::utf8::valid_utf8;

verus! {

/// How long an answer is remembered, in seconds.
pub const DEFAULT_TTL_SECS: u64 = 300;

/// How many providers there are to ask.
pub const PROVIDER_COUNT: usize = 3;

/// The port of a target that names none.
pub const DEFAULT_PORT: u16 = 443;

/// What is remembered of one host name.
#[derive(Debug)]
pub struct CacheEntry {
    pub host: String,
    pub ips: Vec<IpAddress>,
    /// The time from which on the entry is stale, in seconds.
    pub expiry: u64,
}

/// Why a target could not be resolved.
#[derive(Debug, Clone, Copy, PartialEq, Eq, Structural)]
pub enum ResolveError {
    /// What follows the last colon is no port number.
    InvalidPort,
    /// The host part is not text.
    NotText,
}

/// What to do next for a host name.
#[derive(Debug)]
pub enum ResolveStep {
    /// The addresses of the host.
    Answer(Vec<IpAddress>),
    /// Ask the provider of this number.
    Query { provider: usize },
    /// Every provider was asked in vain.
    NotFound,
}

pub struct DohResolver {
    cache: Vec<CacheEntry>,
    ttl: u64,
}

/// The place of the entry for `host`, or the number of entries when the host
/// has none.
pub open spec fn entry_from(entries: Seq<CacheEntry>, host: Seq<char>, from: int) -> int
    decreases entries.len() - from,
{
    if from < 0 || from >= entries.len() {
        entries.len() as int
    } else if entries[from].host@ == host {
        from
    } else {
        entry_from(entries, host, from + 1)
    }
}

/// The addresses remembered for `host` that are still fresh at `now`.
pub open spec fn fresh_answer(entries: Seq<CacheEntry>, host: Seq<char>, now: u64) -> Option<
    Seq<IpAddress>,
> {
    let at = entry_from(entries, host, 0);
    if at < entries.len() && now < entries[at].expiry {
        Some(entries[at].ips@)
    } else {
        None
    }
}

/// When an answer received at `now` goes stale.
pub open spec fn expiry_of(now: u64, ttl: u64) -> u64 {
    if now + ttl > u64::MAX {
        u64::MAX
    } else {
        (now + ttl) as u64
    }
}

fn copy_ips(ips: &[IpAddress]) -> (copy: Vec<IpAddress>)
    ensures
        copy@ == ips@,
{
    let mut copy: Vec<IpAddress> = Vec::new();
    let mut i: usize = 0;
    while i < ips.len()
        invariant
            i <= ips@.len(),
            copy@ == ips@.take(i as int),
        decreases ips@.len() - i,
    {
        copy.push(ips[i]);
        i += 1;
        assert(copy@ =~= ips@.take(i as int));
    }
    assert(ips@.take(ips@.len() as int) =~= ips@);
    copy
}

impl DohResolver {
    /// What is remembered, oldest first.
    pub closed spec fn entries(&self) -> Seq<CacheEntry> {
        self.cache@
    }

    /// How long an answer is remembered, in seconds.
    pub closed spec fn ttl(&self) -> u64 {
        self.ttl
    }

    pub fn new() -> (resolver: Self)
        ensures
            resolver.entries().len() == 0,
            resolver.ttl() == DEFAULT_TTL_SECS,
    {
        DohResolver { cache: Vec::new(), ttl: DEFAULT_TTL_SECS }
    }

    fn find(&self, host: &String) -> (at: usize)
        ensures
            at == entry_from(self.entries(), host@, 0),
            at <= self.entries().len(),
    {
        let mut i: usize = 0;
        while i < self.cache.len()
            invariant
                i <= self.cache@.len(),
                entry_from(self.cache@, host@, i as int) == entry_from(self.cache@, host@, 0),
            decreases self.cache@.len() - i,
        {
            if self.cache[i].host == *host {
                return i;
            }
            i += 1;
        }
        i
    }

    /// The addresses remembered for `hostname`, unless they are stale.
    pub fn get_cached(&self, hostname: &str, now: u64) -> (answer: Option<Vec<IpAddress>>)
        ensures
            match fresh_answer(self.entries(), hostname@, now) {
                Some(ips) => answer matches Some(found) && found@ == ips,
                None => answer is None,
            },
    {
        let host = hostname.to_owned();
        let at = self.find(&host);
        if at < self.cache.len() && now < self.cache[at].expiry {
            Some(copy_ips(self.cache[at].ips.as_slice()))
        } else {
            None
        }
    }

    /// Remembers `ips` as the addresses of `hostname`, from `now` for as long
    /// as the resolver remembers. An older entry for the host is replaced, and
    /// what is remembered of other hosts stays as it is.
    pub fn cache_result(&mut self, hostname: &str, ips: &[IpAddress], now: u64)
        ensures
            final(self).ttl() == old(self).ttl(),
            forall|when: u64| #[trigger]
                fresh_answer(final(self).entries(), hostname@, when) == if when < expiry_of(
                    now,
                    old(self).ttl(),
                ) {
                    Some(ips@)
                } else {
                    None::<Seq<IpAddress>>
                },
            final(self).entries().len() == if entry_from(old(self).entries(), hostname@, 0) < old(
                self,
            ).entries().len() {
                old(self).entries().len()
            } else {
                old(self).entries().len() + 1
            },
            forall|other: Seq<char>, when: u64|
                other != hostname@ ==> #[trigger] fresh_answer(final(self).entries(), other, when)
                    == fresh_answer(old(self).entries(), other, when),
    {
        let host = hostname.to_owned();
        let at = self.find(&host);
        let expiry = now.saturating_add(self.ttl);
        let entry = CacheEntry { host, ips: copy_ips(ips), expiry };
        let ghost before = self.cache@;
        if at < self.cache.len() {
            self.cache.set(at, entry);
        } else {
            self.cache.push(entry);
        }
        proof {
            let after = self.cache@;
            lemma_entry_from(before, hostname@, 0);
            lemma_entry_from(after, hostname@, 0);
            assert(after[at as int].host@ == hostname@);
            assert forall|other: Seq<char>, when: u64| other != hostname@ implies #[trigger] fresh_answer(
                after,
                other,
                when,
            ) == fresh_answer(before, other, when) by {
                lemma_entry_from(before, other, 0);
                lemma_entry_from(after, other, 0);
                let a = entry_from(before, other, 0);
                let b = entry_from(after, other, 0);
                if a < before.len() {
                    assert(after[a].host@ == other);
                }
                if b < after.len() {
                    assert(b != at);
                    assert(before[b].host@ == other);
                }
            }
        }
    }

    /// The first step for `hostname`: its remembered addresses, or else a
    /// question to the first provider.
    pub fn start_resolve(&self, hostname: &str, now: u64) -> (step: ResolveStep)
        ensures
            match fresh_answer(self.entries(), hostname@, now) {
                Some(ips) => step matches ResolveStep::Answer(found) && found@ == ips,
                None => step matches ResolveStep::Query { provider } && provider == 0,
            },
    {
        match self.get_cached(hostname, now) {
            Some(ips) => ResolveStep::Answer(ips),
            None => ResolveStep::Query { provider: 0 },
        }
    }

    /// The step after the provider of number `provider` has answered with
    /// `answer`, where no addresses stand for a failure as well. Addresses
    /// are remembered and given; without any, the next provider is asked, and
    /// after the last the host is not found. What is remembered of other
    /// hosts stays as it is.
    pub fn next_step(&mut self, hostname: &str, provider: usize, answer: &[IpAddress], now: u64) -> (step:
        ResolveStep)
        ensures
            final(self).ttl() == old(self).ttl(),
            answer@.len() > 0 ==> (step matches ResolveStep::Answer(found) && found@ == answer@),
            answer@.len() > 0 ==> forall|when: u64| #[trigger]
                fresh_answer(final(self).entries(), hostname@, when) == if when < expiry_of(
                    now,
                    old(self).ttl(),
                ) {
                    Some(answer@)
                } else {
                    None::<Seq<IpAddress>>
                },
            answer@.len() > 0 ==> final(self).entries().len() == if entry_from(
                old(self).entries(),
                hostname@,
                0,
            ) < old(self).entries().len() {
                old(self).entries().len()
            } else {
                old(self).entries().len() + 1
            },
            forall|other: Seq<char>, when: u64|
                other != hostname@ ==> #[trigger] fresh_answer(final(self).entries(), other, when)
                    == fresh_answer(old(self).entries(), other, when),
            answer@.len() == 0 ==> final(self).entries() == old(self).entries(),
            answer@.len() == 0 && provider + 1 < PROVIDER_COUNT ==> (step matches ResolveStep::Query {
                provider: next,
            } && next == provider + 1),
            answer@.len() == 0 && provider + 1 >= PROVIDER_COUNT ==> step is NotFound,
    {
        if answer.len() > 0 {
            self.cache_result(hostname, answer, now);
            ResolveStep::Answer(copy_ips(answer))
        } else if provider < PROVIDER_COUNT - 1 {
            ResolveStep::Query { provider: provider + 1 }
        } else {
            ResolveStep::NotFound
        }
    }
}

proof fn lemma_entry_from(entries: Seq<CacheEntry>, host: Seq<char>, from: int)
    requires
        0 <= from <= entries.len(),
    ensures
        from <= entry_from(entries, host, from) <= entries.len(),
        forall|i: int| from <= i < entry_from(entries, host, from) ==> entries[i].host@ != host,
        entry_from(entries, host, from) < entries.len() ==> entries[entry_from(
            entries,
            host,
            from,
        )].host@ == host,
    decreases entries.len() - from,
{
    if from < entries.len() && entries[from].host@ != host {
        lemma_entry_from(entries, host, from + 1);
    }
}

/// The address to connect to, of those that a host has: the first IPv4
/// address, or the first address when none is IPv4.
pub open spec fn preferred(ips: Seq<IpAddress>, from: int) -> Option<IpAddress>
    decreases ips.len() - from,
{
    if from < 0 || from >= ips.len() {
        if ips.len() > 0 {
            Some(ips[0])
        } else {
            None
        }
    } else if ips[from] is V4 {
        Some(ips[from])
    } else {
        preferred(ips, from + 1)
    }
}

/// Picks the address to connect to; see `preferred`.
pub fn select_address(ips: &[IpAddress]) -> (chosen: Option<IpAddress>)
    ensures
        chosen == preferred(ips@, 0),
{
    let mut i: usize = 0;
    while i < ips.len()
        invariant
            i <= ips@.len(),
            preferred(ips@, i as int) == preferred(ips@, 0),
        decreases ips@.len() - i,
    {
        if ips[i].is_ipv4() {
            return Some(ips[i]);
        }
        i += 1;
    }
    if ips.len() > 0 {
        Some(ips[0])
    } else {
        None
    }
}

/// The server to ask and the path to ask for, by the number of the
/// provider: Cloudflare, Google, Quad9.
pub fn provider(number: usize) -> (chosen: Option<(&'static str, &'static str)>)
    ensures
        number >= PROVIDER_COUNT ==> chosen is None,
        number == 0 ==> (chosen matches Some((server, path)) && server@ == "1.1.1.1"@ && path@
            == "/dns-query"@),
        number == 1 ==> (chosen matches Some((server, path)) && server@ == "8.8.8.8"@ && path@
            == "/resolve"@),
        number == 2 ==> (chosen matches Some((server, path)) && server@ == "9.9.9.9"@ && path@
            == "/dns-query"@),
{
    if number == 0 {
        Some(("1.1.1.1", "/dns-query"))
    } else if number == 1 {
        Some(("8.8.8.8", "/resolve"))
    } else if number == 2 {
        Some(("9.9.9.9", "/dns-query"))
    } else {
        None
    }
}

/// The request that asks `server` for the A records of `hostname`.
pub open spec fn request_text(server: Seq<char>, path: Seq<char>, hostname: Seq<char>) -> Seq<
    char,
> {
    "GET "@ + path + "?name="@ + hostname + "&type=A HTTP/1.1\r\nHost: "@ + server
        + "\r\nAccept: application/dns-json\r\nConnection: close\r\n\r\n"@
}

/// Builds the request that asks `server` for the A records of `hostname`.
pub fn build_request(server: &str, path: &str, hostname: &str) -> (request: String)
    ensures
        request@ == request_text(server@, path@, hostname@),
{
    let mut request = "GET ".to_owned();
    request.append(path);
    request.append("?name=");
    request.append(hostname);
    request.append("&type=A HTTP/1.1\r\nHost: ");
    request.append(server);
    request.append("\r\nAccept: application/dns-json\r\nConnection: close\r\n\r\n");
    request
}

pub const HEADER_END: [u8; 4] = [0x0d, 0x0a, 0x0d, 0x0a];

pub const DATA_KEY: [u8; 6] = [0x22, 0x64, 0x61, 0x74, 0x61, 0x22];

pub const VALUE_START: [u8; 2] = [0x3a, 0x22];

pub const QUOTE: u8 = 0x22;

/// The first place at or after `from` at which `pattern` stands in `s`, or
/// the length of `s` when it stands nowhere.
pub open spec fn pattern_from(s: Seq<u8>, pattern: Seq<u8>, from: int) -> int
    decreases s.len() - from,
{
    if from < 0 || from + pattern.len() > s.len() {
        s.len() as int
    } else if s.subrange(from, from + pattern.len()) == pattern {
        from
    } else if from < s.len() {
        pattern_from(s, pattern, from + 1)
    } else {
        s.len() as int
    }
}

/// The body of a response: what stands between the first empty line and the
/// next, or the end. Nothing when the response has no empty line.
pub open spec fn body_of(s: Seq<u8>) -> Seq<u8> {
    let head = pattern_from(s, HEADER_END@, 0);
    if head >= s.len() {
        Seq::<u8>::empty()
    } else {
        s.subrange(head + 4, pattern_from(s, HEADER_END@, head + 4))
    }
}

/// The first quoted value of `part`: what stands between the first `:"` and
/// the next `"`.
pub open spec fn quoted_value(part: Seq<u8>) -> Option<Seq<u8>> {
    let start = pattern_from(part, VALUE_START@, 0);
    if start >= part.len() {
        None
    } else {
        let end = index_of_from(part, start + 2, QUOTE);
        if end >= part.len() {
            None
        } else {
            Some(part.subrange(start + 2, end))
        }
    }
}

/// The values to try as addresses: `body` is cut at every `"data"`, and each
/// piece gives its first quoted value, if it has one.
pub open spec fn candidates(body: Seq<u8>) -> Seq<Seq<u8>>
    decreases body.len(),
{
    let key = pattern_from(body, DATA_KEY@, 0);
    let first = match quoted_value(body.take(key)) {
        Some(value) => seq![value],
        None => Seq::<Seq<u8>>::empty(),
    };
    if key < 0 || key >= body.len() || key + 6 > body.len() {
        first
    } else {
        first + candidates(body.skip(key + 6))
    }
}

fn find_pattern(data: &[u8], pattern: &[u8], from: usize) -> (at: usize)
    requires
        from <= data@.len(),
    ensures
        at == pattern_from(data@, pattern@, from as int),
        from <= at <= data@.len(),
        at < data@.len() ==> at + pattern@.len() <= data@.len(),
{
    let len = data.len();
    let n = pattern.len();
    let mut i = from;
    while i < len && n <= len - i
        invariant
            from <= i <= len == data@.len(),
            n == pattern@.len(),
            pattern_from(data@, pattern@, i as int) == pattern_from(data@, pattern@, from as int),
        decreases len - i,
    {
        if crate::tls::starts_with(slice_subrange(data, i, len), pattern) {
            assert(data@.subrange(i as int, len as int).subrange(0, n as int) =~= data@.subrange(
                i as int,
                i + n,
            ));
            if n == 0 {
                assert(i < len);
            }
            return i;
        }
        assert(data@.subrange(i as int, len as int).subrange(0, n as int) =~= data@.subrange(
            i as int,
            i + n,
        ));
        i += 1;
    }
    proof {
        if n == 0 {
            assert(data@.subrange(len as int, len as int) =~= pattern@);
        }
    }
    len
}

fn copy_range(data: &[u8], from: usize, end: usize) -> (copy: Vec<u8>)
    requires
        from <= end <= data@.len(),
    ensures
        copy@ == data@.subrange(from as int, end as int),
{
    let mut copy: Vec<u8> = Vec::new();
    let mut i = from;
    while i < end
        invariant
            from <= i <= end <= data@.len(),
            copy@ == data@.subrange(from as int, i as int),
        decreases end - i,
    {
        copy.push(data[i]);
        i += 1;
        assert(copy@ =~= data@.subrange(from as int, i as int));
    }
    copy
}

/// The view of each byte string of a list.
pub open spec fn views(list: Seq<Vec<u8>>) -> Seq<Seq<u8>> {
    list.map_values(|v: Vec<u8>| v@)
}

fn first_quoted(part: &[u8]) -> (value: Option<Vec<u8>>)
    ensures
        match quoted_value(part@) {
            Some(bytes) => value matches Some(found) && found@ == bytes,
            None => value is None,
        },
{
    let start = find_pattern(part, VALUE_START.as_slice(), 0);
    if start >= part.len() {
        return None;
    }
    let mut end = start + 2;
    while end < part.len() && part[end] != QUOTE
        invariant
            start + 2 <= end <= part@.len(),
            index_of_from(part@, end as int, QUOTE) == index_of_from(part@, start + 2, QUOTE),
        decreases part@.len() - end,
    {
        end += 1;
    }
    if end >= part.len() {
        return None;
    }
    Some(copy_range(part, start + 2, end))
}

/// Reads the values to try as addresses out of a response: those of
/// `candidates`, taken from the response's body, in their order.
pub fn answer_candidates(response: &[u8]) -> (found: Vec<Vec<u8>>)
    ensures
        views(found@) == candidates(body_of(response@)),
{
    let mut found: Vec<Vec<u8>> = Vec::new();
    let head = find_pattern(response, HEADER_END.as_slice(), 0);
    if head >= response.len() {
        proof {
            reveal_with_fuel(candidates, 2);
            assert(views(found@) =~= Seq::<Seq<u8>>::empty());
            assert(body_of(response@).take(0) =~= Seq::<u8>::empty());
        }
        return found;
    }
    let stop = find_pattern(response, HEADER_END.as_slice(), head + 4);
    let body = slice_subrange(response, head + 4, stop);
    let mut pos: usize = 0;
    proof {
        assert(views(found@) =~= Seq::<Seq<u8>>::empty());
        assert(body@.skip(0) =~= body@);
        assert(views(found@) + candidates(body@) =~= candidates(body@));
    }
    loop
        invariant
            pos <= body@.len(),
            body@ == body_of(response@),
            views(found@) + candidates(body@.skip(pos as int)) == candidates(body@),
        decreases body@.len() - pos,
    {
        let rest = slice_subrange(body, pos, body.len());
        assert(rest@ =~= body@.skip(pos as int));
        let key = find_pattern(rest, DATA_KEY.as_slice(), 0);
        let part = slice_subrange(rest, 0, key);
        assert(part@ =~= rest@.take(key as int));
        let ghost before = views(found@);
        if let Some(value) = first_quoted(part) {
            found.push(value);
            assert(views(found@) =~= before + seq![value@]);
        }
        if key >= rest.len() {
            proof {
                assert(views(found@) + Seq::<Seq<u8>>::empty() =~= views(found@));
                assert(before + Seq::<Seq<u8>>::empty() =~= before);
            }
            return found;
        }
        proof {
            assert(rest@.skip(key + 6) =~= body@.skip(pos + key + 6));
            let first = match quoted_value(rest@.take(key as int)) {
                Some(value) => seq![value],
                None => Seq::<Seq<u8>>::empty(),
            };
            assert(before + (first + candidates(rest@.skip(key + 6))) =~= (before + first)
                + candidates(rest@.skip(key + 6)));
        }
        pos = pos + key + 6;
    }
}

/// The number that the decimal digits `s` write.
pub open spec fn digits_value(s: Seq<u8>) -> nat
    decreases s.len(),
{
    if s.len() == 0 {
        0
    } else {
        digits_value(s.drop_last()) * 10 + (s.last() - 0x30) as nat
    }
}

/// Whether every byte of `s` is a decimal digit.
pub open spec fn all_digits(s: Seq<u8>) -> bool {
    forall|i: int| 0 <= i < s.len() ==> 0x30 <= #[trigger] s[i] <= 0x39
}

/// The port that `s` writes: decimal digits, at least one, after at most
/// one plus sign, with a value of at most 65535.
pub open spec fn port_of(s: Seq<u8>) -> Option<u16> {
    let digits = if s.len() > 0 && s[0] == 0x2b {
        s.skip(1)
    } else {
        s
    };
    if digits.len() > 0 && all_digits(digits) && digits_value(digits) <= 0xffff {
        Some(digits_value(digits) as u16)
    } else {
        None
    }
}

/// The place of the last colon of `s`, or -1 when it has none.
pub open spec fn last_colon(s: Seq<u8>) -> int
    decreases s.len(),
{
    if s.len() == 0 {
        -1
    } else if s.last() == 0x3a {
        s.len() - 1
    } else {
        last_colon(s.drop_last())
    }
}

/// Host and port of a target: what stands before the last colon and the port
/// after it, or the whole target and port 443 when it has no colon.
pub open spec fn host_and_port(s: Seq<u8>) -> Result<(Seq<u8>, u16), ResolveError> {
    let colon = last_colon(s);
    if colon < 0 {
        Ok((s, DEFAULT_PORT))
    } else {
        match port_of(s.skip(colon + 1)) {
            Some(port) => Ok((s.take(colon), port)),
            None => Err(ResolveError::InvalidPort),
        }
    }
}

#[verifier::loop_isolation(false)]
fn parse_port(data: &[u8], from: usize) -> (port: Option<u16>)
    requires
        from <= data@.len(),
    ensures
        port == port_of(data@.skip(from as int)),
{
    let len = data.len();
    let ghost text = data@.skip(from as int);
    let start = if from < len && data[from] == 0x2b {
        from + 1
    } else {
        from
    };
    let ghost digits = data@.skip(start as int);
    assert(digits =~= if text.len() > 0 && text[0] == 0x2b {
        text.skip(1)
    } else {
        text
    });
    if start >= len {
        return None;
    }
    let mut value: u32 = 0;
    let mut i = start;
    assert(digits.take(0) =~= Seq::<u8>::empty());
    while i < len
        invariant
            start <= i <= len == data@.len(),
            digits == data@.skip(start as int),
            value == digits_value(digits.take(i - start)),
            value <= 0xffff,
            all_digits(digits.take(i - start)),
        decreases len - i,
    {
        let b = data[i];
        let ghost seen = digits.take(i - start);
        let ghost more = digits.take(i + 1 - start);
        proof {
            assert(more.drop_last() =~= seen);
            assert(more.last() == b);
        }
        if b < 0x30 || b > 0x39 {
            proof {
                assert(digits[i - start] == b);
                assert(!all_digits(digits));
            }
            return None;
        }
        let next: u32 = value * 10 + (b - 0x30) as u32;
        if next > 0xffff {
            proof {
                if all_digits(digits) {
                    lemma_digits_grow(digits, i + 1 - start);
                }
            }
            return None;
        }
        value = next;
        i += 1;
    }
    proof {
        assert(digits.take(len - start) =~= digits);
    }
    Some(value as u16)
}

/// The value of a run of digits is at least the value of each of its
/// beginnings.
proof fn lemma_digits_grow(s: Seq<u8>, n: int)
    requires
        0 <= n <= s.len(),
        all_digits(s),
    ensures
        digits_value(s.take(n)) <= digits_value(s),
    decreases s.len() - n,
{
    if n < s.len() {
        lemma_digits_grow(s, n + 1);
        assert(s.take(n + 1).drop_last() =~= s.take(n));
        assert(s.take(n + 1).last() == s[n]);
    } else {
        assert(s.take(n) =~= s);
    }
}

fn find_last_colon(data: &[u8]) -> (at: Option<usize>)
    ensures
        match at {
            Some(i) => last_colon(data@) == i && i < data@.len(),
            None => last_colon(data@) == -1,
        },
{
    let mut n = data.len();
    assert(data@.take(n as int) =~= data@);
    while n > 0
        invariant
            n <= data@.len(),
            last_colon(data@.take(n as int)) == last_colon(data@),
        decreases n,
    {
        if data[n - 1] == 0x3a {
            return Some(n - 1);
        }
        assert(data@.take(n as int).drop_last() =~= data@.take(n - 1));
        n -= 1;
    }
    None
}

/// Cuts a target into host and port; see `host_and_port`.
pub fn split_host_port(target: &str) -> (parts: Result<(String, u16), ResolveError>)
    ensures
        match host_and_port(target.spec_bytes()) {
            Ok((host, port)) => if valid_utf8(host) {
                parts matches Ok((text, number)) && text@ == vstd::utf8::decode_utf8(host)
                    && number == port
            } else {
                parts == Err::<(String, u16), ResolveError>(ResolveError::NotText)
            },
            Err(error) => parts == Err::<(String, u16), ResolveError>(error),
        },
{
    let data = target.as_bytes();
    match find_last_colon(data) {
        None => match text_of(data) {
            Some(text) => Ok((text, DEFAULT_PORT)),
            None => Err(ResolveError::NotText),
        },
        Some(colon) => {
            let len = data.len();
            let port = match parse_port(data, colon + 1) {
                Some(port) => port,
                None => {
                    return Err(ResolveError::InvalidPort);
                },
            };
            let host = slice_subrange(data, 0, colon);
            assert(host@ =~= data@.take(colon as int));
            match text_of(host) {
                Some(text) => Ok((text, port)),
                None => Err(ResolveError::NotText),
            }
        },
    }
}

} // verus!
