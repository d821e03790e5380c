//! The SOCKS5 handshake as a state machine.
//!
//! The machine reads nothing and sends nothing. It is told what came in, and
//! says what to send and what to do next. Whoever drives it reads exactly as
//! many bytes as it asks for; a read that fails is the event `Failed`.

use crate::buffers::text_of;
use crate::net::{quad, IpAddress};
use vstd::prelude::*;
use vstd::slice::slice_subrange;
use vstd::utf8::valid_utf8;

verus! {

pub const SOCKS_VERSION: u8 = 0x05;

pub const METHOD_NONE: u8 = 0x00;

pub const METHOD_REFUSED: u8 = 0xff;

pub const COMMAND_CONNECT: u8 = 0x01;

pub const ADDRESS_IPV4: u8 = 0x01;

pub const ADDRESS_DOMAIN: u8 = 0x03;

pub const ADDRESS_IPV6: u8 = 0x04;

pub const REPLY_SUCCESS: u8 = 0x00;

pub const REPLY_HOST_UNREACHABLE: u8 = 0x04;

pub const REPLY_CONNECTION_REFUSED: u8 = 0x05;

pub const REPLY_COMMAND_UNSUPPORTED: u8 = 0x07;

pub const REPLY_ADDRESS_UNSUPPORTED: u8 = 0x08;

/// Where the handshake stands.
#[derive(Debug, Clone, Copy, PartialEq, Eq, Structural)]
pub enum Socks5State {
    /// Waiting for the version and the number of methods: two bytes.
    Greeting,
    /// Waiting for `count` methods.
    Methods { count: usize },
    /// Waiting for the head of the request: four bytes.
    Request,
    /// Waiting for an IPv4 address and a port: six bytes.
    Ipv4Target,
    /// Waiting for the length of a domain name: one byte.
    DomainLength,
    /// Waiting for a domain name of `len` bytes and a port.
    DomainTarget { len: usize },
    /// Waiting for an IPv6 address and a port: eighteen bytes.
    Ipv6Target,
    /// Waiting for the address of a domain name, to connect to at `port`.
    Resolving { port: u16 },
    /// Waiting for the connection to `ip` at `port`.
    Connecting { ip: IpAddress, port: u16 },
    /// The handshake is done; bytes are relayed to `ip` at `port`.
    Relaying { ip: IpAddress, port: u16 },
    Closed,
}

/// What happened.
#[derive(Debug)]
pub enum Socks5Event<'a> {
    /// The bytes asked for came in.
    Received(&'a [u8]),
    /// Reading failed, or the client went away.
    Failed,
    /// The domain name has this address.
    Resolved(IpAddress),
    /// The domain name has no address.
    Unresolved,
    /// The domain name could not be looked up.
    ResolveFailed,
    Connected,
    ConnectFailed,
}

/// What to do next.
#[derive(Debug)]
pub enum Socks5Next {
    /// Read this many bytes.
    Read(usize),
    /// Look this domain name up.
    Resolve(String),
    /// Connect to this address and port.
    Connect(IpAddress, u16),
    /// Relay between the client and the connection.
    Relay,
    Close,
}

/// What the machine asks for: first send `send`, if it holds anything, then
/// do `next`.
#[derive(Debug)]
pub struct Socks5Action {
    pub send: Vec<u8>,
    pub next: Socks5Next,
}

/// `Socks5Next` with a domain name as its bytes.
pub enum NextView {
    Read(usize),
    Resolve(Seq<u8>),
    Connect(IpAddress, u16),
    Relay,
    Close,
}

/// The reply to a request: version 5, the code, a reserved zero, and an IPv4
/// address and port of zeros.
pub open spec fn reply(code: u8) -> Seq<u8> {
    seq![SOCKS_VERSION, code, 0u8, ADDRESS_IPV4, 0u8, 0u8, 0u8, 0u8, 0u8, 0u8]
}

/// The port that the last two bytes of `s` write, most significant first.
pub open spec fn port_at_end(s: Seq<u8>) -> u16 {
    (s[s.len() - 2] as u16 * 256 + s[s.len() - 1] as u16) as u16
}

/// The number that the first `upto` bytes of `s` write, most significant
/// byte first.
pub open spec fn v6_value(s: Seq<u8>, upto: int) -> u128
    decreases upto,
{
    if upto <= 0 {
        0
    } else {
        (v6_value(s, upto - 1) * 256 + s[upto - 1]) as u128
    }
}

/// The machine's answer to `event` in `state`: the state it moves to, the
/// bytes to send, and what to do next.
///
/// - A greeting of another version than 5 closes the connection; otherwise
///   the methods are read.
/// - Methods without "no authentication" are answered with `05 FF` and the
///   connection is closed; otherwise `05 00` is sent and the request read.
/// - A request other than CONNECT is refused with reply 7, an address type
///   other than IPv4, domain name and IPv6 with reply 8.
/// - An address and its port lead to a connection, a domain name to a
///   lookup first. A name that is not text closes the connection, and so
///   does a name without an address; a failed lookup is answered with reply
///   4.
/// - A failed connection is answered with reply 5; a connection made, with
///   reply 0, and the relay begins.
/// - Anything else closes the connection.
pub open spec fn transition(state: Socks5State, event: EventView) -> (Socks5State, Seq<u8>, NextView) {
    let close = (Socks5State::Closed, Seq::<u8>::empty(), NextView::Close);
    match (state, event) {
        (Socks5State::Greeting, EventView::Received(b)) => if b.len() == 2 && b[0] == SOCKS_VERSION {
            (
                Socks5State::Methods { count: b[1] as usize },
                Seq::<u8>::empty(),
                NextView::Read(b[1] as usize),
            )
        } else {
            close
        },
        (Socks5State::Methods { count }, EventView::Received(b)) => if b.len() != count {
            close
        } else if b.contains(METHOD_NONE) {
            (Socks5State::Request, seq![SOCKS_VERSION, METHOD_NONE], NextView::Read(4))
        } else {
            (Socks5State::Closed, seq![SOCKS_VERSION, METHOD_REFUSED], NextView::Close)
        },
        (Socks5State::Request, EventView::Received(b)) => if b.len() != 4 {
            close
        } else if b[1] != COMMAND_CONNECT {
            (Socks5State::Closed, reply(REPLY_COMMAND_UNSUPPORTED), NextView::Close)
        } else if b[3] == ADDRESS_IPV4 {
            (Socks5State::Ipv4Target, Seq::<u8>::empty(), NextView::Read(6))
        } else if b[3] == ADDRESS_DOMAIN {
            (Socks5State::DomainLength, Seq::<u8>::empty(), NextView::Read(1))
        } else if b[3] == ADDRESS_IPV6 {
            (Socks5State::Ipv6Target, Seq::<u8>::empty(), NextView::Read(18))
        } else {
            (Socks5State::Closed, reply(REPLY_ADDRESS_UNSUPPORTED), NextView::Close)
        },
        (Socks5State::Ipv4Target, EventView::Received(b)) => if b.len() != 6 {
            close
        } else {
            let ip = IpAddress::V4(quad(b[0], b[1], b[2], b[3]));
            (
                Socks5State::Connecting { ip, port: port_at_end(b) },
                Seq::<u8>::empty(),
                NextView::Connect(ip, port_at_end(b)),
            )
        },
        (Socks5State::Ipv6Target, EventView::Received(b)) => if b.len() != 18 {
            close
        } else {
            let ip = IpAddress::V6(v6_value(b, 16));
            (
                Socks5State::Connecting { ip, port: port_at_end(b) },
                Seq::<u8>::empty(),
                NextView::Connect(ip, port_at_end(b)),
            )
        },
        (Socks5State::DomainLength, EventView::Received(b)) => if b.len() != 1 {
            close
        } else {
            (
                Socks5State::DomainTarget { len: b[0] as usize },
                Seq::<u8>::empty(),
                NextView::Read((b[0] + 2) as usize),
            )
        },
        (Socks5State::DomainTarget { len }, EventView::Received(b)) => if b.len() != len + 2
            || !valid_utf8(b.take(len as int)) {
            close
        } else {
            (
                Socks5State::Resolving { port: port_at_end(b) },
                Seq::<u8>::empty(),
                NextView::Resolve(b.take(len as int)),
            )
        },
        (Socks5State::Resolving { port }, EventView::Resolved(ip)) => (
            Socks5State::Connecting { ip, port },
            Seq::<u8>::empty(),
            NextView::Connect(ip, port),
        ),
        (Socks5State::Resolving { port }, EventView::ResolveFailed) => (
            Socks5State::Closed,
            reply(REPLY_HOST_UNREACHABLE),
            NextView::Close,
        ),
        (Socks5State::Connecting { ip, port }, EventView::Connected) => (
            Socks5State::Relaying { ip, port },
            reply(REPLY_SUCCESS),
            NextView::Relay,
        ),
        (Socks5State::Connecting { ip, port }, EventView::ConnectFailed) => (
            Socks5State::Closed,
            reply(REPLY_CONNECTION_REFUSED),
            NextView::Close,
        ),
        _ => close,
    }
}

/// `Socks5Event` with the bytes that came in as a sequence.
pub enum EventView {
    Received(Seq<u8>),
    Failed,
    Resolved(IpAddress),
    Unresolved,
    ResolveFailed,
    Connected,
    ConnectFailed,
}

impl<'a> Socks5Event<'a> {
    pub open spec fn view(&self) -> EventView {
        match self {
            Socks5Event::Received(b) => EventView::Received(b@),
            Socks5Event::Failed => EventView::Failed,
            Socks5Event::Resolved(ip) => EventView::Resolved(*ip),
            Socks5Event::Unresolved => EventView::Unresolved,
            Socks5Event::ResolveFailed => EventView::ResolveFailed,
            Socks5Event::Connected => EventView::Connected,
            Socks5Event::ConnectFailed => EventView::ConnectFailed,
        }
    }
}

impl Socks5Next {
    /// Whether this is what `view` describes.
    pub open spec fn is(&self, view: NextView) -> bool {
        match (self, view) {
            (Socks5Next::Read(n), NextView::Read(m)) => *n == m,
            (Socks5Next::Resolve(name), NextView::Resolve(bytes)) => name@
                == vstd::utf8::decode_utf8(bytes),
            (Socks5Next::Connect(ip, port), NextView::Connect(i, p)) => *ip == i && *port == p,
            (Socks5Next::Relay, NextView::Relay) => true,
            (Socks5Next::Close, NextView::Close) => true,
            _ => false,
        }
    }
}

fn close() -> (step: (Socks5State, Socks5Action))
    ensures
        step.0 == Socks5State::Closed,
        step.1.send@ == Seq::<u8>::empty(),
        step.1.next is Close,
{
    (Socks5State::Closed, Socks5Action { send: Vec::new(), next: Socks5Next::Close })
}

fn quiet(state: Socks5State, next: Socks5Next) -> (step: (Socks5State, Socks5Action))
    ensures
        step.0 == state,
        step.1.send@ == Seq::<u8>::empty(),
        step.1.next == next,
{
    (state, Socks5Action { send: Vec::new(), next })
}

/// The reply to a request with `code`.
pub fn make_reply(code: u8) -> (bytes: Vec<u8>)
    ensures
        bytes@ == reply(code),
{
    let mut bytes: Vec<u8> = Vec::new();
    bytes.push(SOCKS_VERSION);
    bytes.push(code);
    bytes.push(0);
    bytes.push(ADDRESS_IPV4);
    bytes.push(0);
    bytes.push(0);
    bytes.push(0);
    bytes.push(0);
    bytes.push(0);
    bytes.push(0);
    assert(bytes@ =~= reply(code));
    bytes
}

fn refuse(code: u8) -> (step: (Socks5State, Socks5Action))
    ensures
        step.0 == Socks5State::Closed,
        step.1.send@ == reply(code),
        step.1.next is Close,
{
    (Socks5State::Closed, Socks5Action { send: make_reply(code), next: Socks5Next::Close })
}

fn has_method(methods: &[u8], method: u8) -> (yes: bool)
    ensures
        yes == methods@.contains(method),
{
    let mut i: usize = 0;
    while i < methods.len()
        invariant
            i <= methods@.len(),
            forall|j: int| 0 <= j < i ==> methods@[j] != method,
        decreases methods@.len() - i,
    {
        if methods[i] == method {
            return true;
        }
        i += 1;
    }
    false
}

fn port_of(bytes: &[u8]) -> (port: u16)
    requires
        bytes@.len() >= 2,
    ensures
        port == port_at_end(bytes@),
{
    let n = bytes.len();
    (bytes[n - 2] as u16) * 256 + (bytes[n - 1] as u16)
}

fn v6_of(bytes: &[u8]) -> (value: u128)
    requires
        bytes@.len() >= 16,
    ensures
        value == v6_value(bytes@, 16),
{
    let mut value: u128 = 0;
    let mut i: usize = 0;
    while i < 16
        invariant
            i <= 16 <= bytes@.len(),
            value == v6_value(bytes@, i as int),
            i < 16 ==> value < pow256(i as nat),
        decreases 16 - i,
    {
        proof {
            lemma_pow256(i as nat);
        }
        value = value * 256 + bytes[i] as u128;
        i += 1;
    }
    value
}

/// 256 to the power of `n`.
pub open spec fn pow256(n: nat) -> nat
    decreases n,
{
    if n == 0 {
        1
    } else {
        256 * pow256((n - 1) as nat)
    }
}

proof fn lemma_pow256(n: nat)
    requires
        n < 16,
    ensures
        pow256(n) * 256 == pow256(n + 1),
        pow256(n + 1) <= 0x1_0000_0000_0000_0000_0000_0000_0000_0000,
    decreases 16 - n,
{
    reveal_with_fuel(pow256, 17);
}

/// Moves the handshake on by one event; see `transition`.
pub fn advance(state: Socks5State, event: Socks5Event<'_>) -> (step: (Socks5State, Socks5Action))
    ensures
        step.0 == transition(state, event@).0,
        step.1.send@ == transition(state, event@).1,
        step.1.next.is(transition(state, event@).2),
{
    match (state, event) {
        (Socks5State::Greeting, Socks5Event::Received(b)) => {
            if b.len() == 2 && b[0] == SOCKS_VERSION {
                let count = b[1] as usize;
                quiet(Socks5State::Methods { count }, Socks5Next::Read(count))
            } else {
                close()
            }
        },
        (Socks5State::Methods { count }, Socks5Event::Received(b)) => {
            if b.len() != count {
                close()
            } else if has_method(b, METHOD_NONE) {
                let mut send: Vec<u8> = Vec::new();
                send.push(SOCKS_VERSION);
                send.push(METHOD_NONE);
                assert(send@ =~= seq![SOCKS_VERSION, METHOD_NONE]);
                (Socks5State::Request, Socks5Action { send, next: Socks5Next::Read(4) })
            } else {
                let mut send: Vec<u8> = Vec::new();
                send.push(SOCKS_VERSION);
                send.push(METHOD_REFUSED);
                assert(send@ =~= seq![SOCKS_VERSION, METHOD_REFUSED]);
                (Socks5State::Closed, Socks5Action { send, next: Socks5Next::Close })
            }
        },
        (Socks5State::Request, Socks5Event::Received(b)) => {
            if b.len() != 4 {
                close()
            } else if b[1] != COMMAND_CONNECT {
                refuse(REPLY_COMMAND_UNSUPPORTED)
            } else if b[3] == ADDRESS_IPV4 {
                quiet(Socks5State::Ipv4Target, Socks5Next::Read(6))
            } else if b[3] == ADDRESS_DOMAIN {
                quiet(Socks5State::DomainLength, Socks5Next::Read(1))
            } else if b[3] == ADDRESS_IPV6 {
                quiet(Socks5State::Ipv6Target, Socks5Next::Read(18))
            } else {
                refuse(REPLY_ADDRESS_UNSUPPORTED)
            }
        },
        (Socks5State::Ipv4Target, Socks5Event::Received(b)) => {
            if b.len() != 6 {
                close()
            } else {
                let ip = IpAddress::v4(b[0], b[1], b[2], b[3]);
                let port = port_of(b);
                quiet(Socks5State::Connecting { ip, port }, Socks5Next::Connect(ip, port))
            }
        },
        (Socks5State::Ipv6Target, Socks5Event::Received(b)) => {
            if b.len() != 18 {
                close()
            } else {
                let ip = IpAddress::V6(v6_of(b));
                let port = port_of(b);
                quiet(Socks5State::Connecting { ip, port }, Socks5Next::Connect(ip, port))
            }
        },
        (Socks5State::DomainLength, Socks5Event::Received(b)) => {
            if b.len() != 1 {
                close()
            } else {
                let len = b[0] as usize;
                quiet(Socks5State::DomainTarget { len }, Socks5Next::Read(len + 2))
            }
        },
        (Socks5State::DomainTarget { len }, Socks5Event::Received(b)) => {
            if len > b.len() || b.len() - len != 2 {
                close()
            } else {
                let name = slice_subrange(b, 0, len);
                assert(name@ =~= b@.take(len as int));
                match text_of(name) {
                    Some(domain) => {
                        let port = port_of(b);
                        quiet(Socks5State::Resolving { port }, Socks5Next::Resolve(domain))
                    },
                    None => close(),
                }
            }
        },
        (Socks5State::Resolving { port }, Socks5Event::Resolved(ip)) => quiet(
            Socks5State::Connecting { ip, port },
            Socks5Next::Connect(ip, port),
        ),
        (Socks5State::Resolving { port: _ }, Socks5Event::ResolveFailed) => refuse(
            REPLY_HOST_UNREACHABLE,
        ),
        (Socks5State::Connecting { ip, port }, Socks5Event::Connected) => (
            Socks5State::Relaying { ip, port },
            Socks5Action { send: make_reply(REPLY_SUCCESS), next: Socks5Next::Relay },
        ),
        (Socks5State::Connecting { ip: _, port: _ }, Socks5Event::ConnectFailed) => refuse(
            REPLY_CONNECTION_REFUSED,
        ),
        _ => close(),
    }
}

} // verus!
