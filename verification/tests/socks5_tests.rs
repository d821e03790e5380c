use turkeydpi::net::IpAddress;
use turkeydpi::socks5::{advance, make_reply, Socks5Event, Socks5Next, Socks5State};

fn step(state: Socks5State, bytes: &[u8]) -> (Socks5State, Vec<u8>, Socks5Next) {
    let (state, action) = advance(state, Socks5Event::Received(bytes));
    (state, action.send, action.next)
}

#[test]
fn a_connect_to_an_ipv4_address_runs_through() {
    let (state, send, next) = step(Socks5State::Greeting, &[5, 2]);
    assert_eq!(state, Socks5State::Methods { count: 2 });
    assert!(send.is_empty());
    assert!(matches!(next, Socks5Next::Read(2)));
    let (state, send, next) = step(state, &[2, 0]);
    assert_eq!(state, Socks5State::Request);
    assert_eq!(send, vec![5, 0]);
    assert!(matches!(next, Socks5Next::Read(4)));
    let (state, send, next) = step(state, &[5, 1, 0, 1]);
    assert_eq!(state, Socks5State::Ipv4Target);
    assert!(send.is_empty());
    assert!(matches!(next, Socks5Next::Read(6)));
    let (state, send, next) = step(state, &[93, 184, 216, 34, 0x01, 0xbb]);
    let ip = IpAddress::v4(93, 184, 216, 34);
    assert_eq!(state, Socks5State::Connecting { ip, port: 443 });
    assert!(send.is_empty());
    match next {
        Socks5Next::Connect(to, port) => assert_eq!((to, port), (ip, 443)),
        other => panic!("unexpected {:?}", other),
    }
    let (state, action) = advance(state, Socks5Event::Connected);
    assert_eq!(state, Socks5State::Relaying { ip, port: 443 });
    assert_eq!(action.send, vec![5, 0, 0, 1, 0, 0, 0, 0, 0, 0]);
    assert!(matches!(action.next, Socks5Next::Relay));
}

#[test]
fn a_domain_name_is_looked_up_first() {
    let (state, _, next) = step(Socks5State::Request, &[5, 1, 0, 3]);
    assert_eq!(state, Socks5State::DomainLength);
    assert!(matches!(next, Socks5Next::Read(1)));
    let (state, _, next) = step(state, &[11]);
    assert_eq!(state, Socks5State::DomainTarget { len: 11 });
    assert!(matches!(next, Socks5Next::Read(13)));
    let (state, send, next) = step(state, b"discord.com\x1f\x90");
    assert_eq!(state, Socks5State::Resolving { port: 8080 });
    assert!(send.is_empty());
    match next {
        Socks5Next::Resolve(name) => assert_eq!(name, "discord.com"),
        other => panic!("unexpected {:?}", other),
    }
    let ip = IpAddress::V6(7);
    let (state, action) = advance(state, Socks5Event::Resolved(ip));
    assert_eq!(state, Socks5State::Connecting { ip, port: 8080 });
    assert!(matches!(action.next, Socks5Next::Connect(_, 8080)));
    let (closed, action) = advance(Socks5State::Resolving { port: 1 }, Socks5Event::ResolveFailed);
    assert_eq!(closed, Socks5State::Closed);
    assert_eq!(action.send, make_reply(4));
    assert!(matches!(action.next, Socks5Next::Close));
    let (closed, action) = advance(Socks5State::Resolving { port: 1 }, Socks5Event::Unresolved);
    assert_eq!(closed, Socks5State::Closed);
    assert!(action.send.is_empty());
    let (closed, send, _) = step(Socks5State::DomainTarget { len: 2 }, &[0xff, 0xfe, 0, 80]);
    assert_eq!(closed, Socks5State::Closed);
    assert!(send.is_empty());
    let (state, _, next) = step(Socks5State::DomainTarget { len: 0 }, &[0, 80]);
    assert_eq!(state, Socks5State::Resolving { port: 80 });
    assert!(matches!(next, Socks5Next::Resolve(name) if name.is_empty()));
}

#[test]
fn an_ipv6_address_is_read_most_significant_byte_first() {
    let (state, _, next) = step(Socks5State::Request, &[5, 1, 0, 4]);
    assert_eq!(state, Socks5State::Ipv6Target);
    assert!(matches!(next, Socks5Next::Read(18)));
    let mut bytes = vec![0x20, 0x01, 0x0d, 0xb8];
    bytes.extend_from_slice(&[0; 11]);
    bytes.push(1);
    bytes.extend_from_slice(&[0, 53]);
    let (state, _, _) = step(state, &bytes);
    let ip = IpAddress::V6((0x2001_0db8u128 << 96) | 1);
    assert_eq!(state, Socks5State::Connecting { ip, port: 53 });
    let (state, _, _) = step(Socks5State::Ipv6Target, &[0xff; 18]);
    assert_eq!(state, Socks5State::Connecting { ip: IpAddress::V6(u128::MAX), port: 0xffff });
}

#[test]
fn what_is_not_served_is_refused_with_its_code() {
    let (state, send, next) = step(Socks5State::Greeting, &[4, 1]);
    assert_eq!(state, Socks5State::Closed);
    assert!(send.is_empty());
    assert!(matches!(next, Socks5Next::Close));
    let (state, send, _) = step(Socks5State::Methods { count: 2 }, &[1, 2]);
    assert_eq!(state, Socks5State::Closed);
    assert_eq!(send, vec![5, 0xff]);
    let (state, send, _) = step(Socks5State::Methods { count: 0 }, &[]);
    assert_eq!(state, Socks5State::Closed);
    assert_eq!(send, vec![5, 0xff]);
    let (state, send, _) = step(Socks5State::Request, &[5, 2, 0, 1]);
    assert_eq!(state, Socks5State::Closed);
    assert_eq!(send, vec![5, 7, 0, 1, 0, 0, 0, 0, 0, 0]);
    let (state, send, _) = step(Socks5State::Request, &[5, 3, 0, 9]);
    assert_eq!(state, Socks5State::Closed);
    assert_eq!(send, make_reply(7));
    let (state, send, _) = step(Socks5State::Request, &[5, 1, 0, 2]);
    assert_eq!(state, Socks5State::Closed);
    assert_eq!(send, vec![5, 8, 0, 1, 0, 0, 0, 0, 0, 0]);
    let ip = IpAddress::v4(1, 1, 1, 1);
    let (state, action) = advance(Socks5State::Connecting { ip, port: 1 }, Socks5Event::ConnectFailed);
    assert_eq!(state, Socks5State::Closed);
    assert_eq!(action.send, vec![5, 5, 0, 1, 0, 0, 0, 0, 0, 0]);
}

#[test]
fn anything_out_of_turn_closes_the_connection() {
    let states = [
        Socks5State::Greeting,
        Socks5State::Methods { count: 3 },
        Socks5State::Request,
        Socks5State::Ipv4Target,
        Socks5State::DomainLength,
        Socks5State::DomainTarget { len: 3 },
        Socks5State::Ipv6Target,
        Socks5State::Resolving { port: 1 },
        Socks5State::Connecting { ip: IpAddress::V6(1), port: 1 },
        Socks5State::Relaying { ip: IpAddress::V6(1), port: 1 },
        Socks5State::Closed,
    ];
    for state in states {
        let (next, action) = advance(state, Socks5Event::Failed);
        assert_eq!(next, Socks5State::Closed);
        assert!(action.send.is_empty());
        assert!(matches!(action.next, Socks5Next::Close));
        // Seven bytes are what no state asks for.
        let (next, action) = advance(state, Socks5Event::Received(&[5, 1, 0, 1, 0, 0, 0]));
        assert_eq!(next, Socks5State::Closed);
        assert!(action.send.is_empty());
    }
    let (next, _) = advance(Socks5State::Greeting, Socks5Event::Connected);
    assert_eq!(next, Socks5State::Closed);
    let (next, _) = advance(Socks5State::Request, Socks5Event::Resolved(IpAddress::V6(1)));
    assert_eq!(next, Socks5State::Closed);
}
