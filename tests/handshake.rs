use socks_parser::v5::AddressType;
use socks_parser::{
    ClientAction, ClientHandshake, ConnectionRequest, Destination, Field, HandshakeError, Ipv4Addr,
    Ipv6Addr, ServerAction, ServerHandshake, Version,
};

fn example_com_80() -> Destination {
    Destination { addr: AddressType::DomainName("example.com".to_string()), port: 80 }
}

fn reached() -> Destination {
    Destination { addr: AddressType::IPv4(Ipv4Addr::new(93, 184, 216, 34)), port: 80 }
}

fn expect_reply(a: ServerAction) -> Vec<u8> {
    match a {
        ServerAction::Reply(b) => b,
        other => panic!("expected a reply, got {other:?}"),
    }
}

fn expect_send(a: ClientAction) -> Vec<u8> {
    match a {
        ClientAction::Send(b) => b,
        other => panic!("expected bytes to send, got {other:?}"),
    }
}

fn expect_resolve(a: ServerAction) -> ConnectionRequest {
    match a {
        ServerAction::Resolve(r) => r,
        other => panic!("expected a resolve, got {other:?}"),
    }
}

#[test]
fn only_username_password_is_refused() {
    let mut server = ServerHandshake::new();
    match server.receive(&[5, 1, 2]) {
        ServerAction::Close(bytes, e) => {
            assert_eq!(bytes, vec![5, 0xff]);
            assert_eq!(e, HandshakeError::NoAcceptableMethod);
        }
        other => panic!("unexpected {other:?}"),
    }
}

#[test]
fn no_authentication_is_selected_when_offered() {
    let mut server = ServerHandshake::new();
    assert_eq!(expect_reply(server.receive(&[5, 2, 2, 0])), vec![5, 0]);
    assert!(matches!(server.receive(&[]), ServerAction::ReadMore));
}

#[test]
fn greeting_split_across_reads() {
    let mut server = ServerHandshake::new();
    assert!(matches!(server.receive(&[]), ServerAction::ReadMore));
    assert!(matches!(server.receive(&[5]), ServerAction::ReadMore));
    assert!(matches!(server.receive(&[1]), ServerAction::ReadMore));
    assert_eq!(expect_reply(server.receive(&[0])), vec![5, 0]);
}

#[test]
fn unknown_version_is_closed_without_reply() {
    let mut server = ServerHandshake::new();
    match server.receive(&[6, 1, 0]) {
        ServerAction::Close(bytes, e) => {
            assert!(bytes.is_empty());
            assert_eq!(e, HandshakeError::Malformed(Field::Version));
        }
        other => panic!("unexpected {other:?}"),
    }
}

#[test]
fn endless_message_is_too_large() {
    let mut server = ServerHandshake::new();
    let mut start = vec![4, 1, 0, 80, 1, 2, 3, 4];
    start.extend(std::iter::repeat(b'a').take(2000));
    match server.receive(&start) {
        ServerAction::Close(bytes, e) => {
            assert!(bytes.is_empty());
            assert_eq!(e, HandshakeError::MessageTooLarge);
        }
        other => panic!("unexpected {other:?}"),
    }
}

#[test]
fn v5_connect_end_to_end() {
    let (mut client, hello) = ClientHandshake::start(Version::Socks5, example_com_80()).unwrap();
    assert_eq!(hello, vec![5, 1, 0]);
    let mut server = ServerHandshake::new();
    let method = expect_reply(server.receive(&hello));
    let request = expect_send(client.receive(&method));
    let mut expected = vec![5, 1, 0, 3, 11];
    expected.extend_from_slice(b"example.com");
    expected.extend_from_slice(&[0, 80]);
    assert_eq!(request, expected);

    let asked = expect_resolve(server.receive(&request));
    assert_eq!(asked.destination, example_com_80());
    let reply = match server.resolved(Some(reached())) {
        ServerAction::Established(b) => b,
        other => panic!("unexpected {other:?}"),
    };
    assert_eq!(reply, vec![0x05, 0x00, 0x00, 0x01, 0x5D, 0xB8, 0xD8, 0x22, 0x00, 0x50]);
    assert!(matches!(client.receive(&reply), ClientAction::Established));
}

#[test]
fn v5_connect_failure_echoes_request() {
    let mut server = ServerHandshake::new();
    expect_reply(server.receive(&[5, 1, 0]));
    let mut request = vec![5, 1, 0, 3, 11];
    request.extend_from_slice(b"example.com");
    request.extend_from_slice(&[0, 80]);
    expect_resolve(server.receive(&request));
    match server.resolved(None) {
        ServerAction::Close(bytes, e) => {
            let mut expected = vec![5, 1, 0, 3, 11];
            expected.extend_from_slice(b"example.com");
            expected.extend_from_slice(&[0, 80]);
            assert_eq!(bytes, expected);
            assert_eq!(e, HandshakeError::ConnectFailed);
        }
        other => panic!("unexpected {other:?}"),
    }
}

#[test]
fn v4_connect_end_to_end() {
    let target = Destination { addr: AddressType::IPv4(Ipv4Addr::new(10, 0, 0, 7)), port: 22 };
    let (mut client, request) = ClientHandshake::start(Version::Socks4, target).unwrap();
    assert_eq!(request, vec![4, 1, 0, 22, 10, 0, 0, 7, 0]);
    let mut server = ServerHandshake::new();
    let asked = expect_resolve(server.receive(&request));
    assert_eq!(asked.destination.port, 22);
    let reply = match server.resolved(Some(Destination {
        addr: AddressType::IPv6(Ipv6Addr::from_octets([0; 16])),
        port: 22,
    })) {
        ServerAction::Established(b) => b,
        other => panic!("unexpected {other:?}"),
    };
    assert_eq!(reply, vec![0, 0x5a, 0, 22, 0, 0, 0, 0]);
    assert!(matches!(client.receive(&reply), ClientAction::Established));
}

#[test]
fn v4_connect_failure_is_rejected() {
    let mut server = ServerHandshake::new();
    expect_resolve(server.receive(&[4, 1, 0, 80, 1, 2, 3, 4, 0]));
    match server.resolved(None) {
        ServerAction::Close(bytes, e) => {
            assert_eq!(bytes, vec![0, 0x5b, 0, 80, 1, 2, 3, 4]);
            assert_eq!(e, HandshakeError::ConnectFailed);
        }
        other => panic!("unexpected {other:?}"),
    }
}

#[test]
fn v4_client_cannot_reach_ipv6() {
    let target = Destination { addr: AddressType::IPv6(Ipv6Addr::from_octets([0; 16])), port: 1 };
    let r = ClientHandshake::start(Version::Socks4, target);
    assert!(matches!(r, Err(HandshakeError::AddressNotSupported)));
}

#[test]
fn client_refuses_other_methods() {
    let (mut client, _) = ClientHandshake::start(Version::Socks5, example_com_80()).unwrap();
    assert!(matches!(client.receive(&[5]), ClientAction::ReadMore));
    assert!(matches!(client.receive(&[2]), ClientAction::Close(HandshakeError::NoAcceptableMethod)));
}

#[test]
fn client_reports_failure_statuses() {
    let (mut c5, _) = ClientHandshake::start(Version::Socks5, example_com_80()).unwrap();
    expect_send(c5.receive(&[5, 0]));
    match c5.receive(&[5, 5, 0, 1, 0, 0, 0, 0, 0, 0]) {
        ClientAction::Close(HandshakeError::RejectedV5(s)) => {
            assert_eq!(s, socks_parser::v5::Status::ConnectionRefused)
        }
        other => panic!("unexpected {other:?}"),
    }

    let (mut c4, _) = ClientHandshake::start(Version::Socks4, example_com_80()).unwrap();
    match c4.receive(&[0, 0x5c, 0, 0, 0, 0, 0, 0]) {
        ClientAction::Close(HandshakeError::RejectedV4(s)) => {
            assert_eq!(s, socks_parser::v4::Status::InetdNotAccessible)
        }
        other => panic!("unexpected {other:?}"),
    }

    let (mut c, _) = ClientHandshake::start(Version::Socks5, example_com_80()).unwrap();
    assert!(matches!(
        c.receive(&[4, 0]),
        ClientAction::Close(HandshakeError::Malformed(Field::Version))
    ));
}

#[test]
fn pipelined_request_after_hello() {
    let mut server = ServerHandshake::new();
    let mut bytes = vec![5, 1, 0];
    bytes.extend_from_slice(&[5, 1, 0, 1, 127, 0, 0, 1, 0x1f, 0x90]);
    assert_eq!(expect_reply(server.receive(&bytes)), vec![5, 0]);
    let asked = expect_resolve(server.receive(&[]));
    assert_eq!(asked.destination.addr, AddressType::IPv4(Ipv4Addr::new(127, 0, 0, 1)));
    assert_eq!(asked.destination.port, 8080);
    assert!(server.pending().is_empty());
}

#[test]
fn destination_conversions() {
    let d = Destination::from((socks_parser::v4::AddressType::DomainName("h".to_string()), 7));
    assert_eq!(d.addr, AddressType::DomainName("h".to_string()));
    let r = socks_parser::ConnectionResponse { connected_to: example_com_80(), status: socks_parser::v5::Status::Success };
    let v4r = socks_parser::v4::Response::from(r);
    assert_eq!(v4r.status, socks_parser::v4::Status::Success);
    assert_eq!(v4r.addr, Ipv4Addr::new(0, 0, 0, 0));
    assert_eq!(v4r.port, 80);
    let r5 = socks_parser::ConnectionResponse { connected_to: reached(), status: socks_parser::v5::Status::TTLExpired };
    let v5r = socks_parser::v5::Response::from(r5);
    assert_eq!(v5r.status, socks_parser::v5::Status::TTLExpired);
    assert_eq!(v5r.addr, reached().addr);
    let (a, p) = socks_parser::IntoSocksAddr::into_socks_addr(("host", 9u16));
    assert_eq!(a, AddressType::DomainName("host".to_string()));
    assert_eq!(p, 9);
}
