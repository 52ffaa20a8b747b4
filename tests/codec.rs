use socks_parser::v4;
use socks_parser::v5;
use socks_parser::v5::AuthenticationMethod;
use socks_parser::{DecodeError, Field, Ipv4Addr, Ipv6Addr, Needed, Version, Wire};

fn encode<T: Wire>(value: &T) -> Vec<u8> {
    let mut buffer = Vec::new();
    value.encode_into(&mut buffer);
    buffer
}

fn v6_octets() -> [u8; 16] {
    [0x20, 0x01, 0x0d, 0xb8, 0, 0, 0, 0, 0, 0, 0, 0, 0, 0, 0, 1]
}

#[test]
fn version_bytes() {
    assert_eq!(encode(&Version::Socks4), vec![4]);
    assert_eq!(encode(&Version::Socks5), vec![5]);
    let (rest, v) = Version::decode(&[5, 9]).unwrap();
    assert_eq!(v, Version::Socks5);
    assert_eq!(rest, &[9]);
    assert_eq!(Version::decode(&[6]).unwrap_err(), DecodeError::Malformed(Field::Version));
    assert_eq!(Version::decode(&[]).unwrap_err(), DecodeError::Incomplete(Needed::Size(1)));
}

#[test]
fn port_is_big_endian() {
    assert_eq!(encode(&0x1f90u16), vec![0x1f, 0x90]);
    let (rest, p) = u16::decode(&[0x00, 0x50, 0xaa]).unwrap();
    assert_eq!(p, 80);
    assert_eq!(rest, &[0xaa]);
    assert_eq!(u16::decode(&[0x01]).unwrap_err(), DecodeError::Incomplete(Needed::Size(1)));
}

#[test]
fn ipv4_and_ipv6_octets() {
    let a = Ipv4Addr::new(93, 184, 216, 34);
    assert_eq!(a.octets(), [93, 184, 216, 34]);
    assert_eq!(encode(&a), vec![93, 184, 216, 34]);
    let (_, b) = Ipv4Addr::decode(&[10, 0, 0, 1]).unwrap();
    assert_eq!(b, Ipv4Addr::new(10, 0, 0, 1));
    assert_eq!(Ipv4Addr::decode(&[10, 0]).unwrap_err(), DecodeError::Incomplete(Needed::Size(2)));

    let six = Ipv6Addr::from_octets(v6_octets());
    assert_eq!(encode(&six), v6_octets().to_vec());
    let bytes = encode(&six);
    let (rest, back) = Ipv6Addr::decode(&bytes).unwrap();
    assert_eq!(back, six);
    assert!(rest.is_empty());
    assert_eq!(Ipv6Addr::decode(&[0; 10]).unwrap_err(), DecodeError::Incomplete(Needed::Size(6)));
}

#[test]
fn address_type_layouts() {
    let ip4 = v5::AddressType::IPv4(Ipv4Addr::new(1, 2, 3, 4));
    assert_eq!(encode(&ip4), vec![1, 1, 2, 3, 4]);
    let name = v5::AddressType::DomainName("example.com".to_string());
    let mut expected = vec![3, 11];
    expected.extend_from_slice(b"example.com");
    assert_eq!(encode(&name), expected);
    let ip6 = v5::AddressType::IPv6(Ipv6Addr::from_octets(v6_octets()));
    let mut expected6 = vec![4];
    expected6.extend_from_slice(&v6_octets());
    assert_eq!(encode(&ip6), expected6);

    for a in [ip4, name, ip6] {
        let mut bytes = encode(&a);
        bytes.push(0x77);
        let (rest, back) = v5::AddressType::decode(&bytes).unwrap();
        assert_eq!(back, a);
        assert_eq!(rest, &[0x77]);
    }
}

#[test]
fn address_type_tags() {
    for tag in 0u8..=255 {
        let mut bytes = vec![tag];
        bytes.extend_from_slice(&[3; 20]);
        let r = v5::AddressType::decode(&bytes);
        if tag == 1 || tag == 3 || tag == 4 {
            assert!(r.is_ok(), "tag {tag}");
        } else {
            let e = r.unwrap_err();
            assert_eq!(e, DecodeError::Malformed(Field::AddressType));
            assert!(Field::AddressType.label().contains("address type"));
        }
    }
}

#[test]
fn domain_name_must_be_utf8() {
    let r = v5::AddressType::decode(&[3, 2, 0xc3, 0x28]);
    assert_eq!(r.unwrap_err(), DecodeError::Malformed(Field::DomainName));
    let (_, a) = v5::AddressType::decode(&[3, 2, 0xc3, 0xa9]).unwrap();
    assert_eq!(a, v5::AddressType::DomainName("\u{e9}".to_string()));
    assert_eq!(
        v5::AddressType::decode(&[3, 5, b'a']).unwrap_err(),
        DecodeError::Incomplete(Needed::Size(4))
    );
}

#[test]
fn hostname_codec() {
    let mut buffer = vec![9];
    socks_parser::common::hostname::encode_hostname(&mut buffer, "abc");
    assert_eq!(buffer, vec![9, 3, b'a', b'b', b'c']);
    let (rest, name) = socks_parser::common::hostname::decode_hostname(&buffer[1..]).unwrap();
    assert_eq!(name, "abc");
    assert!(rest.is_empty());
}

#[test]
fn authentication_method_all_bytes() {
    for b in 0u8..=255 {
        let m = AuthenticationMethod::from(b);
        assert_eq!(m.as_u8(), b);
        let bytes = encode(&m);
        assert_eq!(bytes, vec![b]);
        let (rest, back) = AuthenticationMethod::decode(&bytes).unwrap();
        assert_eq!(back, m);
        assert!(rest.is_empty());
    }
    assert_eq!(AuthenticationMethod::from(0), AuthenticationMethod::NoAuthentication);
    assert_eq!(AuthenticationMethod::from(1), AuthenticationMethod::Gssapi);
    assert_eq!(AuthenticationMethod::from(2), AuthenticationMethod::UsernamePassword);
    assert_eq!(AuthenticationMethod::from(3), AuthenticationMethod::IanaAssigned(3));
    assert_eq!(AuthenticationMethod::from(0x7f), AuthenticationMethod::IanaAssigned(0x7f));
    assert_eq!(AuthenticationMethod::from(0x80), AuthenticationMethod::PrivateMethod(0x80));
    assert_eq!(AuthenticationMethod::from(0xfe), AuthenticationMethod::PrivateMethod(0xfe));
    assert_eq!(AuthenticationMethod::from(0xff), AuthenticationMethod::NotAcceptable);
}

#[test]
fn commands() {
    assert_eq!(encode(&v5::Command::Connect), vec![1]);
    assert_eq!(encode(&v5::Command::Bind), vec![2]);
    assert_eq!(encode(&v5::Command::UdpAssociate), vec![3]);
    assert_eq!(v5::Command::decode(&[3]).unwrap().1, v5::Command::UdpAssociate);
    assert_eq!(v5::Command::decode(&[4]).unwrap_err(), DecodeError::Malformed(Field::Command));
    assert_eq!(v4::Command::decode(&[2]).unwrap().1, v4::Command::Bind);
    assert_eq!(v4::Command::decode(&[3]).unwrap_err(), DecodeError::Malformed(Field::Command));
}

#[test]
fn v5_hello_round_trip() {
    let hello = v5::Hello {
        methods: vec![
            AuthenticationMethod::UsernamePassword,
            AuthenticationMethod::NoAuthentication,
            AuthenticationMethod::PrivateMethod(0x90),
        ],
    };
    let bytes = encode(&hello);
    assert_eq!(bytes, vec![5, 3, 2, 0, 0x90]);
    let (rest, back) = v5::Hello::decode(&bytes).unwrap();
    assert_eq!(back.methods, hello.methods);
    assert!(rest.is_empty());
    assert_eq!(v5::Hello::decode(&[4, 1, 0]).unwrap_err(), DecodeError::Malformed(Field::Version));
    assert_eq!(v5::Hello::decode(&[5, 3, 0]).unwrap_err(), DecodeError::Incomplete(Needed::Size(2)));
}

#[test]
fn v5_hello_response_round_trip() {
    let h = v5::HelloResponse { method: AuthenticationMethod::NotAcceptable };
    assert_eq!(encode(&h), vec![5, 0xff]);
    let (rest, back) = v5::HelloResponse::decode(&[5, 0, 1]).unwrap();
    assert_eq!(back.method, AuthenticationMethod::NoAuthentication);
    assert_eq!(rest, &[1]);
}

#[test]
fn v5_request_round_trip() {
    let req = v5::Request {
        command: v5::Command::Connect,
        addr: v5::AddressType::DomainName("example.com".to_string()),
        port: 80,
    };
    let bytes = encode(&req);
    let mut expected = vec![5, 1, 0, 3, 11];
    expected.extend_from_slice(b"example.com");
    expected.extend_from_slice(&[0, 80]);
    assert_eq!(bytes, expected);
    let (rest, back) = v5::Request::decode(&bytes).unwrap();
    assert_eq!(back.command, req.command);
    assert_eq!(back.addr, req.addr);
    assert_eq!(back.port, req.port);
    assert!(rest.is_empty());
}

#[test]
fn v5_response_round_trip() {
    let resp = v5::Response {
        status: v5::Status::HostUnreachable,
        addr: v5::AddressType::IPv6(Ipv6Addr::from_octets(v6_octets())),
        port: 443,
    };
    let bytes = encode(&resp);
    assert_eq!(bytes.len(), 22);
    assert_eq!(&bytes[..4], &[5, 4, 0, 4]);
    assert_eq!(&bytes[20..], &[1, 187]);
    let (_, back) = v5::Response::decode(&bytes).unwrap();
    assert_eq!(back.status, resp.status);
    assert_eq!(back.addr, resp.addr);
    assert_eq!(back.port, 443);
}

#[test]
fn v5_status_bytes() {
    let named = [
        v5::Status::Success,
        v5::Status::GeneralFailure,
        v5::Status::ConnectionNotAllowed,
        v5::Status::NetworkUnreachable,
        v5::Status::HostUnreachable,
        v5::Status::ConnectionRefused,
        v5::Status::TTLExpired,
        v5::Status::CommandNotSupported,
    ];
    for (i, s) in named.iter().enumerate() {
        assert_eq!(encode(s), vec![i as u8]);
        assert_eq!(v5::Status::from(i as u8), *s);
    }
    for b in 8u8..=255 {
        assert_eq!(v5::Status::from(b), v5::Status::Unassigned(b));
        assert_eq!(encode(&v5::Status::Unassigned(b)), vec![b]);
    }
}

#[test]
fn v4_status_bytes() {
    assert_eq!(encode(&v4::Status::Success), vec![0x5a]);
    assert_eq!(encode(&v4::Status::Rejected), vec![0x5b]);
    assert_eq!(encode(&v4::Status::InetdNotAccessible), vec![0x5c]);
    assert_eq!(encode(&v4::Status::InetdNotIdentified), vec![0x5d]);
    assert_eq!(v4::Status::decode(&[0x5d]).unwrap().1, v4::Status::InetdNotIdentified);
    assert_eq!(v4::Status::decode(&[0x5e]).unwrap_err(), DecodeError::Malformed(Field::Status));
}

#[test]
fn v4_request_ipv4_round_trip() {
    let req = v4::Request {
        command: v4::Command::Connect,
        addr: v4::AddressType::IPv4(Ipv4Addr::new(10, 1, 2, 3)),
        port: 8080,
        secret: Some("bob".to_string()),
    };
    let bytes = encode(&req);
    assert_eq!(bytes, vec![4, 1, 0x1f, 0x90, 10, 1, 2, 3, b'b', b'o', b'b', 0]);
    let (rest, back) = v4::Request::decode(&bytes).unwrap();
    assert_eq!(back.command, req.command);
    assert_eq!(back.addr, req.addr);
    assert_eq!(back.port, req.port);
    assert_eq!(back.secret, req.secret);
    assert!(rest.is_empty());
}

#[test]
fn v4_request_domain_round_trip() {
    let req = v4::Request {
        command: v4::Command::Bind,
        addr: v4::AddressType::DomainName("example.com".to_string()),
        port: 80,
        secret: None,
    };
    let bytes = encode(&req);
    let mut expected = vec![4, 2, 0, 80, 0, 0, 0, 1, 0];
    expected.extend_from_slice(b"example.com\0");
    assert_eq!(bytes, expected);
    let (_, back) = v4::Request::decode(&bytes).unwrap();
    assert_eq!(back.addr, req.addr);
    assert_eq!(back.secret, None);
}

#[test]
fn v4_domain_extension() {
    let mut bytes = vec![4, 1, 0, 80, 0, 0, 0, 1, 0];
    bytes.extend_from_slice(b"example.com\0");
    let (rest, req) = v4::Request::decode(&bytes).unwrap();
    assert_eq!(req.addr, v4::AddressType::DomainName("example.com".to_string()));
    assert_eq!(req.secret, None);
    assert!(rest.is_empty());

    let empty = [4, 1, 0, 80, 0, 0, 0, 1, 0, 0];
    assert_eq!(v4::Request::decode(&empty).unwrap_err(), DecodeError::Malformed(Field::DomainName));
}

#[test]
fn v4_request_errors() {
    assert_eq!(
        v4::Request::decode(&[5, 1, 0, 80, 1, 2, 3, 4, 0]).unwrap_err(),
        DecodeError::Malformed(Field::Version)
    );
    assert_eq!(
        v4::Request::decode(&[4, 1, 0, 80, 1, 2, 3, 4, b'x', 0x80, 0]).unwrap_err(),
        DecodeError::Malformed(Field::UserId)
    );
    assert_eq!(
        v4::Request::decode(&[4, 1, 0, 80, 1, 2, 3, 4, b'x']).unwrap_err(),
        DecodeError::Incomplete(Needed::Unknown)
    );
}

#[test]
fn v4_response_round_trip() {
    let resp = v4::Response { status: v4::Status::Success, addr: Ipv4Addr::new(1, 2, 3, 4), port: 80 };
    let bytes = encode(&resp);
    assert_eq!(bytes, vec![0, 0x5a, 0, 80, 1, 2, 3, 4]);
    let (_, back) = v4::Response::decode(&bytes).unwrap();
    assert_eq!(back.status, v4::Status::Success);
    assert_eq!(back.addr, resp.addr);
    assert_eq!(back.port, 80);
    assert_eq!(v4::Response::decode(&[1, 0x5a]).unwrap_err(), DecodeError::Malformed(Field::Version));
}

fn assert_prefixes_incomplete<T: Wire>(bytes: &[u8]) {
    for k in 0..bytes.len() {
        match T::decode(&bytes[..k]) {
            Err(DecodeError::Incomplete(_)) => {}
            _ => panic!("prefix of length {k} was not incomplete"),
        }
    }
    assert!(T::decode(bytes).is_ok());
}

#[test]
fn truncated_messages_are_incomplete() {
    let hello = v5::Hello { methods: vec![AuthenticationMethod::NoAuthentication, AuthenticationMethod::Gssapi] };
    assert_prefixes_incomplete::<v5::Hello>(&encode(&hello));
    let hr = v5::HelloResponse { method: AuthenticationMethod::NoAuthentication };
    assert_prefixes_incomplete::<v5::HelloResponse>(&encode(&hr));
    let req = v5::Request {
        command: v5::Command::Connect,
        addr: v5::AddressType::DomainName("example.org".to_string()),
        port: 443,
    };
    assert_prefixes_incomplete::<v5::Request>(&encode(&req));
    let resp = v5::Response {
        status: v5::Status::Success,
        addr: v5::AddressType::IPv6(Ipv6Addr::from_octets(v6_octets())),
        port: 1,
    };
    assert_prefixes_incomplete::<v5::Response>(&encode(&resp));
    let req4 = v4::Request {
        command: v4::Command::Connect,
        addr: v4::AddressType::DomainName("example.com".to_string()),
        port: 80,
        secret: Some("id".to_string()),
    };
    assert_prefixes_incomplete::<v4::Request>(&encode(&req4));
    let resp4 = v4::Response { status: v4::Status::Rejected, addr: Ipv4Addr::new(0, 0, 0, 0), port: 9 };
    assert_prefixes_incomplete::<v4::Response>(&encode(&resp4));
}

#[test]
fn address_conversions() {
    let v6 = v5::AddressType::IPv6(Ipv6Addr::from_octets(v6_octets()));
    let r: Result<v4::AddressType, _> = v4::AddressType::try_from(v6);
    assert_eq!(r.unwrap_err(), socks_parser::HandshakeError::AddressNotSupported);
    let name = v5::AddressType::DomainName("a.b".to_string());
    let n4 = v4::AddressType::try_from(name).unwrap();
    assert_eq!(n4, v4::AddressType::DomainName("a.b".to_string()));
    let back = v5::AddressType::from(n4);
    assert_eq!(back, v5::AddressType::DomainName("a.b".to_string()));
}
