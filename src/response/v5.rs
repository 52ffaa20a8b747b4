//! The SOCKS5 hello response and connection response.
use vstd::prelude::*;

use crate::common::v5::{AddressType, AuthenticationMethod};
use crate::common::{lemma_take_concat, AddressView, DecodeError, Field, Needed, Wire};

verus! {

/// The server's answer to a hello: the method it selected.
#[derive(Debug, Clone, Copy, PartialEq, Eq, Structural)]
pub struct Hello {
    pub method: AuthenticationMethod,
}

impl View for Hello {
    type V = Hello;

    open spec fn view(&self) -> Hello {
        *self
    }
}

impl Wire for Hello {
    open spec fn spec_encodable(v: Hello) -> bool {
        true
    }

    open spec fn spec_valid(v: Hello) -> bool {
        v.method.spec_canonical()
    }

    open spec fn spec_encode(v: Hello) -> Seq<u8> {
        seq![5u8, v.method.spec_byte()]
    }

    open spec fn spec_decode(s: Seq<u8>) -> Result<(Seq<u8>, Hello), DecodeError> {
        if s.len() == 0 {
            Err(DecodeError::Incomplete(Needed::Size(1)))
        } else if s[0] != 5 {
            Err(DecodeError::Malformed(Field::Version))
        } else if s.len() == 1 {
            Err(DecodeError::Incomplete(Needed::Size(1)))
        } else {
            Ok((s.skip(2), Hello { method: AuthenticationMethod::spec_from_byte(s[1]) }))
        }
    }

    fn encode_into(&self, buffer: &mut Vec<u8>) {
        buffer.push(5);
        self.method.encode_into(buffer);
        assert(final(buffer)@ =~= old(buffer)@ + Self::spec_encode(self@));
    }

    fn decode<'a>(input: &'a [u8]) -> (r: Result<(&'a [u8], Hello), DecodeError>) {
        if input.len() == 0 {
            return Err(DecodeError::Incomplete(Needed::Size(1)));
        }
        if input[0] != 5 {
            return Err(DecodeError::Malformed(Field::Version));
        }
        if input.len() == 1 {
            return Err(DecodeError::Incomplete(Needed::Size(1)));
        }
        let (_, rest) = input.split_at(2);
        Ok((rest, Hello { method: AuthenticationMethod::from(input[1]) }))
    }

    proof fn lemma_consumes_prefix(s: Seq<u8>) {
    }

    proof fn lemma_round_trip(v: Hello, rest: Seq<u8>) {
        assert((Self::spec_encode(v) + rest).skip(2) =~= rest);
    }

    proof fn lemma_truncated(v: Hello, k: int) {
    }
}

/// The outcome that a SOCKS5 server reports. Every byte stands for exactly
/// one status; bytes without a name are kept as `Unassigned`.
#[derive(Debug, Clone, Copy, PartialEq, Eq, Structural)]
pub enum Status {
    Success,
    GeneralFailure,
    ConnectionNotAllowed,
    NetworkUnreachable,
    HostUnreachable,
    ConnectionRefused,
    TTLExpired,
    CommandNotSupported,
    /// A byte from 8 on.
    Unassigned(u8),
}

impl View for Status {
    type V = Status;

    open spec fn view(&self) -> Status {
        *self
    }
}

impl Status {
    /// The status that a byte stands for.
    pub open spec fn spec_from_byte(b: u8) -> Status {
        if b == 0 {
            Status::Success
        } else if b == 1 {
            Status::GeneralFailure
        } else if b == 2 {
            Status::ConnectionNotAllowed
        } else if b == 3 {
            Status::NetworkUnreachable
        } else if b == 4 {
            Status::HostUnreachable
        } else if b == 5 {
            Status::ConnectionRefused
        } else if b == 6 {
            Status::TTLExpired
        } else if b == 7 {
            Status::CommandNotSupported
        } else {
            Status::Unassigned(b)
        }
    }

    /// The byte of a status.
    pub open spec fn spec_byte(self) -> u8 {
        match self {
            Status::Success => 0,
            Status::GeneralFailure => 1,
            Status::ConnectionNotAllowed => 2,
            Status::NetworkUnreachable => 3,
            Status::HostUnreachable => 4,
            Status::ConnectionRefused => 5,
            Status::TTLExpired => 6,
            Status::CommandNotSupported => 7,
            Status::Unassigned(v) => v,
        }
    }
}

impl From<u8> for Status {
    fn from(value: u8) -> (r: Status) {
        if value == 0 {
            Status::Success
        } else if value == 1 {
            Status::GeneralFailure
        } else if value == 2 {
            Status::ConnectionNotAllowed
        } else if value == 3 {
            Status::NetworkUnreachable
        } else if value == 4 {
            Status::HostUnreachable
        } else if value == 5 {
            Status::ConnectionRefused
        } else if value == 6 {
            Status::TTLExpired
        } else if value == 7 {
            Status::CommandNotSupported
        } else {
            Status::Unassigned(value)
        }
    }
}

impl vstd::std_specs::convert::FromSpecImpl<u8> for Status {
    open spec fn obeys_from_spec() -> bool {
        true
    }

    open spec fn from_spec(v: u8) -> Status {
        Status::spec_from_byte(v)
    }
}

impl Wire for Status {
    open spec fn spec_encodable(v: Status) -> bool {
        true
    }

    open spec fn spec_valid(v: Status) -> bool {
        v matches Status::Unassigned(b) ==> b >= 8
    }

    open spec fn spec_encode(v: Status) -> Seq<u8> {
        seq![v.spec_byte()]
    }

    open spec fn spec_decode(s: Seq<u8>) -> Result<(Seq<u8>, Status), DecodeError> {
        if s.len() == 0 {
            Err(DecodeError::Incomplete(Needed::Size(1)))
        } else {
            Ok((s.drop_first(), Status::spec_from_byte(s[0])))
        }
    }

    fn encode_into(&self, buffer: &mut Vec<u8>) {
        let b: u8 = match self {
            Status::Success => 0,
            Status::GeneralFailure => 1,
            Status::ConnectionNotAllowed => 2,
            Status::NetworkUnreachable => 3,
            Status::HostUnreachable => 4,
            Status::ConnectionRefused => 5,
            Status::TTLExpired => 6,
            Status::CommandNotSupported => 7,
            Status::Unassigned(v) => *v,
        };
        buffer.push(b);
    }

    fn decode<'a>(input: &'a [u8]) -> (r: Result<(&'a [u8], Status), DecodeError>) {
        if input.len() == 0 {
            return Err(DecodeError::Incomplete(Needed::Size(1)));
        }
        let (_, rest) = input.split_at(1);
        Ok((rest, Status::from(input[0])))
    }

    proof fn lemma_consumes_prefix(s: Seq<u8>) {
    }

    proof fn lemma_round_trip(v: Status, rest: Seq<u8>) {
        assert((Self::spec_encode(v) + rest).drop_first() =~= rest);
    }

    proof fn lemma_truncated(v: Status, k: int) {
    }
}

/// The view of a SOCKS5 response.
pub ghost struct ResponseView {
    pub status: Status,
    pub addr: AddressView,
    pub port: u16,
}

/// A SOCKS5 response: the outcome, and the address the server bound or
/// reached.
#[derive(Debug)]
pub struct Response {
    pub status: Status,
    pub addr: AddressType,
    pub port: u16,
}

impl View for Response {
    type V = ResponseView;

    open spec fn view(&self) -> ResponseView {
        ResponseView { status: self.status, addr: self.addr@, port: self.port }
    }
}

impl Wire for Response {
    open spec fn spec_encodable(v: ResponseView) -> bool {
        AddressType::spec_encodable(v.addr)
    }

    open spec fn spec_valid(v: ResponseView) -> bool {
        Status::spec_valid(v.status) && AddressType::spec_valid(v.addr)
    }

    open spec fn spec_encode(v: ResponseView) -> Seq<u8> {
        seq![5u8, v.status.spec_byte(), 0u8] + AddressType::spec_encode(v.addr) + u16::spec_encode(
            v.port,
        )
    }

    open spec fn spec_decode(s: Seq<u8>) -> Result<(Seq<u8>, ResponseView), DecodeError> {
        if s.len() == 0 {
            Err(DecodeError::Incomplete(Needed::Size(1)))
        } else if s[0] != 5 {
            Err(DecodeError::Malformed(Field::Version))
        } else {
            match Status::spec_decode(s.drop_first()) {
                Err(e) => Err(e),
                Ok((r1, status)) => if r1.len() == 0 {
                    Err(DecodeError::Incomplete(Needed::Size(1)))
                } else {
                    match AddressType::spec_decode(r1.drop_first()) {
                        Err(e) => Err(e),
                        Ok((r2, addr)) => match u16::spec_decode(r2) {
                            Err(e) => Err(e),
                            Ok((r3, port)) => Ok((r3, ResponseView { status, addr, port })),
                        },
                    }
                },
            }
        }
    }

    fn encode_into(&self, buffer: &mut Vec<u8>) {
        buffer.push(5);
        self.status.encode_into(buffer);
        buffer.push(0);
        self.addr.encode_into(buffer);
        self.port.encode_into(buffer);
        assert(final(buffer)@ =~= old(buffer)@ + Self::spec_encode(self@));
    }

    fn decode<'a>(input: &'a [u8]) -> (r: Result<(&'a [u8], Response), DecodeError>) {
        if input.len() == 0 {
            return Err(DecodeError::Incomplete(Needed::Size(1)));
        }
        if input[0] != 5 {
            return Err(DecodeError::Malformed(Field::Version));
        }
        let (_, rest) = input.split_at(1);
        let (rest, status) = Status::decode(rest)?;
        if rest.len() == 0 {
            return Err(DecodeError::Incomplete(Needed::Size(1)));
        }
        let (_, rest) = rest.split_at(1);
        let (rest, addr) = AddressType::decode(rest)?;
        let (rest, port) = u16::decode(rest)?;
        Ok((rest, Response { status, addr, port }))
    }

    proof fn lemma_consumes_prefix(s: Seq<u8>) {
    }

    proof fn lemma_round_trip(v: ResponseView, rest: Seq<u8>) {
        let a = AddressType::spec_encode(v.addr);
        let p = u16::spec_encode(v.port);
        let s = Self::spec_encode(v) + rest;
        assert(s.drop_first() =~= Status::spec_encode(v.status) + (seq![0u8] + a + p + rest));
        Status::lemma_round_trip(v.status, seq![0u8] + a + p + rest);
        assert((seq![0u8] + a + p + rest).drop_first() =~= a + (p + rest));
        AddressType::lemma_round_trip(v.addr, p + rest);
        u16::lemma_round_trip(v.port, rest);
    }

    proof fn lemma_truncated(v: ResponseView, k: int) {
        let a = AddressType::spec_encode(v.addr);
        let p = u16::spec_encode(v.port);
        let e = Self::spec_encode(v);
        let t = e.take(k);
        if k >= 2 {
            assert(t.drop_first() =~= Status::spec_encode(v.status) + (seq![0u8] + a + p).take(
                k - 2,
            ));
            Status::lemma_round_trip(v.status, (seq![0u8] + a + p).take(k - 2));
            if k >= 3 {
                let r1 = (seq![0u8] + a + p).take(k - 2);
                assert(r1.drop_first() =~= (a + p).take(k - 3));
                lemma_take_concat(a, p, k - 3);
                if k - 3 < a.len() {
                    AddressType::lemma_truncated(v.addr, k - 3);
                } else {
                    AddressType::lemma_round_trip(v.addr, p.take(k - 3 - a.len()));
                    u16::lemma_truncated(v.port, k - 3 - a.len());
                }
            }
        }
    }
}

} // verus!
