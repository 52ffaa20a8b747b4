//! The SOCKS4 response.
use vstd::prelude::*;

use crate::common::{lemma_take_concat, DecodeError, Field, Ipv4Addr, Needed, Wire};

verus! {

/// The outcome that a SOCKS4 server reports. Only these four bytes are
/// statuses.
#[derive(Debug, Clone, Copy, PartialEq, Eq, Structural)]
pub enum Status {
    Success,
    Rejected,
    InetdNotAccessible,
    InetdNotIdentified,
}

impl View for Status {
    type V = Status;

    open spec fn view(&self) -> Status {
        *self
    }
}

impl Status {
    /// The byte of a status.
    pub open spec fn spec_byte(self) -> u8 {
        match self {
            Status::Success => 0x5a,
            Status::Rejected => 0x5b,
            Status::InetdNotAccessible => 0x5c,
            Status::InetdNotIdentified => 0x5d,
        }
    }
}

impl Wire for Status {
    open spec fn spec_encodable(v: Status) -> bool {
        true
    }

    open spec fn spec_valid(v: Status) -> bool {
        true
    }

    open spec fn spec_encode(v: Status) -> Seq<u8> {
        seq![v.spec_byte()]
    }

    open spec fn spec_decode(s: Seq<u8>) -> Result<(Seq<u8>, Status), DecodeError> {
        if s.len() == 0 {
            Err(DecodeError::Incomplete(Needed::Size(1)))
        } else if s[0] == 0x5a {
            Ok((s.drop_first(), Status::Success))
        } else if s[0] == 0x5b {
            Ok((s.drop_first(), Status::Rejected))
        } else if s[0] == 0x5c {
            Ok((s.drop_first(), Status::InetdNotAccessible))
        } else if s[0] == 0x5d {
            Ok((s.drop_first(), Status::InetdNotIdentified))
        } else {
            Err(DecodeError::Malformed(Field::Status))
        }
    }

    fn encode_into(&self, buffer: &mut Vec<u8>) {
        let b: u8 = match self {
            Status::Success => 0x5a,
            Status::Rejected => 0x5b,
            Status::InetdNotAccessible => 0x5c,
            Status::InetdNotIdentified => 0x5d,
        };
        buffer.push(b);
    }

    fn decode<'a>(input: &'a [u8]) -> (r: Result<(&'a [u8], Status), DecodeError>) {
        if input.len() == 0 {
            return Err(DecodeError::Incomplete(Needed::Size(1)));
        }
        let (_, rest) = input.split_at(1);
        if input[0] == 0x5a {
            Ok((rest, Status::Success))
        } else if input[0] == 0x5b {
            Ok((rest, Status::Rejected))
        } else if input[0] == 0x5c {
            Ok((rest, Status::InetdNotAccessible))
        } else if input[0] == 0x5d {
            Ok((rest, Status::InetdNotIdentified))
        } else {
            Err(DecodeError::Malformed(Field::Status))
        }
    }

    proof fn lemma_consumes_prefix(s: Seq<u8>) {
    }

    proof fn lemma_round_trip(v: Status, rest: Seq<u8>) {
        assert((Self::spec_encode(v) + rest).drop_first() =~= rest);
    }

    proof fn lemma_truncated(v: Status, k: int) {
    }
}

/// The view of a SOCKS4 response.
pub ghost struct ResponseView {
    pub status: Status,
    pub addr: Seq<u8>,
    pub port: u16,
}

/// A SOCKS4 response: the outcome, and the IPv4 address and port the server
/// reached.
#[derive(Debug, Clone, Copy)]
pub struct Response {
    pub status: Status,
    pub addr: Ipv4Addr,
    pub port: u16,
}

impl View for Response {
    type V = ResponseView;

    open spec fn view(&self) -> ResponseView {
        ResponseView { status: self.status, addr: self.addr@, port: self.port }
    }
}

impl Wire for Response {
    open spec fn spec_encodable(v: ResponseView) -> bool {
        true
    }

    open spec fn spec_valid(v: ResponseView) -> bool {
        v.addr.len() == 4
    }

    open spec fn spec_encode(v: ResponseView) -> Seq<u8> {
        seq![0u8, v.status.spec_byte()] + u16::spec_encode(v.port) + v.addr
    }

    open spec fn spec_decode(s: Seq<u8>) -> Result<(Seq<u8>, ResponseView), DecodeError> {
        if s.len() == 0 {
            Err(DecodeError::Incomplete(Needed::Size(1)))
        } else if s[0] != 0 {
            Err(DecodeError::Malformed(Field::Version))
        } else {
            match Status::spec_decode(s.drop_first()) {
                Err(e) => Err(e),
                Ok((r1, status)) => match u16::spec_decode(r1) {
                    Err(e) => Err(e),
                    Ok((r2, port)) => match Ipv4Addr::spec_decode(r2) {
                        Err(e) => Err(e),
                        Ok((r3, addr)) => Ok((r3, ResponseView { status, addr, port })),
                    },
                },
            }
        }
    }

    fn encode_into(&self, buffer: &mut Vec<u8>) {
        buffer.push(0);
        self.status.encode_into(buffer);
        self.port.encode_into(buffer);
        self.addr.encode_into(buffer);
        assert(final(buffer)@ =~= old(buffer)@ + Self::spec_encode(self@));
    }

    fn decode<'a>(input: &'a [u8]) -> (r: Result<(&'a [u8], Response), DecodeError>) {
        if input.len() == 0 {
            return Err(DecodeError::Incomplete(Needed::Size(1)));
        }
        if input[0] != 0 {
            return Err(DecodeError::Malformed(Field::Version));
        }
        let (_, rest) = input.split_at(1);
        let (rest, status) = Status::decode(rest)?;
        let (rest, port) = u16::decode(rest)?;
        let (rest, addr) = Ipv4Addr::decode(rest)?;
        Ok((rest, Response { status, addr, port }))
    }

    proof fn lemma_consumes_prefix(s: Seq<u8>) {
    }

    proof fn lemma_round_trip(v: ResponseView, rest: Seq<u8>) {
        let p = u16::spec_encode(v.port);
        let s = Self::spec_encode(v) + rest;
        assert(s.drop_first() =~= Status::spec_encode(v.status) + (p + (v.addr + rest)));
        Status::lemma_round_trip(v.status, p + (v.addr + rest));
        u16::lemma_round_trip(v.port, v.addr + rest);
        Ipv4Addr::lemma_round_trip(v.addr, rest);
    }

    proof fn lemma_truncated(v: ResponseView, k: int) {
        let p = u16::spec_encode(v.port);
        let t = Self::spec_encode(v).take(k);
        if k >= 2 {
            let r1 = (p + v.addr).take(k - 2);
            assert(t.drop_first() =~= Status::spec_encode(v.status) + r1);
            Status::lemma_round_trip(v.status, r1);
            lemma_take_concat(p, v.addr, k - 2);
            if k - 2 < 2 {
                u16::lemma_truncated(v.port, k - 2);
            } else {
                u16::lemma_round_trip(v.port, v.addr.take(k - 4));
                Ipv4Addr::lemma_truncated(v.addr, k - 4);
            }
        }
    }
}

} // verus!
