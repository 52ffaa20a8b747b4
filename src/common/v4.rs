//! Commands and addresses of SOCKS4.
use vstd::prelude::*;

use crate::common::{AddressView, DecodeError, Field, HandshakeError, Ipv4Addr, Needed, Wire};

verus! {

/// What a SOCKS4 client asks the server to do.
#[derive(Debug, Clone, Copy, PartialEq, Eq, Structural)]
pub enum Command {
    Connect,
    Bind,
}

impl View for Command {
    type V = Command;

    open spec fn view(&self) -> Command {
        *self
    }
}

impl Command {
    /// The byte of a command.
    pub open spec fn spec_byte(self) -> u8 {
        match self {
            Command::Connect => 1,
            Command::Bind => 2,
        }
    }
}

impl Wire for Command {
    open spec fn spec_encodable(v: Command) -> bool {
        true
    }

    open spec fn spec_valid(v: Command) -> bool {
        true
    }

    open spec fn spec_encode(v: Command) -> Seq<u8> {
        seq![v.spec_byte()]
    }

    open spec fn spec_decode(s: Seq<u8>) -> Result<(Seq<u8>, Command), DecodeError> {
        if s.len() == 0 {
            Err(DecodeError::Incomplete(Needed::Size(1)))
        } else if s[0] == 1 {
            Ok((s.drop_first(), Command::Connect))
        } else if s[0] == 2 {
            Ok((s.drop_first(), Command::Bind))
        } else {
            Err(DecodeError::Malformed(Field::Command))
        }
    }

    fn encode_into(&self, buffer: &mut Vec<u8>) {
        let b: u8 = match self {
            Command::Connect => 1,
            Command::Bind => 2,
        };
        buffer.push(b);
    }

    fn decode<'a>(input: &'a [u8]) -> (r: Result<(&'a [u8], Command), DecodeError>) {
        if input.len() == 0 {
            return Err(DecodeError::Incomplete(Needed::Size(1)));
        }
        let (_, rest) = input.split_at(1);
        if input[0] == 1 {
            Ok((rest, Command::Connect))
        } else if input[0] == 2 {
            Ok((rest, Command::Bind))
        } else {
            Err(DecodeError::Malformed(Field::Command))
        }
    }

    proof fn lemma_consumes_prefix(s: Seq<u8>) {
    }

    proof fn lemma_round_trip(v: Command, rest: Seq<u8>) {
        assert((Self::spec_encode(v) + rest).drop_first() =~= rest);
    }

    proof fn lemma_truncated(v: Command, k: int) {
    }
}

/// A SOCKS4 destination: an IPv4 address, or a domain name that the server
/// resolves (the protocol's domain-name extension).
#[derive(Debug, PartialEq, Eq)]
pub enum AddressType {
    IPv4(Ipv4Addr),
    DomainName(String),
}

impl View for AddressType {
    type V = AddressView;

    open spec fn view(&self) -> AddressView {
        match self {
            AddressType::IPv4(a) => AddressView::IPv4(a@),
            AddressType::DomainName(n) => AddressView::DomainName(n@),
        }
    }
}

impl Clone for AddressType {
    fn clone(&self) -> (r: AddressType)
        ensures
            r@ == self@,
    {
        match self {
            AddressType::IPv4(a) => AddressType::IPv4(*a),
            AddressType::DomainName(n) => AddressType::DomainName(n.clone()),
        }
    }
}

impl TryFrom<super::v5::AddressType> for AddressType {
    type Error = HandshakeError;

    fn try_from(value: super::v5::AddressType) -> (r: Result<AddressType, HandshakeError>) {
        match value {
            super::v5::AddressType::IPv4(a) => Ok(AddressType::IPv4(a)),
            super::v5::AddressType::DomainName(n) => Ok(AddressType::DomainName(n)),
            super::v5::AddressType::IPv6(_) => Err(HandshakeError::AddressNotSupported),
        }
    }
}

impl vstd::std_specs::convert::TryFromSpecImpl<super::v5::AddressType> for AddressType {
    open spec fn obeys_try_from_spec() -> bool {
        true
    }

    open spec fn try_from_spec(v: super::v5::AddressType) -> Result<AddressType, HandshakeError> {
        match v {
            super::v5::AddressType::IPv4(a) => Ok(AddressType::IPv4(a)),
            super::v5::AddressType::DomainName(n) => Ok(AddressType::DomainName(n)),
            super::v5::AddressType::IPv6(_) => Err(HandshakeError::AddressNotSupported),
        }
    }
}

} // verus!
