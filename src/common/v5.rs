//! Enumerations of SOCKS5: authentication methods and commands.
use vstd::prelude::*;

use crate::common::{DecodeError, Field, Needed, Wire};

pub mod address_type;

pub use address_type::AddressType;

verus! {

/// An authentication method, as offered in a hello and selected in its
/// response. Every byte stands for exactly one method.
#[derive(Debug, Clone, Copy, PartialEq, Eq, Structural)]
pub enum AuthenticationMethod {
    NoAuthentication,
    Gssapi,
    UsernamePassword,
    /// A method assigned by IANA, bytes 3 to 0x7f.
    IanaAssigned(u8),
    /// A method reserved for private use, bytes 0x80 to 0xfe.
    PrivateMethod(u8),
    NotAcceptable,
}

impl View for AuthenticationMethod {
    type V = AuthenticationMethod;

    open spec fn view(&self) -> AuthenticationMethod {
        *self
    }
}

impl AuthenticationMethod {
    /// The method that a byte stands for.
    pub open spec fn spec_from_byte(b: u8) -> AuthenticationMethod {
        if b == 0 {
            AuthenticationMethod::NoAuthentication
        } else if b == 1 {
            AuthenticationMethod::Gssapi
        } else if b == 2 {
            AuthenticationMethod::UsernamePassword
        } else if b <= 0x7f {
            AuthenticationMethod::IanaAssigned(b)
        } else if b <= 0xfe {
            AuthenticationMethod::PrivateMethod(b)
        } else {
            AuthenticationMethod::NotAcceptable
        }
    }

    /// The byte of a method.
    pub open spec fn spec_byte(self) -> u8 {
        match self {
            AuthenticationMethod::NoAuthentication => 0,
            AuthenticationMethod::Gssapi => 1,
            AuthenticationMethod::UsernamePassword => 2,
            AuthenticationMethod::IanaAssigned(v) => v,
            AuthenticationMethod::PrivateMethod(v) => v,
            AuthenticationMethod::NotAcceptable => 0xff,
        }
    }

    /// The byte carried by a numbered method lies in that method's range.
    pub open spec fn spec_canonical(self) -> bool {
        match self {
            AuthenticationMethod::IanaAssigned(v) => 3 <= v <= 0x7f,
            AuthenticationMethod::PrivateMethod(v) => 0x80 <= v <= 0xfe,
            _ => true,
        }
    }

    /// The byte of this method.
    pub fn as_u8(&self) -> (r: u8)
        ensures
            r == self.spec_byte(),
    {
        match self {
            AuthenticationMethod::NoAuthentication => 0,
            AuthenticationMethod::Gssapi => 1,
            AuthenticationMethod::UsernamePassword => 2,
            AuthenticationMethod::IanaAssigned(v) => *v,
            AuthenticationMethod::PrivateMethod(v) => *v,
            AuthenticationMethod::NotAcceptable => 0xff,
        }
    }
}

impl From<u8> for AuthenticationMethod {
    fn from(value: u8) -> (r: AuthenticationMethod) {
        if value == 0 {
            AuthenticationMethod::NoAuthentication
        } else if value == 1 {
            AuthenticationMethod::Gssapi
        } else if value == 2 {
            AuthenticationMethod::UsernamePassword
        } else if value <= 0x7f {
            AuthenticationMethod::IanaAssigned(value)
        } else if value <= 0xfe {
            AuthenticationMethod::PrivateMethod(value)
        } else {
            AuthenticationMethod::NotAcceptable
        }
    }
}

impl vstd::std_specs::convert::FromSpecImpl<u8> for AuthenticationMethod {
    open spec fn obeys_from_spec() -> bool {
        true
    }

    open spec fn from_spec(v: u8) -> AuthenticationMethod {
        AuthenticationMethod::spec_from_byte(v)
    }
}

impl Wire for AuthenticationMethod {
    open spec fn spec_encodable(v: AuthenticationMethod) -> bool {
        true
    }

    open spec fn spec_valid(v: AuthenticationMethod) -> bool {
        v.spec_canonical()
    }

    open spec fn spec_encode(v: AuthenticationMethod) -> Seq<u8> {
        seq![v.spec_byte()]
    }

    open spec fn spec_decode(s: Seq<u8>) -> Result<(Seq<u8>, AuthenticationMethod), DecodeError> {
        if s.len() == 0 {
            Err(DecodeError::Incomplete(Needed::Size(1)))
        } else {
            Ok((s.drop_first(), AuthenticationMethod::spec_from_byte(s[0])))
        }
    }

    fn encode_into(&self, buffer: &mut Vec<u8>) {
        buffer.push(self.as_u8());
    }

    fn decode<'a>(input: &'a [u8]) -> (r: Result<(&'a [u8], AuthenticationMethod), DecodeError>) {
        if input.len() == 0 {
            return Err(DecodeError::Incomplete(Needed::Size(1)));
        }
        let (_, rest) = input.split_at(1);
        Ok((rest, AuthenticationMethod::from(input[0])))
    }

    proof fn lemma_consumes_prefix(s: Seq<u8>) {
    }

    proof fn lemma_round_trip(v: AuthenticationMethod, rest: Seq<u8>) {
        assert((Self::spec_encode(v) + rest).drop_first() =~= rest);
    }

    proof fn lemma_truncated(v: AuthenticationMethod, k: int) {
    }
}

/// What a SOCKS5 client asks the server to do.
#[derive(Debug, Clone, Copy, PartialEq, Eq, Structural)]
pub enum Command {
    Connect,
    Bind,
    UdpAssociate,
}

impl View for Command {
    type V = Command;

    open spec fn view(&self) -> Command {
        *self
    }
}

impl Command {
    /// The byte of a command.
    pub open spec fn spec_byte(self) -> u8 {
        match self {
            Command::Connect => 1,
            Command::Bind => 2,
            Command::UdpAssociate => 3,
        }
    }
}

impl Wire for Command {
    open spec fn spec_encodable(v: Command) -> bool {
        true
    }

    open spec fn spec_valid(v: Command) -> bool {
        true
    }

    open spec fn spec_encode(v: Command) -> Seq<u8> {
        seq![v.spec_byte()]
    }

    open spec fn spec_decode(s: Seq<u8>) -> Result<(Seq<u8>, Command), DecodeError> {
        if s.len() == 0 {
            Err(DecodeError::Incomplete(Needed::Size(1)))
        } else if s[0] == 1 {
            Ok((s.drop_first(), Command::Connect))
        } else if s[0] == 2 {
            Ok((s.drop_first(), Command::Bind))
        } else if s[0] == 3 {
            Ok((s.drop_first(), Command::UdpAssociate))
        } else {
            Err(DecodeError::Malformed(Field::Command))
        }
    }

    fn encode_into(&self, buffer: &mut Vec<u8>) {
        let b: u8 = match self {
            Command::Connect => 1,
            Command::Bind => 2,
            Command::UdpAssociate => 3,
        };
        buffer.push(b);
    }

    fn decode<'a>(input: &'a [u8]) -> (r: Result<(&'a [u8], Command), DecodeError>) {
        if input.len() == 0 {
            return Err(DecodeError::Incomplete(Needed::Size(1)));
        }
        let (_, rest) = input.split_at(1);
        if input[0] == 1 {
            Ok((rest, Command::Connect))
        } else if input[0] == 2 {
            Ok((rest, Command::Bind))
        } else if input[0] == 3 {
            Ok((rest, Command::UdpAssociate))
        } else {
            Err(DecodeError::Malformed(Field::Command))
        }
    }

    proof fn lemma_consumes_prefix(s: Seq<u8>) {
    }

    proof fn lemma_round_trip(v: Command, rest: Seq<u8>) {
        assert((Self::spec_encode(v) + rest).drop_first() =~= rest);
    }

    proof fn lemma_truncated(v: Command, k: int) {
    }
}

} // verus!
