//! The SOCKS5 hello and connection request.
use vstd::prelude::*;

use crate::common::v5::{AddressType, AuthenticationMethod, Command};
use crate::common::{lemma_take_concat, AddressView, DecodeError, Field, Needed, Wire};

verus! {

/// The bytes of a list of methods, one byte each.
pub open spec fn method_bytes(methods: Seq<AuthenticationMethod>) -> Seq<u8> {
    methods.map_values(|m: AuthenticationMethod| m.spec_byte())
}

/// The methods that a list of bytes stands for.
pub open spec fn methods_of(bytes: Seq<u8>) -> Seq<AuthenticationMethod> {
    bytes.map_values(|b: u8| AuthenticationMethod::spec_from_byte(b))
}

/// The first message of a SOCKS5 client: the authentication methods it
/// offers, in its order.
#[derive(Debug)]
pub struct Hello {
    pub methods: Vec<AuthenticationMethod>,
}

impl View for Hello {
    type V = Seq<AuthenticationMethod>;

    open spec fn view(&self) -> Seq<AuthenticationMethod> {
        self.methods@
    }
}

impl Wire for Hello {
    open spec fn spec_encodable(v: Seq<AuthenticationMethod>) -> bool {
        v.len() <= 255
    }

    open spec fn spec_valid(v: Seq<AuthenticationMethod>) -> bool {
        &&& v.len() <= 255
        &&& forall|i: int| 0 <= i < v.len() ==> (#[trigger] v[i]).spec_canonical()
    }

    open spec fn spec_encode(v: Seq<AuthenticationMethod>) -> Seq<u8> {
        seq![5u8, v.len() as u8] + method_bytes(v)
    }

    open spec fn spec_decode(s: Seq<u8>) -> Result<(Seq<u8>, Seq<AuthenticationMethod>), DecodeError> {
        if s.len() == 0 {
            Err(DecodeError::Incomplete(Needed::Size(1)))
        } else if s[0] != 5 {
            Err(DecodeError::Malformed(Field::Version))
        } else if s.len() == 1 {
            Err(DecodeError::Incomplete(Needed::Size(1)))
        } else if s.len() - 2 < s[1] {
            Err(DecodeError::Incomplete(Needed::Size((s[1] - (s.len() - 2)) as usize)))
        } else {
            Ok((s.skip(2 + s[1]), methods_of(s.subrange(2, 2 + s[1]))))
        }
    }

    fn encode_into(&self, buffer: &mut Vec<u8>) {
        buffer.push(5);
        buffer.push(self.methods.len() as u8);
        let ghost start = buffer@;
        let mut i: usize = 0;
        while i < self.methods.len()
            invariant
                i <= self.methods@.len(),
                buffer@ == start + method_bytes(self.methods@.take(i as int)),
            decreases self.methods@.len() - i,
        {
            buffer.push(self.methods[i].as_u8());
            i = i + 1;
            assert(method_bytes(self.methods@.take(i as int)) =~= method_bytes(
                self.methods@.take(i - 1),
            ).push(self.methods@[i - 1].spec_byte()));
        }
        assert(self.methods@.take(i as int) =~= self.methods@);
        assert(final(buffer)@ =~= old(buffer)@ + Self::spec_encode(self@));
    }

    fn decode<'a>(input: &'a [u8]) -> (r: Result<(&'a [u8], Hello), DecodeError>) {
        if input.len() == 0 {
            return Err(DecodeError::Incomplete(Needed::Size(1)));
        }
        if input[0] != 5 {
            return Err(DecodeError::Malformed(Field::Version));
        }
        if input.len() == 1 {
            return Err(DecodeError::Incomplete(Needed::Size(1)));
        }
        let n = input[1] as usize;
        if input.len() - 2 < n {
            return Err(DecodeError::Incomplete(Needed::Size(n - (input.len() - 2))));
        }
        let mut methods: Vec<AuthenticationMethod> = Vec::new();
        let mut i: usize = 0;
        while i < n
            invariant
                i <= n,
                2 + n <= input@.len(),
                methods@ == methods_of(input@.subrange(2, 2 + i)),
            decreases n - i,
        {
            methods.push(AuthenticationMethod::from(input[2 + i]));
            i = i + 1;
            assert(methods_of(input@.subrange(2, 2 + i)) =~= methods_of(
                input@.subrange(2, 2 + i - 1),
            ).push(AuthenticationMethod::spec_from_byte(input@[2 + i - 1])));
        }
        let (_, rest) = input.split_at(2 + n);
        Ok((rest, Hello { methods }))
    }

    proof fn lemma_consumes_prefix(s: Seq<u8>) {
    }

    proof fn lemma_round_trip(v: Seq<AuthenticationMethod>, rest: Seq<u8>) {
        let s = Self::spec_encode(v) + rest;
        assert(s.subrange(2, 2 + v.len() as int) =~= method_bytes(v));
        assert(s.skip(2 + v.len() as int) =~= rest);
        assert forall|i: int| 0 <= i < v.len() implies AuthenticationMethod::spec_from_byte(
            #[trigger] v[i].spec_byte(),
        ) == v[i] by {
            assert(v[i].spec_canonical());
        }
        assert(methods_of(method_bytes(v)) =~= v);
    }

    proof fn lemma_truncated(v: Seq<AuthenticationMethod>, k: int) {
    }
}

/// Every request that decodes can be encoded again.
pub proof fn lemma_request_decoded_encodable(s: Seq<u8>)
    ensures
        Request::spec_decode(s) matches Ok((_, v)) ==> Request::spec_encodable(v),
{
    if s.len() > 0 && s[0] == 5 {
        if let Ok((r1, _)) = Command::spec_decode(s.drop_first()) {
            if r1.len() > 0 {
                crate::common::v5::address_type::lemma_decoded_encodable(r1.drop_first());
            }
        }
    }
}

/// The view of a SOCKS5 request.
pub ghost struct RequestView {
    pub command: Command,
    pub addr: AddressView,
    pub port: u16,
}

/// A SOCKS5 request: what to do, and with which destination.
#[derive(Debug)]
pub struct Request {
    pub command: Command,
    pub addr: AddressType,
    pub port: u16,
}

impl View for Request {
    type V = RequestView;

    open spec fn view(&self) -> RequestView {
        RequestView { command: self.command, addr: self.addr@, port: self.port }
    }
}

impl Wire for Request {
    open spec fn spec_encodable(v: RequestView) -> bool {
        AddressType::spec_encodable(v.addr)
    }

    open spec fn spec_valid(v: RequestView) -> bool {
        AddressType::spec_valid(v.addr)
    }

    open spec fn spec_encode(v: RequestView) -> Seq<u8> {
        seq![5u8, v.command.spec_byte(), 0u8] + AddressType::spec_encode(v.addr) + u16::spec_encode(
            v.port,
        )
    }

    open spec fn spec_decode(s: Seq<u8>) -> Result<(Seq<u8>, RequestView), DecodeError> {
        if s.len() == 0 {
            Err(DecodeError::Incomplete(Needed::Size(1)))
        } else if s[0] != 5 {
            Err(DecodeError::Malformed(Field::Version))
        } else {
            match Command::spec_decode(s.drop_first()) {
                Err(e) => Err(e),
                Ok((r1, command)) => if r1.len() == 0 {
                    Err(DecodeError::Incomplete(Needed::Size(1)))
                } else {
                    match AddressType::spec_decode(r1.drop_first()) {
                        Err(e) => Err(e),
                        Ok((r2, addr)) => match u16::spec_decode(r2) {
                            Err(e) => Err(e),
                            Ok((r3, port)) => Ok((r3, RequestView { command, addr, port })),
                        },
                    }
                },
            }
        }
    }

    fn encode_into(&self, buffer: &mut Vec<u8>) {
        buffer.push(5);
        self.command.encode_into(buffer);
        buffer.push(0);
        self.addr.encode_into(buffer);
        self.port.encode_into(buffer);
        assert(final(buffer)@ =~= old(buffer)@ + Self::spec_encode(self@));
    }

    fn decode<'a>(input: &'a [u8]) -> (r: Result<(&'a [u8], Request), DecodeError>) {
        if input.len() == 0 {
            return Err(DecodeError::Incomplete(Needed::Size(1)));
        }
        if input[0] != 5 {
            return Err(DecodeError::Malformed(Field::Version));
        }
        let (_, rest) = input.split_at(1);
        let (rest, command) = Command::decode(rest)?;
        if rest.len() == 0 {
            return Err(DecodeError::Incomplete(Needed::Size(1)));
        }
        let (_, rest) = rest.split_at(1);
        let (rest, addr) = AddressType::decode(rest)?;
        let (rest, port) = u16::decode(rest)?;
        Ok((rest, Request { command, addr, port }))
    }

    proof fn lemma_consumes_prefix(s: Seq<u8>) {
    }

    proof fn lemma_round_trip(v: RequestView, rest: Seq<u8>) {
        let a = AddressType::spec_encode(v.addr);
        let p = u16::spec_encode(v.port);
        let s = Self::spec_encode(v) + rest;
        assert(s.drop_first() =~= Command::spec_encode(v.command) + (seq![0u8] + a + p + rest));
        Command::lemma_round_trip(v.command, seq![0u8] + a + p + rest);
        assert((seq![0u8] + a + p + rest).drop_first() =~= a + (p + rest));
        AddressType::lemma_round_trip(v.addr, p + rest);
        u16::lemma_round_trip(v.port, rest);
    }

    proof fn lemma_truncated(v: RequestView, k: int) {
        let a = AddressType::spec_encode(v.addr);
        let p = u16::spec_encode(v.port);
        let e = Self::spec_encode(v);
        let t = e.take(k);
        if k >= 2 {
            assert(t.drop_first() =~= Command::spec_encode(v.command) + (seq![0u8] + a + p).take(
                k - 2,
            ));
            Command::lemma_round_trip(v.command, (seq![0u8] + a + p).take(k - 2));
            if k >= 3 {
                let r1 = (seq![0u8] + a + p).take(k - 2);
                assert(r1.drop_first() =~= (a + p).take(k - 3));
                lemma_take_concat(a, p, k - 3);
                if k - 3 < a.len() {
                    AddressType::lemma_truncated(v.addr, k - 3);
                } else {
                    AddressType::lemma_round_trip(v.addr, p.take(k - 3 - a.len()));
                    u16::lemma_truncated(v.port, k - 3 - a.len());
                }
            }
        }
    }
}

} // verus!
