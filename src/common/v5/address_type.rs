//! The SOCKS5 address: a tag byte, then the address.
use vstd::prelude::*;
use vstd::utf8::*;

use crate::common::hostname::{
    decode_hostname, encode_hostname, hostname_bytes, hostname_valid, lemma_hostname_round_trip,
    lemma_hostname_truncated, parse_hostname,
};
use crate::common::{AddressView, DecodeError, Field, Ipv4Addr, Ipv6Addr, Needed, Wire};

verus! {

/// A SOCKS5 destination address. On the wire the tag byte 1 leads an IPv4
/// address, 3 a domain name and 4 an IPv6 address.
#[derive(Debug, PartialEq, Eq)]
pub enum AddressType {
    IPv4(Ipv4Addr),
    DomainName(String),
    IPv6(Ipv6Addr),
}

impl View for AddressType {
    type V = AddressView;

    open spec fn view(&self) -> AddressView {
        match self {
            AddressType::IPv4(a) => AddressView::IPv4(a@),
            AddressType::DomainName(n) => AddressView::DomainName(n@),
            AddressType::IPv6(a) => AddressView::IPv6(a@),
        }
    }
}

impl Clone for AddressType {
    fn clone(&self) -> (r: AddressType)
        ensures
            r@ == self@,
    {
        match self {
            AddressType::IPv4(a) => AddressType::IPv4(*a),
            AddressType::DomainName(n) => AddressType::DomainName(n.clone()),
            AddressType::IPv6(a) => AddressType::IPv6(*a),
        }
    }
}

/// Every address that decodes can be encoded again: a decoded domain name
/// has at most 255 bytes.
pub proof fn lemma_decoded_encodable(s: Seq<u8>)
    ensures
        AddressType::spec_decode(s) matches Ok((_, a)) ==> AddressType::spec_encodable(a),
{
    if s.len() > 0 && s[0] == 3 {
        let r = s.drop_first();
        if r.len() > 0 && r.len() - 1 >= r[0] {
            let b = r.subrange(1, 1 + r[0]);
            if valid_utf8(b) {
                decode_utf8_encode_utf8(b);
            }
        }
    }
}

/// Puts a tag in front of what a decoder read.
pub open spec fn tagged(
    r: Result<(Seq<u8>, Seq<u8>), DecodeError>,
    is_v6: bool,
) -> Result<(Seq<u8>, AddressView), DecodeError> {
    match r {
        Ok((rest, a)) => Ok(
            (rest, if is_v6 {
                AddressView::IPv6(a)
            } else {
                AddressView::IPv4(a)
            }),
        ),
        Err(e) => Err(e),
    }
}

impl Wire for AddressType {
    open spec fn spec_encodable(v: AddressView) -> bool {
        v matches AddressView::DomainName(n) ==> hostname_valid(n)
    }

    open spec fn spec_valid(v: AddressView) -> bool {
        match v {
            AddressView::IPv4(a) => a.len() == 4,
            AddressView::DomainName(n) => hostname_valid(n),
            AddressView::IPv6(a) => a.len() == 16,
        }
    }

    open spec fn spec_encode(v: AddressView) -> Seq<u8> {
        match v {
            AddressView::IPv4(a) => seq![1u8] + a,
            AddressView::DomainName(n) => seq![3u8] + hostname_bytes(n),
            AddressView::IPv6(a) => seq![4u8] + a,
        }
    }

    open spec fn spec_decode(s: Seq<u8>) -> Result<(Seq<u8>, AddressView), DecodeError> {
        if s.len() == 0 {
            Err(DecodeError::Incomplete(Needed::Size(1)))
        } else if s[0] == 1 {
            tagged(Ipv4Addr::spec_decode(s.drop_first()), false)
        } else if s[0] == 3 {
            match parse_hostname(s.drop_first()) {
                Ok((rest, n)) => Ok((rest, AddressView::DomainName(n))),
                Err(e) => Err(e),
            }
        } else if s[0] == 4 {
            tagged(Ipv6Addr::spec_decode(s.drop_first()), true)
        } else {
            Err(DecodeError::Malformed(Field::AddressType))
        }
    }

    fn encode_into(&self, buffer: &mut Vec<u8>) {
        match self {
            AddressType::IPv4(a) => {
                buffer.push(1);
                a.encode_into(buffer);
            },
            AddressType::DomainName(n) => {
                buffer.push(3);
                encode_hostname(buffer, n.as_str());
            },
            AddressType::IPv6(a) => {
                buffer.push(4);
                a.encode_into(buffer);
            },
        }
        assert(final(buffer)@ =~= old(buffer)@ + Self::spec_encode(self@));
    }

    fn decode<'a>(input: &'a [u8]) -> (r: Result<(&'a [u8], AddressType), DecodeError>) {
        if input.len() == 0 {
            return Err(DecodeError::Incomplete(Needed::Size(1)));
        }
        let (_, rest) = input.split_at(1);
        if input[0] == 1 {
            let (rest, a) = Ipv4Addr::decode(rest)?;
            Ok((rest, AddressType::IPv4(a)))
        } else if input[0] == 3 {
            let (rest, n) = decode_hostname(rest)?;
            Ok((rest, AddressType::DomainName(n)))
        } else if input[0] == 4 {
            let (rest, a) = Ipv6Addr::decode(rest)?;
            Ok((rest, AddressType::IPv6(a)))
        } else {
            Err(DecodeError::Malformed(Field::AddressType))
        }
    }

    proof fn lemma_consumes_prefix(s: Seq<u8>) {
    }

    proof fn lemma_round_trip(v: AddressView, rest: Seq<u8>) {
        let s = Self::spec_encode(v) + rest;
        match v {
            AddressView::IPv4(a) => {
                assert(s.drop_first() =~= a + rest);
                Ipv4Addr::lemma_round_trip(a, rest);
            },
            AddressView::DomainName(n) => {
                assert(s.drop_first() =~= hostname_bytes(n) + rest);
                lemma_hostname_round_trip(n, rest);
            },
            AddressView::IPv6(a) => {
                assert(s.drop_first() =~= a + rest);
                Ipv6Addr::lemma_round_trip(a, rest);
            },
        }
    }

    proof fn lemma_truncated(v: AddressView, k: int) {
        let s = Self::spec_encode(v).take(k);
        if k > 0 {
            match v {
                AddressView::IPv4(a) => {
                    assert(s.drop_first() =~= a.take(k - 1));
                    Ipv4Addr::lemma_truncated(a, k - 1);
                },
                AddressView::DomainName(n) => {
                    assert(s.drop_first() =~= hostname_bytes(n).take(k - 1));
                    lemma_hostname_truncated(n, k - 1);
                },
                AddressView::IPv6(a) => {
                    assert(s.drop_first() =~= a.take(k - 1));
                    Ipv6Addr::lemma_truncated(a, k - 1);
                },
            }
        }
    }
}

} // verus!
