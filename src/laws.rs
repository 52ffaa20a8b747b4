//! Properties that hold of the whole codec.
use vstd::prelude::*;
use vstd::utf8::*;

use crate::v5::{AddressType, AuthenticationMethod};
use crate::common::is_suffix;
use crate::{AddressView, DecodeError, Field, Wire};

verus! {

/// For every message type and every valid value, decoding its encoding gives
/// the value back, and the bytes that follow are left as they were.
pub proof fn law_round_trip<T: Wire>(v: T::V, rest: Seq<u8>)
    requires
        T::spec_valid(v),
    ensures
        T::spec_decode(T::spec_encode(v) + rest) == Ok::<(Seq<u8>, T::V), DecodeError>((rest, v)),
{
    T::lemma_round_trip(v, rest);
}

/// Decoding a strict prefix of a valid encoding says that more bytes are
/// needed; it never reports the bytes as malformed.
pub proof fn law_truncated_is_incomplete<T: Wire>(v: T::V, k: int)
    requires
        T::spec_valid(v),
        0 <= k < T::spec_encode(v).len(),
    ensures
        T::spec_decode(T::spec_encode(v).take(k)) matches Err(DecodeError::Incomplete(_)),
{
    T::lemma_truncated(v, k);
}

/// Decoding never reaches past its input: on success the remainder it hands
/// back is the tail of the very bytes it was given.
pub proof fn law_decode_stays_within_input<T: Wire>(s: Seq<u8>)
    ensures
        T::spec_decode(s) matches Ok((rest, _)) ==> is_suffix(rest, s),
{
    T::lemma_consumes_prefix(s);
}

/// The tag bytes 1, 3 and 4 lead an address, and decoding them never fails
/// on the tag; any other tag byte is malformed, and the error names the
/// address type.
pub proof fn law_address_tags(s: Seq<u8>)
    requires
        s.len() > 0,
    ensures
        s[0] == 1 || s[0] == 3 || s[0] == 4 ==> AddressType::spec_decode(s) != Err::<
            (Seq<u8>, AddressView),
            DecodeError,
        >(DecodeError::Malformed(Field::AddressType)),
        !(s[0] == 1 || s[0] == 3 || s[0] == 4) ==> AddressType::spec_decode(s) == Err::<
            (Seq<u8>, AddressView),
            DecodeError,
        >(DecodeError::Malformed(Field::AddressType)),
        s[0] == 1 && s.len() >= 5 ==> AddressType::spec_decode(s) is Ok,
        s[0] == 4 && s.len() >= 17 ==> AddressType::spec_decode(s) is Ok,
{
}

/// Every byte decodes to an authentication method, and encoding that
/// method gives the byte back; so decoding after encoding is the identity
/// on all 256 methods that bytes stand for.
pub proof fn law_method_bytes_total(b: u8)
    ensures
        AuthenticationMethod::spec_decode(seq![b]) == Ok::<
            (Seq<u8>, AuthenticationMethod),
            DecodeError,
        >((Seq::empty(), AuthenticationMethod::spec_from_byte(b))),
        AuthenticationMethod::spec_valid(AuthenticationMethod::spec_from_byte(b)),
        AuthenticationMethod::spec_encode(AuthenticationMethod::spec_from_byte(b)) == seq![b],
{
    assert(seq![b].drop_first() =~= Seq::<u8>::empty());
}

/// The length of an encoded address: a tag byte and four octets, a tag byte,
/// a length byte and the name's bytes, or a tag byte and sixteen octets.
pub proof fn law_address_length(a: AddressView)
    requires
        AddressType::spec_valid(a),
    ensures
        AddressType::spec_encode(a).len() == match a {
            AddressView::IPv4(_) => 5,
            AddressView::DomainName(n) => 2 + encode_utf8(n).len(),
            AddressView::IPv6(_) => 17,
        },
        AddressType::spec_encode(a).len() <= 257,
{
}

/// The lengths of the SOCKS5 messages: a hello has two bytes and one per
/// method, a hello response two, and a request or response four besides
/// the address and port bytes.
pub proof fn law_v5_lengths(
    methods: Seq<AuthenticationMethod>,
    hello: crate::v5::HelloResponse,
    req: crate::v5::RequestView,
    resp: crate::v5::ResponseView,
)
    ensures
        crate::v5::Hello::spec_encode(methods).len() == 2 + methods.len(),
        crate::v5::HelloResponse::spec_encode(hello).len() == 2,
        crate::v5::Request::spec_encode(req).len() == 5 + AddressType::spec_encode(req.addr).len(),
        crate::v5::Response::spec_encode(resp).len() == 5 + AddressType::spec_encode(
            resp.addr,
        ).len(),
{
}

/// The lengths of the SOCKS4 messages: a request has eight bytes, the user
/// id and its NUL, and for a domain name the name and its NUL; a response
/// has eight bytes.
pub proof fn law_v4_lengths(req: crate::v4::RequestView, resp: crate::v4::ResponseView)
    requires
        crate::v4::Request::spec_valid(req),
        crate::v4::Response::spec_valid(resp),
    ensures
        crate::v4::Request::spec_encode(req).len() == 8 + crate::v4::string_bytes(req.secret).len()
            + match req.addr {
            AddressView::DomainName(n) => encode_utf8(n).len() + 1,
            _ => 0,
        },
        crate::v4::Response::spec_encode(resp).len() == 8,
{
}

} // verus!
