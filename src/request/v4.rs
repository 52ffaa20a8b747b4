//! The SOCKS4 request, with the domain-name extension.
use vstd::prelude::*;
use vstd::utf8::*;

use crate::common::hostname::string_from_utf8;
use crate::common::v4::{AddressType, Command};
use crate::common::{
    extend_bytes, is_suffix, lemma_take_concat, AddressView, DecodeError, Field, Ipv4Addr, Needed, Wire,
};

verus! {

broadcast use {encode_utf8_valid_utf8, encode_utf8_decode_utf8, is_ascii_chars_encode_utf8};

/// The characters of an optional string.
pub open spec fn optional_view(s: Option<String>) -> Option<Seq<char>> {
    match s {
        Some(t) => Some(t@),
        None => None,
    }
}

/// A byte that may stand in a NUL-terminated string: ASCII, but not NUL.
pub open spec fn is_text_byte(b: u8) -> bool {
    0 < b < 0x80
}

/// Characters that may stand in a NUL-terminated string.
pub open spec fn text_valid(c: Seq<char>) -> bool {
    forall|i: int| 0 <= i < c.len() ==> '\u{1}' <= #[trigger] c[i] <= '\u{7f}'
}

/// A string field that decodes back to itself: absent, or non-empty text
/// (an empty string and an absent one have the same bytes).
pub open spec fn string_valid(c: Option<Seq<char>>) -> bool {
    c matches Some(t) ==> t.len() > 0 && text_valid(t)
}

/// The number of text bytes at the front of `s`.
pub open spec fn text_len(s: Seq<u8>) -> nat
    decreases s.len(),
{
    if s.len() == 0 || !is_text_byte(s[0]) {
        0
    } else {
        1 + text_len(s.drop_first())
    }
}

/// The bytes of a NUL-terminated string field; an absent string is the NUL
/// alone.
pub open spec fn string_bytes(c: Option<Seq<char>>) -> Seq<u8> {
    match c {
        Some(t) => encode_utf8(t).push(0),
        None => seq![0u8],
    }
}

/// Reads a NUL-terminated string field from the front of `s`: text bytes
/// up to a NUL, absent when there are none. `field` names the field in an
/// error.
pub open spec fn parse_string(s: Seq<u8>, field: Field) -> Result<
    (Seq<u8>, Option<Seq<char>>),
    DecodeError,
> {
    let i = text_len(s) as int;
    if i == s.len() {
        Err(DecodeError::Incomplete(Needed::Unknown))
    } else if s[i] != 0 {
        Err(DecodeError::Malformed(field))
    } else if i == 0 {
        Ok((s.skip(1), None))
    } else {
        Ok((s.skip(i + 1), Some(decode_utf8(s.take(i)))))
    }
}

/// `text_len` never passes the end.
proof fn lemma_text_len_bound(s: Seq<u8>)
    ensures
        text_len(s) <= s.len(),
    decreases s.len(),
{
    if s.len() > 0 {
        lemma_text_len_bound(s.drop_first());
    }
}

/// A string field is read from the front of its input.
pub proof fn lemma_string_consumes_prefix(s: Seq<u8>, field: Field)
    ensures
        parse_string(s, field) matches Ok((rest, _)) ==> is_suffix(rest, s),
{
    lemma_text_len_bound(s);
}

/// `text_len` is the length of the longest prefix of text bytes.
proof fn lemma_text_len(s: Seq<u8>, i: int)
    requires
        0 <= i <= s.len(),
        forall|j: int| 0 <= j < i ==> is_text_byte(#[trigger] s[j]),
        i == s.len() || !is_text_byte(s[i]),
    ensures
        text_len(s) == i,
    decreases i,
{
    if i > 0 {
        assert forall|j: int| 0 <= j < i - 1 implies is_text_byte(#[trigger] s.drop_first()[j]) by {
            assert(is_text_byte(s[j + 1]));
        }
        lemma_text_len(s.drop_first(), i - 1);
    }
}

/// Text bytes are well-formed UTF-8, and decode to one character each.
proof fn lemma_text_utf8(b: Seq<u8>)
    requires
        forall|j: int| 0 <= j < b.len() ==> is_text_byte(#[trigger] b[j]),
    ensures
        valid_utf8(b),
        decode_utf8(b).len() == b.len(),
        text_valid(decode_utf8(b)),
{
    let c = Seq::new(b.len(), |j: int| b[j] as char);
    assert(is_ascii_chars(c));
    assert(encode_utf8(c) =~= b);
}

/// The encoding of valid text is its characters, one byte each.
proof fn lemma_text_bytes(t: Seq<char>)
    requires
        text_valid(t),
    ensures
        encode_utf8(t).len() == t.len(),
        forall|j: int| 0 <= j < t.len() ==> is_text_byte(#[trigger] encode_utf8(t)[j]),
{
    assert(is_ascii_chars(t));
    assert forall|j: int| 0 <= j < t.len() implies is_text_byte(#[trigger] encode_utf8(t)[j]) by {
        assert('\u{1}' <= t[j] <= '\u{7f}');
    }
}

/// Decoding the bytes of a valid string field gives it back, and leaves what
/// follows untouched.
pub proof fn lemma_string_round_trip(c: Option<Seq<char>>, rest: Seq<u8>, field: Field)
    requires
        string_valid(c),
    ensures
        parse_string(string_bytes(c) + rest, field) == Ok::<
            (Seq<u8>, Option<Seq<char>>),
            DecodeError,
        >((rest, c)),
{
    let s = string_bytes(c) + rest;
    match c {
        Some(t) => {
            lemma_text_bytes(t);
            let n = t.len() as int;
            assert forall|j: int| 0 <= j < n implies is_text_byte(#[trigger] s[j]) by {
                assert(s[j] == encode_utf8(t)[j]);
            }
            lemma_text_len(s, n);
            assert(s.take(n) =~= encode_utf8(t));
            assert(s.skip(n + 1) =~= rest);
        },
        None => {
            lemma_text_len(s, 0);
            assert(s.skip(1) =~= rest);
        },
    }
}

/// A strict prefix of the bytes of a valid string field decodes as
/// incomplete.
pub proof fn lemma_string_truncated(c: Option<Seq<char>>, k: int, field: Field)
    requires
        string_valid(c),
        0 <= k < string_bytes(c).len(),
    ensures
        parse_string(string_bytes(c).take(k), field) == Err::<
            (Seq<u8>, Option<Seq<char>>),
            DecodeError,
        >(DecodeError::Incomplete(Needed::Unknown)),
{
    let s = string_bytes(c).take(k);
    if let Some(t) = c {
        lemma_text_bytes(t);
        assert forall|j: int| 0 <= j < k implies is_text_byte(#[trigger] s[j]) by {
            assert(s[j] == encode_utf8(t)[j]);
        }
    }
    lemma_text_len(s, k);
}

/// Appends a NUL-terminated string field: the string's bytes, if any, then
/// a NUL.
pub fn encode_string(s: Option<&str>, buffer: &mut Vec<u8>)
    ensures
        final(buffer)@ == old(buffer)@ + string_bytes(
            match s {
                Some(t) => Some(t@),
                None => None,
            },
        ),
{
    if let Some(t) = s {
        extend_bytes(buffer, t.as_bytes());
    }
    buffer.push(0);
    assert(final(buffer)@ =~= old(buffer)@ + string_bytes(
        match s {
            Some(t) => Some(t@),
            None => None,
        },
    ));
}

/// Reads a NUL-terminated string field from the front of `input`.
pub fn decode_string<'a>(input: &'a [u8], field: Field) -> (r: Result<
    (&'a [u8], Option<String>),
    DecodeError,
>)
    ensures
        match r {
            Ok((rest, s)) => parse_string(input@, field) == Ok::<
                (Seq<u8>, Option<Seq<char>>),
                DecodeError,
            >((rest@, optional_view(s))),
            Err(e) => parse_string(input@, field) == Err::<
                (Seq<u8>, Option<Seq<char>>),
                DecodeError,
            >(e),
        },
{
    let mut i: usize = 0;
    while i < input.len() && 0 < input[i] && input[i] < 0x80
        invariant
            i <= input@.len(),
            forall|j: int| 0 <= j < i ==> is_text_byte(#[trigger] input@[j]),
        decreases input@.len() - i,
    {
        i = i + 1;
    }
    proof {
        lemma_text_len(input@, i as int);
    }
    if i == input.len() {
        return Err(DecodeError::Incomplete(Needed::Unknown));
    }
    if input[i] != 0 {
        return Err(DecodeError::Malformed(field));
    }
    let (head, rest) = input.split_at(i + 1);
    if i == 0 {
        return Ok((rest, None));
    }
    let (text, _) = head.split_at(i);
    assert(text@ =~= input@.take(i as int));
    proof {
        lemma_text_utf8(text@);
    }
    match string_from_utf8(text) {
        Some(t) => Ok((rest, Some(t))),
        None => Err(DecodeError::Malformed(field)),
    }
}

/// An IPv4 address of the form 0.0.0.x with x not zero: in a request it
/// says that a domain name follows the user id.
pub open spec fn is_domain_marker(a: Seq<u8>) -> bool {
    a[0] == 0 && a[1] == 0 && a[2] == 0 && a[3] != 0
}

/// The view of a SOCKS4 request.
pub ghost struct RequestView {
    pub command: Command,
    pub addr: AddressView,
    pub port: u16,
    pub secret: Option<Seq<char>>,
}

/// A SOCKS4 request: the command, the destination and the user id.
#[derive(Debug)]
pub struct Request {
    pub command: Command,
    pub addr: AddressType,
    pub port: u16,
    pub secret: Option<String>,
}

impl View for Request {
    type V = RequestView;

    open spec fn view(&self) -> RequestView {
        RequestView {
            command: self.command,
            addr: self.addr@,
            port: self.port,
            secret: optional_view(self.secret),
        }
    }
}

/// The four address bytes that a request carries for an address.
pub open spec fn address_field(a: AddressView) -> Seq<u8> {
    match a {
        AddressView::IPv4(o) => o,
        _ => seq![0u8, 0u8, 0u8, 1u8],
    }
}

/// What follows the user id: the NUL-terminated domain name, if any.
pub open spec fn domain_suffix(a: AddressView) -> Seq<u8> {
    match a {
        AddressView::DomainName(n) => string_bytes(Some(n)),
        _ => Seq::empty(),
    }
}

impl Wire for Request {
    open spec fn spec_encodable(v: RequestView) -> bool {
        !(v.addr is IPv6)
    }

    open spec fn spec_valid(v: RequestView) -> bool {
        &&& string_valid(v.secret)
        &&& match v.addr {
            AddressView::IPv4(o) => o.len() == 4 && !is_domain_marker(o),
            AddressView::DomainName(n) => string_valid(Some(n)),
            AddressView::IPv6(_) => false,
        }
    }

    open spec fn spec_encode(v: RequestView) -> Seq<u8> {
        seq![4u8, v.command.spec_byte()] + u16::spec_encode(v.port) + address_field(v.addr)
            + string_bytes(v.secret) + domain_suffix(v.addr)
    }

    open spec fn spec_decode(s: Seq<u8>) -> Result<(Seq<u8>, RequestView), DecodeError> {
        if s.len() == 0 {
            Err(DecodeError::Incomplete(Needed::Size(1)))
        } else if s[0] != 4 {
            Err(DecodeError::Malformed(Field::Version))
        } else {
            match Command::spec_decode(s.drop_first()) {
                Err(e) => Err(e),
                Ok((r1, command)) => match u16::spec_decode(r1) {
                    Err(e) => Err(e),
                    Ok((r2, port)) => match Ipv4Addr::spec_decode(r2) {
                        Err(e) => Err(e),
                        Ok((r3, ip)) => match parse_string(r3, Field::UserId) {
                            Err(e) => Err(e),
                            Ok((r4, secret)) => if is_domain_marker(ip) {
                                match parse_string(r4, Field::DomainName) {
                                    Err(e) => Err(e),
                                    Ok((_, None)) => Err(DecodeError::Malformed(Field::DomainName)),
                                    Ok((r5, Some(n))) => Ok(
                                        (
                                            r5,
                                            RequestView {
                                                command,
                                                addr: AddressView::DomainName(n),
                                                port,
                                                secret,
                                            },
                                        ),
                                    ),
                                }
                            } else {
                                Ok((r4, RequestView { command, addr: AddressView::IPv4(ip), port, secret }))
                            },
                        },
                    },
                },
            }
        }
    }

    fn encode_into(&self, buffer: &mut Vec<u8>) {
        buffer.push(4);
        self.command.encode_into(buffer);
        self.port.encode_into(buffer);
        let secret = match &self.secret {
            Some(s) => Some(s.as_str()),
            None => None,
        };
        match &self.addr {
            AddressType::IPv4(a) => {
                a.encode_into(buffer);
                encode_string(secret, buffer);
            },
            AddressType::DomainName(n) => {
                Ipv4Addr::new(0, 0, 0, 1).encode_into(buffer);
                encode_string(secret, buffer);
                encode_string(Some(n.as_str()), buffer);
            },
        }
        assert(final(buffer)@ =~= old(buffer)@ + Self::spec_encode(self@));
    }

    fn decode<'a>(input: &'a [u8]) -> (r: Result<(&'a [u8], Request), DecodeError>) {
        if input.len() == 0 {
            return Err(DecodeError::Incomplete(Needed::Size(1)));
        }
        if input[0] != 4 {
            return Err(DecodeError::Malformed(Field::Version));
        }
        let (_, rest) = input.split_at(1);
        let (rest, command) = Command::decode(rest)?;
        let (rest, port) = u16::decode(rest)?;
        let (rest, ip) = Ipv4Addr::decode(rest)?;
        let (rest, secret) = decode_string(rest, Field::UserId)?;
        let o = ip.octets();
        if o[0] == 0 && o[1] == 0 && o[2] == 0 && o[3] != 0 {
            let (rest, name) = decode_string(rest, Field::DomainName)?;
            match name {
                Some(n) => Ok((rest, Request { command, addr: AddressType::DomainName(n), port, secret })),
                None => Err(DecodeError::Malformed(Field::DomainName)),
            }
        } else {
            Ok((rest, Request { command, addr: AddressType::IPv4(ip), port, secret }))
        }
    }

    proof fn lemma_consumes_prefix(s: Seq<u8>) {
        if s.len() > 0 && s[0] == 4 {
            if let Ok((r1, _)) = Command::spec_decode(s.drop_first()) {
                if let Ok((r2, _)) = u16::spec_decode(r1) {
                    if let Ok((r3, _)) = Ipv4Addr::spec_decode(r2) {
                        lemma_string_consumes_prefix(r3, Field::UserId);
                        if let Ok((r4, _)) = parse_string(r3, Field::UserId) {
                            lemma_string_consumes_prefix(r4, Field::DomainName);
                        }
                    }
                }
            }
        }
    }

    proof fn lemma_round_trip(v: RequestView, rest: Seq<u8>) {
        let p = u16::spec_encode(v.port);
        let a = address_field(v.addr);
        let u = string_bytes(v.secret);
        let d = domain_suffix(v.addr);
        let s = Self::spec_encode(v) + rest;
        assert(s.drop_first() =~= Command::spec_encode(v.command) + (p + (a + (u + (d + rest)))));
        Command::lemma_round_trip(v.command, p + (a + (u + (d + rest))));
        u16::lemma_round_trip(v.port, a + (u + (d + rest)));
        Ipv4Addr::lemma_round_trip(a, u + (d + rest));
        lemma_string_round_trip(v.secret, d + rest, Field::UserId);
        if let AddressView::DomainName(n) = v.addr {
            lemma_string_round_trip(Some(n), rest, Field::DomainName);
        } else {
            assert(d + rest =~= rest);
        }
    }

    #[verifier::spinoff_prover]
    #[verifier::rlimit(40)]
    proof fn lemma_truncated(v: RequestView, k: int) {
        let p = u16::spec_encode(v.port);
        let a = address_field(v.addr);
        let u = string_bytes(v.secret);
        let d = domain_suffix(v.addr);
        let e = Self::spec_encode(v);
        let t = e.take(k);
        if k >= 2 {
            let r1 = (p + (a + (u + d))).take(k - 2);
            assert(t.drop_first() =~= Command::spec_encode(v.command) + r1);
            Command::lemma_round_trip(v.command, r1);
            lemma_take_concat(p, a + (u + d), k - 2);
            if k - 2 < 2 {
                u16::lemma_truncated(v.port, k - 2);
            } else {
                let r2 = (a + (u + d)).take(k - 4);
                u16::lemma_round_trip(v.port, r2);
                lemma_take_concat(a, u + d, k - 4);
                if k - 4 < 4 {
                    Ipv4Addr::lemma_truncated(a, k - 4);
                } else {
                    let r3 = (u + d).take(k - 8);
                    Ipv4Addr::lemma_round_trip(a, r3);
                    lemma_take_concat(u, d, k - 8);
                    if k - 8 < u.len() {
                        lemma_string_truncated(v.secret, k - 8, Field::UserId);
                    } else {
                        let r4 = d.take(k - 8 - u.len());
                        lemma_string_round_trip(v.secret, r4, Field::UserId);
                        if let AddressView::DomainName(n) = v.addr {
                            lemma_string_truncated(Some(n), k - 8 - u.len(), Field::DomainName);
                        }
                    }
                }
            }
        }
    }
}

} // verus!
