//! Domain names on the wire: one length byte, then the name's UTF-8 bytes.
use vstd::prelude::*;
use vstd::string::*;
use vstd::utf8::*;

use crate::common::{extend_bytes, DecodeError, Field, Needed};

verus! {

broadcast use {encode_utf8_valid_utf8, encode_utf8_decode_utf8};

/// Relies on std::str::from_utf8: it accepts exactly the well-formed UTF-8
/// byte sequences, and the string slice it returns holds those bytes.
#[verifier::external_body]
pub(crate) fn str_from_utf8(bytes: &[u8]) -> (r: Option<&str>)
    ensures
        r is Some <==> valid_utf8(bytes@),
        r matches Some(s) ==> s.spec_bytes() == bytes@,
{
    std::str::from_utf8(bytes).ok()
}

/// Decodes well-formed UTF-8 bytes into an owned string.
pub(crate) fn string_from_utf8(bytes: &[u8]) -> (r: Option<String>)
    ensures
        r is Some <==> valid_utf8(bytes@),
        r matches Some(s) ==> s@ == decode_utf8(bytes@),
{
    match str_from_utf8(bytes) {
        Some(s) => {
            proof {
                assert(decode_utf8(encode_utf8(s@)) == s@);
            }
            Some(s.to_owned())
        },
        None => None,
    }
}

/// A domain name fits the one-byte length prefix.
pub open spec fn hostname_valid(name: Seq<char>) -> bool {
    encode_utf8(name).len() <= 255
}

/// The bytes of a domain name: its UTF-8 length, then its UTF-8 encoding.
pub open spec fn hostname_bytes(name: Seq<char>) -> Seq<u8> {
    seq![encode_utf8(name).len() as u8] + encode_utf8(name)
}

/// Reads a length-prefixed domain name from the front of `s`.
pub open spec fn parse_hostname(s: Seq<u8>) -> Result<(Seq<u8>, Seq<char>), DecodeError> {
    if s.len() == 0 {
        Err(DecodeError::Incomplete(Needed::Size(1)))
    } else if s.len() - 1 < s[0] {
        Err(DecodeError::Incomplete(Needed::Size((s[0] - (s.len() - 1)) as usize)))
    } else if valid_utf8(s.subrange(1, 1 + s[0])) {
        Ok((s.skip(1 + s[0]), decode_utf8(s.subrange(1, 1 + s[0]))))
    } else {
        Err(DecodeError::Malformed(Field::DomainName))
    }
}

/// Appends the length-prefixed encoding of `name` to `buffer`.
pub fn encode_hostname(buffer: &mut Vec<u8>, name: &str)
    requires
        hostname_valid(name@),
    ensures
        final(buffer)@ == old(buffer)@ + hostname_bytes(name@),
{
    let bytes = name.as_bytes();
    buffer.push(bytes.len() as u8);
    extend_bytes(buffer, bytes);
    assert(final(buffer)@ =~= old(buffer)@ + hostname_bytes(name@));
}

/// Reads a length-prefixed domain name from the front of `input`; its bytes
/// must be well-formed UTF-8.
pub fn decode_hostname<'a>(input: &'a [u8]) -> (r: Result<(&'a [u8], String), DecodeError>)
    ensures
        crate::common::decoded(r) == parse_hostname(input@),
{
    if input.len() == 0 {
        return Err(DecodeError::Incomplete(Needed::Size(1)));
    }
    let n = input[0] as usize;
    if input.len() - 1 < n {
        return Err(DecodeError::Incomplete(Needed::Size(n - (input.len() - 1))));
    }
    let (head, rest) = input.split_at(1 + n);
    let (_, name) = head.split_at(1);
    assert(name@ =~= input@.subrange(1, 1 + n));
    match string_from_utf8(name) {
        Some(s) => Ok((rest, s)),
        None => Err(DecodeError::Malformed(Field::DomainName)),
    }
}

/// Decoding the encoding of a valid domain name gives it back, and leaves
/// what follows untouched.
pub proof fn lemma_hostname_round_trip(name: Seq<char>, rest: Seq<u8>)
    requires
        hostname_valid(name),
    ensures
        parse_hostname(hostname_bytes(name) + rest) == Ok::<(Seq<u8>, Seq<char>), DecodeError>(
            (rest, name),
        ),
{
    let b = encode_utf8(name);
    let s = hostname_bytes(name) + rest;
    assert(s.subrange(1, 1 + b.len() as int) =~= b);
    assert(s.skip(1 + b.len() as int) =~= rest);
}

/// A strict prefix of the encoding of a valid domain name decodes as
/// incomplete.
pub proof fn lemma_hostname_truncated(name: Seq<char>, k: int)
    requires
        hostname_valid(name),
        0 <= k < hostname_bytes(name).len(),
    ensures
        parse_hostname(hostname_bytes(name).take(k)) is Err,
        parse_hostname(hostname_bytes(name).take(k))->Err_0 is Incomplete,
{
}

} // verus!
