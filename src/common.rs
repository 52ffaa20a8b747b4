//! Items shared by both protocol versions: the decode errors, the `Wire`
//! interface, the version byte and the fixed-size IP addresses.
use vstd::prelude::*;

pub mod hostname;
pub mod v4;
pub mod v5;

verus! {

/// The part of a message that a malformed input was rejected in.
#[derive(Debug, Clone, Copy, PartialEq, Eq, Structural)]
pub enum Field {
    Version,
    Command,
    AddressType,
    DomainName,
    UserId,
    Status,
}

impl Field {
    /// A short description of what was wrong with the field.
    pub open spec fn spec_label(self) -> Seq<char> {
        match self {
            Field::Version => "invalid version"@,
            Field::Command => "invalid command"@,
            Field::AddressType => "invalid address type"@,
            Field::DomainName => "invalid domain name"@,
            Field::UserId => "invalid user id"@,
            Field::Status => "invalid status"@,
        }
    }

    /// A short description of what was wrong with the field.
    pub fn label(&self) -> (r: &'static str)
        ensures
            r@ == self.spec_label(),
    {
        match self {
            Field::Version => "invalid version",
            Field::Command => "invalid command",
            Field::AddressType => "invalid address type",
            Field::DomainName => "invalid domain name",
            Field::UserId => "invalid user id",
            Field::Status => "invalid status",
        }
    }
}

/// How many more bytes a decoder needs before it can go on.
#[derive(Debug, Clone, Copy, PartialEq, Eq, Structural)]
pub enum Needed {
    /// The input ends inside a NUL-terminated string: the length is not known.
    Unknown,
    /// At least this many more bytes are needed.
    Size(usize),
}

/// Why a decoder returned no value.
#[derive(Debug, Clone, Copy, PartialEq, Eq, Structural)]
pub enum DecodeError {
    /// The input ends before the message does: read more bytes and decode
    /// again.
    Incomplete(Needed),
    /// The input can never become a valid message; the field says where it
    /// went wrong.
    Malformed(Field),
}

/// Why a handshake could not go on.
#[derive(Debug, Clone, Copy, PartialEq, Eq, Structural)]
pub enum HandshakeError {
    /// A message from the peer is invalid.
    Malformed(Field),
    /// A message from the peer grew past the largest size accepted.
    MessageTooLarge,
    /// No authentication method acceptable to both sides.
    NoAcceptableMethod,
    /// SOCKS4 cannot carry an IPv6 address.
    AddressNotSupported,
    /// The resolver could not connect to the destination.
    ConnectFailed,
    /// A SOCKS4 server answered with a status other than success.
    RejectedV4(crate::response::v4::Status),
    /// A SOCKS5 server answered with a status other than success.
    RejectedV5(crate::response::v5::Status),
}

/// A destination address as the protocols see it: four IPv4 octets, a
/// domain name, or sixteen IPv6 octets.
pub ghost enum AddressView {
    IPv4(Seq<u8>),
    DomainName(Seq<char>),
    IPv6(Seq<u8>),
}

/// What a decoder's result means: the unread remainder and the value's view,
/// or the error.
pub open spec fn decoded<'a, T: View>(r: Result<(&'a [u8], T), DecodeError>) -> Result<
    (Seq<u8>, T::V),
    DecodeError,
> {
    match r {
        Ok((rest, v)) => Ok((rest@, v@)),
        Err(e) => Err(e),
    }
}

/// `r` is what is left of `s` after a prefix of it.
pub open spec fn is_suffix(r: Seq<u8>, s: Seq<u8>) -> bool {
    &&& r.len() <= s.len()
    &&& forall|i: int| 0 <= i < r.len() ==> #[trigger] r[i] == s[s.len() - r.len() + i]
}

/// A value with a byte encoding on the wire.
///
/// `spec_encode` is the encoding of an encodable value, and `spec_decode` reads
/// one value from the front of a byte sequence and hands back what follows it.
pub trait Wire: View + Sized {
    /// The values that can be encoded.
    spec fn spec_encodable(v: Self::V) -> bool;

    /// The values that decoding their encoding gives back.
    spec fn spec_valid(v: Self::V) -> bool;

    /// The bytes of an encodable value.
    spec fn spec_encode(v: Self::V) -> Seq<u8>;

    /// The remainder and the value read from the front of `s`, or why none
    /// could be read.
    spec fn spec_decode(s: Seq<u8>) -> Result<(Seq<u8>, Self::V), DecodeError>;

    /// Appends the encoding of `self` to `buffer`.
    fn encode_into(&self, buffer: &mut Vec<u8>)
        requires
            Self::spec_encodable(self@),
        ensures
            final(buffer)@ == old(buffer)@ + Self::spec_encode(self@),
    ;

    /// Reads one value from the front of `input`.
    fn decode<'a>(input: &'a [u8]) -> (r: Result<(&'a [u8], Self), DecodeError>)
        ensures
            decoded(r) == Self::spec_decode(input@),
    ;

    /// A decoder only consumes a prefix of its input: what it hands back is
    /// the rest of those same bytes.
    proof fn lemma_consumes_prefix(s: Seq<u8>)
        ensures
            Self::spec_decode(s) matches Ok((rest, _)) ==> is_suffix(rest, s),
    ;

    /// Decoding the encoding of a valid value gives the value back, and
    /// leaves what follows it untouched.
    proof fn lemma_round_trip(v: Self::V, rest: Seq<u8>)
        requires
            Self::spec_valid(v),
        ensures
            Self::spec_decode(Self::spec_encode(v) + rest) == Ok::<(Seq<u8>, Self::V), DecodeError>(
                (rest, v),
            ),
    ;

    /// A strict prefix of the encoding of a valid value decodes as incomplete.
    proof fn lemma_truncated(v: Self::V, k: int)
        requires
            Self::spec_valid(v),
            0 <= k < Self::spec_encode(v).len(),
        ensures
            Self::spec_decode(Self::spec_encode(v).take(k)) is Err,
            Self::spec_decode(Self::spec_encode(v).take(k))->Err_0 is Incomplete,
    ;
}

/// The protocol version that leads most messages.
#[derive(Debug, Clone, Copy, PartialEq, Eq, Structural)]
pub enum Version {
    Socks4,
    Socks5,
}

impl View for Version {
    type V = Version;

    open spec fn view(&self) -> Version {
        *self
    }
}

impl Version {
    /// The byte that stands for the version on the wire.
    pub open spec fn spec_byte(self) -> u8 {
        match self {
            Version::Socks4 => 4,
            Version::Socks5 => 5,
        }
    }
}

impl Wire for Version {
    open spec fn spec_encodable(v: Version) -> bool {
        true
    }

    open spec fn spec_valid(v: Version) -> bool {
        true
    }

    open spec fn spec_encode(v: Version) -> Seq<u8> {
        seq![v.spec_byte()]
    }

    open spec fn spec_decode(s: Seq<u8>) -> Result<(Seq<u8>, Version), DecodeError> {
        if s.len() == 0 {
            Err(DecodeError::Incomplete(Needed::Size(1)))
        } else if s[0] == 4 {
            Ok((s.drop_first(), Version::Socks4))
        } else if s[0] == 5 {
            Ok((s.drop_first(), Version::Socks5))
        } else {
            Err(DecodeError::Malformed(Field::Version))
        }
    }

    fn encode_into(&self, buffer: &mut Vec<u8>) {
        let b: u8 = match self {
            Version::Socks4 => 4,
            Version::Socks5 => 5,
        };
        buffer.push(b);
    }

    fn decode<'a>(input: &'a [u8]) -> (r: Result<(&'a [u8], Version), DecodeError>) {
        if input.len() == 0 {
            return Err(DecodeError::Incomplete(Needed::Size(1)));
        }
        let (_, rest) = input.split_at(1);
        if input[0] == 4 {
            Ok((rest, Version::Socks4))
        } else if input[0] == 5 {
            Ok((rest, Version::Socks5))
        } else {
            Err(DecodeError::Malformed(Field::Version))
        }
    }

    proof fn lemma_consumes_prefix(s: Seq<u8>) {
    }

    proof fn lemma_round_trip(v: Version, rest: Seq<u8>) {
        assert((Self::spec_encode(v) + rest).drop_first() =~= rest);
    }

    proof fn lemma_truncated(v: Version, k: int) {
    }
}

/// Taking a prefix of a concatenation: within the first part, or the whole
/// first part and a prefix of the second.
pub proof fn lemma_take_concat(a: Seq<u8>, b: Seq<u8>, k: int)
    requires
        0 <= k <= a.len() + b.len(),
    ensures
        k <= a.len() ==> (a + b).take(k) == a.take(k),
        k >= a.len() ==> (a + b).take(k) == a + b.take(k - a.len()),
{
    if k <= a.len() {
        assert((a + b).take(k) =~= a.take(k));
    }
    if k >= a.len() {
        assert((a + b).take(k) =~= a + b.take(k - a.len()));
    }
}

/// Appends `bytes` to `buffer`.
pub(crate) fn extend_bytes(buffer: &mut Vec<u8>, bytes: &[u8])
    ensures
        final(buffer)@ == old(buffer)@ + bytes@,
{
    let mut i: usize = 0;
    while i < bytes.len()
        invariant
            i <= bytes@.len(),
            buffer@ == old(buffer)@ + bytes@.take(i as int),
        decreases bytes@.len() - i,
    {
        buffer.push(bytes[i]);
        i = i + 1;
        assert(bytes@.take(i as int) =~= bytes@.take(i - 1) + seq![bytes@[i - 1]]);
    }
    assert(bytes@.take(i as int) =~= bytes@);
}

/// A port, two bytes with the high byte first.
impl Wire for u16 {
    open spec fn spec_encodable(v: u16) -> bool {
        true
    }

    open spec fn spec_valid(v: u16) -> bool {
        true
    }

    open spec fn spec_encode(v: u16) -> Seq<u8> {
        seq![(v / 256) as u8, (v % 256) as u8]
    }

    open spec fn spec_decode(s: Seq<u8>) -> Result<(Seq<u8>, u16), DecodeError> {
        if s.len() < 2 {
            Err(DecodeError::Incomplete(Needed::Size((2 - s.len()) as usize)))
        } else {
            Ok((s.skip(2), (s[0] * 256 + s[1]) as u16))
        }
    }

    fn encode_into(&self, buffer: &mut Vec<u8>) {
        buffer.push((*self / 256) as u8);
        buffer.push((*self % 256) as u8);
    }

    fn decode<'a>(input: &'a [u8]) -> (r: Result<(&'a [u8], u16), DecodeError>) {
        if input.len() < 2 {
            return Err(DecodeError::Incomplete(Needed::Size(2 - input.len())));
        }
        let (_, rest) = input.split_at(2);
        let port: u16 = (input[0] as u16) * 256 + input[1] as u16;
        Ok((rest, port))
    }

    proof fn lemma_consumes_prefix(s: Seq<u8>) {
    }

    proof fn lemma_round_trip(v: u16, rest: Seq<u8>) {
        assert((Self::spec_encode(v) + rest).skip(2) =~= rest);
    }

    proof fn lemma_truncated(v: u16, k: int) {
    }
}

/// An IPv4 address: four octets, the most significant first.
#[derive(Debug, Clone, Copy, PartialEq, Eq)]
pub struct Ipv4Addr {
    pub octets: [u8; 4],
}

impl View for Ipv4Addr {
    type V = Seq<u8>;

    open spec fn view(&self) -> Seq<u8> {
        self.octets@
    }
}

impl Ipv4Addr {
    /// The address `a.b.c.d`.
    pub fn new(a: u8, b: u8, c: u8, d: u8) -> (r: Ipv4Addr)
        ensures
            r@ == seq![a, b, c, d],
    {
        let r = Ipv4Addr { octets: [a, b, c, d] };
        assert(r@ =~= seq![a, b, c, d]);
        r
    }

    /// The address with these octets.
    pub fn from_octets(octets: [u8; 4]) -> (r: Ipv4Addr)
        ensures
            r@ == octets@,
    {
        Ipv4Addr { octets }
    }

    /// The four octets, the most significant first.
    pub fn octets(&self) -> (r: [u8; 4])
        ensures
            r@ == self@,
    {
        self.octets
    }
}

impl Wire for Ipv4Addr {
    open spec fn spec_encodable(v: Seq<u8>) -> bool {
        true
    }

    open spec fn spec_valid(v: Seq<u8>) -> bool {
        v.len() == 4
    }

    open spec fn spec_encode(v: Seq<u8>) -> Seq<u8> {
        v
    }

    open spec fn spec_decode(s: Seq<u8>) -> Result<(Seq<u8>, Seq<u8>), DecodeError> {
        if s.len() < 4 {
            Err(DecodeError::Incomplete(Needed::Size((4 - s.len()) as usize)))
        } else {
            Ok((s.skip(4), s.take(4)))
        }
    }

    fn encode_into(&self, buffer: &mut Vec<u8>) {
        extend_bytes(buffer, self.octets.as_slice());
    }

    fn decode<'a>(input: &'a [u8]) -> (r: Result<(&'a [u8], Ipv4Addr), DecodeError>) {
        if input.len() < 4 {
            return Err(DecodeError::Incomplete(Needed::Size(4 - input.len())));
        }
        let (_, rest) = input.split_at(4);
        let addr = Ipv4Addr { octets: [input[0], input[1], input[2], input[3]] };
        assert(addr@ =~= input@.take(4));
        Ok((rest, addr))
    }

    proof fn lemma_consumes_prefix(s: Seq<u8>) {
    }

    proof fn lemma_round_trip(v: Seq<u8>, rest: Seq<u8>) {
        assert((v + rest).skip(4) =~= rest);
        assert((v + rest).take(4) =~= v);
    }

    proof fn lemma_truncated(v: Seq<u8>, k: int) {
    }
}

/// An IPv6 address: sixteen octets, the most significant first (eight
/// 16-bit groups, each high byte first).
#[derive(Debug, Clone, Copy, PartialEq, Eq)]
pub struct Ipv6Addr {
    pub octets: [u8; 16],
}

impl View for Ipv6Addr {
    type V = Seq<u8>;

    open spec fn view(&self) -> Seq<u8> {
        self.octets@
    }
}

impl Ipv6Addr {
    /// The address with these octets.
    pub fn from_octets(octets: [u8; 16]) -> (r: Ipv6Addr)
        ensures
            r@ == octets@,
    {
        Ipv6Addr { octets }
    }

    /// The sixteen octets, the most significant first.
    pub fn octets(&self) -> (r: [u8; 16])
        ensures
            r@ == self@,
    {
        self.octets
    }
}

impl Wire for Ipv6Addr {
    open spec fn spec_encodable(v: Seq<u8>) -> bool {
        true
    }

    open spec fn spec_valid(v: Seq<u8>) -> bool {
        v.len() == 16
    }

    open spec fn spec_encode(v: Seq<u8>) -> Seq<u8> {
        v
    }

    open spec fn spec_decode(s: Seq<u8>) -> Result<(Seq<u8>, Seq<u8>), DecodeError> {
        if s.len() < 16 {
            Err(DecodeError::Incomplete(Needed::Size((16 - s.len()) as usize)))
        } else {
            Ok((s.skip(16), s.take(16)))
        }
    }

    fn encode_into(&self, buffer: &mut Vec<u8>) {
        extend_bytes(buffer, self.octets.as_slice());
    }

    fn decode<'a>(input: &'a [u8]) -> (r: Result<(&'a [u8], Ipv6Addr), DecodeError>) {
        if input.len() < 16 {
            return Err(DecodeError::Incomplete(Needed::Size(16 - input.len())));
        }
        let (_, rest) = input.split_at(16);
        let mut octets: [u8; 16] = [0u8; 16];
        let mut i: usize = 0;
        while i < 16
            invariant
                i <= 16,
                input@.len() >= 16,
                forall|j: int| 0 <= j < i ==> octets@[j] == input@[j],
            decreases 16 - i,
        {
            octets[i] = input[i];
            i = i + 1;
        }
        let addr = Ipv6Addr { octets };
        assert(addr@ =~= input@.take(16));
        Ok((rest, addr))
    }

    proof fn lemma_consumes_prefix(s: Seq<u8>) {
    }

    proof fn lemma_round_trip(v: Seq<u8>, rest: Seq<u8>) {
        assert((v + rest).skip(16) =~= rest);
        assert((v + rest).take(16) =~= v);
    }

    proof fn lemma_truncated(v: Seq<u8>, k: int) {
    }
}

} // verus!
