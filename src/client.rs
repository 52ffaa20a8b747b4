//! The decisions of a proxy client during a handshake.
//!
//! [`ClientHandshake::start`] gives the first bytes to send; the driver then
//! passes what the server sends to [`ClientHandshake::receive`] and performs
//! the [`ClientAction`] it gets back.
use vstd::prelude::*;

use crate::common::extend_bytes;
use crate::server::MAX_MESSAGE_LEN;
use crate::v5::{AddressType, AuthenticationMethod, HelloResponse};
use crate::{AddressView, DecodeError, Destination, DestinationView, HandshakeError, Version, Wire};

verus! {

/// Something that names a destination for a client to connect to.
pub trait IntoSocksAddr {
    /// The destination's address and port.
    fn into_socks_addr(self) -> (AddressType, u16);
}

impl IntoSocksAddr for (String, u16) {
    fn into_socks_addr(self) -> (r: (AddressType, u16))
        ensures
            r.0@ == AddressView::DomainName(self.0@),
            r.1 == self.1,
    {
        (AddressType::DomainName(self.0), self.1)
    }
}

impl<'a> IntoSocksAddr for (&'a str, u16) {
    fn into_socks_addr(self) -> (r: (AddressType, u16))
        ensures
            r.0@ == AddressView::DomainName(self.0@),
            r.1 == self.1,
    {
        (AddressType::DomainName(self.0.to_owned()), self.1)
    }
}

impl IntoSocksAddr for Destination {
    fn into_socks_addr(self) -> (r: (AddressType, u16))
        ensures
            r.0@ == self.addr@,
            r.1 == self.port,
    {
        (self.addr, self.port)
    }
}

/// Where a client handshake stands.
pub ghost enum ClientPhaseView {
    /// SOCKS5: the hello is sent, the selected method is awaited.
    AwaitMethod,
    /// The request is sent, the response is awaited.
    AwaitReply,
    /// The server connected: the stream now carries the tunnelled bytes.
    Established,
    /// The handshake failed.
    Closed,
}

/// The view of a client handshake.
pub ghost struct ClientView {
    pub version: Version,
    pub target: DestinationView,
    pub phase: ClientPhaseView,
    pub pending: Seq<u8>,
}

impl ClientView {
    /// A SOCKS5 target can be put in a request, and only SOCKS5 negotiates
    /// a method.
    pub open spec fn wf(self) -> bool {
        &&& self.version == Version::Socks5 ==> AddressType::spec_encodable(self.target.addr)
        &&& self.phase is AwaitMethod ==> self.version == Version::Socks5
    }

    /// The same handshake in another phase, with other pending bytes.
    pub open spec fn moved(self, phase: ClientPhaseView, pending: Seq<u8>) -> ClientView {
        ClientView { phase, pending, ..self }
    }
}

/// The view of a client action.
pub ghost enum ClientActionView {
    ReadMore,
    Send(Seq<u8>),
    Established,
    Close(HandshakeError),
}

/// What the driver of a client handshake does next.
#[derive(Debug)]
pub enum ClientAction {
    /// Read more bytes from the server and pass them to `receive`.
    ReadMore,
    /// Write these bytes to the server, then read its answer.
    Send(Vec<u8>),
    /// The tunnel is open.
    Established,
    /// Close the connection for this reason.
    Close(HandshakeError),
}

impl View for ClientAction {
    type V = ClientActionView;

    open spec fn view(&self) -> ClientActionView {
        match self {
            ClientAction::ReadMore => ClientActionView::ReadMore,
            ClientAction::Send(b) => ClientActionView::Send(b@),
            ClientAction::Established => ClientActionView::Established,
            ClientAction::Close(e) => ClientActionView::Close(*e),
        }
    }
}

/// The SOCKS5 request for the target.
pub open spec fn v5_request_bytes(target: DestinationView) -> Seq<u8> {
    crate::v5::Request::spec_encode(
        crate::v5::RequestView {
            command: crate::v5::Command::Connect,
            addr: target.addr,
            port: target.port,
        },
    )
}

/// The SOCKS4 request for the target, with no user id.
pub open spec fn v4_request_bytes(target: DestinationView) -> Seq<u8> {
    crate::v4::Request::spec_encode(
        crate::v4::RequestView {
            command: crate::v4::Command::Connect,
            addr: target.addr,
            port: target.port,
            secret: None,
        },
    )
}

/// Waits for more bytes, unless the message has grown too long.
pub open spec fn client_wait(v: ClientView, data: Seq<u8>) -> (ClientView, ClientActionView) {
    if data.len() > MAX_MESSAGE_LEN {
        (
            v.moved(ClientPhaseView::Closed, data),
            ClientActionView::Close(HandshakeError::MessageTooLarge),
        )
    } else {
        (v.moved(v.phase, data), ClientActionView::ReadMore)
    }
}

/// Closes the handshake for `e`.
pub open spec fn client_close(v: ClientView, data: Seq<u8>, e: HandshakeError) -> (
    ClientView,
    ClientActionView,
) {
    (v.moved(ClientPhaseView::Closed, data), ClientActionView::Close(e))
}

/// What the client does with the bytes of the hello response.
pub open spec fn method_step(v: ClientView, data: Seq<u8>) -> (ClientView, ClientActionView) {
    match HelloResponse::spec_decode(data) {
        Err(DecodeError::Incomplete(_)) => client_wait(v, data),
        Err(DecodeError::Malformed(f)) => client_close(v, data, HandshakeError::Malformed(f)),
        Ok((rest, h)) => if h.method == AuthenticationMethod::NoAuthentication {
            (
                v.moved(ClientPhaseView::AwaitReply, rest),
                ClientActionView::Send(v5_request_bytes(v.target)),
            )
        } else {
            client_close(v, rest, HandshakeError::NoAcceptableMethod)
        },
    }
}

/// What the client does with the bytes of the response.
pub open spec fn reply_step(v: ClientView, data: Seq<u8>) -> (ClientView, ClientActionView) {
    if v.version == Version::Socks5 {
        match crate::v5::Response::spec_decode(data) {
            Err(DecodeError::Incomplete(_)) => client_wait(v, data),
            Err(DecodeError::Malformed(f)) => client_close(v, data, HandshakeError::Malformed(f)),
            Ok((rest, r)) => if r.status is Success {
                (v.moved(ClientPhaseView::Established, rest), ClientActionView::Established)
            } else {
                client_close(v, rest, HandshakeError::RejectedV5(r.status))
            },
        }
    } else {
        match crate::v4::Response::spec_decode(data) {
            Err(DecodeError::Incomplete(_)) => client_wait(v, data),
            Err(DecodeError::Malformed(f)) => client_close(v, data, HandshakeError::Malformed(f)),
            Ok((rest, r)) => if r.status is Success {
                (v.moved(ClientPhaseView::Established, rest), ClientActionView::Established)
            } else {
                client_close(v, rest, HandshakeError::RejectedV4(r.status))
            },
        }
    }
}

enum Phase {
    AwaitMethod,
    AwaitReply,
    Established,
    Closed,
}

/// The client side of one handshake.
pub struct ClientHandshake {
    version: Version,
    target: Destination,
    phase: Phase,
    pending: Vec<u8>,
}

impl View for ClientHandshake {
    type V = ClientView;

    closed spec fn view(&self) -> ClientView {
        ClientView {
            version: self.version,
            target: self.target@,
            phase: match self.phase {
                Phase::AwaitMethod => ClientPhaseView::AwaitMethod,
                Phase::AwaitReply => ClientPhaseView::AwaitReply,
                Phase::Established => ClientPhaseView::Established,
                Phase::Closed => ClientPhaseView::Closed,
            },
            pending: self.pending@,
        }
    }
}

impl ClientHandshake {
    /// Starts a handshake to connect to `target`, and gives the first bytes
    /// to send: a SOCKS5 hello offering no authentication, or a SOCKS4
    /// request with no user id. SOCKS4 cannot name an IPv6 target.
    pub fn start(version: Version, target: Destination) -> (r: Result<
        (ClientHandshake, Vec<u8>),
        HandshakeError,
    >)
        requires
            version == Version::Socks5 ==> AddressType::spec_encodable(target.addr@),
        ensures
            version == Version::Socks4 && target.addr@ is IPv6 ==> r == Err::<
                (ClientHandshake, Vec<u8>),
                HandshakeError,
            >(HandshakeError::AddressNotSupported),
            version == Version::Socks5 || !(target.addr@ is IPv6) ==> r is Ok,
            r matches Ok((h, bytes)) ==> {
                &&& h@.wf()
                &&& h@.version == version
                &&& h@.target == target@
                &&& h@.pending == Seq::<u8>::empty()
                &&& if version == Version::Socks5 {
                    &&& h@.phase is AwaitMethod
                    &&& bytes@ == crate::v5::Hello::spec_encode(
                        seq![AuthenticationMethod::NoAuthentication],
                    )
                } else {
                    &&& h@.phase is AwaitReply
                    &&& bytes@ == v4_request_bytes(target@)
                }
            },
    {
        let mut bytes: Vec<u8> = Vec::new();
        match version {
            Version::Socks5 => {
                let mut methods: Vec<AuthenticationMethod> = Vec::new();
                methods.push(AuthenticationMethod::NoAuthentication);
                let hello = crate::v5::Hello { methods };
                assert(hello@ =~= seq![AuthenticationMethod::NoAuthentication]);
                hello.encode_into(&mut bytes);
                Ok((ClientHandshake { version, target, phase: Phase::AwaitMethod, pending: Vec::new() }, bytes))
            },
            Version::Socks4 => {
                let addr = crate::v4::AddressType::try_from(target.addr.clone())?;
                let request = crate::v4::Request {
                    command: crate::v4::Command::Connect,
                    addr,
                    port: target.port,
                    secret: None,
                };
                request.encode_into(&mut bytes);
                Ok((ClientHandshake { version, target, phase: Phase::AwaitReply, pending: Vec::new() }, bytes))
            },
        }
    }

    /// The bytes received and not consumed by a message: once established,
    /// the first tunnelled bytes.
    pub fn pending(&self) -> (r: &[u8])
        ensures
            r@ == self@.pending,
    {
        self.pending.as_slice()
    }

    /// Takes in bytes from the server and decides what to do next.
    pub fn receive(&mut self, bytes: &[u8]) -> (a: ClientAction)
        requires
            old(self)@.wf(),
            old(self)@.phase is AwaitMethod || old(self)@.phase is AwaitReply,
        ensures
            final(self)@.wf(),
            (final(self)@, a@) == (if old(self)@.phase is AwaitMethod {
                method_step(old(self)@, old(self)@.pending + bytes@)
            } else {
                reply_step(old(self)@, old(self)@.pending + bytes@)
            }),
    {
        extend_bytes(&mut self.pending, bytes);
        if let Phase::AwaitMethod = self.phase {
            self.on_method()
        } else {
            self.on_reply()
        }
    }

    fn wait_for_more(&mut self) -> (a: ClientAction)
        ensures
            (final(self)@, a@) == client_wait(old(self)@, old(self)@.pending),
    {
        if self.pending.len() > MAX_MESSAGE_LEN {
            self.phase = Phase::Closed;
            ClientAction::Close(HandshakeError::MessageTooLarge)
        } else {
            ClientAction::ReadMore
        }
    }

    fn close(&mut self, e: HandshakeError) -> (a: ClientAction)
        ensures
            (final(self)@, a@) == client_close(old(self)@, old(self)@.pending, e),
    {
        self.phase = Phase::Closed;
        ClientAction::Close(e)
    }

    fn on_method(&mut self) -> (a: ClientAction)
        requires
            old(self)@.wf(),
            old(self)@.phase is AwaitMethod,
        ensures
            (final(self)@, a@) == method_step(old(self)@, old(self)@.pending),
    {
        match HelloResponse::decode(self.pending.as_slice()) {
            Err(DecodeError::Incomplete(_)) => self.wait_for_more(),
            Err(DecodeError::Malformed(f)) => self.close(HandshakeError::Malformed(f)),
            Ok((rest, h)) => {
                let rest = vstd::slice::slice_to_vec(rest);
                self.pending = rest;
                if h.method == AuthenticationMethod::NoAuthentication {
                    let request = crate::v5::Request {
                        command: crate::v5::Command::Connect,
                        addr: self.target.addr.clone(),
                        port: self.target.port,
                    };
                    let mut bytes: Vec<u8> = Vec::new();
                    request.encode_into(&mut bytes);
                    self.phase = Phase::AwaitReply;
                    ClientAction::Send(bytes)
                } else {
                    self.close(HandshakeError::NoAcceptableMethod)
                }
            },
        }
    }

    fn on_reply(&mut self) -> (a: ClientAction)
        ensures
            (final(self)@, a@) == reply_step(old(self)@, old(self)@.pending),
    {
        if let Version::Socks5 = self.version {
            match crate::v5::Response::decode(self.pending.as_slice()) {
                Err(DecodeError::Incomplete(_)) => self.wait_for_more(),
                Err(DecodeError::Malformed(f)) => self.close(HandshakeError::Malformed(f)),
                Ok((rest, r)) => {
                    let rest = vstd::slice::slice_to_vec(rest);
                    self.pending = rest;
                    if let crate::v5::Status::Success = r.status {
                        self.phase = Phase::Established;
                        ClientAction::Established
                    } else {
                        self.close(HandshakeError::RejectedV5(r.status))
                    }
                },
            }
        } else {
            match crate::v4::Response::decode(self.pending.as_slice()) {
                Err(DecodeError::Incomplete(_)) => self.wait_for_more(),
                Err(DecodeError::Malformed(f)) => self.close(HandshakeError::Malformed(f)),
                Ok((rest, r)) => {
                    let rest = vstd::slice::slice_to_vec(rest);
                    self.pending = rest;
                    if let crate::v4::Status::Success = r.status {
                        self.phase = Phase::Established;
                        ClientAction::Established
                    } else {
                        self.close(HandshakeError::RejectedV4(r.status))
                    }
                },
            }
        }
    }
}

} // verus!
