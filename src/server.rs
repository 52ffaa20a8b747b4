//! The decisions of a proxy server during a handshake.
//!
//! The server owns no stream: its driver reads bytes and hands them to
//! [`ServerHandshake::receive`], performs the [`ServerAction`] it gets back,
//! and reports the resolver's outcome to [`ServerHandshake::resolved`].
use vstd::prelude::*;

use crate::common::extend_bytes;
use crate::v5::{AddressType, AuthenticationMethod, HelloResponse};
use crate::{
    ConnectionRequest, ConnectionResponse, DecodeError, Destination, DestinationView,
    HandshakeError, Version, Wire,
};

verus! {

/// The most bytes buffered for one message; a longer message is refused.
pub const MAX_MESSAGE_LEN: usize = 1024;

/// Where a server handshake stands.
pub ghost enum ServerPhaseView {
    /// Nothing decoded yet: the first message decides the version.
    Greeting,
    /// SOCKS5, with the method agreed: the request is awaited.
    Request,
    /// The request is decoded: the resolver's outcome is awaited.
    Resolving { version: Version, requested: DestinationView },
    /// The response is sent: the streams are handed over.
    Established,
    /// The handshake failed.
    Closed,
}

/// The view of a server handshake: its phase and the bytes received but not
/// yet consumed.
pub ghost struct ServerView {
    pub phase: ServerPhaseView,
    pub pending: Seq<u8>,
}

impl ServerView {
    /// A SOCKS5 request awaiting its outcome can be answered.
    pub open spec fn wf(self) -> bool {
        self.phase matches ServerPhaseView::Resolving { version, requested } ==> (version
            == Version::Socks5 ==> AddressType::spec_encodable(requested.addr))
    }
}

/// The view of a server action.
pub ghost enum ServerActionView {
    ReadMore,
    Reply(Seq<u8>),
    Resolve(DestinationView),
    Established(Seq<u8>),
    Close(Seq<u8>, HandshakeError),
}

/// What the driver of a server handshake does next.
#[derive(Debug)]
pub enum ServerAction {
    /// Read more bytes from the client and pass them to `receive`.
    ReadMore,
    /// Write these bytes to the client, then call `receive` again: bytes
    /// already received may complete the next message.
    Reply(Vec<u8>),
    /// Ask the resolver to connect, then pass its outcome to `resolved`.
    Resolve(ConnectionRequest),
    /// Write these bytes to the client: the handshake succeeded, and the two
    /// streams go to the relay.
    Established(Vec<u8>),
    /// Write these bytes to the client, which may be none, and close the
    /// connection for this reason.
    Close(Vec<u8>, HandshakeError),
}

impl View for ServerAction {
    type V = ServerActionView;

    open spec fn view(&self) -> ServerActionView {
        match self {
            ServerAction::ReadMore => ServerActionView::ReadMore,
            ServerAction::Reply(b) => ServerActionView::Reply(b@),
            ServerAction::Resolve(r) => ServerActionView::Resolve(r@),
            ServerAction::Established(b) => ServerActionView::Established(b@),
            ServerAction::Close(b, e) => ServerActionView::Close(b@, *e),
        }
    }
}

/// Waits for more bytes, unless the message has grown too long.
pub open spec fn wait_for_more(phase: ServerPhaseView, data: Seq<u8>) -> (
    ServerView,
    ServerActionView,
) {
    if data.len() > MAX_MESSAGE_LEN {
        (
            ServerView { phase: ServerPhaseView::Closed, pending: data },
            ServerActionView::Close(Seq::empty(), HandshakeError::MessageTooLarge),
        )
    } else {
        (ServerView { phase, pending: data }, ServerActionView::ReadMore)
    }
}

/// Closes without a reply, because the client's message is malformed.
pub open spec fn refuse(data: Seq<u8>, field: crate::Field) -> (ServerView, ServerActionView) {
    (
        ServerView { phase: ServerPhaseView::Closed, pending: data },
        ServerActionView::Close(Seq::empty(), HandshakeError::Malformed(field)),
    )
}

/// Asks the resolver for a decoded destination.
pub open spec fn resolve(version: Version, requested: DestinationView, rest: Seq<u8>) -> (
    ServerView,
    ServerActionView,
) {
    (
        ServerView { phase: ServerPhaseView::Resolving { version, requested }, pending: rest },
        ServerActionView::Resolve(requested),
    )
}

/// The server's answer to a SOCKS5 hello: the methods decide it.
pub open spec fn hello_step(methods: Seq<AuthenticationMethod>, rest: Seq<u8>) -> (
    ServerView,
    ServerActionView,
) {
    if methods.contains(AuthenticationMethod::NoAuthentication) {
        (
            ServerView { phase: ServerPhaseView::Request, pending: rest },
            ServerActionView::Reply(
                HelloResponse::spec_encode(
                    HelloResponse { method: AuthenticationMethod::NoAuthentication },
                ),
            ),
        )
    } else {
        (
            ServerView { phase: ServerPhaseView::Closed, pending: rest },
            ServerActionView::Close(
                HelloResponse::spec_encode(
                    HelloResponse { method: AuthenticationMethod::NotAcceptable },
                ),
                HandshakeError::NoAcceptableMethod,
            ),
        )
    }
}

/// What the server does with the bytes of the first message.
pub open spec fn greeting_step(data: Seq<u8>) -> (ServerView, ServerActionView) {
    match Version::spec_decode(data) {
        Err(DecodeError::Incomplete(_)) => wait_for_more(ServerPhaseView::Greeting, data),
        Err(DecodeError::Malformed(f)) => refuse(data, f),
        Ok((_, Version::Socks5)) => match crate::v5::Hello::spec_decode(data) {
            Err(DecodeError::Incomplete(_)) => wait_for_more(ServerPhaseView::Greeting, data),
            Err(DecodeError::Malformed(f)) => refuse(data, f),
            Ok((rest, methods)) => hello_step(methods, rest),
        },
        Ok((_, Version::Socks4)) => match crate::v4::Request::spec_decode(data) {
            Err(DecodeError::Incomplete(_)) => wait_for_more(ServerPhaseView::Greeting, data),
            Err(DecodeError::Malformed(f)) => refuse(data, f),
            Ok((rest, req)) => resolve(
                Version::Socks4,
                DestinationView { addr: req.addr, port: req.port },
                rest,
            ),
        },
    }
}

/// What the server does with the bytes of a SOCKS5 request.
pub open spec fn request_step(data: Seq<u8>) -> (ServerView, ServerActionView) {
    match crate::v5::Request::spec_decode(data) {
        Err(DecodeError::Incomplete(_)) => wait_for_more(ServerPhaseView::Request, data),
        Err(DecodeError::Malformed(f)) => refuse(data, f),
        Ok((rest, req)) => resolve(
            Version::Socks5,
            DestinationView { addr: req.addr, port: req.port },
            rest,
        ),
    }
}

/// The reply that reports `status` for `d` in the client's version.
pub open spec fn reply_bytes(version: Version, d: DestinationView, status: crate::v5::Status) -> Seq<
    u8,
> {
    match version {
        Version::Socks5 => crate::v5::Response::spec_encode(
            crate::v5::ResponseView { status, addr: d.addr, port: d.port },
        ),
        Version::Socks4 => crate::v4::Response::spec_encode(
            crate::v4::ResponseView {
                status: crate::v4::status_of(status),
                addr: crate::v4::ipv4_or_unspecified(d.addr),
                port: d.port,
            },
        ),
    }
}

enum Phase {
    Greeting,
    Request,
    Resolving { version: Version, requested: Destination },
    Established,
    Closed,
}

/// The server side of one handshake.
pub struct ServerHandshake {
    phase: Phase,
    pending: Vec<u8>,
}

impl View for ServerHandshake {
    type V = ServerView;

    closed spec fn view(&self) -> ServerView {
        ServerView {
            phase: match self.phase {
                Phase::Greeting => ServerPhaseView::Greeting,
                Phase::Request => ServerPhaseView::Request,
                Phase::Resolving { version, requested } => ServerPhaseView::Resolving {
                    version,
                    requested: requested@,
                },
                Phase::Established => ServerPhaseView::Established,
                Phase::Closed => ServerPhaseView::Closed,
            },
            pending: self.pending@,
        }
    }
}

impl ServerHandshake {
    /// A handshake that has received nothing.
    pub fn new() -> (r: ServerHandshake)
        ensures
            r@ == (ServerView { phase: ServerPhaseView::Greeting, pending: Seq::empty() }),
            r@.wf(),
    {
        ServerHandshake { phase: Phase::Greeting, pending: Vec::new() }
    }

    /// The bytes received and not consumed by a message.
    pub fn pending(&self) -> (r: &[u8])
        ensures
            r@ == self@.pending,
    {
        self.pending.as_slice()
    }

    /// The version of a handshake that awaits the resolver's outcome.
    pub fn resolving_version(&self) -> (r: Option<Version>)
        ensures
            r == (match self@.phase {
                ServerPhaseView::Resolving { version, .. } => Some(version),
                _ => None,
            }),
    {
        match &self.phase {
            Phase::Resolving { version, .. } => Some(*version),
            _ => None,
        }
    }

    /// Takes in bytes from the client and decides what to do next.
    pub fn receive(&mut self, bytes: &[u8]) -> (a: ServerAction)
        requires
            old(self)@.wf(),
            old(self)@.phase is Greeting || old(self)@.phase is Request,
        ensures
            final(self)@.wf(),
            (final(self)@, a@) == (if old(self)@.phase is Greeting {
                greeting_step(old(self)@.pending + bytes@)
            } else {
                request_step(old(self)@.pending + bytes@)
            }),
    {
        extend_bytes(&mut self.pending, bytes);
        if let Phase::Greeting = self.phase {
            self.on_greeting()
        } else {
            self.on_request()
        }
    }

    fn wait_for_more(&mut self) -> (a: ServerAction)
        requires
            old(self)@.phase is Greeting || old(self)@.phase is Request,
        ensures
            (final(self)@, a@) == wait_for_more(old(self)@.phase, old(self)@.pending),
    {
        if self.pending.len() > MAX_MESSAGE_LEN {
            self.phase = Phase::Closed;
            ServerAction::Close(Vec::new(), HandshakeError::MessageTooLarge)
        } else {
            ServerAction::ReadMore
        }
    }

    fn refuse(&mut self, field: crate::Field) -> (a: ServerAction)
        ensures
            (final(self)@, a@) == refuse(old(self)@.pending, field),
    {
        self.phase = Phase::Closed;
        ServerAction::Close(Vec::new(), HandshakeError::Malformed(field))
    }

    fn on_greeting(&mut self) -> (a: ServerAction)
        requires
            old(self)@.phase is Greeting,
        ensures
            final(self)@.wf(),
            (final(self)@, a@) == greeting_step(old(self)@.pending),
    {
        match Version::decode(self.pending.as_slice()) {
            Err(DecodeError::Incomplete(_)) => self.wait_for_more(),
            Err(DecodeError::Malformed(f)) => self.refuse(f),
            Ok((_, Version::Socks5)) => match crate::v5::Hello::decode(self.pending.as_slice()) {
                Err(DecodeError::Incomplete(_)) => self.wait_for_more(),
                Err(DecodeError::Malformed(f)) => self.refuse(f),
                Ok((rest, hello)) => {
                    let rest = vstd::slice::slice_to_vec(rest);
                    self.pending = rest;
                    self.on_hello(&hello)
                },
            },
            Ok((_, Version::Socks4)) => match crate::v4::Request::decode(self.pending.as_slice()) {
                Err(DecodeError::Incomplete(_)) => self.wait_for_more(),
                Err(DecodeError::Malformed(f)) => self.refuse(f),
                Ok((rest, req)) => {
                    let rest = vstd::slice::slice_to_vec(rest);
                    self.pending = rest;
                    let requested = Destination::from((req.addr, req.port));
                    self.resolve(Version::Socks4, requested)
                },
            },
        }
    }

    fn on_hello(&mut self, hello: &crate::v5::Hello) -> (a: ServerAction)
        ensures
            (final(self)@, a@) == hello_step(hello@, old(self)@.pending),
    {
        let mut i: usize = 0;
        let mut found = false;
        while i < hello.methods.len()
            invariant
                i <= hello@.len(),
                found <==> exists|j: int|
                    0 <= j < i && hello@[j] == AuthenticationMethod::NoAuthentication,
            decreases hello@.len() - i,
        {
            if hello.methods[i] == AuthenticationMethod::NoAuthentication {
                found = true;
            }
            i = i + 1;
        }
        let mut reply: Vec<u8> = Vec::new();
        if found {
            HelloResponse { method: AuthenticationMethod::NoAuthentication }.encode_into(&mut reply);
            self.phase = Phase::Request;
            ServerAction::Reply(reply)
        } else {
            HelloResponse { method: AuthenticationMethod::NotAcceptable }.encode_into(&mut reply);
            self.phase = Phase::Closed;
            ServerAction::Close(reply, HandshakeError::NoAcceptableMethod)
        }
    }

    fn resolve(&mut self, version: Version, requested: Destination) -> (a: ServerAction)
        ensures
            (final(self)@, a@) == resolve(version, requested@, old(self)@.pending),
    {
        let request = ConnectionRequest::from(requested.clone());
        self.phase = Phase::Resolving { version, requested };
        ServerAction::Resolve(request)
    }

    fn on_request(&mut self) -> (a: ServerAction)
        requires
            old(self)@.phase is Request,
        ensures
            final(self)@.wf(),
            (final(self)@, a@) == request_step(old(self)@.pending),
    {
        proof {
            crate::request::v5::lemma_request_decoded_encodable(self.pending@);
        }
        match crate::v5::Request::decode(self.pending.as_slice()) {
            Err(DecodeError::Incomplete(_)) => self.wait_for_more(),
            Err(DecodeError::Malformed(f)) => self.refuse(f),
            Ok((rest, req)) => {
                let rest = vstd::slice::slice_to_vec(rest);
                self.pending = rest;
                let requested = Destination::from((req.addr, req.port));
                self.resolve(Version::Socks5, requested)
            },
        }
    }

    /// Takes the resolver's outcome, the destination reached or none, and
    /// gives the reply: success with the destination reached, or failure
    /// with the destination requested.
    pub fn resolved(&mut self, outcome: Option<Destination>) -> (a: ServerAction)
        requires
            old(self)@.wf(),
            old(self)@.phase is Resolving,
            outcome matches Some(d) ==> (old(self)@.phase->version == Version::Socks5
                ==> AddressType::spec_encodable(d.addr@)),
        ensures
            final(self)@.pending == old(self)@.pending,
            final(self)@.wf(),
            match outcome {
                Some(d) => final(self)@.phase is Established && a@ == ServerActionView::Established(
                    reply_bytes(old(self)@.phase->version, d@, crate::v5::Status::Success),
                ),
                None => final(self)@.phase is Closed && a@ == ServerActionView::Close(
                    reply_bytes(
                        old(self)@.phase->version,
                        old(self)@.phase->requested,
                        crate::v5::Status::GeneralFailure,
                    ),
                    HandshakeError::ConnectFailed,
                ),
            },
    {
        let mut phase = Phase::Closed;
        core::mem::swap(&mut self.phase, &mut phase);
        if let Phase::Resolving { version, requested } = phase {
            let mut reply: Vec<u8> = Vec::new();
            match outcome {
                Some(d) => {
                    encode_reply(version, d, crate::v5::Status::Success, &mut reply);
                    self.phase = Phase::Established;
                    ServerAction::Established(reply)
                },
                None => {
                    encode_reply(version, requested, crate::v5::Status::GeneralFailure, &mut reply);
                    ServerAction::Close(reply, HandshakeError::ConnectFailed)
                },
            }
        } else {
            ServerAction::ReadMore
        }
    }
}

/// Appends the reply that reports `status` for `d` in `version`.
fn encode_reply(version: Version, d: Destination, status: crate::v5::Status, buffer: &mut Vec<u8>)
    requires
        version == Version::Socks5 ==> AddressType::spec_encodable(d.addr@),
    ensures
        final(buffer)@ == old(buffer)@ + reply_bytes(version, d@, status),
{
    let outcome = ConnectionResponse { connected_to: d, status };
    match version {
        Version::Socks5 => crate::v5::Response::from(outcome).encode_into(buffer),
        Version::Socks4 => crate::v4::Response::from(outcome).encode_into(buffer),
    }
}

} // verus!
