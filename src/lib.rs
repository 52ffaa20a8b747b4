//! SOCKS4 and SOCKS5 wire messages and the handshake decisions of a proxy
//! server and client.
//!
//! Every message type implements [`Wire`]: an exact byte encoding together
//! with a decoder that never reads past its input and tells "more bytes are
//! needed" apart from "these bytes are invalid".
use vstd::prelude::*;

pub mod client;
pub mod common;
pub mod laws;
mod request;
mod response;
pub mod server;
pub mod v4;
pub mod v5;

pub use common::{
    AddressView, DecodeError, Field, HandshakeError, Ipv4Addr, Ipv6Addr, Needed, Version, Wire,
};
pub use client::{ClientAction, ClientHandshake, IntoSocksAddr};
pub use server::{ServerAction, ServerHandshake};

verus! {

/// The view of a destination.
pub ghost struct DestinationView {
    pub addr: AddressView,
    pub port: u16,
}

/// Where a connection goes, whichever version asked for it.
#[derive(Debug, PartialEq, Eq)]
pub struct Destination {
    pub addr: v5::AddressType,
    pub port: u16,
}

impl View for Destination {
    type V = DestinationView;

    open spec fn view(&self) -> DestinationView {
        DestinationView { addr: self.addr@, port: self.port }
    }
}

impl Clone for Destination {
    fn clone(&self) -> (r: Destination)
        ensures
            r@ == self@,
    {
        Destination { addr: self.addr.clone(), port: self.port }
    }
}

impl From<(v5::AddressType, u16)> for Destination {
    fn from(value: (v5::AddressType, u16)) -> (r: Destination) {
        Destination { addr: value.0, port: value.1 }
    }
}

impl vstd::std_specs::convert::FromSpecImpl<(v5::AddressType, u16)> for Destination {
    open spec fn obeys_from_spec() -> bool {
        true
    }

    open spec fn from_spec(v: (v5::AddressType, u16)) -> Destination {
        Destination { addr: v.0, port: v.1 }
    }
}

impl From<(v4::AddressType, u16)> for Destination {
    fn from(value: (v4::AddressType, u16)) -> (r: Destination) {
        Destination { addr: v5::AddressType::from(value.0), port: value.1 }
    }
}

impl vstd::std_specs::convert::FromSpecImpl<(v4::AddressType, u16)> for Destination {
    open spec fn obeys_from_spec() -> bool {
        true
    }

    open spec fn from_spec(v: (v4::AddressType, u16)) -> Destination {
        Destination { addr: v5::widened(v.0), port: v.1 }
    }
}

/// What the server asks its resolver to connect to.
#[derive(Debug, PartialEq, Eq)]
pub struct ConnectionRequest {
    pub destination: Destination,
}

impl Clone for ConnectionRequest {
    fn clone(&self) -> (r: ConnectionRequest)
        ensures
            r@ == self@,
    {
        ConnectionRequest { destination: self.destination.clone() }
    }
}

impl View for ConnectionRequest {
    type V = DestinationView;

    open spec fn view(&self) -> DestinationView {
        self.destination@
    }
}

impl From<Destination> for ConnectionRequest {
    fn from(value: Destination) -> (r: ConnectionRequest) {
        ConnectionRequest { destination: value }
    }
}

impl vstd::std_specs::convert::FromSpecImpl<Destination> for ConnectionRequest {
    open spec fn obeys_from_spec() -> bool {
        true
    }

    open spec fn from_spec(v: Destination) -> ConnectionRequest {
        ConnectionRequest { destination: v }
    }
}

/// Where a connection went, and the status to report for it.
#[derive(Debug, PartialEq, Eq)]
pub struct ConnectionResponse {
    pub connected_to: Destination,
    pub status: v5::Status,
}

} // verus!
