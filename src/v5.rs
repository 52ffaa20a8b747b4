//! SOCKS5: its messages, and how they relate to the version-agnostic
//! records.
use vstd::prelude::*;

pub use crate::common::v5::address_type::tagged;
pub use crate::common::v5::{AddressType, AuthenticationMethod, Command};
pub use crate::common::Version;
pub use crate::request::v5::{method_bytes, methods_of, Hello, Request, RequestView};
pub use crate::response::v5::{Hello as HelloResponse, Response, ResponseView, Status};

verus! {

/// The SOCKS5 address that a SOCKS4 address stands for.
pub open spec fn widened(a: crate::v4::AddressType) -> AddressType {
    match a {
        crate::v4::AddressType::IPv4(x) => AddressType::IPv4(x),
        crate::v4::AddressType::DomainName(n) => AddressType::DomainName(n),
    }
}

impl From<crate::v4::AddressType> for AddressType {
    fn from(value: crate::v4::AddressType) -> (r: AddressType) {
        match value {
            crate::v4::AddressType::IPv4(x) => AddressType::IPv4(x),
            crate::v4::AddressType::DomainName(n) => AddressType::DomainName(n),
        }
    }
}

impl vstd::std_specs::convert::FromSpecImpl<crate::v4::AddressType> for AddressType {
    open spec fn obeys_from_spec() -> bool {
        true
    }

    open spec fn from_spec(v: crate::v4::AddressType) -> AddressType {
        widened(v)
    }
}

impl From<Request> for crate::ConnectionRequest {
    fn from(value: Request) -> (r: crate::ConnectionRequest) {
        crate::ConnectionRequest { destination: crate::Destination { addr: value.addr, port: value.port } }
    }
}

impl vstd::std_specs::convert::FromSpecImpl<Request> for crate::ConnectionRequest {
    open spec fn obeys_from_spec() -> bool {
        true
    }

    open spec fn from_spec(v: Request) -> crate::ConnectionRequest {
        crate::ConnectionRequest { destination: crate::Destination { addr: v.addr, port: v.port } }
    }
}

impl From<crate::ConnectionResponse> for Response {
    fn from(value: crate::ConnectionResponse) -> (r: Response) {
        Response { status: value.status, addr: value.connected_to.addr, port: value.connected_to.port }
    }
}

impl vstd::std_specs::convert::FromSpecImpl<crate::ConnectionResponse> for Response {
    open spec fn obeys_from_spec() -> bool {
        true
    }

    open spec fn from_spec(v: crate::ConnectionResponse) -> Response {
        Response { status: v.status, addr: v.connected_to.addr, port: v.connected_to.port }
    }
}

} // verus!
