//! SOCKS4: its messages, and how they relate to the version-agnostic
//! records.
use vstd::prelude::*;

pub use crate::common::v4::{AddressType, Command};
pub use crate::common::Version;
pub use crate::request::v4::{
    decode_string, encode_string, is_domain_marker, optional_view, parse_string, string_bytes,
    string_valid, text_valid, Request, RequestView,
};
pub use crate::response::v4::{Response, ResponseView, Status};

use crate::common::{AddressView, Ipv4Addr};

verus! {

/// The IPv4 octets of an address, or 0.0.0.0 for one that is not IPv4.
pub open spec fn ipv4_or_unspecified(a: AddressView) -> Seq<u8> {
    match a {
        AddressView::IPv4(o) => o,
        _ => seq![0u8, 0u8, 0u8, 0u8],
    }
}

/// The SOCKS4 status for a SOCKS5 one: success stays success, anything else
/// is a rejection.
pub open spec fn status_of(s: crate::v5::Status) -> Status {
    if s is Success {
        Status::Success
    } else {
        Status::Rejected
    }
}

impl From<Request> for crate::ConnectionRequest {
    fn from(value: Request) -> (r: crate::ConnectionRequest) {
        let addr = match value.addr {
            AddressType::IPv4(a) => crate::v5::AddressType::IPv4(a),
            AddressType::DomainName(n) => crate::v5::AddressType::DomainName(n),
        };
        crate::ConnectionRequest { destination: crate::Destination { addr, port: value.port } }
    }
}

impl vstd::std_specs::convert::FromSpecImpl<Request> for crate::ConnectionRequest {
    open spec fn obeys_from_spec() -> bool {
        true
    }

    open spec fn from_spec(v: Request) -> crate::ConnectionRequest {
        crate::ConnectionRequest {
            destination: crate::Destination { addr: crate::v5::widened(v.addr), port: v.port },
        }
    }
}

impl From<crate::ConnectionResponse> for Response {
    fn from(value: crate::ConnectionResponse) -> (r: Response) {
        let addr = match &value.connected_to.addr {
            crate::v5::AddressType::IPv4(a) => *a,
            _ => Ipv4Addr { octets: [0u8, 0u8, 0u8, 0u8] },
        };
        let status = match value.status {
            crate::v5::Status::Success => Status::Success,
            _ => Status::Rejected,
        };
        Response { status, addr, port: value.connected_to.port }
    }
}

impl vstd::std_specs::convert::FromSpecImpl<crate::ConnectionResponse> for Response {
    open spec fn obeys_from_spec() -> bool {
        true
    }

    open spec fn from_spec(v: crate::ConnectionResponse) -> Response {
        Response {
            status: status_of(v.status),
            addr: match v.connected_to.addr {
                crate::v5::AddressType::IPv4(a) => a,
                _ => Ipv4Addr { octets: [0u8, 0u8, 0u8, 0u8] },
            },
            port: v.connected_to.port,
        }
    }
}

} // verus!
