//! Pluggable byte-codec capability: packing the envelopes into payload
//! bytes and back.

/// The canonical-mode JSON packer.
pub mod json;

/// The compact-mode JSON packer.
pub mod compact;

pub use compact::Packer as Compact;
pub use json::Packer as Json;

use vstd::prelude::*;

use crate::request::InvalidRequest;
use crate::request::Request;
use crate::response::Response;
use crate::wire;
use crate::Mode;

verus! {

/// A byte codec for the message model.  Every implementation encodes the
/// envelopes as the wire form of its mode; packing may fail (the error
/// carries a human-readable description only), and a format whose packing
/// is total says so through `pack_total`.
pub trait DataFormat {
    /// The encoding mode this format uses on the wire.
    spec fn spec_mode() -> Mode;

    /// Whether packing succeeds on every envelope.
    spec fn pack_total() -> bool;

    /// The encoding mode, as a value.
    fn mode() -> (m: Mode)
        ensures
            m == Self::spec_mode(),
    ;

    /// Pack a request into payload bytes.
    fn pack_request(r: &Request) -> (res: Result<Vec<u8>, String>)
        ensures
            res matches Ok(b) ==> b@ == wire::req_enc(r@, Self::spec_mode()),
            Self::pack_total() ==> res is Ok,
    ;

    /// Unpack payload bytes into a request.
    fn unpack_request(b: &[u8]) -> (res: Result<Request, String>)
        ensures
            match res {
                Ok(r) => wire::req_dec(b@, Self::spec_mode()) == Some(r@) && r@.wf(),
                Err(_) => wire::req_dec(b@, Self::spec_mode()) is None,
            },
    ;

    /// Pack a response into payload bytes.
    fn pack_response(r: &Response) -> (res: Result<Vec<u8>, String>)
        ensures
            res matches Ok(b) ==> b@ == wire::resp_enc(r@, Self::spec_mode()),
            Self::pack_total() ==> res is Ok,
    ;

    /// Unpack payload bytes into a response.
    fn unpack_response(b: &[u8]) -> (res: Result<Response, String>)
        ensures
            match res {
                Ok(r) => wire::resp_dec(b@, Self::spec_mode()) == Some(r@) && r@.wf(),
                Err(_) => wire::resp_dec(b@, Self::spec_mode()) is None,
            },
    ;

    /// Unpack the minimal recovery shape out of payload bytes.
    fn unpack_invalid(b: &[u8]) -> (res: Option<InvalidRequest>)
        ensures
            match res {
                Some(inv) => wire::inv_dec(b@, Self::spec_mode()) == Some(inv@),
                None => wire::inv_dec(b@, Self::spec_mode()) is None,
            },
    ;
}

} // verus!
