//! The canonical-mode packer: strict JSON-RPC 2.0 wire tagging.

use vstd::prelude::*;

use super::DataFormat;
use crate::request::InvalidRequest;
use crate::request::Request;
use crate::response::Response;
use crate::wire;
use crate::Mode;

verus! {

/// Canonical-mode JSON data format packer.
#[derive(Debug)]
pub struct Packer;

impl DataFormat for Packer {
    open spec fn spec_mode() -> Mode {
        Mode::Canonical
    }

    open spec fn pack_total() -> bool {
        true
    }

    fn mode() -> (m: Mode) {
        Mode::Canonical
    }

    fn pack_request(r: &Request) -> (res: Result<Vec<u8>, String>) {
        Ok(wire::encode_request(r, Mode::Canonical))
    }

    fn unpack_request(b: &[u8]) -> (res: Result<Request, String>) {
        wire::decode_request(b, Mode::Canonical)
    }

    fn pack_response(r: &Response) -> (res: Result<Vec<u8>, String>) {
        Ok(wire::encode_response(r, Mode::Canonical))
    }

    fn unpack_response(b: &[u8]) -> (res: Result<Response, String>) {
        wire::decode_response(b, Mode::Canonical)
    }

    fn unpack_invalid(b: &[u8]) -> (res: Option<InvalidRequest>) {
        wire::decode_invalid(b, Mode::Canonical)
    }
}

} // verus!
