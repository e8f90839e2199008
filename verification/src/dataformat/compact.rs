//! The compact-mode packer: single-letter wire tagging without a version marker.

use vstd::prelude::*;

use super::DataFormat;
use crate::request::InvalidRequest;
use crate::request::Request;
use crate::response::Response;
use crate::wire;
use crate::Mode;

verus! {

/// Compact-mode JSON data format packer.
#[derive(Debug)]
pub struct Packer;

impl DataFormat for Packer {
    open spec fn spec_mode() -> Mode {
        Mode::Compact
    }

    open spec fn pack_total() -> bool {
        true
    }

    fn mode() -> (m: Mode) {
        Mode::Compact
    }

    fn pack_request(r: &Request) -> (res: Result<Vec<u8>, String>) {
        Ok(wire::encode_request(r, Mode::Compact))
    }

    fn unpack_request(b: &[u8]) -> (res: Result<Request, String>) {
        wire::decode_request(b, Mode::Compact)
    }

    fn pack_response(r: &Response) -> (res: Result<Vec<u8>, String>) {
        Ok(wire::encode_response(r, Mode::Compact))
    }

    fn unpack_response(b: &[u8]) -> (res: Result<Response, String>) {
        wire::decode_response(b, Mode::Compact)
    }

    fn unpack_invalid(b: &[u8]) -> (res: Option<InvalidRequest>) {
        wire::decode_invalid(b, Mode::Compact)
    }
}

} // verus!
