//! The client correlator: allocates call identifiers, builds and encodes
//! requests, and matches inbound responses back to the issuing call.

use core::marker::PhantomData;

use vstd::prelude::*;
use vstd::string::StringExecFns;

use crate::dataformat::DataFormat;
use crate::request::Method;
use crate::request::Request;
use crate::request::RequestV;
use crate::response::HandlerResponseV;
use crate::value::Value;
use crate::value::ValueV;
use crate::wire;
use crate::RpcError;
use crate::RpcErrorKind;
use crate::RpcErrorV;
use crate::RpcResult;

verus! {

/// The next identifier after `n`: the counter wraps at the width of the
/// type.
pub open spec fn next_call_id(n: u32) -> u32 {
    if n == u32::MAX {
        0
    } else {
        (n + 1) as u32
    }
}

/// RPC client: creates RPC requests and handles RPC responses; call
/// identifiers are `u32`, allocated from a monotonically increasing,
/// wrapping counter.
#[derive(Debug)]
pub struct RpcClient<D: DataFormat> {
    /// The identifier handed to the next call that expects a response.
    pub request_id: u32,
    /// Binds the data format at the type level; no runtime state.
    pub _format: PhantomData<D>,
}

impl<D: DataFormat> RpcClient<D> {
    /// Create a new RPC client, with its identifier counter at zero.
    pub fn new() -> (r: Self)
        ensures
            r.request_id == 0,
    {
        RpcClient { request_id: 0, _format: PhantomData }
    }

    /// Create a new RPC request: allocate the next identifier, build the
    /// envelope and encode it.  The counter advances even when encoding
    /// fails.
    pub fn request(&mut self, method: Method) -> (res: Result<RpcClientRequest<D>, String>)
        ensures
            final(self).request_id == next_call_id(old(self).request_id),
            res matches Ok(req) ==> {
                &&& req.id == Some(old(self).request_id)
                &&& req.payload@ == wire::req_enc(
                    RequestV { id: Some(ValueV::UInt(old(self).request_id as u64)), method: method@ },
                    D::spec_mode(),
                )
            },
            D::pack_total() ==> res is Ok,
    {
        let id = self.request_id;
        self.request_id = if self.request_id == u32::MAX {
            0
        } else {
            self.request_id + 1
        };
        let req = Request::new(Value::UInt(id as u64), method);
        match D::pack_request(&req) {
            Ok(payload) => Ok(RpcClientRequest::new(Some(id), payload)),
            Err(e) => Err(e),
        }
    }

    /// Create a new RPC request with no identifier: no response is expected
    /// and the counter does not move.
    pub fn request0(&self, method: Method) -> (res: Result<RpcClientRequest<D>, String>)
        ensures
            res matches Ok(req) ==> {
                &&& req.id is None
                &&& req.payload@ == wire::req_enc(
                    RequestV { id: None, method: method@ },
                    D::spec_mode(),
                )
            },
            D::pack_total() ==> res is Ok,
    {
        let req = Request::new0(method);
        match D::pack_request(&req) {
            Ok(payload) => Ok(RpcClientRequest::new(None, payload)),
            Err(e) => Err(e),
        }
    }
}

/// One in-flight RPC call: the identifier it was issued under and the
/// encoded request payload.
#[derive(Debug)]
pub struct RpcClientRequest<D: DataFormat> {
    /// The call identifier; absent for fire-and-forget calls.
    pub id: Option<u32>,
    /// The encoded request payload.
    pub payload: Vec<u8>,
    /// Binds the data format at the type level; no runtime state.
    pub _format: PhantomData<D>,
}

impl<D: DataFormat> RpcClientRequest<D> {
    /// Create an in-flight call record from its identifier and payload.
    pub fn new(id: Option<u32>, payload: Vec<u8>) -> (r: Self)
        ensures
            r.id == id,
            r.payload@ == payload@,
    {
        RpcClientRequest { id, payload, _format: PhantomData }
    }

    /// The encoded request payload.
    pub fn payload(&self) -> (r: &[u8])
        ensures
            r@ == self.payload@,
    {
        self.payload.as_slice()
    }

    /// Take ownership of the encoded request payload, leaving the record
    /// empty.
    pub fn take_payload(&mut self) -> (r: Vec<u8>)
        ensures
            r@ == old(self).payload@,
            final(self).payload@ == Seq::<u8>::empty(),
            final(self).id == old(self).id,
    {
        let mut p: Vec<u8> = Vec::new();
        core::mem::swap(&mut p, &mut self.payload);
        p
    }

    /// Handle the response payload for this call.
    ///
    /// A call issued with no identifier expects no reply, so any payload
    /// fails with `InvalidRequest`.  Otherwise the payload is decoded as a
    /// response (failure: `ParseError` carrying the codec's message), its
    /// identifier is checked against the call's own (mismatch:
    /// `InvalidRequest` with a fixed message), and the outcome is unwrapped
    /// into the ordinary result form.
    pub fn handle_response(&self, response_payload: &[u8]) -> (res: RpcResult<Value>)
        ensures
            match self.id {
                None => res matches Err(e) && e@ == (RpcErrorV {
                    kind: RpcErrorKind::InvalidRequest,
                    message: Some("request ID is missing"@),
                }),
                Some(n) => match wire::resp_dec(response_payload@, D::spec_mode()) {
                    None => res matches Err(e) && e@.kind == RpcErrorKind::ParseError
                        && e@.message is Some,
                    Some(resp) => if resp.id != ValueV::UInt(n as u64) {
                        res matches Err(e) && e@ == (RpcErrorV {
                            kind: RpcErrorKind::InvalidRequest,
                            message: Some("response ID does not match request ID"@),
                        })
                    } else {
                        match resp.outcome {
                            HandlerResponseV::Data(v) => res matches Ok(x) && x@ == v,
                            HandlerResponseV::Error(e) => res matches Err(x) && x@ == e,
                        }
                    },
                },
            },
    {
        let n = match self.id {
            Some(n) => n,
            None => {
                return Err(
                    RpcError::new(
                        RpcErrorKind::InvalidRequest,
                        String::from_str("request ID is missing"),
                    ),
                );
            },
        };
        let resp = match D::unpack_response(response_payload) {
            Ok(r) => r,
            Err(e) => {
                return Err(RpcError::new(RpcErrorKind::ParseError, e));
            },
        };
        let (rid, outcome) = resp.into_parts();
        let expected = Value::UInt(n as u64);
        if !(rid == expected) {
            return Err(
                RpcError::new(
                    RpcErrorKind::InvalidRequest,
                    String::from_str("response ID does not match request ID"),
                ),
            );
        }
        outcome.into_result()
    }
}

} // verus!
