//! The server dispatcher: decodes a payload into a request, invokes the
//! handler, encodes the outcome, and recovers from undecodable input by a
//! minimal partial decode that preserves the caller's identifier.

use vstd::prelude::*;

use crate::dataformat::DataFormat;
use crate::request::Method;
use crate::request::Request;
use crate::response::lemma_outcome_norm;
use crate::response::HandlerResponse;
use crate::response::HandlerResponseV;
use crate::response::Response;
use crate::response::ResponseV;
use crate::value::Value;
use crate::value::ValueV;
use crate::version_marker;
use crate::version_mismatch_msg;
use crate::wire;
use crate::Id;
use crate::Mode;
use crate::RpcError;
use crate::RpcErrorKind;
use crate::RpcErrorV;
use crate::RpcResult;

verus! {

/// The handler capability: one required operation, polymorphic in nothing
/// but its implementor.  `source` is a descriptor of where the call came
/// from (peer address, connection tag), passed through untouched.
pub trait RpcServerHandler {
    /// Handle one decoded call and return its outcome.
    fn handle_call(&self, method: Method, source: &str) -> RpcResult<Value>;
}

/// The dispatch decision: a request with no identifier is never answered;
/// one with an identifier is answered by a response carrying that
/// identifier and the handler's outcome.
pub open spec fn sp_dispatch(id: Option<ValueV>, outcome: HandlerResponseV) -> Option<ResponseV> {
    match id {
        None => None,
        Some(i) => Some(ResponseV { id: i, outcome }),
    }
}

/// Build the response owed for a handler outcome, if any: nothing for a
/// fire-and-forget call, otherwise a response echoing the identifier.
pub fn dispatch_outcome(id: Option<Id>, outcome: RpcResult<Value>) -> (r: Option<Response>)
    ensures
        match r {
            Some(resp) => {
                &&& id is Some
                &&& sp_dispatch(
                    Some(id->Some_0@),
                    crate::response::spec_outcome_of(outcome),
                ) == Some(resp@)
            },
            None => id is None,
        },
{
    match id {
        None => None,
        Some(i) => Some(Response::from_handler_response(i, HandlerResponse::from_result(outcome))),
    }
}

/// Law: a request with no identifier is never answered, whatever the
/// handler's outcome.
pub proof fn lemma_dispatch_fire_and_forget(outcome: HandlerResponseV)
    ensures
        sp_dispatch(None, outcome) is None,
{
}

/// Law: a request with an identifier, when the handler returns data, is
/// answered by a response whose outcome carries exactly that data and
/// whose identifier equals the request's.
pub proof fn lemma_dispatch_success(id: ValueV, v: ValueV)
    ensures
        sp_dispatch(Some(id), HandlerResponseV::Data(v)) == Some(
            ResponseV { id, outcome: HandlerResponseV::Data(v) },
        ),
{
}

/// Law: a request with an identifier, when the handler returns an error,
/// is answered by a response carrying exactly that error under the same
/// identifier.
pub proof fn lemma_dispatch_error(id: ValueV, e: RpcErrorV)
    ensures
        sp_dispatch(Some(id), HandlerResponseV::Error(e)) == Some(
            ResponseV { id, outcome: HandlerResponseV::Error(e) },
        ),
{
}

/// Law: the response owed for a handler outcome in canonical form reaches
/// the caller intact: encoded and decoded again, it carries exactly that
/// outcome under the request's identifier, in either mode.
pub proof fn lemma_dispatch_roundtrip(id: ValueV, outcome: HandlerResponseV, mode: Mode)
    requires
        id.wf(),
        outcome.wf(),
    ensures
        sp_dispatch(Some(id), outcome) == Some(ResponseV { id, outcome }),
        wire::resp_dec(wire::resp_enc(ResponseV { id, outcome }, mode), mode) == Some(
            ResponseV { id, outcome },
        ),
{
    wire::lemma_response_roundtrip(ResponseV { id, outcome }, mode);
}

/// The error kind of the recovery response: with a correct marker the
/// method was unrecognized; with a wrong or absent marker the request was
/// invalid; compact mode has no marker and always reports an unrecognized
/// method.
pub open spec fn recovery_kind(inv: crate::request::InvalidRequestV, mode: Mode) -> RpcErrorKind {
    if mode == Mode::Canonical {
        match inv.jsonrpc {
            Some(m) => if m == version_marker() {
                RpcErrorKind::MethodNotFound
            } else {
                RpcErrorKind::InvalidRequest
            },
            None => RpcErrorKind::InvalidRequest,
        }
    } else {
        RpcErrorKind::MethodNotFound
    }
}

/// JSON RPC server: wraps a handler and dispatches inbound payloads to it.
pub struct RpcServer<RPC: RpcServerHandler> {
    rpc: RPC,
}

impl<RPC: RpcServerHandler> RpcServer<RPC> {
    /// Create a new JSON RPC server around a handler.
    pub fn new(rpc: RPC) -> Self {
        RpcServer { rpc }
    }

    /// Handle a decoded request: invoke the handler, then answer with its
    /// outcome — unless the request carried no identifier, in which case
    /// nothing is produced, whatever the handler returned.
    pub fn handle_request(&self, request: Request, source: &str) -> (r: Option<Response>)
        ensures
            (r is Some) == (request@.id is Some),
            r matches Some(resp) ==> resp@.id == request@.id->Some_0,
    {
        let (id, method) = request.into_parts();
        let result = self.rpc.handle_call(method, source);
        dispatch_outcome(id, result)
    }

    /// Handle an inbound payload: decode it as a request, dispatch it, and
    /// encode the response.  An undecodable payload is answered through the
    /// recovery decode when an identifier is recoverable, and silently
    /// dropped otherwise.
    pub fn handle_request_payload<D: DataFormat>(&self, payload: &[u8], source: &str) -> (r: Option<
        Vec<u8>,
    >)
        ensures
            match wire::req_dec(payload@, D::spec_mode()) {
                Some(rv) => match rv.id {
                    None => r is None,
                    Some(idv) => {
                        &&& match r {
                            Some(b) => match wire::resp_dec(b@, D::spec_mode()) {
                                Some(out) => out.id == idv,
                                None => false,
                            },
                            None => true,
                        }
                        &&& (D::pack_total() ==> r is Some)
                    },
                },
                None => match wire::inv_dec(payload@, D::spec_mode()) {
                    None => r is None,
                    Some(inv) => match inv.id {
                        None => r is None,
                        Some(idv) => D::pack_total() ==> match r {
                            Some(b) => match wire::resp_dec(b@, D::spec_mode()) {
                                Some(out) => out.id == idv && match out.outcome {
                                    HandlerResponseV::Error(e) => {
                                        &&& e.kind == recovery_kind(inv, D::spec_mode())
                                        &&& (D::spec_mode() == Mode::Canonical
                                            ==> match inv.jsonrpc {
                                            Some(m) => m != version_marker()
                                                ==> e.message == Some(version_mismatch_msg()),
                                            None => e.message is None,
                                        })
                                    },
                                    _ => false,
                                },
                                None => false,
                            },
                            None => false,
                        },
                    },
                },
            },
    {
        match D::unpack_request(payload) {
            Ok(req) => {
                match self.handle_request(req, source) {
                    None => None,
                    Some(resp) => {
                        let (id, outcome) = resp.into_parts();
                        let outcome = norm_outcome(outcome);
                        let resp = Response::from_handler_response(id, outcome);
                        proof {
                            lemma_outcome_norm(resp@.outcome);
                        }
                        serialize_response::<D>(resp)
                    },
                }
            },
            Err(error) => {
                match D::unpack_invalid(payload) {
                    Some(inv) => {
                        proof {
                            wire::lemma_inv_dec_wf(payload@, D::spec_mode());
                        }
                        match inv.into_response(error, D::mode()) {
                            Some(resp) => {
                                proof {
                                    assert(resp@.wf());
                                    wire::lemma_response_roundtrip(resp@, D::spec_mode());
                                }
                                serialize_response::<D>(resp)
                            },
                            None => None,
                        }
                    },
                    None => None,
                }
            },
        }
    }
}

/// Replace a handler outcome with its canonical form; the wire text of the
/// two is the same.
fn norm_outcome(o: HandlerResponse) -> (r: HandlerResponse)
    ensures
        r@ == o@.norm(),
{
    match o {
        HandlerResponse::Data(v) => HandlerResponse::Data(norm_value(v)),
        HandlerResponse::Error(e) => {
            let code: i16 = i16::from(e.kind);
            let kind = RpcErrorKind::from(code);
            HandlerResponse::Error(
                match e.message {
                    Some(m) => RpcError::new(kind, m),
                    None => RpcError::new0(kind),
                },
            )
        },
    }
}

/// Replace a scalar with its canonical form; the wire text of the two is
/// the same.
fn norm_value(v: Value) -> (r: Value)
    ensures
        r@ == v@.norm(),
{
    match v {
        Value::Int(n) => {
            if n >= 0 {
                Value::UInt(n as u64)
            } else {
                Value::Int(n)
            }
        },
        _ => v,
    }
}

/// Encode a response; when encoding fails, substitute a response that
/// carries the encoder's error as an internal error under the same
/// identifier and encode that instead.  When the substitute cannot be
/// encoded either, nothing is produced.
fn serialize_response<D: DataFormat>(resp: Response) -> (r: Option<Vec<u8>>)
    requires
        resp@.wf(),
    ensures
        D::pack_total() ==> match r {
            Some(b) => b@ == wire::resp_enc(resp@, D::spec_mode()),
            None => false,
        },
        match r {
            Some(b) => match wire::resp_dec(b@, D::spec_mode()) {
                Some(out) => out.id == resp@.id && (out == resp@ || match out.outcome {
                    HandlerResponseV::Error(e) => e.kind == RpcErrorKind::InternalError,
                    _ => false,
                }),
                None => false,
            },
            None => true,
        },
{
    proof {
        wire::lemma_response_roundtrip(resp@, D::spec_mode());
    }
    match D::pack_response(&resp) {
        Ok(b) => Some(b),
        Err(error) => {
            let (id, _) = resp.into_parts();
            let fallback = Response::from_server_error(id, error);
            proof {
                wire::lemma_response_roundtrip(fallback@, D::spec_mode());
            }
            match D::pack_response(&fallback) {
                Ok(b) => Some(b),
                Err(_) => None,
            }
        },
    }
}

} // verus!
