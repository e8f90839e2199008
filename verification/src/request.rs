//! The request envelope: an optional call identifier and a method, and the
//! minimal shape used to answer payloads that could not be decoded.

use vstd::prelude::*;
use vstd::string::StringExecFns;

use crate::response::HandlerResponse;
use crate::response::HandlerResponseV;
use crate::response::Response;
use crate::response::ResponseV;
use crate::value::Value;
use crate::value::ValueV;
use crate::Id;
use crate::Mode;
use crate::RpcError;
use crate::RpcErrorKind;
use crate::RpcErrorV;
use crate::version_marker;
use crate::version_mismatch_msg;

verus! {

/// An application method call: a method tag and named scalar parameters.
#[derive(Debug)]
pub struct Method {
    /// The method tag.
    pub name: String,
    /// The named parameters, in wire order.
    pub params: Vec<(String, Value)>,
}

/// Mathematical model of a [`Method`].
pub struct MethodV {
    /// The method tag.
    pub name: Seq<char>,
    /// The named parameters, in wire order.
    pub params: Seq<(Seq<char>, ValueV)>,
}

impl View for Method {
    type V = MethodV;

    open spec fn view(&self) -> MethodV {
        MethodV {
            name: self.name@,
            params: self.params@.map_values(|p: (String, Value)| (p.0@, p.1@)),
        }
    }
}

impl MethodV {
    /// A method is in canonical form when all its parameter values are.
    pub open spec fn wf(self) -> bool {
        forall|k: int| 0 <= k < self.params.len() ==> (#[trigger] self.params[k].1).wf()
    }
}

impl Method {
    /// Create a method call from its tag and named parameters.
    pub fn new(name: String, params: Vec<(String, Value)>) -> (r: Method)
        ensures
            r@.name == name@,
            r@.params == params@.map_values(|p: (String, Value)| (p.0@, p.1@)),
    {
        Method { name, params }
    }
}

/// JSON-RPC request envelope.
#[derive(Debug)]
pub struct Request {
    /// The call identifier; absent for fire-and-forget calls.
    pub id: Option<Id>,
    /// The method being called.
    pub method: Method,
}

/// Mathematical model of a [`Request`].
pub struct RequestV {
    /// The call identifier; absent for fire-and-forget calls.
    pub id: Option<ValueV>,
    /// The method being called.
    pub method: MethodV,
}

impl View for Request {
    type V = RequestV;

    open spec fn view(&self) -> RequestV {
        RequestV {
            id: match self.id {
                Some(v) => Some(v@),
                None => None,
            },
            method: self.method@,
        }
    }
}

impl RequestV {
    /// A request is in canonical form when its method is, and its
    /// identifier, if present, is a canonical non-null scalar.  (An
    /// identifier of `null` is indistinguishable on the wire from an absent
    /// one.)
    pub open spec fn wf(self) -> bool {
        &&& self.method.wf()
        &&& match self.id {
            Some(v) => v.wf() && v != ValueV::Null,
            None => true,
        }
    }
}

impl Request {
    /// Create a request with no identifier; no response is expected and the
    /// dispatcher never answers it.
    pub fn new0(method: Method) -> (r: Request)
        ensures
            r@ == (RequestV { id: None::<ValueV>, method: method@ }),
    {
        Request { id: None, method }
    }

    /// Create a request with the given identifier and method.
    pub fn new(id: Id, method: Method) -> (r: Request)
        ensures
            r@ == (RequestV { id: Some(id@), method: method@ }),
    {
        Request { id: Some(id), method }
    }

    /// Split the request into its parts.
    pub fn into_parts(self) -> (r: (Option<Id>, Method))
        ensures
            match r.0 {
                Some(v) => self@.id == Some(v@),
                None => self@.id is None,
            },
            r.1@ == self@.method,
    {
        (self.id, self.method)
    }

    /// Combine the parts into a request.
    pub fn from_parts(id: Option<Id>, method: Method) -> (r: Request)
        ensures
            r@.method == method@,
            match id {
                Some(v) => r@.id == Some(v@),
                None => r@.id is None,
            },
    {
        Request { id, method }
    }
}

/// The minimal shape read out of a payload that could not be decoded as a
/// request: the optional protocol-version marker and the optional call
/// identifier, everything else ignored.
#[derive(Debug)]
pub struct InvalidRequest {
    /// The protocol-version marker, if one was present.
    pub jsonrpc: Option<String>,
    /// The call identifier, if one was recoverable.
    pub id: Option<Id>,
}

/// Mathematical model of an [`InvalidRequest`].
pub struct InvalidRequestV {
    /// The protocol-version marker, if one was present.
    pub jsonrpc: Option<Seq<char>>,
    /// The call identifier, if one was recoverable.
    pub id: Option<ValueV>,
}

impl View for InvalidRequest {
    type V = InvalidRequestV;

    open spec fn view(&self) -> InvalidRequestV {
        InvalidRequestV {
            jsonrpc: match self.jsonrpc {
                Some(m) => Some(m@),
                None => None,
            },
            id: match self.id {
                Some(v) => Some(v@),
                None => None,
            },
        }
    }
}

/// The error response owed to a payload that could not be decoded.
///
/// With no recoverable identifier there is nothing to answer.  Otherwise,
/// in canonical mode: a correct protocol-version marker means the request
/// was structurally sound but its method was unrecognized or malformed
/// (`MethodNotFound`, carrying the decode error); a wrong marker means the
/// request was invalid (`InvalidRequest`, carrying the fixed
/// version-mismatch message); an absent marker means an invalid request
/// with no message.  In compact mode there is no marker and the error is
/// always `MethodNotFound` with the decode error.
pub open spec fn spec_recovery_response(inv: InvalidRequestV, error: Seq<char>, mode: Mode) -> Option<
    ResponseV,
> {
    match inv.id {
        None => None,
        Some(id) => {
            let e = if mode == Mode::Canonical {
                match inv.jsonrpc {
                    Some(m) => if m == version_marker() {
                        RpcErrorV { kind: RpcErrorKind::MethodNotFound, message: Some(error) }
                    } else {
                        RpcErrorV {
                            kind: RpcErrorKind::InvalidRequest,
                            message: Some(version_mismatch_msg()),
                        }
                    },
                    None => RpcErrorV {
                        kind: RpcErrorKind::InvalidRequest,
                        message: None,
                    },
                }
            } else {
                RpcErrorV { kind: RpcErrorKind::MethodNotFound, message: Some(error) }
            };
            Some(ResponseV { id, outcome: HandlerResponseV::Error(e) })
        },
    }
}

impl InvalidRequest {
    /// Convert the recovered shape into the error response owed to the
    /// sender, if an identifier was recoverable.
    pub fn into_response(self, error: String, mode: Mode) -> (r: Option<Response>)
        ensures
            match r {
                Some(resp) => spec_recovery_response(self@, error@, mode) == Some(resp@),
                None => spec_recovery_response(self@, error@, mode) is None,
            },
    {
        match self.id {
            None => None,
            Some(id) => {
                let e: RpcError = if mode == Mode::Canonical {
                    match &self.jsonrpc {
                        Some(m) => {
                            let marker = String::from_str("2.0");
                            if *m == marker {
                                RpcError::new(RpcErrorKind::MethodNotFound, error)
                            } else {
                                RpcError::new(
                                    RpcErrorKind::InvalidRequest,
                                    "Invalid protocol version".to_owned(),
                                )
                            }
                        },
                        None => RpcError::new0(RpcErrorKind::InvalidRequest),
                    }
                } else {
                    RpcError::new(RpcErrorKind::MethodNotFound, error)
                };
                Some(Response::from_handler_response(id, HandlerResponse::Error(e)))
            },
        }
    }
}

} // verus!
