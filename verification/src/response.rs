//! The response envelope: a call identifier and the handler's outcome.

use vstd::prelude::*;

use crate::Id;
use crate::RpcError;
use crate::RpcErrorKind;
use crate::RpcErrorV;
use crate::RpcResult;
use crate::Value;
use crate::ValueV;

verus! {

/// The outcome carried inside a response envelope: the handler either
/// returned data or an error.  Exactly one of the two is carried.
#[derive(Debug)]
pub enum HandlerResponse {
    /// The RPC handler returned data.
    Data(Value),
    /// The RPC handler returned an error.
    Error(RpcError),
}

/// Mathematical model of a [`HandlerResponse`].
pub enum HandlerResponseV {
    /// The RPC handler returned data.
    Data(ValueV),
    /// The RPC handler returned an error.
    Error(RpcErrorV),
}

impl View for HandlerResponse {
    type V = HandlerResponseV;

    open spec fn view(&self) -> HandlerResponseV {
        match self {
            HandlerResponse::Data(v) => HandlerResponseV::Data(v@),
            HandlerResponse::Error(e) => HandlerResponseV::Error(e@),
        }
    }
}

impl HandlerResponseV {
    /// An outcome is in canonical form when the value or error it carries
    /// is.
    pub open spec fn wf(self) -> bool {
        match self {
            HandlerResponseV::Data(v) => v.wf(),
            HandlerResponseV::Error(e) => e.wf(),
        }
    }
}

impl HandlerResponse {
    /// Did the handler return data?
    pub fn is_ok(&self) -> (r: bool)
        ensures
            r == (self@ is Data),
    {
        match self {
            HandlerResponse::Data(_) => true,
            HandlerResponse::Error(_) => false,
        }
    }

    /// Did the handler return an error?
    pub fn is_err(&self) -> (r: bool)
        ensures
            r == (self@ is Error),
    {
        match self {
            HandlerResponse::Data(_) => false,
            HandlerResponse::Error(_) => true,
        }
    }

    /// The returned data, if the handler returned data.
    pub fn ok(&self) -> (r: Option<&Value>)
        ensures
            match r {
                Some(v) => self@ == HandlerResponseV::Data(v@),
                None => self@ is Error,
            },
    {
        match self {
            HandlerResponse::Data(v) => Some(v),
            HandlerResponse::Error(_) => None,
        }
    }

    /// The returned error, if the handler returned one.
    pub fn err(&self) -> (r: Option<&RpcError>)
        ensures
            match r {
                Some(e) => self@ == HandlerResponseV::Error(e@),
                None => self@ is Data,
            },
    {
        match self {
            HandlerResponse::Data(_) => None,
            HandlerResponse::Error(e) => Some(e),
        }
    }

    /// Unwrap the outcome into the ordinary result form.
    pub fn into_result(self) -> (r: RpcResult<Value>)
        ensures
            match r {
                Ok(v) => self@ == HandlerResponseV::Data(v@),
                Err(e) => self@ == HandlerResponseV::Error(e@),
            },
    {
        match self {
            HandlerResponse::Data(v) => Ok(v),
            HandlerResponse::Error(e) => Err(e),
        }
    }

    /// Wrap an ordinary result into the outcome form.
    pub fn from_result(r: RpcResult<Value>) -> (h: HandlerResponse)
        ensures
            match r {
                Ok(v) => h@ == HandlerResponseV::Data(v@),
                Err(e) => h@ == HandlerResponseV::Error(e@),
            },
    {
        match r {
            Ok(v) => HandlerResponse::Data(v),
            Err(e) => HandlerResponse::Error(e),
        }
    }
}

impl HandlerResponseV {
    /// Normalization into canonical form: the carried value in canonical
    /// form, a carried error's kind routed through its wire code.
    pub open spec fn norm(self) -> HandlerResponseV {
        match self {
            HandlerResponseV::Data(v) => HandlerResponseV::Data(v.norm()),
            HandlerResponseV::Error(e) => HandlerResponseV::Error(
                RpcErrorV {
                    kind: crate::spec_kind_of_code(crate::spec_code_of_kind(e.kind)),
                    message: e.message,
                },
            ),
        }
    }
}

/// Law: outcome normalization is the identity on canonical outcomes, and
/// always yields a canonical outcome.
pub proof fn lemma_outcome_norm(o: HandlerResponseV)
    ensures
        o.wf() ==> o.norm() == o,
        o.norm().wf(),
{
    match o {
        HandlerResponseV::Data(v) => {
            crate::value::lemma_value_norm(v);
        },
        HandlerResponseV::Error(e) => {
            if e.wf() {
                crate::lemma_error_kind_code_roundtrip(e.kind, 0);
            }
            crate::lemma_error_kind_code_roundtrip(
                RpcErrorKind::ParseError,
                crate::spec_code_of_kind(e.kind),
            );
        },
    }
}

/// The outcome corresponding to an ordinary result.
pub open spec fn spec_outcome_of(r: RpcResult<Value>) -> HandlerResponseV {
    match r {
        Ok(v) => HandlerResponseV::Data(v@),
        Err(e) => HandlerResponseV::Error(e@),
    }
}

/// JSON-RPC response envelope.
#[derive(Debug)]
pub struct Response {
    /// The identifier of the call being answered, echoed from the request.
    pub id: Id,
    /// The handler's outcome.
    pub handler_response: HandlerResponse,
}

/// Mathematical model of a [`Response`].
pub struct ResponseV {
    /// The identifier of the call being answered.
    pub id: ValueV,
    /// The handler's outcome.
    pub outcome: HandlerResponseV,
}

impl View for Response {
    type V = ResponseV;

    open spec fn view(&self) -> ResponseV {
        ResponseV { id: self.id@, outcome: self.handler_response@ }
    }
}

impl ResponseV {
    /// A response is in canonical form when its identifier and outcome are.
    pub open spec fn wf(self) -> bool {
        self.id.wf() && self.outcome.wf()
    }
}

impl Response {
    /// Split the response into its parts.
    pub fn into_parts(self) -> (r: (Id, HandlerResponse))
        ensures
            r.0@ == self@.id,
            r.1@ == self@.outcome,
    {
        (self.id, self.handler_response)
    }

    /// Combine the parts into a response.
    pub fn from_parts(id: Id, handler_response: HandlerResponse) -> (r: Response)
        ensures
            r@ == (ResponseV { id: id@, outcome: handler_response@ }),
    {
        Response { id, handler_response }
    }

    /// Create a response with the given identifier and handler outcome.
    pub fn from_handler_response(id: Id, handler_response: HandlerResponse) -> (r: Response)
        ensures
            r@ == (ResponseV { id: id@, outcome: handler_response@ }),
    {
        Response { id, handler_response }
    }

    /// Replace the outcome with the given error, keeping the identifier.
    pub fn into_error_response(self, rpc_error: RpcError) -> (r: Response)
        ensures
            r@ == (ResponseV { id: self@.id, outcome: HandlerResponseV::Error(rpc_error@) }),
    {
        Response { id: self.id, handler_response: HandlerResponse::Error(rpc_error) }
    }

    /// The identifier of the call being answered.
    pub fn id(&self) -> (r: &Id)
        ensures
            r@ == self@.id,
    {
        &self.id
    }

    /// Replace the outcome with an internal error carrying the given
    /// message, keeping the identifier.
    pub fn into_server_error_response(self, error: String) -> (r: Response)
        ensures
            r@ == (ResponseV {
                id: self@.id,
                outcome: HandlerResponseV::Error(
                    RpcErrorV { kind: RpcErrorKind::InternalError, message: Some(error@) },
                ),
            }),
    {
        Self::from_server_error(self.id, error)
    }

    /// Create a response whose outcome is an internal error with the given
    /// message.
    pub fn from_server_error(id: Id, error: String) -> (r: Response)
        ensures
            r@ == (ResponseV {
                id: id@,
                outcome: HandlerResponseV::Error(
                    RpcErrorV { kind: RpcErrorKind::InternalError, message: Some(error@) },
                ),
            }),
    {
        Response {
            id,
            handler_response: HandlerResponse::Error(
                RpcError::new(RpcErrorKind::InternalError, error),
            ),
        }
    }
}

} // verus!
