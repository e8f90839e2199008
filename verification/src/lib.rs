//! A transport-agnostic JSON-RPC 2.0 message protocol engine.
//!
//! The crate defines the wire representation of RPC requests, responses and
//! errors, correlates responses to requests by call identifier, and
//! dispatches inbound calls to a user-supplied handler while degrading
//! gracefully on malformed input.  Transports supply raw byte payloads and
//! receive raw byte payloads back.

use vstd::prelude::*;

/// Scalar values and call identifiers.
pub mod value;

pub use value::Id;
pub use value::Value;
pub use value::ValueV;

/// Bridges between strings, character vectors and bytes.
pub(crate) mod chars;

/// Lexical layer of the JSON wire text.
pub mod jsontext;

/// Document layer of the JSON wire text.
pub mod jsondoc;

/// The request envelope.
pub mod request;

/// The response envelope.
pub mod response;

/// The wire form of the envelopes.
pub mod wire;

/// Data serialization formats.
pub mod dataformat;

/// The RPC client.
pub mod client;

/// The RPC server.
pub mod server;

/// Miscellaneous tools.
pub mod tools;

verus! {

/// Wire code for a payload that could not be decoded.
pub const RPC_ERROR_PARSE_ERROR: i16 = -32700;
/// Wire code for a decodable but structurally invalid request.
pub const RPC_ERROR_INVALID_REQUEST: i16 = -32600;
/// Wire code for an unrecognized method.
pub const RPC_ERROR_METHOD_NOT_FOUND: i16 = -32601;
/// Wire code for invalid parameters (reserved for handler use).
pub const RPC_ERROR_INVALID_PARAMS: i16 = -32602;
/// Wire code for a failure inside the handler or while encoding a response.
pub const RPC_ERROR_INTERNAL_ERROR: i16 = -32603;

/// RPC error kind: five reserved kinds plus an open custom code space.
///
/// Each reserved kind is bound to one fixed negative 16-bit wire code; any
/// other code travels through `Custom`.
#[derive(Debug, Clone, Copy, PartialEq, Eq, Structural)]
pub enum RpcErrorKind {
    /// The payload could not be decoded into the expected shape.
    ParseError,
    /// Decodable but structurally or semantically invalid.
    InvalidRequest,
    /// The method tag was not recognized.
    MethodNotFound,
    /// Invalid parameters (reserved for handler use).
    InvalidParams,
    /// The handler failed, or encoding the response itself failed.
    InternalError,
    /// Application-defined error code.
    Custom(i16),
}

/// The signed 16-bit wire code of an error kind.
pub open spec fn spec_code_of_kind(kind: RpcErrorKind) -> i16 {
    match kind {
        RpcErrorKind::ParseError => RPC_ERROR_PARSE_ERROR,
        RpcErrorKind::InvalidRequest => RPC_ERROR_INVALID_REQUEST,
        RpcErrorKind::MethodNotFound => RPC_ERROR_METHOD_NOT_FOUND,
        RpcErrorKind::InvalidParams => RPC_ERROR_INVALID_PARAMS,
        RpcErrorKind::InternalError => RPC_ERROR_INTERNAL_ERROR,
        RpcErrorKind::Custom(code) => code,
    }
}

/// The error kind denoted by a signed 16-bit wire code.
pub open spec fn spec_kind_of_code(code: i16) -> RpcErrorKind {
    if code == RPC_ERROR_PARSE_ERROR {
        RpcErrorKind::ParseError
    } else if code == RPC_ERROR_INVALID_REQUEST {
        RpcErrorKind::InvalidRequest
    } else if code == RPC_ERROR_METHOD_NOT_FOUND {
        RpcErrorKind::MethodNotFound
    } else if code == RPC_ERROR_INVALID_PARAMS {
        RpcErrorKind::InvalidParams
    } else if code == RPC_ERROR_INTERNAL_ERROR {
        RpcErrorKind::InternalError
    } else {
        RpcErrorKind::Custom(code)
    }
}

/// A kind is in canonical form when a `Custom` code does not collide with
/// one of the five reserved codes.
pub open spec fn kind_wf(kind: RpcErrorKind) -> bool {
    match kind {
        RpcErrorKind::Custom(code) => spec_kind_of_code(code) == RpcErrorKind::Custom(code),
        _ => true,
    }
}

impl From<i16> for RpcErrorKind {
    /// Total, infallible mapping from a wire code to an error kind.
    fn from(code: i16) -> (kind: RpcErrorKind) {
        if code == RPC_ERROR_PARSE_ERROR {
            RpcErrorKind::ParseError
        } else if code == RPC_ERROR_INVALID_REQUEST {
            RpcErrorKind::InvalidRequest
        } else if code == RPC_ERROR_METHOD_NOT_FOUND {
            RpcErrorKind::MethodNotFound
        } else if code == RPC_ERROR_INVALID_PARAMS {
            RpcErrorKind::InvalidParams
        } else if code == RPC_ERROR_INTERNAL_ERROR {
            RpcErrorKind::InternalError
        } else {
            RpcErrorKind::Custom(code)
        }
    }
}

impl vstd::std_specs::convert::FromSpecImpl<i16> for RpcErrorKind {
    open spec fn obeys_from_spec() -> bool {
        true
    }

    open spec fn from_spec(code: i16) -> RpcErrorKind {
        spec_kind_of_code(code)
    }
}

impl From<RpcErrorKind> for i16 {
    /// Total, infallible mapping from an error kind to its wire code.
    fn from(kind: RpcErrorKind) -> (code: i16) {
        match kind {
            RpcErrorKind::ParseError => RPC_ERROR_PARSE_ERROR,
            RpcErrorKind::InvalidRequest => RPC_ERROR_INVALID_REQUEST,
            RpcErrorKind::MethodNotFound => RPC_ERROR_METHOD_NOT_FOUND,
            RpcErrorKind::InvalidParams => RPC_ERROR_INVALID_PARAMS,
            RpcErrorKind::InternalError => RPC_ERROR_INTERNAL_ERROR,
            RpcErrorKind::Custom(code) => code,
        }
    }
}

impl vstd::std_specs::convert::FromSpecImpl<RpcErrorKind> for i16 {
    open spec fn obeys_from_spec() -> bool {
        true
    }

    open spec fn from_spec(kind: RpcErrorKind) -> i16 {
        spec_code_of_kind(kind)
    }
}

/// Wire-encoding mode, chosen when a packer type is picked.
///
/// Canonical mode is strict JSON-RPC 2.0 tagging (`method`/`params` fields
/// and a mandatory protocol-version marker on encode); compact mode uses
/// single-letter field names and omits the marker.
#[derive(Debug, Clone, Copy, PartialEq, Eq, Structural)]
pub enum Mode {
    /// Strict JSON-RPC 2.0 wire tagging.
    Canonical,
    /// Space-reduced, non-standard wire tagging.
    Compact,
}

/// The fixed protocol-version marker of canonical mode.
pub open spec fn version_marker() -> Seq<char> {
    "2.0"@
}

/// The fixed message carried by a recovery response whose protocol-version
/// marker was present but wrong.
pub open spec fn version_mismatch_msg() -> Seq<char> {
    "Invalid protocol version"@
}

/// RPC error: a kind and an optional human-readable message.
#[derive(Debug)]
pub struct RpcError {
    /// The error kind.
    pub kind: RpcErrorKind,
    /// The optional human-readable message.
    pub message: Option<String>,
}

/// Mathematical model of an [`RpcError`].
pub struct RpcErrorV {
    /// The error kind.
    pub kind: RpcErrorKind,
    /// The optional message, as its character sequence.
    pub message: Option<Seq<char>>,
}

impl View for RpcError {
    type V = RpcErrorV;

    open spec fn view(&self) -> RpcErrorV {
        RpcErrorV {
            kind: self.kind,
            message: match self.message {
                Some(m) => Some(m@),
                None => None,
            },
        }
    }
}

impl RpcErrorV {
    /// An error is in canonical form when its kind is.
    pub open spec fn wf(self) -> bool {
        kind_wf(self.kind)
    }
}

impl RpcError {
    /// Create a new error with no message.
    pub fn new0(kind: RpcErrorKind) -> (r: Self)
        ensures
            r@ == (RpcErrorV { kind, message: None::<Seq<char>> }),
    {
        Self { kind, message: None }
    }

    /// Create a new error with a message.
    pub fn new(kind: RpcErrorKind, message: String) -> (r: Self)
        ensures
            r@ == (RpcErrorV { kind, message: Some(message@) }),
    {
        Self { kind, message: Some(message) }
    }

    /// The error kind.
    pub fn kind(&self) -> (k: RpcErrorKind)
        ensures
            k == self@.kind,
    {
        self.kind
    }

    /// The error message, if one was attached.
    pub fn message(&self) -> (m: Option<&str>)
        ensures
            match m {
                Some(s) => self@.message == Some(s@),
                None => self@.message is None,
            },
    {
        match &self.message {
            Some(s) => Some(s.as_str()),
            None => None,
        }
    }
}

impl Clone for RpcError {
    /// Cloning preserves the modeled error.
    fn clone(&self) -> (r: RpcError)
        ensures
            r@ == self@,
    {
        RpcError {
            kind: self.kind,
            message: match &self.message {
                Some(s) => Some(s.clone()),
                None => None,
            },
        }
    }
}

impl PartialEq for RpcError {
    /// Equality of the modeled errors.
    fn eq(&self, other: &RpcError) -> (r: bool) {
        self.kind == other.kind && match (&self.message, &other.message) {
            (Some(a), Some(b)) => *a == *b,
            (None, None) => true,
            _ => false,
        }
    }
}

impl vstd::std_specs::cmp::PartialEqSpecImpl for RpcError {
    open spec fn obeys_eq_spec() -> bool {
        true
    }

    open spec fn eq_spec(&self, other: &RpcError) -> bool {
        self@ == other@
    }
}

/// Result type returned to RPC handlers' callers.
pub type RpcResult<R> = Result<R, RpcError>;

/// Law: the mapping between error kinds and wire codes is lossless.  For
/// every kind in canonical form, converting it to its wire code and back
/// yields the same kind; for every code, converting it to a kind and back
/// yields the same code.
pub proof fn lemma_error_kind_code_roundtrip(kind: RpcErrorKind, code: i16)
    requires
        kind_wf(kind),
    ensures
        spec_kind_of_code(spec_code_of_kind(kind)) == kind,
        spec_code_of_kind(spec_kind_of_code(code)) == code,
        kind_wf(spec_kind_of_code(code)),
{
}

} // verus!
