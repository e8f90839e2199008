//! The wire form of the envelopes: how a request or response maps to and
//! from a payload's field list, in either encoding mode, and the byte-level
//! codec built on the JSON layers.

use vstd::prelude::*;
use vstd::string::StringExecFns;

use crate::jsondoc::DocV;
use crate::jsondoc::FieldValV;
use crate::jsondoc::norm_doc;
use crate::jsondoc::norm_pairs;
use crate::jsondoc::emit_doc;
use crate::jsondoc::parse_doc;
use crate::jsondoc::doc_view;
use crate::jsondoc::pairs_view;
use crate::jsondoc::FieldVal;
use crate::request::InvalidRequest;
use crate::request::InvalidRequestV;
use crate::request::Method;
use crate::request::Request;
use crate::request::MethodV;
use crate::request::RequestV;
use crate::response::HandlerResponse;
use crate::response::HandlerResponseV;
use crate::response::Response;
use crate::response::ResponseV;
use crate::spec_code_of_kind;
use crate::spec_kind_of_code;
use crate::value::Value;
use crate::value::ValueV;
use crate::Mode;
use crate::RpcErrorKind;
use crate::RpcError;
use crate::RpcErrorV;
use crate::version_marker;

verus! {

/// The field name of the protocol-version marker.
pub open spec fn marker_key() -> Seq<char> {
    "jsonrpc"@
}

/// The field name under which an identifier is emitted.
pub open spec fn id_key(mode: Mode) -> Seq<char> {
    if mode == Mode::Canonical {
        "id"@
    } else {
        "i"@
    }
}

/// The field names accepted for an identifier on decode: canonical mode
/// aliases the long name to the short one.
pub open spec fn is_id_key(k: Seq<char>, mode: Mode) -> bool {
    if mode == Mode::Canonical {
        k == "id"@ || k == "i"@
    } else {
        k == "i"@
    }
}

/// The field name of the method tag.
pub open spec fn method_key(mode: Mode) -> Seq<char> {
    if mode == Mode::Canonical {
        "method"@
    } else {
        "m"@
    }
}

/// The field name of the parameters object.
pub open spec fn params_key(mode: Mode) -> Seq<char> {
    if mode == Mode::Canonical {
        "params"@
    } else {
        "p"@
    }
}

/// The field name under which a success outcome is emitted.
pub open spec fn result_key(mode: Mode) -> Seq<char> {
    if mode == Mode::Canonical {
        "result"@
    } else {
        "r"@
    }
}

/// The field names accepted for a success outcome on decode.
pub open spec fn is_result_key(k: Seq<char>, mode: Mode) -> bool {
    if mode == Mode::Canonical {
        k == "result"@ || k == "r"@
    } else {
        k == "r"@
    }
}

/// The field name under which an error outcome is emitted.
pub open spec fn error_key(mode: Mode) -> Seq<char> {
    if mode == Mode::Canonical {
        "error"@
    } else {
        "e"@
    }
}

/// The field names accepted for an error outcome on decode.
pub open spec fn is_error_key(k: Seq<char>, mode: Mode) -> bool {
    if mode == Mode::Canonical {
        k == "error"@ || k == "e"@
    } else {
        k == "e"@
    }
}

/// The field name of an error's wire code.
pub open spec fn code_key() -> Seq<char> {
    "code"@
}

/// The field name of an error's message.
pub open spec fn message_key() -> Seq<char> {
    "message"@
}

/// The scalar carrying a signed 16-bit wire code.
pub open spec fn scalar_of_i16(c: i16) -> ValueV {
    if c >= 0 {
        ValueV::UInt(c as u64)
    } else {
        ValueV::Int(c as i64)
    }
}

/// The field list of a request envelope: the version marker (canonical mode
/// only), the identifier if present, the method tag and the parameters.
pub open spec fn req_to_doc(r: RequestV, mode: Mode) -> DocV {
    let marker: DocV = if mode == Mode::Canonical {
        seq![(marker_key(), FieldValV::Scalar(ValueV::Str(version_marker())))]
    } else {
        Seq::empty()
    };
    let idf: DocV = match r.id {
        Some(v) => seq![(id_key(mode), FieldValV::Scalar(v))],
        None => Seq::empty(),
    };
    marker + idf + seq![
        (method_key(mode), FieldValV::Scalar(ValueV::Str(r.method.name))),
        (params_key(mode), FieldValV::Object(r.method.params)),
    ]
}

/// Decode state while walking a request's fields.
pub struct ReqAcc {
    /// The marker field has been seen.
    pub seen_marker: bool,
    /// An identifier field has been seen.
    pub seen_id: bool,
    /// The identifier, unless absent or literally `null`.
    pub id: Option<ValueV>,
    /// The method tag, once seen.
    pub name: Option<Seq<char>>,
    /// The parameters, once seen.
    pub params: Option<Seq<(Seq<char>, ValueV)>>,
}

/// The empty request decode state.
pub open spec fn req_acc0() -> ReqAcc {
    ReqAcc { seen_marker: false, seen_id: false, id: None, name: None, params: None }
}

/// One request field: the marker must be a string (in canonical mode, the
/// fixed version) or `null`; the identifier any scalar (`null` counting as
/// absent); the method a string; the parameters an object of scalars.  A
/// repeated or unknown field rejects the payload.
pub open spec fn req_field(k: Seq<char>, v: FieldValV, acc: ReqAcc, mode: Mode) -> Option<ReqAcc> {
    if k == marker_key() {
        if acc.seen_marker {
            None
        } else {
            match v {
                FieldValV::Scalar(ValueV::Str(m)) => if mode == Mode::Canonical && m
                    != version_marker() {
                    None
                } else {
                    Some(ReqAcc { seen_marker: true, ..acc })
                },
                FieldValV::Scalar(ValueV::Null) => Some(ReqAcc { seen_marker: true, ..acc }),
                _ => None,
            }
        }
    } else if is_id_key(k, mode) {
        if acc.seen_id {
            None
        } else {
            match v {
                FieldValV::Scalar(x) => Some(
                    ReqAcc {
                        seen_id: true,
                        id: if x == ValueV::Null {
                            None
                        } else {
                            Some(x)
                        },
                        ..acc
                    },
                ),
                _ => None,
            }
        }
    } else if k == method_key(mode) {
        if acc.name is Some {
            None
        } else {
            match v {
                FieldValV::Scalar(ValueV::Str(n)) => Some(ReqAcc { name: Some(n), ..acc }),
                _ => None,
            }
        }
    } else if k == params_key(mode) {
        if acc.params is Some {
            None
        } else {
            match v {
                FieldValV::Object(ps) => Some(ReqAcc { params: Some(ps), ..acc }),
                _ => None,
            }
        }
    } else {
        None
    }
}

/// Walk a request's fields.
pub open spec fn req_fold(d: DocV, acc: ReqAcc, mode: Mode) -> Option<ReqAcc>
    decreases d.len(),
{
    if d.len() == 0 {
        Some(acc)
    } else {
        match req_field(d[0].0, d[0].1, acc, mode) {
            None => None,
            Some(acc2) => req_fold(d.drop_first(), acc2, mode),
        }
    }
}

/// A request from a payload's field list: the method tag is required, the
/// parameters default to none, the identifier and marker are optional.
pub open spec fn req_from_doc(d: DocV, mode: Mode) -> Option<RequestV> {
    match req_fold(d, req_acc0(), mode) {
        None => None,
        Some(acc) => match acc.name {
            None => None,
            Some(n) => Some(
                RequestV {
                    id: acc.id,
                    method: MethodV {
                        name: n,
                        params: match acc.params {
                            Some(ps) => ps,
                            None => Seq::empty(),
                        },
                    },
                },
            ),
        },
    }
}

/// The member list of an error object: the wire code, then the message if
/// one is attached.
pub open spec fn err_pairs(e: RpcErrorV) -> Seq<(Seq<char>, ValueV)> {
    let code: Seq<(Seq<char>, ValueV)> = seq![
        (code_key(), scalar_of_i16(spec_code_of_kind(e.kind))),
    ];
    match e.message {
        Some(m) => code + seq![(message_key(), ValueV::Str(m))],
        None => code,
    }
}

/// Decode state while walking an error object's members.
pub struct ErrAcc {
    /// The wire code, once seen.
    pub code: Option<i16>,
    /// The message field has been seen.
    pub seen_msg: bool,
    /// The message, unless absent or literally `null`.
    pub message: Option<Seq<char>>,
}

/// One error-object member: the code must be an integer in the signed
/// 16-bit range, the message a string or `null`; a repeated field rejects
/// the payload and unknown members are ignored.
pub open spec fn err_field(k: Seq<char>, v: ValueV, acc: ErrAcc) -> Option<ErrAcc> {
    if k == code_key() {
        if acc.code is Some {
            None
        } else {
            match v {
                ValueV::UInt(n) => if n <= 32767 {
                    Some(ErrAcc { code: Some(n as i16), ..acc })
                } else {
                    None
                },
                ValueV::Int(n) => if -32768 <= n && n <= 32767 {
                    Some(ErrAcc { code: Some(n as i16), ..acc })
                } else {
                    None
                },
                _ => None,
            }
        }
    } else if k == message_key() {
        if acc.seen_msg {
            None
        } else {
            match v {
                ValueV::Str(m) => Some(ErrAcc { seen_msg: true, message: Some(m), ..acc }),
                ValueV::Null => Some(ErrAcc { seen_msg: true, message: None, ..acc }),
                _ => None,
            }
        }
    } else {
        Some(acc)
    }
}

/// Walk an error object's members.
pub open spec fn err_fold(ps: Seq<(Seq<char>, ValueV)>, acc: ErrAcc) -> Option<ErrAcc>
    decreases ps.len(),
{
    if ps.len() == 0 {
        Some(acc)
    } else {
        match err_field(ps[0].0, ps[0].1, acc) {
            None => None,
            Some(acc2) => err_fold(ps.drop_first(), acc2),
        }
    }
}

/// An error from an error object's members: the code is required and names
/// the kind.
pub open spec fn err_from_pairs(ps: Seq<(Seq<char>, ValueV)>) -> Option<RpcErrorV> {
    match err_fold(ps, ErrAcc { code: None, seen_msg: false, message: None }) {
        None => None,
        Some(acc) => match acc.code {
            None => None,
            Some(c) => Some(RpcErrorV { kind: spec_kind_of_code(c), message: acc.message }),
        },
    }
}

/// The field list of a response envelope: the version marker (canonical
/// mode only), the identifier, and the outcome under the success or error
/// field name.
pub open spec fn resp_to_doc(r: ResponseV, mode: Mode) -> DocV {
    let marker: DocV = if mode == Mode::Canonical {
        seq![(marker_key(), FieldValV::Scalar(ValueV::Str(version_marker())))]
    } else {
        Seq::empty()
    };
    marker + seq![(id_key(mode), FieldValV::Scalar(r.id))] + match r.outcome {
        HandlerResponseV::Data(v) => seq![(result_key(mode), FieldValV::Scalar(v))],
        HandlerResponseV::Error(e) => seq![(error_key(mode), FieldValV::Object(err_pairs(e)))],
    }
}

/// Decode state while walking a response's fields.
pub struct RespAcc {
    /// The marker field has been seen.
    pub seen_marker: bool,
    /// The identifier, once seen.
    pub id: Option<ValueV>,
    /// The outcome, once seen.
    pub outcome: Option<HandlerResponseV>,
}

/// One response field: the marker as in a request; the identifier any
/// scalar; the outcome exactly one of the success field (a scalar) and the
/// error field (an error object).  A repeated or unknown field rejects the
/// payload.
pub open spec fn resp_field(k: Seq<char>, v: FieldValV, acc: RespAcc, mode: Mode) -> Option<
    RespAcc,
> {
    if k == marker_key() {
        if acc.seen_marker {
            None
        } else {
            match v {
                FieldValV::Scalar(ValueV::Str(m)) => if mode == Mode::Canonical && m
                    != version_marker() {
                    None
                } else {
                    Some(RespAcc { seen_marker: true, ..acc })
                },
                FieldValV::Scalar(ValueV::Null) => Some(RespAcc { seen_marker: true, ..acc }),
                _ => None,
            }
        }
    } else if is_id_key(k, mode) {
        if acc.id is Some {
            None
        } else {
            match v {
                FieldValV::Scalar(x) => Some(RespAcc { id: Some(x), ..acc }),
                _ => None,
            }
        }
    } else if is_result_key(k, mode) {
        if acc.outcome is Some {
            None
        } else {
            match v {
                FieldValV::Scalar(x) => Some(
                    RespAcc { outcome: Some(HandlerResponseV::Data(x)), ..acc },
                ),
                _ => None,
            }
        }
    } else if is_error_key(k, mode) {
        if acc.outcome is Some {
            None
        } else {
            match v {
                FieldValV::Object(ps) => match err_from_pairs(ps) {
                    Some(e) => Some(
                        RespAcc { outcome: Some(HandlerResponseV::Error(e)), ..acc },
                    ),
                    None => None,
                },
                _ => None,
            }
        }
    } else {
        None
    }
}

/// Walk a response's fields.
pub open spec fn resp_fold(d: DocV, acc: RespAcc, mode: Mode) -> Option<RespAcc>
    decreases d.len(),
{
    if d.len() == 0 {
        Some(acc)
    } else {
        match resp_field(d[0].0, d[0].1, acc, mode) {
            None => None,
            Some(acc2) => resp_fold(d.drop_first(), acc2, mode),
        }
    }
}

/// A response from a payload's field list: the identifier and exactly one
/// outcome are required.
pub open spec fn resp_from_doc(d: DocV, mode: Mode) -> Option<ResponseV> {
    match resp_fold(d, RespAcc { seen_marker: false, id: None, outcome: None }, mode) {
        None => None,
        Some(acc) => match (acc.id, acc.outcome) {
            (Some(id), Some(outcome)) => Some(ResponseV { id, outcome }),
            _ => None,
        },
    }
}

/// The identifier field name read by the recovery decode.
pub open spec fn recovery_id_key(mode: Mode) -> Seq<char> {
    if mode == Mode::Canonical {
        "id"@
    } else {
        "i"@
    }
}

/// Decode state while walking the fields of an undecodable payload.
pub struct InvAcc {
    /// The marker field has been seen.
    pub seen_marker: bool,
    /// The marker, unless absent or literally `null`.
    pub marker: Option<Seq<char>>,
    /// The identifier field has been seen.
    pub seen_id: bool,
    /// The identifier, unless absent or literally `null`.
    pub id: Option<ValueV>,
}

/// One field of the recovery decode: the marker must be a string or
/// `null`, the identifier a scalar; repeating either rejects the payload;
/// everything else is ignored.
pub open spec fn inv_field(k: Seq<char>, v: FieldValV, acc: InvAcc, mode: Mode) -> Option<InvAcc> {
    if k == marker_key() {
        if acc.seen_marker {
            None
        } else {
            match v {
                FieldValV::Scalar(ValueV::Str(m)) => Some(
                    InvAcc { seen_marker: true, marker: Some(m), ..acc },
                ),
                FieldValV::Scalar(ValueV::Null) => Some(
                    InvAcc { seen_marker: true, marker: None, ..acc },
                ),
                _ => None,
            }
        }
    } else if k == recovery_id_key(mode) {
        if acc.seen_id {
            None
        } else {
            match v {
                FieldValV::Scalar(x) => Some(
                    InvAcc {
                        seen_id: true,
                        id: if x == ValueV::Null {
                            None
                        } else {
                            Some(x)
                        },
                        ..acc
                    },
                ),
                _ => None,
            }
        }
    } else {
        Some(acc)
    }
}

/// Walk an undecodable payload's fields.
pub open spec fn inv_fold(d: DocV, acc: InvAcc, mode: Mode) -> Option<InvAcc>
    decreases d.len(),
{
    if d.len() == 0 {
        Some(acc)
    } else {
        match inv_field(d[0].0, d[0].1, acc, mode) {
            None => None,
            Some(acc2) => inv_fold(d.drop_first(), acc2, mode),
        }
    }
}

/// The minimal shape of an undecodable payload, from its field list.
pub open spec fn inv_from_doc(d: DocV, mode: Mode) -> Option<InvalidRequestV> {
    match inv_fold(d, InvAcc { seen_marker: false, marker: None, seen_id: false, id: None }, mode) {
        None => None,
        Some(acc) => Some(InvalidRequestV { jsonrpc: acc.marker, id: acc.id }),
    }
}

/// The wire text of a request.
pub open spec fn req_enc_chars(r: RequestV, mode: Mode) -> Seq<char> {
    emit_doc(req_to_doc(r, mode))
}

/// A request from wire text.
pub open spec fn req_dec_chars(s: Seq<char>, mode: Mode) -> Option<RequestV> {
    match parse_doc(s) {
        Some(d) => req_from_doc(d, mode),
        None => None,
    }
}

/// The wire bytes of a request: its wire text in UTF-8.
pub open spec fn req_enc(r: RequestV, mode: Mode) -> Seq<u8> {
    vstd::utf8::encode_utf8(req_enc_chars(r, mode))
}

/// A request from wire bytes: well-formed UTF-8 holding the wire text.
pub open spec fn req_dec(b: Seq<u8>, mode: Mode) -> Option<RequestV> {
    if vstd::utf8::valid_utf8(b) {
        req_dec_chars(vstd::utf8::decode_utf8(b), mode)
    } else {
        None
    }
}

/// The wire text of a response.
pub open spec fn resp_enc_chars(r: ResponseV, mode: Mode) -> Seq<char> {
    emit_doc(resp_to_doc(r, mode))
}

/// A response from wire text.
pub open spec fn resp_dec_chars(s: Seq<char>, mode: Mode) -> Option<ResponseV> {
    match parse_doc(s) {
        Some(d) => resp_from_doc(d, mode),
        None => None,
    }
}

/// The wire bytes of a response.
pub open spec fn resp_enc(r: ResponseV, mode: Mode) -> Seq<u8> {
    vstd::utf8::encode_utf8(resp_enc_chars(r, mode))
}

/// A response from wire bytes.
pub open spec fn resp_dec(b: Seq<u8>, mode: Mode) -> Option<ResponseV> {
    if vstd::utf8::valid_utf8(b) {
        resp_dec_chars(vstd::utf8::decode_utf8(b), mode)
    } else {
        None
    }
}

/// The minimal shape of an undecodable payload, from wire bytes.
pub open spec fn inv_dec(b: Seq<u8>, mode: Mode) -> Option<InvalidRequestV> {
    if vstd::utf8::valid_utf8(b) {
        match parse_doc(vstd::utf8::decode_utf8(b)) {
            Some(d) => inv_from_doc(d, mode),
            None => None,
        }
    } else {
        None
    }
}

/// Normalization is the identity on object members in canonical form.
pub proof fn lemma_norm_pairs_wf(ps: Seq<(Seq<char>, ValueV)>)
    requires
        forall|k: int| 0 <= k < ps.len() ==> (#[trigger] ps[k].1).wf(),
    ensures
        norm_pairs(ps) == ps,
{
    assert(norm_pairs(ps) =~= ps) by {
        assert forall|k: int| 0 <= k < ps.len() implies norm_pairs(ps)[k] == ps[k] by {
            crate::value::lemma_value_norm(ps[k].1);
        }
    }
}

/// Lengths and leading characters of the wire field names; enough to tell
/// any two of them apart.
pub proof fn lemma_key_facts()
    ensures
        "jsonrpc"@.len() == 7,
        "id"@.len() == 2,
        "i"@.len() == 1,
        "method"@.len() == 6,
        "m"@.len() == 1,
        "params"@.len() == 6,
        "p"@.len() == 1,
        "result"@.len() == 6,
        "r"@.len() == 1,
        "error"@.len() == 5,
        "e"@.len() == 1,
        "code"@.len() == 4,
        "message"@.len() == 7,
        "jsonrpc"@[0] == 'j',
        "method"@[0] == 'm',
        "params"@[0] == 'p',
        "result"@[0] == 'r',
        "message"@[0] == 'm',
        "i"@[0] == 'i',
        "m"@[0] == 'm',
        "p"@[0] == 'p',
        "r"@[0] == 'r',
        "e"@[0] == 'e',
{
    reveal_strlit("jsonrpc");
    reveal_strlit("id");
    reveal_strlit("i");
    reveal_strlit("method");
    reveal_strlit("m");
    reveal_strlit("params");
    reveal_strlit("p");
    reveal_strlit("result");
    reveal_strlit("r");
    reveal_strlit("error");
    reveal_strlit("e");
    reveal_strlit("code");
    reveal_strlit("message");
}

/// Reading a request's emitted field list back, after normalization,
/// yields the request: the field list holds no skipped content and decodes
/// to the request itself.
pub proof fn lemma_req_doc_roundtrip(r: RequestV, mode: Mode)
    requires
        r.wf(),
    ensures
        forall|k: int|
            0 <= k < req_to_doc(r, mode).len() ==> !((#[trigger] req_to_doc(r, mode)[k].1)
                is Other),
        req_from_doc(norm_doc(req_to_doc(r, mode)), mode) == Some(r),
{
    reveal_strlit("2.0");
    lemma_key_facts();
    let d = req_to_doc(r, mode);
    let n = norm_doc(d);
    lemma_norm_pairs_wf(r.method.params);
    let mfield = (method_key(mode), FieldValV::Scalar(ValueV::Str(r.method.name)));
    let pfield = (params_key(mode), FieldValV::Object(r.method.params));
    let macc = ReqAcc { seen_marker: true, ..req_acc0() };
    if mode == Mode::Canonical {
        match r.id {
            Some(idv) => {
                crate::value::lemma_value_norm(idv);
                assert(n =~= seq![
                    (marker_key(), FieldValV::Scalar(ValueV::Str(version_marker()))),
                    (id_key(mode), FieldValV::Scalar(idv)),
                    mfield,
                    pfield,
                ]);
                let acc1 = req_field(n[0].0, n[0].1, req_acc0(), mode)->Some_0;
                assert(req_field(n[0].0, n[0].1, req_acc0(), mode) == Some(acc1));
                assert(n.drop_first() =~= seq![(id_key(mode), FieldValV::Scalar(idv)), mfield, pfield]);
                let n1 = n.drop_first();
                assert(req_fold(n, req_acc0(), mode) == req_fold(n1, acc1, mode));
                let acc2 = req_field(n1[0].0, n1[0].1, acc1, mode)->Some_0;
                assert(req_field(n1[0].0, n1[0].1, acc1, mode) == Some(acc2));
                assert(n1.drop_first() =~= seq![mfield, pfield]);
                let n2 = n1.drop_first();
                assert(req_fold(n1, acc1, mode) == req_fold(n2, acc2, mode));
                let acc3 = req_field(n2[0].0, n2[0].1, acc2, mode)->Some_0;
                assert(req_field(n2[0].0, n2[0].1, acc2, mode) == Some(acc3));
                assert(n2.drop_first() =~= seq![pfield]);
                let n3 = n2.drop_first();
                assert(req_fold(n2, acc2, mode) == req_fold(n3, acc3, mode));
                let acc4 = req_field(n3[0].0, n3[0].1, acc3, mode)->Some_0;
                assert(req_field(n3[0].0, n3[0].1, acc3, mode) == Some(acc4));
                assert(n3.drop_first() =~= Seq::<(Seq<char>, FieldValV)>::empty());
                assert(req_fold(n3, acc3, mode) == req_fold(n3.drop_first(), acc4, mode));
                assert(req_fold(n, req_acc0(), mode) == Some(acc4));
            },
            None => {
                assert(n =~= seq![
                    (marker_key(), FieldValV::Scalar(ValueV::Str(version_marker()))),
                    mfield,
                    pfield,
                ]);
                let acc1 = req_field(n[0].0, n[0].1, req_acc0(), mode)->Some_0;
                assert(req_field(n[0].0, n[0].1, req_acc0(), mode) == Some(acc1));
                assert(n.drop_first() =~= seq![mfield, pfield]);
                let n1 = n.drop_first();
                assert(req_fold(n, req_acc0(), mode) == req_fold(n1, acc1, mode));
                let acc2 = req_field(n1[0].0, n1[0].1, acc1, mode)->Some_0;
                assert(req_field(n1[0].0, n1[0].1, acc1, mode) == Some(acc2));
                assert(n1.drop_first() =~= seq![pfield]);
                let n2 = n1.drop_first();
                assert(req_fold(n1, acc1, mode) == req_fold(n2, acc2, mode));
                let acc3 = req_field(n2[0].0, n2[0].1, acc2, mode)->Some_0;
                assert(req_field(n2[0].0, n2[0].1, acc2, mode) == Some(acc3));
                assert(n2.drop_first() =~= Seq::<(Seq<char>, FieldValV)>::empty());
                assert(req_fold(n2, acc2, mode) == req_fold(n2.drop_first(), acc3, mode));
                assert(req_fold(n, req_acc0(), mode) == Some(acc3));
            },
        }
    } else {
        match r.id {
            Some(idv) => {
                crate::value::lemma_value_norm(idv);
                assert(n =~= seq![(id_key(mode), FieldValV::Scalar(idv)), mfield, pfield]);
                let acc1 = req_field(n[0].0, n[0].1, req_acc0(), mode)->Some_0;
                assert(req_field(n[0].0, n[0].1, req_acc0(), mode) == Some(acc1));
                assert(n.drop_first() =~= seq![mfield, pfield]);
                let n1 = n.drop_first();
                assert(req_fold(n, req_acc0(), mode) == req_fold(n1, acc1, mode));
                let acc2 = req_field(n1[0].0, n1[0].1, acc1, mode)->Some_0;
                assert(req_field(n1[0].0, n1[0].1, acc1, mode) == Some(acc2));
                assert(n1.drop_first() =~= seq![pfield]);
                let n2 = n1.drop_first();
                assert(req_fold(n1, acc1, mode) == req_fold(n2, acc2, mode));
                let acc3 = req_field(n2[0].0, n2[0].1, acc2, mode)->Some_0;
                assert(req_field(n2[0].0, n2[0].1, acc2, mode) == Some(acc3));
                assert(n2.drop_first() =~= Seq::<(Seq<char>, FieldValV)>::empty());
                assert(req_fold(n2, acc2, mode) == req_fold(n2.drop_first(), acc3, mode));
                assert(req_fold(n, req_acc0(), mode) == Some(acc3));
            },
            None => {
                assert(n =~= seq![mfield, pfield]);
                let acc1 = req_field(n[0].0, n[0].1, req_acc0(), mode)->Some_0;
                assert(req_field(n[0].0, n[0].1, req_acc0(), mode) == Some(acc1));
                assert(n.drop_first() =~= seq![pfield]);
                let n1 = n.drop_first();
                assert(req_fold(n, req_acc0(), mode) == req_fold(n1, acc1, mode));
                let acc2 = req_field(n1[0].0, n1[0].1, acc1, mode)->Some_0;
                assert(req_field(n1[0].0, n1[0].1, acc1, mode) == Some(acc2));
                assert(n1.drop_first() =~= Seq::<(Seq<char>, FieldValV)>::empty());
                assert(req_fold(n1, acc1, mode) == req_fold(n1.drop_first(), acc2, mode));
                assert(req_fold(n, req_acc0(), mode) == Some(acc2));
            },
        }
    }
}

/// Reading an error object's emitted members back, after normalization,
/// yields the error.
pub proof fn lemma_err_pairs_roundtrip(e: RpcErrorV)
    requires
        e.wf(),
    ensures
        err_from_pairs(norm_pairs(err_pairs(e))) == Some(e),
{
    lemma_key_facts();
    let ps = err_pairs(e);
    let n = norm_pairs(ps);
    let code = spec_code_of_kind(e.kind);
    let acc0 = ErrAcc { code: None, seen_msg: false, message: None };
    crate::value::lemma_value_norm(scalar_of_i16(code));
    crate::lemma_error_kind_code_roundtrip(e.kind, code);
    match e.message {
        Some(m) => {
            assert(n =~= seq![(code_key(), scalar_of_i16(code)), (message_key(), ValueV::Str(m))]);
            let acc1 = err_field(n[0].0, n[0].1, acc0)->Some_0;
            assert(err_field(n[0].0, n[0].1, acc0) == Some(acc1));
            assert(n.drop_first() =~= seq![(message_key(), ValueV::Str(m))]);
            let n1 = n.drop_first();
            assert(err_fold(n, acc0) == err_fold(n1, acc1));
            let acc2 = err_field(n1[0].0, n1[0].1, acc1)->Some_0;
            assert(err_field(n1[0].0, n1[0].1, acc1) == Some(acc2));
            assert(n1.drop_first() =~= Seq::<(Seq<char>, ValueV)>::empty());
            assert(err_fold(n1, acc1) == err_fold(n1.drop_first(), acc2));
            assert(err_fold(n, acc0) == Some(acc2));
        },
        None => {
            assert(n =~= seq![(code_key(), scalar_of_i16(code))]);
            let acc1 = err_field(n[0].0, n[0].1, acc0)->Some_0;
            assert(err_field(n[0].0, n[0].1, acc0) == Some(acc1));
            assert(n.drop_first() =~= Seq::<(Seq<char>, ValueV)>::empty());
            assert(err_fold(n, acc0) == err_fold(n.drop_first(), acc1));
            assert(err_fold(n, acc0) == Some(acc1));
        },
    }
}

/// Reading a response's emitted field list back, after normalization,
/// yields the response: the field list holds no skipped content and
/// decodes to the response itself.
pub proof fn lemma_resp_doc_roundtrip(r: ResponseV, mode: Mode)
    requires
        r.wf(),
    ensures
        forall|k: int|
            0 <= k < resp_to_doc(r, mode).len() ==> !((#[trigger] resp_to_doc(r, mode)[k].1)
                is Other),
        resp_from_doc(norm_doc(resp_to_doc(r, mode)), mode) == Some(r),
{
    reveal_strlit("2.0");
    lemma_key_facts();
    let d = resp_to_doc(r, mode);
    let n = norm_doc(d);
    let acc0 = RespAcc { seen_marker: false, id: None, outcome: None };
    crate::value::lemma_value_norm(r.id);
    let idf = (id_key(mode), FieldValV::Scalar(r.id));
    let outf = match r.outcome {
        HandlerResponseV::Data(v) => (result_key(mode), FieldValV::Scalar(v)),
        HandlerResponseV::Error(e) => (error_key(mode), FieldValV::Object(err_pairs(e))),
    };
    let noutf = match r.outcome {
        HandlerResponseV::Data(v) => (result_key(mode), FieldValV::Scalar(v.norm())),
        HandlerResponseV::Error(e) => (
            error_key(mode),
            FieldValV::Object(norm_pairs(err_pairs(e))),
        ),
    };
    match r.outcome {
        HandlerResponseV::Data(v) => {
            crate::value::lemma_value_norm(v);
        },
        HandlerResponseV::Error(e) => {
            lemma_err_pairs_roundtrip(e);
        },
    }
    if mode == Mode::Canonical {
        assert(n =~= seq![
            (marker_key(), FieldValV::Scalar(ValueV::Str(version_marker()))),
            idf,
            noutf,
        ]);
        let acc1 = resp_field(n[0].0, n[0].1, acc0, mode)->Some_0;
        assert(resp_field(n[0].0, n[0].1, acc0, mode) == Some(acc1));
        assert(n.drop_first() =~= seq![idf, noutf]);
        let n1 = n.drop_first();
        assert(resp_fold(n, acc0, mode) == resp_fold(n1, acc1, mode));
        let acc2 = resp_field(n1[0].0, n1[0].1, acc1, mode)->Some_0;
        assert(resp_field(n1[0].0, n1[0].1, acc1, mode) == Some(acc2));
        assert(n1.drop_first() =~= seq![noutf]);
        let n2 = n1.drop_first();
        assert(resp_fold(n1, acc1, mode) == resp_fold(n2, acc2, mode));
        let acc3 = resp_field(n2[0].0, n2[0].1, acc2, mode)->Some_0;
        assert(resp_field(n2[0].0, n2[0].1, acc2, mode) == Some(acc3));
        assert(n2.drop_first() =~= Seq::<(Seq<char>, FieldValV)>::empty());
        assert(resp_fold(n2, acc2, mode) == resp_fold(n2.drop_first(), acc3, mode));
        assert(resp_fold(n, acc0, mode) == Some(acc3));
    } else {
        assert(n =~= seq![idf, noutf]);
        let acc1 = resp_field(n[0].0, n[0].1, acc0, mode)->Some_0;
        assert(resp_field(n[0].0, n[0].1, acc0, mode) == Some(acc1));
        assert(n.drop_first() =~= seq![noutf]);
        let n1 = n.drop_first();
        assert(resp_fold(n, acc0, mode) == resp_fold(n1, acc1, mode));
        let acc2 = resp_field(n1[0].0, n1[0].1, acc1, mode)->Some_0;
        assert(resp_field(n1[0].0, n1[0].1, acc1, mode) == Some(acc2));
        assert(n1.drop_first() =~= Seq::<(Seq<char>, FieldValV)>::empty());
        assert(resp_fold(n1, acc1, mode) == resp_fold(n1.drop_first(), acc2, mode));
        assert(resp_fold(n, acc0, mode) == Some(acc2));
    }
}

/// The request decode state only ever holds canonical values: a non-null
/// identifier in canonical form and parameters in canonical form.
pub open spec fn req_acc_wf(acc: ReqAcc) -> bool {
    &&& match acc.id {
        Some(v) => v.wf() && v != ValueV::Null,
        None => true,
    }
    &&& match acc.params {
        Some(ps) => forall|k: int| 0 <= k < ps.len() ==> (#[trigger] ps[k].1).wf(),
        None => true,
    }
}

/// Walking fields the parser yielded preserves canonical decode state.
pub proof fn lemma_req_fold_wf(d: DocV, acc: ReqAcc, mode: Mode)
    requires
        forall|k: int| 0 <= k < d.len() ==> crate::jsondoc::field_dec_wf((#[trigger] d[k]).1),
        req_acc_wf(acc),
        req_fold(d, acc, mode) is Some,
    ensures
        req_acc_wf(req_fold(d, acc, mode)->Some_0),
    decreases d.len(),
{
    if d.len() > 0 {
        let acc2 = req_field(d[0].0, d[0].1, acc, mode)->Some_0;
        assert(crate::jsondoc::field_dec_wf(d[0].1));
        assert(req_acc_wf(acc2));
        assert(forall|k: int|
            0 <= k < d.drop_first().len() ==> crate::jsondoc::field_dec_wf(
                (#[trigger] d.drop_first()[k]).1,
            ));
        lemma_req_fold_wf(d.drop_first(), acc2, mode);
    }
}

/// Every request the decoder yields is in canonical form.
pub proof fn lemma_req_dec_wf(b: Seq<u8>, mode: Mode)
    requires
        req_dec(b, mode) is Some,
    ensures
        req_dec(b, mode)->Some_0.wf(),
{
    let s = vstd::utf8::decode_utf8(b);
    let d = parse_doc(s)->Some_0;
    crate::jsondoc::lemma_parse_doc_wf(s);
    lemma_req_fold_wf(d, req_acc0(), mode);
}

/// Every error the error-object decode yields is in canonical form.
pub proof fn lemma_err_from_pairs_wf(ps: Seq<(Seq<char>, ValueV)>)
    requires
        err_from_pairs(ps) is Some,
    ensures
        err_from_pairs(ps)->Some_0.wf(),
{
    let acc = err_fold(ps, ErrAcc { code: None, seen_msg: false, message: None })->Some_0;
    let c = acc.code->Some_0;
    crate::lemma_error_kind_code_roundtrip(RpcErrorKind::ParseError, c);
}

/// The response decode state only ever holds canonical values.
pub open spec fn resp_acc_wf(acc: RespAcc) -> bool {
    &&& match acc.id {
        Some(v) => v.wf(),
        None => true,
    }
    &&& match acc.outcome {
        Some(o) => o.wf(),
        None => true,
    }
}

/// Walking fields the parser yielded preserves canonical response decode
/// state.
pub proof fn lemma_resp_fold_wf(d: DocV, acc: RespAcc, mode: Mode)
    requires
        forall|k: int| 0 <= k < d.len() ==> crate::jsondoc::field_dec_wf((#[trigger] d[k]).1),
        resp_acc_wf(acc),
        resp_fold(d, acc, mode) is Some,
    ensures
        resp_acc_wf(resp_fold(d, acc, mode)->Some_0),
    decreases d.len(),
{
    if d.len() > 0 {
        let acc2 = resp_field(d[0].0, d[0].1, acc, mode)->Some_0;
        assert(crate::jsondoc::field_dec_wf(d[0].1));
        if is_error_key(d[0].0, mode) && !(acc.outcome is Some) && d[0].1 is Object {
            let ps = d[0].1->Object_0;
            if err_from_pairs(ps) is Some {
                lemma_err_from_pairs_wf(ps);
            }
        }
        assert(resp_acc_wf(acc2));
        assert(forall|k: int|
            0 <= k < d.drop_first().len() ==> crate::jsondoc::field_dec_wf(
                (#[trigger] d.drop_first()[k]).1,
            ));
        lemma_resp_fold_wf(d.drop_first(), acc2, mode);
    }
}

/// Every response the decoder yields is in canonical form.
pub proof fn lemma_resp_dec_wf(b: Seq<u8>, mode: Mode)
    requires
        resp_dec(b, mode) is Some,
    ensures
        resp_dec(b, mode)->Some_0.wf(),
{
    let s = vstd::utf8::decode_utf8(b);
    let d = parse_doc(s)->Some_0;
    crate::jsondoc::lemma_parse_doc_wf(s);
    lemma_resp_fold_wf(d, RespAcc { seen_marker: false, id: None, outcome: None }, mode);
}

/// The recovery decode state only ever holds a canonical, non-null
/// identifier.
pub open spec fn inv_acc_wf(acc: InvAcc) -> bool {
    match acc.id {
        Some(v) => v.wf() && v != ValueV::Null,
        None => true,
    }
}

/// Walking fields the parser yielded preserves canonical recovery decode
/// state.
pub proof fn lemma_inv_fold_wf(d: DocV, acc: InvAcc, mode: Mode)
    requires
        forall|k: int| 0 <= k < d.len() ==> crate::jsondoc::field_dec_wf((#[trigger] d[k]).1),
        inv_acc_wf(acc),
        inv_fold(d, acc, mode) is Some,
    ensures
        inv_acc_wf(inv_fold(d, acc, mode)->Some_0),
    decreases d.len(),
{
    if d.len() > 0 {
        let acc2 = inv_field(d[0].0, d[0].1, acc, mode)->Some_0;
        assert(crate::jsondoc::field_dec_wf(d[0].1));
        assert(inv_acc_wf(acc2));
        assert(forall|k: int|
            0 <= k < d.drop_first().len() ==> crate::jsondoc::field_dec_wf(
                (#[trigger] d.drop_first()[k]).1,
            ));
        lemma_inv_fold_wf(d.drop_first(), acc2, mode);
    }
}

/// Every identifier the recovery decode yields is in canonical form and
/// not null.
pub proof fn lemma_inv_dec_wf(b: Seq<u8>, mode: Mode)
    requires
        inv_dec(b, mode) is Some,
    ensures
        match inv_dec(b, mode)->Some_0.id {
            Some(v) => v.wf() && v != ValueV::Null,
            None => true,
        },
{
    let s = vstd::utf8::decode_utf8(b);
    let d = parse_doc(s)->Some_0;
    crate::jsondoc::lemma_parse_doc_wf(s);
    lemma_inv_fold_wf(
        d,
        InvAcc { seen_marker: false, marker: None, seen_id: false, id: None },
        mode,
    );
}

/// Round-trip law for requests: decoding the encoded wire bytes of a
/// request in canonical form yields the request back, in either mode.
pub proof fn lemma_request_roundtrip(r: RequestV, mode: Mode)
    requires
        r.wf(),
    ensures
        req_dec(req_enc(r, mode), mode) == Some(r),
{
    let chars = req_enc_chars(r, mode);
    lemma_req_doc_roundtrip(r, mode);
    vstd::utf8::encode_utf8_valid_utf8(chars);
    vstd::utf8::encode_utf8_decode_utf8(chars);
    crate::jsondoc::lemma_parse_doc_emitted(req_to_doc(r, mode));
}

/// Round-trip law for responses: decoding the encoded wire bytes of a
/// response in canonical form yields the response back, in either mode.
pub proof fn lemma_response_roundtrip(r: ResponseV, mode: Mode)
    requires
        r.wf(),
    ensures
        resp_dec(resp_enc(r, mode), mode) == Some(r),
{
    let chars = resp_enc_chars(r, mode);
    lemma_resp_doc_roundtrip(r, mode);
    vstd::utf8::encode_utf8_valid_utf8(chars);
    vstd::utf8::encode_utf8_decode_utf8(chars);
    crate::jsondoc::lemma_parse_doc_emitted(resp_to_doc(r, mode));
}

/// Copy a parameter list, preserving its model.
pub(crate) fn clone_params(ps: &Vec<(String, Value)>) -> (r: Vec<(String, Value)>)
    ensures
        pairs_view(r@) == pairs_view(ps@),
{
    let mut r: Vec<(String, Value)> = Vec::new();
    let mut k: usize = 0;
    while k < ps.len()
        invariant
            k <= ps@.len(),
            r@.len() == k,
            forall|j: int|
                0 <= j < k ==> (#[trigger] r@[j]).0@ == ps@[j].0@ && r@[j].1@ == ps@[j].1@,
        decreases ps@.len() - k,
    {
        let p = &ps[k];
        r.push((p.0.clone(), p.1.clone()));
        k = k + 1;
    }
    proof {
        assert(pairs_view(r@) =~= pairs_view(ps@));
    }
    r
}

/// The wire bytes of a payload's field list.
fn doc_to_bytes(d: &Vec<(String, FieldVal)>) -> (out: Vec<u8>)
    ensures
        out@ == vstd::utf8::encode_utf8(emit_doc(doc_view(d@))),
{
    let chars = crate::jsondoc::emit_doc_x(d);
    let s = crate::chars::string_from_chars(&chars);
    vstd::slice::slice_to_vec(s.as_str().as_bytes())
}

/// Encode a request into its wire bytes for the given mode.
pub fn encode_request(r: &Request, mode: Mode) -> (out: Vec<u8>)
    ensures
        out@ == req_enc(r@, mode),
{
    let mut d: Vec<(String, FieldVal)> = Vec::new();
    if mode == Mode::Canonical {
        d.push(
            (String::from_str("jsonrpc"), FieldVal::Scalar(Value::Str(String::from_str("2.0")))),
        );
    }
    match &r.id {
        Some(id) => {
            let key = if mode == Mode::Canonical {
                String::from_str("id")
            } else {
                String::from_str("i")
            };
            d.push((key, FieldVal::Scalar(id.clone())));
        },
        None => {},
    }
    let mkey = if mode == Mode::Canonical {
        String::from_str("method")
    } else {
        String::from_str("m")
    };
    d.push((mkey, FieldVal::Scalar(Value::Str(r.method.name.clone()))));
    let pkey = if mode == Mode::Canonical {
        String::from_str("params")
    } else {
        String::from_str("p")
    };
    d.push((pkey, FieldVal::Object(clone_params(&r.method.params))));
    proof {
        assert(doc_view(d@) =~= req_to_doc(r@, mode));
    }
    doc_to_bytes(&d)
}

/// Encode a response into its wire bytes for the given mode.
pub fn encode_response(r: &Response, mode: Mode) -> (out: Vec<u8>)
    ensures
        out@ == resp_enc(r@, mode),
{
    let mut d: Vec<(String, FieldVal)> = Vec::new();
    if mode == Mode::Canonical {
        d.push(
            (String::from_str("jsonrpc"), FieldVal::Scalar(Value::Str(String::from_str("2.0")))),
        );
    }
    let ikey = if mode == Mode::Canonical {
        String::from_str("id")
    } else {
        String::from_str("i")
    };
    d.push((ikey, FieldVal::Scalar(r.id.clone())));
    match &r.handler_response {
        HandlerResponse::Data(v) => {
            let rkey = if mode == Mode::Canonical {
                String::from_str("result")
            } else {
                String::from_str("r")
            };
            d.push((rkey, FieldVal::Scalar(v.clone())));
        },
        HandlerResponse::Error(e) => {
            let mut ep: Vec<(String, Value)> = Vec::new();
            let code: i16 = i16::from(e.kind);
            let cv: Value = if code >= 0 {
                Value::UInt(code as u64)
            } else {
                Value::Int(code as i64)
            };
            ep.push((String::from_str("code"), cv));
            match &e.message {
                Some(m) => {
                    ep.push((String::from_str("message"), Value::Str(m.clone())));
                },
                None => {},
            }
            proof {
                assert(pairs_view(ep@) =~= err_pairs(e@));
            }
            let ekey = if mode == Mode::Canonical {
                String::from_str("error")
            } else {
                String::from_str("e")
            };
            d.push((ekey, FieldVal::Object(ep)));
        },
    }
    proof {
        assert(doc_view(d@) =~= resp_to_doc(r@, mode));
    }
    doc_to_bytes(&d)
}

/// Executable request decode state.
struct ReqAccX {
    seen_marker: bool,
    seen_id: bool,
    id: Option<Value>,
    name: Option<String>,
    params: Option<Vec<(String, Value)>>,
}

/// Model of the executable request decode state.
spec fn req_accx_view(a: ReqAccX) -> ReqAcc {
    ReqAcc {
        seen_marker: a.seen_marker,
        seen_id: a.seen_id,
        id: match a.id {
            Some(v) => Some(v@),
            None => None,
        },
        name: match a.name {
            Some(n) => Some(n@),
            None => None,
        },
        params: match a.params {
            Some(ps) => Some(pairs_view(ps@)),
            None => None,
        },
    }
}

/// Executable step over one request field.
fn req_field_x(k: &String, v: &FieldVal, acc: ReqAccX, mode: Mode) -> (res: Option<ReqAccX>)
    ensures
        match res {
            Some(a) => req_field(k@, v@, req_accx_view(acc), mode) == Some(req_accx_view(a)),
            None => req_field(k@, v@, req_accx_view(acc), mode) is None,
        },
{
    let marker = String::from_str("jsonrpc");
    if *k == marker {
        if acc.seen_marker {
            None
        } else {
            match v {
                FieldVal::Scalar(Value::Str(m)) => {
                    let ver = String::from_str("2.0");
                    if mode == Mode::Canonical && !(*m == ver) {
                        None
                    } else {
                        Some(ReqAccX { seen_marker: true, ..acc })
                    }
                },
                FieldVal::Scalar(Value::Null) => Some(ReqAccX { seen_marker: true, ..acc }),
                _ => None,
            }
        }
    } else {
        let short_id = String::from_str("i");
        let id_hit = if mode == Mode::Canonical {
            *k == String::from_str("id") || *k == short_id
        } else {
            *k == short_id
        };
        if id_hit {
            if acc.seen_id {
                None
            } else {
                match v {
                    FieldVal::Scalar(x) => {
                        let id = match x {
                            Value::Null => None,
                            _ => Some(x.clone()),
                        };
                        Some(ReqAccX { seen_id: true, id, ..acc })
                    },
                    _ => None,
                }
            }
        } else {
            let mkey = if mode == Mode::Canonical {
                String::from_str("method")
            } else {
                String::from_str("m")
            };
            if *k == mkey {
                if acc.name.is_some() {
                    None
                } else {
                    match v {
                        FieldVal::Scalar(Value::Str(n)) => Some(
                            ReqAccX { name: Some(n.clone()), ..acc },
                        ),
                        _ => None,
                    }
                }
            } else {
                let pkey = if mode == Mode::Canonical {
                    String::from_str("params")
                } else {
                    String::from_str("p")
                };
                if *k == pkey {
                    if acc.params.is_some() {
                        None
                    } else {
                        match v {
                            FieldVal::Object(ps) => Some(
                                ReqAccX { params: Some(clone_params(ps)), ..acc },
                            ),
                            _ => None,
                        }
                    }
                } else {
                    None
                }
            }
        }
    }
}

/// Executable walk over a request's fields, from field `k` on.
fn req_fold_x(d: &Vec<(String, FieldVal)>, k: usize, acc: ReqAccX, mode: Mode) -> (res: Option<
    ReqAccX,
>)
    requires
        k <= d@.len(),
    ensures
        match res {
            Some(a) => req_fold(doc_view(d@).skip(k as int), req_accx_view(acc), mode) == Some(
                req_accx_view(a),
            ),
            None => req_fold(doc_view(d@).skip(k as int), req_accx_view(acc), mode) is None,
        },
    decreases d@.len() - k,
{
    if k == d.len() {
        proof {
            assert(doc_view(d@).skip(k as int) =~= Seq::<(Seq<char>, FieldValV)>::empty());
        }
        return Some(acc);
    }
    let ghost dv = doc_view(d@).skip(k as int);
    proof {
        assert(dv[0] == (d@[k as int].0@, d@[k as int].1@));
        assert(dv.drop_first() =~= doc_view(d@).skip(k as int + 1));
    }
    let p = &d[k];
    match req_field_x(&p.0, &p.1, acc, mode) {
        None => None,
        Some(acc2) => req_fold_x(d, k + 1, acc2, mode),
    }
}

/// Decode a request from its wire bytes for the given mode; the error
/// carries a human-readable description only.
pub fn decode_request(b: &[u8], mode: Mode) -> (res: Result<Request, String>)
    ensures
        match res {
            Ok(r) => req_dec(b@, mode) == Some(r@) && r@.wf(),
            Err(_) => req_dec(b@, mode) is None,
        },
{
    let s = match crate::chars::str_of_bytes(b) {
        Some(s) => s,
        None => {
            return Err(String::from_str("payload is not valid UTF-8"));
        },
    };
    let cs = crate::chars::chars_of_str(s);
    let d = match crate::jsondoc::parse_doc_x(&cs) {
        Some(d) => d,
        None => {
            return Err(String::from_str("payload is not a JSON object"));
        },
    };
    let acc0 = ReqAccX { seen_marker: false, seen_id: false, id: None, name: None, params: None };
    proof {
        assert(doc_view(d@).skip(0) =~= doc_view(d@));
    }
    let acc = match req_fold_x(&d, 0, acc0, mode) {
        Some(a) => a,
        None => {
            return Err(String::from_str("invalid request envelope"));
        },
    };
    match acc.name {
        None => Err(String::from_str("the method is missing")),
        Some(name) => {
            let params = match acc.params {
                Some(ps) => ps,
                None => Vec::new(),
            };
            let r = Request { id: acc.id, method: Method { name, params } };
            proof {
                let rv = req_from_doc(doc_view(d@), mode)->Some_0;
                assert(r@.method.params =~= rv.method.params);
                assert(req_dec(b@, mode) == Some(r@));
                lemma_req_dec_wf(b@, mode);
            }
            Ok(r)
        },
    }
}

/// Executable error-object decode state.
struct ErrAccX {
    code: Option<i16>,
    seen_msg: bool,
    message: Option<String>,
}

/// Model of the executable error-object decode state.
spec fn err_accx_view(a: ErrAccX) -> ErrAcc {
    ErrAcc {
        code: a.code,
        seen_msg: a.seen_msg,
        message: match a.message {
            Some(m) => Some(m@),
            None => None,
        },
    }
}

/// Executable step over one error-object member.
fn err_field_x(k: &String, v: &Value, acc: ErrAccX) -> (res: Option<ErrAccX>)
    ensures
        match res {
            Some(a) => err_field(k@, v@, err_accx_view(acc)) == Some(err_accx_view(a)),
            None => err_field(k@, v@, err_accx_view(acc)) is None,
        },
{
    let ckey = String::from_str("code");
    if *k == ckey {
        if acc.code.is_some() {
            None
        } else {
            match v {
                Value::UInt(n) => {
                    if *n <= 32767 {
                        Some(ErrAccX { code: Some(*n as i16), ..acc })
                    } else {
                        None
                    }
                },
                Value::Int(n) => {
                    if -32768 <= *n && *n <= 32767 {
                        Some(ErrAccX { code: Some(*n as i16), ..acc })
                    } else {
                        None
                    }
                },
                _ => None,
            }
        }
    } else {
        let mkey = String::from_str("message");
        if *k == mkey {
            if acc.seen_msg {
                None
            } else {
                match v {
                    Value::Str(m) => Some(
                        ErrAccX { seen_msg: true, message: Some(m.clone()), ..acc },
                    ),
                    Value::Null => Some(ErrAccX { seen_msg: true, message: None, ..acc }),
                    _ => None,
                }
            }
        } else {
            Some(acc)
        }
    }
}

/// Executable walk over an error object's members, from member `k` on.
fn err_fold_x(ps: &Vec<(String, Value)>, k: usize, acc: ErrAccX) -> (res: Option<ErrAccX>)
    requires
        k <= ps@.len(),
    ensures
        match res {
            Some(a) => err_fold(pairs_view(ps@).skip(k as int), err_accx_view(acc)) == Some(
                err_accx_view(a),
            ),
            None => err_fold(pairs_view(ps@).skip(k as int), err_accx_view(acc)) is None,
        },
    decreases ps@.len() - k,
{
    if k == ps.len() {
        proof {
            assert(pairs_view(ps@).skip(k as int) =~= Seq::<(Seq<char>, ValueV)>::empty());
        }
        return Some(acc);
    }
    let ghost pv = pairs_view(ps@).skip(k as int);
    proof {
        assert(pv[0] == (ps@[k as int].0@, ps@[k as int].1@));
        assert(pv.drop_first() =~= pairs_view(ps@).skip(k as int + 1));
    }
    let p = &ps[k];
    match err_field_x(&p.0, &p.1, acc) {
        None => None,
        Some(acc2) => err_fold_x(ps, k + 1, acc2),
    }
}

/// Executable decode of an error object's members.
fn err_from_pairs_x(ps: &Vec<(String, Value)>) -> (res: Option<RpcError>)
    ensures
        match res {
            Some(e) => err_from_pairs(pairs_view(ps@)) == Some(e@),
            None => err_from_pairs(pairs_view(ps@)) is None,
        },
{
    let acc0 = ErrAccX { code: None, seen_msg: false, message: None };
    proof {
        assert(pairs_view(ps@).skip(0) =~= pairs_view(ps@));
    }
    match err_fold_x(ps, 0, acc0) {
        None => None,
        Some(acc) => match acc.code {
            None => None,
            Some(c) => {
                let kind = RpcErrorKind::from(c);
                match acc.message {
                    Some(m) => Some(RpcError::new(kind, m)),
                    None => Some(RpcError::new0(kind)),
                }
            },
        },
    }
}

/// Executable response decode state.
struct RespAccX {
    seen_marker: bool,
    id: Option<Value>,
    outcome: Option<HandlerResponse>,
}

/// Model of the executable response decode state.
spec fn resp_accx_view(a: RespAccX) -> RespAcc {
    RespAcc {
        seen_marker: a.seen_marker,
        id: match a.id {
            Some(v) => Some(v@),
            None => None,
        },
        outcome: match a.outcome {
            Some(o) => Some(o@),
            None => None,
        },
    }
}

/// Executable step over one response field.
fn resp_field_x(k: &String, v: &FieldVal, acc: RespAccX, mode: Mode) -> (res: Option<RespAccX>)
    ensures
        match res {
            Some(a) => resp_field(k@, v@, resp_accx_view(acc), mode) == Some(resp_accx_view(a)),
            None => resp_field(k@, v@, resp_accx_view(acc), mode) is None,
        },
{
    let marker = String::from_str("jsonrpc");
    if *k == marker {
        if acc.seen_marker {
            None
        } else {
            match v {
                FieldVal::Scalar(Value::Str(m)) => {
                    let ver = String::from_str("2.0");
                    if mode == Mode::Canonical && !(*m == ver) {
                        None
                    } else {
                        Some(RespAccX { seen_marker: true, ..acc })
                    }
                },
                FieldVal::Scalar(Value::Null) => Some(RespAccX { seen_marker: true, ..acc }),
                _ => None,
            }
        }
    } else {
        let short_id = String::from_str("i");
        let id_hit = if mode == Mode::Canonical {
            *k == String::from_str("id") || *k == short_id
        } else {
            *k == short_id
        };
        if id_hit {
            if acc.id.is_some() {
                None
            } else {
                match v {
                    FieldVal::Scalar(x) => Some(RespAccX { id: Some(x.clone()), ..acc }),
                    _ => None,
                }
            }
        } else {
            let short_r = String::from_str("r");
            let result_hit = if mode == Mode::Canonical {
                *k == String::from_str("result") || *k == short_r
            } else {
                *k == short_r
            };
            if result_hit {
                if acc.outcome.is_some() {
                    None
                } else {
                    match v {
                        FieldVal::Scalar(x) => Some(
                            RespAccX { outcome: Some(HandlerResponse::Data(x.clone())), ..acc },
                        ),
                        _ => None,
                    }
                }
            } else {
                let short_e = String::from_str("e");
                let error_hit = if mode == Mode::Canonical {
                    *k == String::from_str("error") || *k == short_e
                } else {
                    *k == short_e
                };
                if error_hit {
                    if acc.outcome.is_some() {
                        None
                    } else {
                        match v {
                            FieldVal::Object(ps) => match err_from_pairs_x(ps) {
                                Some(e) => Some(
                                    RespAccX {
                                        outcome: Some(HandlerResponse::Error(e)),
                                        ..acc
                                    },
                                ),
                                None => None,
                            },
                            _ => None,
                        }
                    }
                } else {
                    None
                }
            }
        }
    }
}

/// Executable walk over a response's fields, from field `k` on.
fn resp_fold_x(d: &Vec<(String, FieldVal)>, k: usize, acc: RespAccX, mode: Mode) -> (res: Option<
    RespAccX,
>)
    requires
        k <= d@.len(),
    ensures
        match res {
            Some(a) => resp_fold(doc_view(d@).skip(k as int), resp_accx_view(acc), mode) == Some(
                resp_accx_view(a),
            ),
            None => resp_fold(doc_view(d@).skip(k as int), resp_accx_view(acc), mode) is None,
        },
    decreases d@.len() - k,
{
    if k == d.len() {
        proof {
            assert(doc_view(d@).skip(k as int) =~= Seq::<(Seq<char>, FieldValV)>::empty());
        }
        return Some(acc);
    }
    let ghost dv = doc_view(d@).skip(k as int);
    proof {
        assert(dv[0] == (d@[k as int].0@, d@[k as int].1@));
        assert(dv.drop_first() =~= doc_view(d@).skip(k as int + 1));
    }
    let p = &d[k];
    match resp_field_x(&p.0, &p.1, acc, mode) {
        None => None,
        Some(acc2) => resp_fold_x(d, k + 1, acc2, mode),
    }
}

/// Decode a response from its wire bytes for the given mode; the error
/// carries a human-readable description only.
pub fn decode_response(b: &[u8], mode: Mode) -> (res: Result<Response, String>)
    ensures
        match res {
            Ok(r) => resp_dec(b@, mode) == Some(r@) && r@.wf(),
            Err(_) => resp_dec(b@, mode) is None,
        },
{
    let s = match crate::chars::str_of_bytes(b) {
        Some(s) => s,
        None => {
            return Err(String::from_str("payload is not valid UTF-8"));
        },
    };
    let cs = crate::chars::chars_of_str(s);
    let d = match crate::jsondoc::parse_doc_x(&cs) {
        Some(d) => d,
        None => {
            return Err(String::from_str("payload is not a JSON object"));
        },
    };
    let acc0 = RespAccX { seen_marker: false, id: None, outcome: None };
    proof {
        assert(doc_view(d@).skip(0) =~= doc_view(d@));
    }
    let acc = match resp_fold_x(&d, 0, acc0, mode) {
        Some(a) => a,
        None => {
            return Err(String::from_str("invalid response envelope"));
        },
    };
    match (acc.id, acc.outcome) {
        (Some(id), Some(outcome)) => {
            let r = Response { id, handler_response: outcome };
            proof {
                assert(resp_dec(b@, mode) == Some(r@));
                lemma_resp_dec_wf(b@, mode);
            }
            Ok(r)
        },
        _ => Err(String::from_str("invalid response envelope")),
    }
}

/// Executable recovery decode state.
struct InvAccX {
    seen_marker: bool,
    marker: Option<String>,
    seen_id: bool,
    id: Option<Value>,
}

/// Model of the executable recovery decode state.
spec fn inv_accx_view(a: InvAccX) -> InvAcc {
    InvAcc {
        seen_marker: a.seen_marker,
        marker: match a.marker {
            Some(m) => Some(m@),
            None => None,
        },
        seen_id: a.seen_id,
        id: match a.id {
            Some(v) => Some(v@),
            None => None,
        },
    }
}

/// Executable step over one field of the recovery decode.
fn inv_field_x(k: &String, v: &FieldVal, acc: InvAccX, mode: Mode) -> (res: Option<InvAccX>)
    ensures
        match res {
            Some(a) => inv_field(k@, v@, inv_accx_view(acc), mode) == Some(inv_accx_view(a)),
            None => inv_field(k@, v@, inv_accx_view(acc), mode) is None,
        },
{
    let marker = String::from_str("jsonrpc");
    if *k == marker {
        if acc.seen_marker {
            None
        } else {
            match v {
                FieldVal::Scalar(Value::Str(m)) => Some(
                    InvAccX { seen_marker: true, marker: Some(m.clone()), ..acc },
                ),
                FieldVal::Scalar(Value::Null) => Some(
                    InvAccX { seen_marker: true, marker: None, ..acc },
                ),
                _ => None,
            }
        }
    } else {
        let ikey = if mode == Mode::Canonical {
            String::from_str("id")
        } else {
            String::from_str("i")
        };
        if *k == ikey {
            if acc.seen_id {
                None
            } else {
                match v {
                    FieldVal::Scalar(x) => {
                        let id = match x {
                            Value::Null => None,
                            _ => Some(x.clone()),
                        };
                        Some(InvAccX { seen_id: true, id, ..acc })
                    },
                    _ => None,
                }
            }
        } else {
            Some(acc)
        }
    }
}

/// Executable walk over an undecodable payload's fields, from field `k`
/// on.
fn inv_fold_x(d: &Vec<(String, FieldVal)>, k: usize, acc: InvAccX, mode: Mode) -> (res: Option<
    InvAccX,
>)
    requires
        k <= d@.len(),
    ensures
        match res {
            Some(a) => inv_fold(doc_view(d@).skip(k as int), inv_accx_view(acc), mode) == Some(
                inv_accx_view(a),
            ),
            None => inv_fold(doc_view(d@).skip(k as int), inv_accx_view(acc), mode) is None,
        },
    decreases d@.len() - k,
{
    if k == d.len() {
        proof {
            assert(doc_view(d@).skip(k as int) =~= Seq::<(Seq<char>, FieldValV)>::empty());
        }
        return Some(acc);
    }
    let ghost dv = doc_view(d@).skip(k as int);
    proof {
        assert(dv[0] == (d@[k as int].0@, d@[k as int].1@));
        assert(dv.drop_first() =~= doc_view(d@).skip(k as int + 1));
    }
    let p = &d[k];
    match inv_field_x(&p.0, &p.1, acc, mode) {
        None => None,
        Some(acc2) => inv_fold_x(d, k + 1, acc2, mode),
    }
}

/// Decode the minimal recovery shape from wire bytes: the optional marker
/// and identifier, with everything else ignored.
pub fn decode_invalid(b: &[u8], mode: Mode) -> (res: Option<InvalidRequest>)
    ensures
        match res {
            Some(inv) => inv_dec(b@, mode) == Some(inv@),
            None => inv_dec(b@, mode) is None,
        },
{
    let s = match crate::chars::str_of_bytes(b) {
        Some(s) => s,
        None => {
            return None;
        },
    };
    let cs = crate::chars::chars_of_str(s);
    let d = match crate::jsondoc::parse_doc_x(&cs) {
        Some(d) => d,
        None => {
            return None;
        },
    };
    let acc0 = InvAccX { seen_marker: false, marker: None, seen_id: false, id: None };
    proof {
        assert(doc_view(d@).skip(0) =~= doc_view(d@));
    }
    match inv_fold_x(&d, 0, acc0, mode) {
        None => None,
        Some(acc) => Some(InvalidRequest { jsonrpc: acc.marker, id: acc.id }),
    }
}

} // verus!
