//! Query-string and minimal-HTTP-response views over the message model.

use vstd::prelude::*;
use vstd::string::StringExecFns;

use crate::jsondoc::emit_doc;
use crate::jsondoc::pairs_view;
use crate::jsondoc::DocV;
use crate::jsondoc::FieldVal;
use crate::jsondoc::FieldValV;
use crate::jsontext::digit_run_end;
use crate::jsontext::digits_value;
use crate::jsontext::emit_scalar;
use crate::jsontext::parse_scalar;
use crate::jsontext::parse_scalar_x;
use crate::jsontext::push_scalar;
use crate::jsontext::skip_ws;
use crate::jsontext::skip_ws_x;
use crate::request::Method;
use crate::request::MethodV;
use crate::request::Request;
use crate::request::RequestV;
use crate::response::HandlerResponse;
use crate::response::HandlerResponseV;
use crate::response::Response;
use crate::value::Value;
use crate::value::ValueV;
use crate::wire::error_key;
use crate::wire::err_pairs;
use crate::wire::result_key;
use crate::Mode;

verus! {

/// HTTP tools error type.  Errors carry a human-readable description only.
#[derive(Debug)]
pub enum Error {
    /// A value could not be serialized.
    Serialization(String),
    /// The data was structurally invalid.
    InvalidData(String),
}

/// What `url::form_urlencoded::parse` yields on a query string: its
/// name/value pairs, percent-decoded, in order.  The result depends on the
/// input alone.
pub uninterp spec fn query_pairs_of(s: Seq<char>) -> Seq<(Seq<char>, Seq<char>)>;

/// Relies on `url::form_urlencoded::parse`: it splits the input on `&` and
/// `=` and percent-decodes names and values, with `+` decoding to a space.
#[verifier::external_body]
fn parse_query_pairs(s: &str) -> (r: Vec<(String, String)>)
    ensures
        r@.map_values(|p: (String, String)| (p.0@, p.1@)) == query_pairs_of(s@),
{
    url::form_urlencoded::parse(s.as_bytes()).into_owned().collect()
}

/// What `url::form_urlencoded::Serializer` produces from name/value pairs:
/// the pairs percent-encoded and joined with `=` and `&`.  The result
/// depends on the pairs alone.
pub uninterp spec fn query_encoding_of(pairs: Seq<(Seq<char>, Seq<char>)>) -> Seq<char>;

/// Relies on `url::form_urlencoded::Serializer`: it percent-encodes each
/// pair (a space becoming `+`) and joins them with `=` and `&`.
#[verifier::external_body]
fn encode_query_pairs(pairs: &Vec<(String, String)>) -> (r: String)
    ensures
        r@ == query_encoding_of(pairs@.map_values(|p: (String, String)| (p.0@, p.1@))),
{
    url::form_urlencoded::Serializer::new(String::new()).extend_pairs(
        pairs.iter().map(|p| (&p.0, &p.1)),
    ).finish()
}

/// Query-string representation of a request, as
/// `i=<id>&m=<method>&<param>=<value>&...`, identifier first when present.
///
/// Booleans (`true`/`false`), integers and `null` in parameter values are
/// recognized when decoding.
#[derive(Debug)]
pub struct QueryString {
    /// The query-string text.
    pub text: String,
}

impl View for QueryString {
    type V = Seq<char>;

    open spec fn view(&self) -> Seq<char> {
        self.text@
    }
}

/// Model of a vector of name/value text pairs.
pub open spec fn qpairs_view(ps: Seq<(String, String)>) -> Seq<(Seq<char>, Seq<char>)> {
    ps.map_values(|p: (String, String)| (p.0@, p.1@))
}

/// Appending a text pair appends its model.
proof fn lemma_qpairs_push(prev: Seq<(String, String)>, x: (String, String))
    ensures
        qpairs_view(prev.push(x)) == qpairs_view(prev).push((x.0@, x.1@)),
{
    assert(qpairs_view(prev.push(x)) =~= qpairs_view(prev).push((x.0@, x.1@))) by {
        assert forall|j: int| 0 <= j < prev.len() + 1 implies qpairs_view(prev.push(x))[j]
            == qpairs_view(prev).push((x.0@, x.1@))[j] by {
            if j < prev.len() {
                assert(prev.push(x)[j] == prev[j]);
            } else {
                assert(prev.push(x)[j] == x);
            }
        }
    }
}

/// Appending a named scalar appends its model.
proof fn lemma_pairs_push(prev: Seq<(String, Value)>, x: (String, Value))
    ensures
        pairs_view(prev.push(x)) == pairs_view(prev).push((x.0@, x.1@)),
{
    assert(pairs_view(prev.push(x)) =~= pairs_view(prev).push((x.0@, x.1@))) by {
        assert forall|j: int| 0 <= j < prev.len() + 1 implies pairs_view(prev.push(x))[j]
            == pairs_view(prev).push((x.0@, x.1@))[j] by {
            if j < prev.len() {
                assert(prev.push(x)[j] == prev[j]);
            } else {
                assert(prev.push(x)[j] == x);
            }
        }
    }
}

/// The plain text of a scalar parameter value: strings are unquoted, the
/// rest as on the JSON wire.
pub open spec fn value_text(v: ValueV) -> Seq<char> {
    match v {
        ValueV::Str(s) => s,
        _ => emit_scalar(v),
    }
}

/// The query-string pairs of a request: the identifier (as its JSON text)
/// first when present, the method tag second, then one pair per parameter.
pub open spec fn req_query_pairs(r: RequestV) -> Seq<(Seq<char>, Seq<char>)> {
    let idp: Seq<(Seq<char>, Seq<char>)> = match r.id {
        Some(v) => seq![("i"@, emit_scalar(v))],
        None => Seq::empty(),
    };
    idp + seq![("m"@, r.method.name)] + r.method.params.map_values(
        |p: (Seq<char>, ValueV)| (p.0, value_text(p.1)),
    )
}

/// The query-string text of a request.
pub open spec fn req_to_query(r: RequestV) -> Seq<char> {
    query_encoding_of(req_query_pairs(r))
}

/// The scalar inferred from a parameter value's text: the boolean and null
/// words, then unsigned and signed integers, then the text itself.
pub open spec fn query_value(s: Seq<char>) -> ValueV {
    if s == "true"@ {
        ValueV::Bool(true)
    } else if s == "false"@ {
        ValueV::Bool(false)
    } else if s == "null"@ {
        ValueV::Null
    } else if s.len() > 0 && digit_run_end(s, 0) == s.len() && digits_value(s, 0, s.len() as int)
        <= u64::MAX {
        ValueV::UInt(digits_value(s, 0, s.len() as int) as u64)
    } else if s.len() > 1 && s[0] == '-' && digit_run_end(s, 1) == s.len() && digits_value(
        s,
        1,
        s.len() as int,
    ) <= 0x8000_0000_0000_0000 {
        if digits_value(s, 1, s.len() as int) == 0 {
            ValueV::UInt(0)
        } else {
            ValueV::Int((-(digits_value(s, 1, s.len() as int) as int)) as i64)
        }
    } else {
        ValueV::Str(s)
    }
}

/// An identifier parsed from its JSON text: one scalar, surrounded by
/// nothing but whitespace.
pub open spec fn id_json_value(s: Seq<char>) -> Option<ValueV> {
    match parse_scalar(s, skip_ws(s, 0)) {
        Some((v, j)) => if skip_ws(s, j) == s.len() {
            Some(v)
        } else {
            None
        },
        None => None,
    }
}

/// Insert or replace a named parameter, scanning from position `i`: the
/// first member with the same name is replaced in place, and a new name is
/// appended.
pub open spec fn upsert_from(
    ps: Seq<(Seq<char>, ValueV)>,
    key: Seq<char>,
    v: ValueV,
    i: int,
) -> Seq<(Seq<char>, ValueV)>
    decreases ps.len() - i,
{
    if i < 0 || i >= ps.len() {
        ps.push((key, v))
    } else if ps[i].0 == key {
        ps.update(i, (key, v))
    } else {
        upsert_from(ps, key, v, i + 1)
    }
}

/// Decode state while walking a query string's pairs.
pub struct QAcc {
    /// The identifier, once seen first.
    pub id: Option<ValueV>,
    /// The method tag, once seen.
    pub name: Option<Seq<char>>,
    /// The named parameters collected so far.
    pub params: Seq<(Seq<char>, ValueV)>,
}

/// One query-string pair: `i` in first position carries the identifier as
/// JSON text (anything else rejects the input); the first `m` carries the
/// method tag; every other pair is a parameter with its scalar inferred
/// from the text.
pub open spec fn q_step(p: (Seq<char>, Seq<char>), acc: QAcc, first: bool) -> Option<QAcc> {
    if p.0 == "i"@ && first {
        match id_json_value(p.1) {
            Some(v) => Some(QAcc { id: Some(v), ..acc }),
            None => None,
        }
    } else if p.0 == "m"@ && acc.name is None {
        Some(QAcc { name: Some(p.1), ..acc })
    } else {
        Some(QAcc { params: upsert_from(acc.params, p.0, query_value(p.1), 0), ..acc })
    }
}

/// Walk a query string's pairs.
pub open spec fn q_fold(ps: Seq<(Seq<char>, Seq<char>)>, acc: QAcc, idx: int) -> Option<QAcc>
    decreases ps.len(),
{
    if ps.len() == 0 {
        Some(acc)
    } else {
        match q_step(ps[0], acc, idx == 0) {
            None => None,
            Some(acc2) => q_fold(ps.drop_first(), acc2, idx + 1),
        }
    }
}

/// Unfolding of `q_fold` on a nonempty pair list whose first step fails.
proof fn lemma_q_fold_none(ps: Seq<(Seq<char>, Seq<char>)>, acc: QAcc, idx: int)
    requires
        ps.len() > 0,
        q_step(ps[0], acc, idx == 0) is None,
    ensures
        q_fold(ps, acc, idx) is None,
{
}

/// A request from a query string: the method tag is required; without an
/// identifier the request is fire-and-forget.
pub open spec fn req_from_query(s: Seq<char>) -> Option<RequestV> {
    match q_fold(query_pairs_of(s), QAcc { id: None, name: None, params: Seq::empty() }, 0) {
        None => None,
        Some(acc) => match acc.name {
            None => None,
            Some(n) => Some(RequestV { id: acc.id, method: MethodV { name: n, params: acc.params } }),
        },
    }
}

/// The plain text of a scalar parameter value.
fn value_text_x(v: &Value) -> (r: String)
    ensures
        r@ == value_text(v@),
{
    match v {
        Value::Str(s) => s.clone(),
        _ => {
            let mut out: Vec<char> = Vec::new();
            push_scalar(v, &mut out);
            crate::chars::string_from_chars(&out)
        },
    }
}

impl QueryString {
    /// Create a query string from its text.
    pub fn new(s: &str) -> (r: Self)
        ensures
            r@ == s@,
    {
        QueryString { text: s.to_owned() }
    }

    /// The query-string text.
    pub fn as_str(&self) -> (r: &str)
        ensures
            r@ == self@,
    {
        self.text.as_str()
    }

    /// Take the query-string text.
    pub fn into_string(self) -> (r: String)
        ensures
            r@ == self@,
    {
        self.text
    }

    /// Encode a request as a query string.  Every value of the message
    /// model encodes; the `Result` mirrors the fallibility of the
    /// interface.
    pub fn from_request(req: &Request) -> (res: Result<QueryString, Error>)
        ensures
            res matches Ok(qs) && qs@ == req_to_query(req@),
    {
        let ghost full = req_query_pairs(req@);
        let ghost base = full.len() - req.method.params@.len();
        let mut pairs: Vec<(String, String)> = Vec::new();
        match &req.id {
            Some(id) => {
                let ghost prev = pairs@;
                let mut out: Vec<char> = Vec::new();
                push_scalar(id, &mut out);
                pairs.push((String::from_str("i"), crate::chars::string_from_chars(&out)));
                proof {
                    lemma_qpairs_push(prev, (pairs@[0].0, pairs@[0].1));
                }
            },
            None => {},
        }
        let ghost prev = pairs@;
        pairs.push((String::from_str("m"), req.method.name.clone()));
        proof {
            lemma_qpairs_push(prev, (pairs@[pairs@.len() - 1].0, pairs@[pairs@.len() - 1].1));
            if req@.id is Some {
                assert(full[0] == ("i"@, emit_scalar(req@.id->Some_0)));
                assert(full[1] == ("m"@, req@.method.name));
            } else {
                assert(full[0] == ("m"@, req@.method.name));
            }
            assert(qpairs_view(pairs@) =~= full.take(base as int));
        }
        let mut k: usize = 0;
        while k < req.method.params.len()
            invariant
                k <= req.method.params@.len(),
                full == req_query_pairs(req@),
                base == full.len() - req.method.params@.len(),
                qpairs_view(pairs@) == full.take(base + k as int),
            decreases req.method.params@.len() - k,
        {
            let ghost prev = pairs@;
            let p = &req.method.params[k];
            pairs.push((p.0.clone(), value_text_x(&p.1)));
            proof {
                lemma_qpairs_push(prev, (pairs@[pairs@.len() - 1].0, pairs@[pairs@.len() - 1].1));
                assert(req@.method.params[k as int] == (req.method.params@[k as int].0@,
                    req.method.params@[k as int].1@));
                assert(full[base + k as int] == (req@.method.params[k as int].0, value_text(
                    req@.method.params[k as int].1,
                )));
                assert(qpairs_view(pairs@) =~= full.take(base + k as int + 1));
            }
            k = k + 1;
        }
        proof {
            assert(full.take(full.len() as int) =~= full);
            assert(pairs@.map_values(|p: (String, String)| (p.0@, p.1@)) == qpairs_view(pairs@));
        }
        Ok(QueryString { text: encode_query_pairs(&pairs) })
    }

    /// Decode a query string into a request: the inverse of encoding,
    /// inferring each parameter's scalar from its text.
    pub fn to_request(&self) -> (res: Result<Request, Error>)
        ensures
            match res {
                Ok(r) => req_from_query(self@) == Some(r@),
                Err(_) => req_from_query(self@) is None,
            },
    {
        let raw = parse_query_pairs(self.text.as_str());
        let mut id: Option<Value> = None;
        let mut name: Option<String> = None;
        let mut params: Vec<(String, Value)> = Vec::new();
        let ghost all = query_pairs_of(self.text@);
        proof {
            assert(all.skip(0) =~= all);
            assert(pairs_view(params@) =~= Seq::<(Seq<char>, ValueV)>::empty());
        }
        let mut k: usize = 0;
        while k < raw.len()
            invariant
                k <= raw@.len(),
                all == query_pairs_of(self.text@),
                raw@.map_values(|p: (String, String)| (p.0@, p.1@)) == all,
                q_fold(all, QAcc { id: None, name: None, params: Seq::empty() }, 0) == q_fold(
                    all.skip(k as int),
                    QAcc {
                        id: match id {
                            Some(ref v) => Some(v@),
                            None => None,
                        },
                        name: match name {
                            Some(ref n) => Some(n@),
                            None => None,
                        },
                        params: pairs_view(params@),
                    },
                    k as int,
                ),
            decreases raw@.len() - k,
        {
            let ghost accv = QAcc {
                id: match id {
                    Some(ref v) => Some(v@),
                    None => None,
                },
                name: match name {
                    Some(ref n) => Some(n@),
                    None => None,
                },
                params: pairs_view(params@),
            };
            let ghost rest = all.skip(k as int);
            proof {
                assert(all.len() == raw@.map_values(|p: (String, String)| (p.0@, p.1@)).len());
                assert(rest[0] == (raw@[k as int].0@, raw@[k as int].1@));
                assert(rest.drop_first() =~= all.skip(k as int + 1));
            }
            let p = &raw[k];
            let ikey = String::from_str("i");
            let mkey = String::from_str("m");
            if p.0 == ikey && k == 0 {
                match parse_id_text(&p.1) {
                    Some(v) => {
                        id = Some(v);
                    },
                    None => {
                        proof {
                            lemma_q_fold_none(rest, accv, k as int);
                            assert(req_from_query(self@) is None);
                        }
                        return Err(Error::Serialization(String::from_str("invalid call id")));
                    },
                }
            } else if p.0 == mkey && name.is_none() {
                name = Some(p.1.clone());
            } else {
                let v = query_value_x(&p.1);
                upsert_x(&mut params, p.0.clone(), v);
            }
            k = k + 1;
        }
        proof {
            assert(all.skip(raw@.len() as int) =~= Seq::<(Seq<char>, Seq<char>)>::empty());
        }
        match name {
            None => Err(Error::InvalidData(String::from_str("the method is missing"))),
            Some(n) => {
                let r = Request { id, method: Method { name: n, params } };
                proof {
                    let rv = req_from_query(self@)->Some_0;
                    assert(r@.method.params =~= rv.method.params);
                }
                Ok(r)
            },
        }
    }
}

/// Parse an identifier's JSON text.
fn parse_id_text(s: &String) -> (r: Option<Value>)
    ensures
        match r {
            Some(v) => id_json_value(s@) == Some(v@),
            None => id_json_value(s@) is None,
        },
{
    let cs = crate::chars::chars_of_str(s.as_str());
    let i = skip_ws_x(&cs, 0);
    match parse_scalar_x(&cs, i) {
        Some((v, j)) => {
            let t = skip_ws_x(&cs, j);
            if t == cs.len() {
                Some(v)
            } else {
                None
            }
        },
        None => None,
    }
}

/// Infer the scalar a parameter value's text denotes.
fn query_value_x(s: &String) -> (r: Value)
    ensures
        r@ == query_value(s@),
{
    let t = String::from_str("true");
    let f = String::from_str("false");
    let z = String::from_str("null");
    if *s == t {
        return Value::Bool(true);
    }
    if *s == f {
        return Value::Bool(false);
    }
    if *s == z {
        return Value::Null;
    }
    let cs = crate::chars::chars_of_str(s.as_str());
    if cs.len() > 0 {
        let c0 = cs[0];
        if c0 == '-' {
            match crate::jsontext::parse_u64_x(&cs, 1) {
                Some((m, j)) => {
                    if j == cs.len() && m <= 9223372036854775808 {
                        if m == 0 {
                            return Value::UInt(0);
                        }
                        let v: i64 = if m == 9223372036854775808 {
                            i64::MIN
                        } else {
                            -(m as i64)
                        };
                        return Value::Int(v);
                    }
                },
                None => {},
            }
            proof {
                crate::jsontext::lemma_digit_run_end_bounds(s@, 1);
            }
        } else {
            match crate::jsontext::parse_u64_x(&cs, 0) {
                Some((m, j)) => {
                    if j == cs.len() {
                        return Value::UInt(m);
                    }
                },
                None => {},
            }
            proof {
                crate::jsontext::lemma_digit_run_end_bounds(s@, 0);
            }
        }
    }
    Value::Str(s.clone())
}

/// Insert or replace a named parameter: the first member with the same
/// name is replaced in place, and a new name is appended.
fn upsert_x(ps: &mut Vec<(String, Value)>, key: String, v: Value)
    ensures
        pairs_view(final(ps)@) == upsert_from(pairs_view(old(ps)@), key@, v@, 0),
{
    let ghost full = pairs_view(old(ps)@);
    let mut out: Vec<(String, Value)> = Vec::new();
    let mut replaced = false;
    let mut k: usize = 0;
    while k < ps.len()
        invariant
            k <= ps@.len(),
            ps@ == old(ps)@,
            full == pairs_view(ps@),
            !replaced ==> pairs_view(out@) =~= full.take(k as int) && upsert_from(
                full,
                key@,
                v@,
                0,
            ) == upsert_from(full, key@, v@, k as int),
            replaced ==> upsert_from(full, key@, v@, 0) =~= pairs_view(out@) + full.skip(
                k as int,
            ),
        decreases ps@.len() - k,
    {
        let p = &ps[k];
        let ghost was_replaced = replaced;
        let ghost prev = out@;
        proof {
            assert(full[k as int] == (ps@[k as int].0@, ps@[k as int].1@));
        }
        if !replaced && p.0 == key {
            out.push((key.clone(), v.clone()));
            replaced = true;
            proof {
                lemma_pairs_push(prev, (out@[out@.len() - 1].0, out@[out@.len() - 1].1));
                assert(upsert_from(full, key@, v@, k as int) == full.update(k as int, (key@, v@)));
                assert(full.update(k as int, (key@, v@)) =~= pairs_view(out@) + full.skip(
                    k as int + 1,
                ));
            }
        } else {
            out.push((p.0.clone(), p.1.clone()));
            proof {
                lemma_pairs_push(prev, (out@[out@.len() - 1].0, out@[out@.len() - 1].1));
                if !was_replaced {
                    assert(pairs_view(out@) =~= full.take(k as int + 1));
                } else {
                    assert(pairs_view(out@) + full.skip(k as int + 1) =~= pairs_view(prev)
                        + full.skip(k as int));
                }
            }
        }
        k = k + 1;
    }
    if !replaced {
        out.push((key, v));
        proof {
            assert(full.take(full.len() as int) =~= full);
            assert(pairs_view(out@) =~= upsert_from(full, key@, v@, ps@.len() as int));
        }
    } else {
        proof {
            assert(full.skip(full.len() as int) =~= Seq::<(Seq<char>, ValueV)>::empty());
            assert(pairs_view(out@) =~= upsert_from(full, key@, v@, 0));
        }
    }
    *ps = out;
}

/// The single-field payload carrying a response's outcome alone, with no
/// envelope wrapper.
pub open spec fn outcome_doc(o: HandlerResponseV, mode: Mode) -> DocV {
    match o {
        HandlerResponseV::Data(v) => seq![(result_key(mode), FieldValV::Scalar(v))],
        HandlerResponseV::Error(e) => seq![(error_key(mode), FieldValV::Object(err_pairs(e)))],
    }
}

/// A minimal HTTP response view over a response envelope: a status code, a
/// fixed content type, the identifier in a dedicated header, and the
/// outcome alone as the body.
#[derive(Debug)]
pub struct HttpResponse {
    /// HTTP status code: 200 for a success outcome, 500 for an error.
    pub status: u16,
    /// The response headers, in order.
    pub headers: Vec<(String, String)>,
    /// The response body: the outcome portion alone.
    pub body: String,
}

impl HttpResponse {
    /// Build the HTTP view of a response.  Every response of the message
    /// model converts; the `Result` mirrors the fallibility of the
    /// interface.
    pub fn from_response(response: &Response, mode: Mode) -> (res: Result<HttpResponse, Error>)
        ensures
            res matches Ok(h) && h.status == (if response@.outcome is Data {
                200int
            } else {
                500int
            }) && h.headers@.map_values(|p: (String, String)| (p.0@, p.1@)) == seq![
                ("Content-Type"@, "application/json"@),
                ("X-JSONRPC-ID"@, value_text(response@.id)),
            ] && h.body@ == emit_doc(outcome_doc(response@.outcome, mode)),
    {
        let status: u16 = if response.handler_response.is_ok() {
            200
        } else {
            500
        };
        let mut headers: Vec<(String, String)> = Vec::new();
        headers.push((String::from_str("Content-Type"), String::from_str("application/json")));
        headers.push((String::from_str("X-JSONRPC-ID"), value_text_x(&response.id)));
        let mut doc: Vec<(String, FieldVal)> = Vec::new();
        match &response.handler_response {
            HandlerResponse::Data(v) => {
                let rkey = if mode == Mode::Canonical {
                    String::from_str("result")
                } else {
                    String::from_str("r")
                };
                doc.push((rkey, FieldVal::Scalar(v.clone())));
            },
            HandlerResponse::Error(e) => {
                let mut ep: Vec<(String, Value)> = Vec::new();
                let code: i16 = i16::from(e.kind);
                let cv: Value = if code >= 0 {
                    Value::UInt(code as u64)
                } else {
                    Value::Int(code as i64)
                };
                ep.push((String::from_str("code"), cv));
                match &e.message {
                    Some(m) => {
                        ep.push((String::from_str("message"), Value::Str(m.clone())));
                    },
                    None => {},
                }
                proof {
                    assert(pairs_view(ep@) =~= err_pairs(e@));
                }
                let ekey = if mode == Mode::Canonical {
                    String::from_str("error")
                } else {
                    String::from_str("e")
                };
                doc.push((ekey, FieldVal::Object(ep)));
            },
        }
        proof {
            assert(crate::jsondoc::doc_view(doc@) =~= outcome_doc(response@.outcome, mode));
        }
        let chars = crate::jsondoc::emit_doc_x(&doc);
        let body = crate::chars::string_from_chars(&chars);
        let h = HttpResponse { status, headers, body };
        proof {
            assert(h.headers@.map_values(|p: (String, String)| (p.0@, p.1@)) =~= seq![
                ("Content-Type"@, "application/json"@),
                ("X-JSONRPC-ID"@, value_text(response@.id)),
            ]);
        }
        Ok(h)
    }

    /// The HTTP status code.
    pub fn status(&self) -> (r: u16)
        ensures
            r == self.status,
    {
        self.status
    }

    /// The response headers.
    pub fn headers(&self) -> (r: &Vec<(String, String)>)
        ensures
            r@ == self.headers@,
    {
        &self.headers
    }

    /// The response body.
    pub fn body(&self) -> (r: &str)
        ensures
            r@ == self.body@,
    {
        self.body.as_str()
    }

    /// Append one header.
    pub fn push_header(&mut self, name: String, value: String)
        ensures
            final(self).headers@ == old(self).headers@.push((name, value)),
            final(self).status == old(self).status,
            final(self).body == old(self).body,
    {
        self.headers.push((name, value));
    }

    /// Split the response into its parts.
    pub fn into_parts(self) -> (r: (u16, Vec<(String, String)>, String))
        ensures
            r.0 == self.status,
            r.1@ == self.headers@,
            r.2@ == self.body@,
    {
        (self.status, self.headers, self.body)
    }
}

} // verus!
