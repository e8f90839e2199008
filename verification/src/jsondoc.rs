//! Document layer of the JSON wire text: a payload as one object of named
//! fields, each holding a scalar, an object of scalars, or content that is
//! only skipped over.
//!
//! The envelope decoders interpret the parsed field list; this layer knows
//! nothing of requests or responses.

use vstd::prelude::*;

use crate::jsontext::emit_jstring;
use crate::jsontext::emit_scalar;
use crate::jsontext::escape_str;
use crate::jsontext::is_ws_char;
use crate::jsontext::lemma_dec_digits_shape;
use crate::jsontext::is_digit_char;
use crate::jsontext::lemma_parse_escaped;
use crate::jsontext::lemma_parse_scalar_emitted;
use crate::jsontext::lit_null;
use crate::jsontext::lemma_parse_jstring_body_bounds;
use crate::jsontext::lemma_parse_scalar_bounds;
use crate::jsontext::lemma_skip_ws_bounds;
use crate::jsontext::parse_jstring_body;
use crate::jsontext::parse_scalar;
use crate::jsontext::parse_jstring_x;
use crate::jsontext::parse_scalar_x;
use crate::jsontext::push_jstring;
use crate::jsontext::push_scalar;
use crate::jsontext::skip_ws_x;
use crate::jsontext::is_ws_x;
use crate::jsontext::skip_ws;
use crate::value::Value;
use crate::value::ValueV;

verus! {

/// The value of one top-level field of a payload.
#[derive(Debug)]
pub enum FieldVal {
    /// A scalar value.
    Scalar(Value),
    /// An object whose member values are all scalars.
    Object(Vec<(String, Value)>),
    /// Content of another shape, skipped over without interpretation.
    Other,
}

/// Mathematical model of a [`FieldVal`].
pub enum FieldValV {
    /// A scalar value.
    Scalar(ValueV),
    /// An object whose member values are all scalars.
    Object(Seq<(Seq<char>, ValueV)>),
    /// Content of another shape, skipped over without interpretation.
    Other,
}

impl View for FieldVal {
    type V = FieldValV;

    open spec fn view(&self) -> FieldValV {
        match self {
            FieldVal::Scalar(v) => FieldValV::Scalar(v@),
            FieldVal::Object(ps) => FieldValV::Object(
                ps@.map_values(|p: (String, Value)| (p.0@, p.1@)),
            ),
            FieldVal::Other => FieldValV::Other,
        }
    }
}

/// A payload as a list of named fields, in wire order.
pub type DocV = Seq<(Seq<char>, FieldValV)>;

/// Scalar normalization lifted to object members.
pub open spec fn norm_pairs(ps: Seq<(Seq<char>, ValueV)>) -> Seq<(Seq<char>, ValueV)> {
    ps.map_values(|p: (Seq<char>, ValueV)| (p.0, p.1.norm()))
}

/// Scalar normalization lifted to field values.
pub open spec fn norm_field(v: FieldValV) -> FieldValV {
    match v {
        FieldValV::Scalar(x) => FieldValV::Scalar(x.norm()),
        FieldValV::Object(ps) => FieldValV::Object(norm_pairs(ps)),
        FieldValV::Other => FieldValV::Other,
    }
}

/// Scalar normalization lifted to documents.
pub open spec fn norm_doc(d: DocV) -> DocV {
    d.map_values(|p: (Seq<char>, FieldValV)| (p.0, norm_field(p.1)))
}

/// A field value in canonical form, holding no skipped content.
pub open spec fn field_wf(v: FieldValV) -> bool {
    match v {
        FieldValV::Scalar(x) => x.wf(),
        FieldValV::Object(ps) => forall|k: int| 0 <= k < ps.len() ==> (#[trigger] ps[k].1).wf(),
        FieldValV::Other => false,
    }
}

/// A document in canonical form.
pub open spec fn doc_wf(d: DocV) -> bool {
    forall|k: int| 0 <= k < d.len() ==> field_wf(#[trigger] d[k].1)
}

/// Skip over nested content without interpreting it, tracking bracket depth
/// and string state; yields the position after the content.
pub open spec fn skip_nested(s: Seq<char>, i: int, depth: nat, in_str: bool, esc: bool) -> Option<
    int,
>
    decreases s.len() - i,
{
    if i < 0 || i >= s.len() {
        None
    } else {
        let c = s[i];
        if in_str {
            if esc {
                skip_nested(s, i + 1, depth, true, false)
            } else if c == '\\' {
                skip_nested(s, i + 1, depth, true, true)
            } else if c == '"' {
                if depth == 0 {
                    Some(i + 1)
                } else {
                    skip_nested(s, i + 1, depth, false, false)
                }
            } else {
                skip_nested(s, i + 1, depth, true, false)
            }
        } else {
            if c == '{' || c == '[' {
                skip_nested(s, i + 1, depth + 1, false, false)
            } else if c == '}' || c == ']' {
                if depth == 1 {
                    Some(i + 1)
                } else if depth == 0 {
                    None
                } else {
                    skip_nested(s, i + 1, (depth - 1) as nat, false, false)
                }
            } else if c == '"' {
                skip_nested(s, i + 1, depth, true, false)
            } else {
                skip_nested(s, i + 1, depth, false, false)
            }
        }
    }
}

/// Skipped content ends after its start and within the text.
pub proof fn lemma_skip_nested_bounds(s: Seq<char>, i: int, depth: nat, in_str: bool, esc: bool)
    requires
        skip_nested(s, i, depth, in_str, esc) is Some,
    ensures
        i < skip_nested(s, i, depth, in_str, esc)->Some_0 <= s.len(),
    decreases s.len() - i,
{
    let c = s[i];
    if in_str {
        if esc {
            lemma_skip_nested_bounds(s, i + 1, depth, true, false);
        } else if c == '\\' {
            lemma_skip_nested_bounds(s, i + 1, depth, true, true);
        } else if c == '"' {
            if depth != 0 {
                lemma_skip_nested_bounds(s, i + 1, depth, false, false);
            }
        } else {
            lemma_skip_nested_bounds(s, i + 1, depth, true, false);
        }
    } else {
        if c == '{' || c == '[' {
            lemma_skip_nested_bounds(s, i + 1, depth + 1, false, false);
        } else if c == '}' || c == ']' {
            if depth > 1 {
                lemma_skip_nested_bounds(s, i + 1, (depth - 1) as nat, false, false);
            }
        } else if c == '"' {
            lemma_skip_nested_bounds(s, i + 1, depth, true, false);
        } else {
            lemma_skip_nested_bounds(s, i + 1, depth, false, false);
        }
    }
}

/// End of an unquoted atom: the first delimiter, closing bracket or
/// whitespace at or after `i`.
pub open spec fn atom_end(s: Seq<char>, i: int) -> int
    decreases s.len() - i,
{
    if 0 <= i < s.len() && !(s[i] == ',' || s[i] == '}' || s[i] == ']' || is_ws_char(s[i])) {
        atom_end(s, i + 1)
    } else {
        i
    }
}

/// `atom_end` never moves backwards and stays within the text.
pub proof fn lemma_atom_end_bounds(s: Seq<char>, i: int)
    requires
        0 <= i <= s.len(),
    ensures
        i <= atom_end(s, i) <= s.len(),
    decreases s.len() - i,
{
    if i < s.len() && !(s[i] == ',' || s[i] == '}' || s[i] == ']' || is_ws_char(s[i])) {
        lemma_atom_end_bounds(s, i + 1);
    }
}

/// Skip one field value of any shape; yields the position after it.
pub open spec fn skip_value(s: Seq<char>, i: int) -> Option<int> {
    if i < 0 || i >= s.len() {
        None
    } else if s[i] == '"' {
        skip_nested(s, i + 1, 0, true, false)
    } else if s[i] == '{' || s[i] == '[' {
        skip_nested(s, i + 1, 1, false, false)
    } else {
        let e = atom_end(s, i);
        if e == i {
            None
        } else {
            Some(e)
        }
    }
}

/// A skipped value ends after its start and within the text.
pub proof fn lemma_skip_value_bounds(s: Seq<char>, i: int)
    requires
        skip_value(s, i) is Some,
    ensures
        i < skip_value(s, i)->Some_0 <= s.len(),
{
    if s[i] == '"' {
        lemma_skip_nested_bounds(s, i + 1, 0, true, false);
    } else if s[i] == '{' || s[i] == '[' {
        lemma_skip_nested_bounds(s, i + 1, 1, false, false);
    } else {
        lemma_atom_end_bounds(s, i);
    }
}

/// Parse the members of an object of scalars, starting at the first key and
/// ending just after the closing brace.
pub open spec fn parse_obj_entries(s: Seq<char>, i: int) -> Option<
    (Seq<(Seq<char>, ValueV)>, int),
>
    decreases s.len() - i,
{
    if !(0 <= i < s.len() && s[i] == '"') {
        None
    } else {
        match parse_jstring_body(s, i + 1) {
            None => None,
            Some((key, j)) => {
                proof {
                    lemma_parse_jstring_body_bounds(s, i + 1);
                }
                let j2 = skip_ws(s, j);
                if !(j2 < s.len() && s[j2] == ':') {
                    None
                } else {
                    proof {
                        lemma_skip_ws_bounds(s, j);
                    }
                    let j3 = skip_ws(s, j2 + 1);
                    match parse_scalar(s, j3) {
                        None => None,
                        Some((v, j4)) => {
                            proof {
                                lemma_skip_ws_bounds(s, j2 + 1);
                                lemma_parse_scalar_bounds(s, j3);
                            }
                            let j5 = skip_ws(s, j4);
                            if j5 < s.len() && s[j5] == ',' {
                                let j6 = skip_ws(s, j5 + 1);
                                proof {
                                    lemma_skip_ws_bounds(s, j4);
                                    lemma_skip_ws_bounds(s, j5 + 1);
                                }
                                match parse_obj_entries(s, j6) {
                                    None => None,
                                    Some((rest, j7)) => Some((seq![(key, v)] + rest, j7)),
                                }
                            } else if j5 < s.len() && s[j5] == '}' {
                                Some((seq![(key, v)], j5 + 1))
                            } else {
                                None
                            }
                        },
                    }
                }
            },
        }
    }
}

/// Successfully parsed members end after their start and within the text.
pub proof fn lemma_parse_obj_entries_bounds(s: Seq<char>, i: int)
    requires
        parse_obj_entries(s, i) is Some,
    ensures
        i < parse_obj_entries(s, i)->Some_0.1 <= s.len(),
    decreases s.len() - i,
{
    let (key, j) = parse_jstring_body(s, i + 1)->Some_0;
    lemma_parse_jstring_body_bounds(s, i + 1);
    let j2 = skip_ws(s, j);
    lemma_skip_ws_bounds(s, j);
    let j3 = skip_ws(s, j2 + 1);
    lemma_skip_ws_bounds(s, j2 + 1);
    let (v, j4) = parse_scalar(s, j3)->Some_0;
    lemma_parse_scalar_bounds(s, j3);
    let j5 = skip_ws(s, j4);
    lemma_skip_ws_bounds(s, j4);
    if j5 < s.len() && s[j5] == ',' {
        let j6 = skip_ws(s, j5 + 1);
        lemma_skip_ws_bounds(s, j5 + 1);
        lemma_parse_obj_entries_bounds(s, j6);
    }
}

/// Parse an object of scalars, brace to brace.
pub open spec fn parse_inner_object(s: Seq<char>, i: int) -> Option<
    (Seq<(Seq<char>, ValueV)>, int),
> {
    if 0 <= i < s.len() && s[i] == '{' {
        let j = skip_ws(s, i + 1);
        if j < s.len() && s[j] == '}' {
            Some((Seq::empty(), j + 1))
        } else {
            parse_obj_entries(s, j)
        }
    } else {
        None
    }
}

/// A successfully parsed object ends after its start and within the text.
pub proof fn lemma_parse_inner_object_bounds(s: Seq<char>, i: int)
    requires
        parse_inner_object(s, i) is Some,
    ensures
        i < parse_inner_object(s, i)->Some_0.1 <= s.len(),
{
    let j = skip_ws(s, i + 1);
    lemma_skip_ws_bounds(s, i + 1);
    if !(j < s.len() && s[j] == '}') {
        lemma_parse_obj_entries_bounds(s, j);
    }
}

/// Parse one top-level field value: a scalar, an object of scalars, or
/// anything else skipped over.
pub open spec fn parse_field_val(s: Seq<char>, i: int) -> Option<(FieldValV, int)> {
    if i < 0 || i >= s.len() {
        None
    } else if s[i] == '{' {
        match parse_inner_object(s, i) {
            Some((ps, j)) => Some((FieldValV::Object(ps), j)),
            None => match skip_value(s, i) {
                Some(j) => Some((FieldValV::Other, j)),
                None => None,
            },
        }
    } else {
        match parse_scalar(s, i) {
            Some((v, j)) => Some((FieldValV::Scalar(v), j)),
            None => match skip_value(s, i) {
                Some(j) => Some((FieldValV::Other, j)),
                None => None,
            },
        }
    }
}

/// A successfully parsed field value ends after its start and within the
/// text.
pub proof fn lemma_parse_field_val_bounds(s: Seq<char>, i: int)
    requires
        parse_field_val(s, i) is Some,
    ensures
        i < parse_field_val(s, i)->Some_0.1 <= s.len(),
{
    if s[i] == '{' {
        if parse_inner_object(s, i) is Some {
            lemma_parse_inner_object_bounds(s, i);
        } else {
            lemma_skip_value_bounds(s, i);
        }
    } else {
        if parse_scalar(s, i) is Some {
            lemma_parse_scalar_bounds(s, i);
        } else {
            lemma_skip_value_bounds(s, i);
        }
    }
}

/// Parse the top-level members of a payload, starting at the first key and
/// ending just after the closing brace.
pub open spec fn parse_doc_entries(s: Seq<char>, i: int) -> Option<(DocV, int)>
    decreases s.len() - i,
{
    if !(0 <= i < s.len() && s[i] == '"') {
        None
    } else {
        match parse_jstring_body(s, i + 1) {
            None => None,
            Some((key, j)) => {
                proof {
                    lemma_parse_jstring_body_bounds(s, i + 1);
                }
                let j2 = skip_ws(s, j);
                if !(j2 < s.len() && s[j2] == ':') {
                    None
                } else {
                    proof {
                        lemma_skip_ws_bounds(s, j);
                    }
                    let j3 = skip_ws(s, j2 + 1);
                    match parse_field_val(s, j3) {
                        None => None,
                        Some((v, j4)) => {
                            proof {
                                lemma_skip_ws_bounds(s, j2 + 1);
                                lemma_parse_field_val_bounds(s, j3);
                            }
                            let j5 = skip_ws(s, j4);
                            if j5 < s.len() && s[j5] == ',' {
                                let j6 = skip_ws(s, j5 + 1);
                                proof {
                                    lemma_skip_ws_bounds(s, j4);
                                    lemma_skip_ws_bounds(s, j5 + 1);
                                }
                                match parse_doc_entries(s, j6) {
                                    None => None,
                                    Some((rest, j7)) => Some((seq![(key, v)] + rest, j7)),
                                }
                            } else if j5 < s.len() && s[j5] == '}' {
                                Some((seq![(key, v)], j5 + 1))
                            } else {
                                None
                            }
                        },
                    }
                }
            },
        }
    }
}

/// Parse a whole payload as one object of named fields; the text must hold
/// nothing but the object and surrounding whitespace.
pub open spec fn parse_doc(s: Seq<char>) -> Option<DocV> {
    let i = skip_ws(s, 0);
    if !(i < s.len() && s[i] == '{') {
        None
    } else {
        let j = skip_ws(s, i + 1);
        let inner = if j < s.len() && s[j] == '}' {
            Some((Seq::<(Seq<char>, FieldValV)>::empty(), j + 1))
        } else {
            parse_doc_entries(s, j)
        };
        match inner {
            None => None,
            Some((d, e)) => if skip_ws(s, e) == s.len() {
                Some(d)
            } else {
                None
            },
        }
    }
}

/// The wire text of one object member.
pub open spec fn emit_entry(k: Seq<char>, v: Seq<char>) -> Seq<char> {
    emit_jstring(k) + seq![':'] + v
}

/// The wire text of the members of an object of scalars, commas included.
pub open spec fn emit_obj_entries(ps: Seq<(Seq<char>, ValueV)>) -> Seq<char>
    decreases ps.len(),
{
    if ps.len() == 0 {
        Seq::empty()
    } else if ps.len() == 1 {
        emit_entry(ps[0].0, emit_scalar(ps[0].1))
    } else {
        emit_entry(ps[0].0, emit_scalar(ps[0].1)) + seq![','] + emit_obj_entries(ps.drop_first())
    }
}

/// The wire text of an object of scalars, braces included.
pub open spec fn emit_inner_object(ps: Seq<(Seq<char>, ValueV)>) -> Seq<char> {
    seq!['{'] + emit_obj_entries(ps) + seq!['}']
}

/// The wire text of one field value.  Skipped content has no wire text of
/// its own and is emitted as `null`.
pub open spec fn emit_field_val(v: FieldValV) -> Seq<char> {
    match v {
        FieldValV::Scalar(x) => emit_scalar(x),
        FieldValV::Object(ps) => emit_inner_object(ps),
        FieldValV::Other => lit_null(),
    }
}

/// The wire text of the top-level members of a payload, commas included.
pub open spec fn emit_doc_entries(d: DocV) -> Seq<char>
    decreases d.len(),
{
    if d.len() == 0 {
        Seq::empty()
    } else if d.len() == 1 {
        emit_entry(d[0].0, emit_field_val(d[0].1))
    } else {
        emit_entry(d[0].0, emit_field_val(d[0].1)) + seq![','] + emit_doc_entries(d.drop_first())
    }
}

/// The wire text of a whole payload.
pub open spec fn emit_doc(d: DocV) -> Seq<char> {
    seq!['{'] + emit_doc_entries(d) + seq!['}']
}

/// The wire text of a scalar is nonempty; its first character is not
/// whitespace, not a separator, and not an opening brace.
pub proof fn lemma_emit_scalar_shape(v: ValueV)
    ensures
        emit_scalar(v).len() >= 1,
        !is_ws_char(emit_scalar(v)[0]),
        emit_scalar(v)[0] != ',' && emit_scalar(v)[0] != '}' && emit_scalar(v)[0] != '{',
{
    match v {
        ValueV::UInt(n) => {
            lemma_dec_digits_shape(n as nat);
            assert(is_digit_char(emit_scalar(v)[0]));
        },
        ValueV::Int(n) => {
            if n >= 0 {
                lemma_dec_digits_shape(n as nat);
                assert(is_digit_char(emit_scalar(v)[0]));
            }
        },
        _ => {},
    }
}

/// Transfer of an embedded piece: if `a` stands at `i` in `s` and `b`
/// stands at `off` in `a`, then `b` stands at `i + off` in `s`.
pub proof fn lemma_subrange_at(s: Seq<char>, i: int, a: Seq<char>, off: int, b: Seq<char>)
    requires
        0 <= i,
        i + a.len() <= s.len(),
        s.subrange(i, i + a.len() as int) == a,
        0 <= off,
        off + b.len() <= a.len(),
        a.subrange(off, off + b.len() as int) == b,
    ensures
        s.subrange(i + off, i + off + b.len() as int) == b,
{
    assert(s.subrange(i + off, i + off + b.len() as int) =~= b) by {
        assert forall|k: int| 0 <= k < b.len() implies s[i + off + k] == b[k] by {
            assert(s[i + (off + k)] == s.subrange(i, i + a.len() as int)[off + k]);
            assert(a[off + k] == a.subrange(off, off + b.len() as int)[k]);
        }
    }
}

/// Reading back one emitted object member embedded in a larger text: the
/// key string parses back, the colon follows at once, and the member's
/// value text stands right after it, ending at a separator.
pub proof fn lemma_parse_entry_emitted(s: Seq<char>, i: int, key: Seq<char>, vtext: Seq<char>)
    requires
        0 <= i,
        i + emit_entry(key, vtext).len() < s.len(),
        s.subrange(i, i + emit_entry(key, vtext).len() as int) == emit_entry(key, vtext),
        vtext.len() >= 1,
        !is_ws_char(vtext[0]),
        s[i + emit_entry(key, vtext).len()] == ',' || s[i + emit_entry(key, vtext).len()] == '}',
    ensures
        emit_entry(key, vtext).len() == emit_jstring(key).len() + 1 + vtext.len(),
        s[i] == '"',
        parse_jstring_body(s, i + 1) == Some((key, i + emit_jstring(key).len() as int)),
        s[i + emit_jstring(key).len()] == ':',
        skip_ws(s, i + emit_jstring(key).len() as int) == i + emit_jstring(key).len(),
        skip_ws(s, i + emit_jstring(key).len() as int + 1) == i + emit_jstring(key).len() + 1,
        s.subrange(
            i + emit_jstring(key).len() as int + 1,
            i + emit_entry(key, vtext).len() as int,
        ) == vtext,
        skip_ws(s, i + emit_entry(key, vtext).len() as int) == i + emit_entry(key, vtext).len(),
{
    let e = emit_entry(key, vtext);
    let ejs = emit_jstring(key);
    let es = escape_str(key);
    assert forall|k: int| 0 <= k < e.len() implies s[i + k] == e[k] by {
        assert(e[k] == s.subrange(i, i + e.len() as int)[k]);
    }
    assert(s[i + 0] == e[0]);
    assert(e[0] == '"');
    assert(e.subrange(1, 1 + es.len() as int) =~= es);
    lemma_subrange_at(s, i, e, 1, es);
    assert(s[i + (1 + es.len())] == e[1 + es.len() as int]);
    assert(e[1 + es.len() as int] == '"');
    lemma_parse_escaped(s, i + 1, key);
    assert(s[i + (ejs.len() as int)] == e[ejs.len() as int]);
    assert(e[ejs.len() as int] == ':');
    assert(s[i + (ejs.len() as int + 1)] == e[ejs.len() as int + 1]);
    assert(e[ejs.len() as int + 1] == vtext[0]);
    assert(e.subrange(ejs.len() as int + 1, e.len() as int) =~= vtext);
    lemma_subrange_at(s, i, e, ejs.len() as int + 1, vtext);
}

/// Reading back the emitted members of an object of scalars, up to the
/// closing brace, yields the members in canonical form.
pub proof fn lemma_parse_obj_entries_emitted(s: Seq<char>, i: int, ps: Seq<(Seq<char>, ValueV)>)
    requires
        ps.len() >= 1,
        0 <= i,
        i + emit_obj_entries(ps).len() < s.len(),
        s.subrange(i, i + emit_obj_entries(ps).len() as int) == emit_obj_entries(ps),
        s[i + emit_obj_entries(ps).len()] == '}',
    ensures
        parse_obj_entries(s, i) == Some(
            (norm_pairs(ps), i + emit_obj_entries(ps).len() + 1),
        ),
    decreases ps.len(),
{
    let e = emit_obj_entries(ps);
    let k0 = ps[0].0;
    let v0 = ps[0].1;
    let ejs = emit_jstring(k0);
    let sv = emit_scalar(v0);
    let head = emit_entry(k0, sv);
    let jv = i + ejs.len() as int + 1;
    lemma_emit_scalar_shape(v0);
    assert(!is_digit_char(',') && !is_digit_char('}'));
    if ps.len() == 1 {
        assert(e == head);
        lemma_parse_entry_emitted(s, i, k0, sv);
        lemma_parse_scalar_emitted(s, jv, v0);
        let j4 = jv + sv.len();
        assert(j4 == i + e.len());
        assert(parse_obj_entries(s, i) == Some((seq![(k0, v0.norm())], j4 + 1)));
        assert(seq![(k0, v0.norm())] =~= norm_pairs(ps));
    } else {
        let tail = emit_obj_entries(ps.drop_first());
        assert(e == head + seq![','] + tail);
        assert(e.subrange(0, head.len() as int) =~= head);
        lemma_subrange_at(s, i, e, 0, head);
        assert(s[i + (head.len() as int)] == e[head.len() as int]) by {
            assert(e[head.len() as int] == s.subrange(i, i + e.len() as int)[head.len() as int]);
        }
        assert(e[head.len() as int] == ',');
        lemma_parse_entry_emitted(s, i, k0, sv);
        lemma_parse_scalar_emitted(s, jv, v0);
        let j4 = jv + sv.len();
        assert(j4 == i + head.len());
        let j6 = j4 + 1;
        assert(e.subrange(head.len() as int + 1, e.len() as int) =~= tail);
        lemma_subrange_at(s, i, e, head.len() as int + 1, tail);
        assert(s[j6 + 0] == e[head.len() as int + 1]) by {
            assert(e[head.len() as int + 1] == s.subrange(i, i + e.len() as int)[head.len() as int
                + 1]);
        }
        assert(tail[0] == '"') by {
            let rest = ps.drop_first();
            assert(tail[0] == emit_entry(rest[0].0, emit_scalar(rest[0].1))[0]);
        }
        assert(skip_ws(s, j6) == j6);
        assert(j6 + tail.len() == i + e.len());
        lemma_parse_obj_entries_emitted(s, j6, ps.drop_first());
        assert(parse_obj_entries(s, i) == Some(
            (seq![(k0, v0.norm())] + norm_pairs(ps.drop_first()), i + e.len() + 1),
        ));
        assert(seq![(k0, v0.norm())] + norm_pairs(ps.drop_first()) =~= norm_pairs(ps));
    }
}

/// Reading back an emitted object of scalars yields its members in
/// canonical form.
pub proof fn lemma_parse_inner_object_emitted(s: Seq<char>, i: int, ps: Seq<(Seq<char>, ValueV)>)
    requires
        0 <= i,
        i + emit_inner_object(ps).len() <= s.len(),
        s.subrange(i, i + emit_inner_object(ps).len() as int) == emit_inner_object(ps),
    ensures
        parse_inner_object(s, i) == Some((norm_pairs(ps), i + emit_inner_object(ps).len())),
{
    let e = emit_inner_object(ps);
    let inner = emit_obj_entries(ps);
    assert forall|k: int| 0 <= k < e.len() implies s[i + k] == e[k] by {
        assert(e[k] == s.subrange(i, i + e.len() as int)[k]);
    }
    assert(s[i + 0] == e[0] && e[0] == '{');
    if ps.len() == 0 {
        assert(s[i + 1] == e[1] && e[1] == '}');
        assert(skip_ws(s, i + 1) == i + 1);
        assert(norm_pairs(ps) =~= Seq::<(Seq<char>, ValueV)>::empty());
    } else {
        assert(e.subrange(1, 1 + inner.len() as int) =~= inner);
        lemma_subrange_at(s, i, e, 1, inner);
        assert(s[i + (1 + inner.len())] == e[1 + inner.len() as int]);
        assert(e[1 + inner.len() as int] == '}');
        assert(inner[0] == emit_entry(ps[0].0, emit_scalar(ps[0].1))[0]);
        assert(s[i + 1] == e[1] && e[1] == inner[0] && inner[0] == '"');
        assert(skip_ws(s, i + 1) == i + 1);
        lemma_parse_obj_entries_emitted(s, i + 1, ps);
    }
}

/// The wire text of a field value is nonempty; its first character is not
/// whitespace and not a separator.
pub proof fn lemma_emit_field_val_shape(v: FieldValV)
    ensures
        emit_field_val(v).len() >= 1,
        !is_ws_char(emit_field_val(v)[0]),
        emit_field_val(v)[0] != ',' && emit_field_val(v)[0] != '}',
{
    match v {
        FieldValV::Scalar(x) => {
            lemma_emit_scalar_shape(x);
        },
        _ => {},
    }
}

/// Reading back the emitted text of a field value that holds no skipped
/// content yields the value in canonical form.  The character that follows,
/// if any, must not be a digit.
pub proof fn lemma_parse_field_val_emitted(s: Seq<char>, i: int, v: FieldValV)
    requires
        !(v is Other),
        0 <= i,
        i + emit_field_val(v).len() <= s.len(),
        s.subrange(i, i + emit_field_val(v).len() as int) == emit_field_val(v),
        i + emit_field_val(v).len() == s.len() || !is_digit_char(s[i + emit_field_val(v).len()]),
    ensures
        parse_field_val(s, i) == Some((norm_field(v), i + emit_field_val(v).len() as int)),
{
    let e = emit_field_val(v);
    assert(s[i + 0] == s.subrange(i, i + e.len() as int)[0]);
    match v {
        FieldValV::Scalar(x) => {
            lemma_emit_scalar_shape(x);
            assert(s[i] != '{');
            lemma_parse_scalar_emitted(s, i, x);
        },
        FieldValV::Object(ps) => {
            assert(s[i] == '{');
            lemma_parse_inner_object_emitted(s, i, ps);
        },
        FieldValV::Other => {},
    }
}

/// Reading back the emitted top-level members of a payload, up to the
/// closing brace, yields the members in canonical form.
pub proof fn lemma_parse_doc_entries_emitted(s: Seq<char>, i: int, d: DocV)
    requires
        d.len() >= 1,
        forall|k: int| 0 <= k < d.len() ==> !((#[trigger] d[k].1) is Other),
        0 <= i,
        i + emit_doc_entries(d).len() < s.len(),
        s.subrange(i, i + emit_doc_entries(d).len() as int) == emit_doc_entries(d),
        s[i + emit_doc_entries(d).len()] == '}',
    ensures
        parse_doc_entries(s, i) == Some(
            (norm_doc(d), i + emit_doc_entries(d).len() + 1),
        ),
    decreases d.len(),
{
    let e = emit_doc_entries(d);
    let k0 = d[0].0;
    let v0 = d[0].1;
    let ejs = emit_jstring(k0);
    let sv = emit_field_val(v0);
    let head = emit_entry(k0, sv);
    let jv = i + ejs.len() as int + 1;
    lemma_emit_field_val_shape(v0);
    assert(!is_digit_char(',') && !is_digit_char('}'));
    if d.len() == 1 {
        assert(e == head);
        lemma_parse_entry_emitted(s, i, k0, sv);
        lemma_parse_field_val_emitted(s, jv, v0);
        let j4 = jv + sv.len();
        assert(j4 == i + e.len());
        assert(parse_doc_entries(s, i) == Some((seq![(k0, norm_field(v0))], j4 + 1)));
        assert(seq![(k0, norm_field(v0))] =~= norm_doc(d));
    } else {
        let tail = emit_doc_entries(d.drop_first());
        assert(e == head + seq![','] + tail);
        assert(e.subrange(0, head.len() as int) =~= head);
        lemma_subrange_at(s, i, e, 0, head);
        assert(s[i + (head.len() as int)] == e[head.len() as int]) by {
            assert(e[head.len() as int] == s.subrange(i, i + e.len() as int)[head.len() as int]);
        }
        assert(e[head.len() as int] == ',');
        lemma_parse_entry_emitted(s, i, k0, sv);
        lemma_parse_field_val_emitted(s, jv, v0);
        let j4 = jv + sv.len();
        assert(j4 == i + head.len());
        let j6 = j4 + 1;
        assert(e.subrange(head.len() as int + 1, e.len() as int) =~= tail);
        lemma_subrange_at(s, i, e, head.len() as int + 1, tail);
        assert(s[j6 + 0] == e[head.len() as int + 1]) by {
            assert(e[head.len() as int + 1] == s.subrange(i, i + e.len() as int)[head.len() as int
                + 1]);
        }
        assert(tail[0] == '"') by {
            let rest = d.drop_first();
            assert(tail[0] == emit_entry(rest[0].0, emit_field_val(rest[0].1))[0]);
        }
        assert(skip_ws(s, j6) == j6);
        assert(j6 + tail.len() == i + e.len());
        assert(forall|k: int|
            0 <= k < d.drop_first().len() ==> !((#[trigger] d.drop_first()[k].1) is Other));
        lemma_parse_doc_entries_emitted(s, j6, d.drop_first());
        assert(parse_doc_entries(s, i) == Some(
            (seq![(k0, norm_field(v0))] + norm_doc(d.drop_first()), i + e.len() + 1),
        ));
        assert(seq![(k0, norm_field(v0))] + norm_doc(d.drop_first()) =~= norm_doc(d));
    }
}

/// Round trip at the document layer: reading back the emitted wire text of
/// a payload that holds no skipped content yields the payload in canonical
/// form.
pub proof fn lemma_parse_doc_emitted(d: DocV)
    requires
        forall|k: int| 0 <= k < d.len() ==> !((#[trigger] d[k].1) is Other),
    ensures
        parse_doc(emit_doc(d)) == Some(norm_doc(d)),
{
    let s = emit_doc(d);
    let inner = emit_doc_entries(d);
    assert(s[0] == '{');
    assert(skip_ws(s, 0) == 0);
    if d.len() == 0 {
        assert(s[1] == '}');
        assert(skip_ws(s, 1) == 1);
        assert(skip_ws(s, 2) == 2);
        assert(norm_doc(d) =~= Seq::<(Seq<char>, FieldValV)>::empty());
    } else {
        assert(s.subrange(1, 1 + inner.len() as int) =~= inner);
        assert(s[1 + inner.len() as int] == '}');
        assert(inner[0] == emit_entry(d[0].0, emit_field_val(d[0].1))[0]);
        assert(s[1] == inner[0] && inner[0] == '"');
        assert(skip_ws(s, 1) == 1);
        lemma_parse_doc_entries_emitted(s, 1, d);
        assert(skip_ws(s, 1 + inner.len() as int + 1) == s.len());
    }
}

/// What the parser guarantees of a field value it yields: scalars and
/// object members are in canonical form.
pub open spec fn field_dec_wf(v: FieldValV) -> bool {
    match v {
        FieldValV::Scalar(x) => x.wf(),
        FieldValV::Object(ps) => forall|k: int| 0 <= k < ps.len() ==> (#[trigger] ps[k].1).wf(),
        FieldValV::Other => true,
    }
}

/// Every member value the object parser yields is in canonical form.
pub proof fn lemma_parse_obj_entries_wf(s: Seq<char>, i: int)
    requires
        parse_obj_entries(s, i) is Some,
    ensures
        forall|k: int|
            0 <= k < parse_obj_entries(s, i)->Some_0.0.len() ==> (
            #[trigger] parse_obj_entries(s, i)->Some_0.0[k].1).wf(),
    decreases s.len() - i,
{
    let (key, j) = parse_jstring_body(s, i + 1)->Some_0;
    lemma_parse_jstring_body_bounds(s, i + 1);
    let j2 = skip_ws(s, j);
    lemma_skip_ws_bounds(s, j);
    let j3 = skip_ws(s, j2 + 1);
    lemma_skip_ws_bounds(s, j2 + 1);
    let (v, j4) = parse_scalar(s, j3)->Some_0;
    crate::jsontext::lemma_parse_scalar_wf(s, j3);
    lemma_parse_scalar_bounds(s, j3);
    let j5 = skip_ws(s, j4);
    lemma_skip_ws_bounds(s, j4);
    if j5 < s.len() && s[j5] == ',' {
        let j6 = skip_ws(s, j5 + 1);
        lemma_skip_ws_bounds(s, j5 + 1);
        lemma_parse_obj_entries_wf(s, j6);
        let rest = parse_obj_entries(s, j6)->Some_0.0;
        let whole = parse_obj_entries(s, i)->Some_0.0;
        assert(whole == seq![(key, v)] + rest);
        assert forall|k: int| 0 <= k < whole.len() implies (#[trigger] whole[k].1).wf() by {
            if k > 0 {
                assert(whole[k] == rest[k - 1]);
            }
        }
    }
}

/// Every field value the document parser yields satisfies the parser's
/// guarantee.
pub proof fn lemma_parse_field_val_wf(s: Seq<char>, i: int)
    requires
        parse_field_val(s, i) is Some,
    ensures
        field_dec_wf(parse_field_val(s, i)->Some_0.0),
{
    if s[i] == '{' {
        if parse_inner_object(s, i) is Some {
            let j = skip_ws(s, i + 1);
            if !(j < s.len() && s[j] == '}') {
                lemma_parse_obj_entries_wf(s, j);
            }
        }
    } else {
        if parse_scalar(s, i) is Some {
            crate::jsontext::lemma_parse_scalar_wf(s, i);
        }
    }
}

/// Every field value the document-member parser yields satisfies the
/// parser's guarantee.
pub proof fn lemma_parse_doc_entries_wf(s: Seq<char>, i: int)
    requires
        parse_doc_entries(s, i) is Some,
    ensures
        forall|k: int|
            0 <= k < parse_doc_entries(s, i)->Some_0.0.len() ==> field_dec_wf(
                (#[trigger] parse_doc_entries(s, i)->Some_0.0[k]).1,
            ),
    decreases s.len() - i,
{
    let (key, j) = parse_jstring_body(s, i + 1)->Some_0;
    lemma_parse_jstring_body_bounds(s, i + 1);
    let j2 = skip_ws(s, j);
    lemma_skip_ws_bounds(s, j);
    let j3 = skip_ws(s, j2 + 1);
    lemma_skip_ws_bounds(s, j2 + 1);
    let (v, j4) = parse_field_val(s, j3)->Some_0;
    lemma_parse_field_val_wf(s, j3);
    lemma_parse_field_val_bounds(s, j3);
    let j5 = skip_ws(s, j4);
    lemma_skip_ws_bounds(s, j4);
    if j5 < s.len() && s[j5] == ',' {
        let j6 = skip_ws(s, j5 + 1);
        lemma_skip_ws_bounds(s, j5 + 1);
        lemma_parse_doc_entries_wf(s, j6);
        let rest = parse_doc_entries(s, j6)->Some_0.0;
        let whole = parse_doc_entries(s, i)->Some_0.0;
        assert(whole == seq![(key, v)] + rest);
        assert forall|k: int| 0 <= k < whole.len() implies field_dec_wf(
            (#[trigger] whole[k]).1,
        ) by {
            if k > 0 {
                assert(whole[k] == rest[k - 1]);
            }
        }
    }
}

/// Every field value a parsed payload yields satisfies the parser's
/// guarantee.
pub proof fn lemma_parse_doc_wf(s: Seq<char>)
    requires
        parse_doc(s) is Some,
    ensures
        forall|k: int|
            0 <= k < parse_doc(s)->Some_0.len() ==> field_dec_wf(
                (#[trigger] parse_doc(s)->Some_0[k]).1,
            ),
{
    let i = skip_ws(s, 0);
    let j = skip_ws(s, i + 1);
    if !(j < s.len() && s[j] == '}') {
        lemma_parse_doc_entries_wf(s, j);
    }
}

/// Model of a vector of object members.
pub open spec fn pairs_view(ps: Seq<(String, Value)>) -> Seq<(Seq<char>, ValueV)> {
    ps.map_values(|p: (String, Value)| (p.0@, p.1@))
}

/// Model of a vector of top-level fields.
pub open spec fn doc_view(d: Seq<(String, FieldVal)>) -> DocV {
    d.map_values(|p: (String, FieldVal)| (p.0@, p.1@))
}

/// Executable skip over nested content.
pub(crate) fn skip_nested_x(s: &Vec<char>, i: usize, depth: usize, in_str: bool, esc: bool) -> (r:
    Option<usize>)
    requires
        i <= s@.len(),
        depth <= i,
    ensures
        match r {
            Some(j) => skip_nested(s@, i as int, depth as nat, in_str, esc) == Some(j as int) && i
                < j <= s@.len(),
            None => skip_nested(s@, i as int, depth as nat, in_str, esc) is None,
        },
    decreases s@.len() - i,
{
    if i >= s.len() {
        return None;
    }
    let c = s[i];
    if in_str {
        if esc {
            skip_nested_x(s, i + 1, depth, true, false)
        } else if c == '\\' {
            skip_nested_x(s, i + 1, depth, true, true)
        } else if c == '"' {
            if depth == 0 {
                Some(i + 1)
            } else {
                skip_nested_x(s, i + 1, depth, false, false)
            }
        } else {
            skip_nested_x(s, i + 1, depth, true, false)
        }
    } else {
        if c == '{' || c == '[' {
            skip_nested_x(s, i + 1, depth + 1, false, false)
        } else if c == '}' || c == ']' {
            if depth == 1 {
                Some(i + 1)
            } else if depth == 0 {
                None
            } else {
                skip_nested_x(s, i + 1, depth - 1, false, false)
            }
        } else if c == '"' {
            skip_nested_x(s, i + 1, depth, true, false)
        } else {
            skip_nested_x(s, i + 1, depth, false, false)
        }
    }
}

/// Executable end of an unquoted atom.
pub(crate) fn atom_end_x(s: &Vec<char>, i: usize) -> (j: usize)
    requires
        i <= s@.len(),
    ensures
        j as int == atom_end(s@, i as int),
        i <= j <= s@.len(),
{
    let mut j = i;
    while j < s.len() && !(s[j] == ',' || s[j] == '}' || s[j] == ']' || is_ws_x(s[j]))
        invariant
            i <= j <= s@.len(),
            atom_end(s@, i as int) == atom_end(s@, j as int),
        decreases s@.len() - j,
    {
        j = j + 1;
    }
    j
}

/// Executable skip over one field value.
pub(crate) fn skip_value_x(s: &Vec<char>, i: usize) -> (r: Option<usize>)
    requires
        i <= s@.len(),
    ensures
        match r {
            Some(j) => skip_value(s@, i as int) == Some(j as int) && i < j <= s@.len(),
            None => skip_value(s@, i as int) is None,
        },
{
    if i >= s.len() {
        None
    } else if s[i] == '"' {
        skip_nested_x(s, i + 1, 0, true, false)
    } else if s[i] == '{' || s[i] == '[' {
        skip_nested_x(s, i + 1, 1, false, false)
    } else {
        let e = atom_end_x(s, i);
        if e == i {
            None
        } else {
            Some(e)
        }
    }
}

/// Executable parse of the members of an object of scalars.
pub(crate) fn parse_obj_entries_x(s: &Vec<char>, i: usize) -> (r: Option<
    (Vec<(String, Value)>, usize),
>)
    requires
        i <= s@.len(),
    ensures
        match r {
            Some(p) => parse_obj_entries(s@, i as int) == Some((pairs_view(p.0@), p.1 as int)) && i
                < p.1 <= s@.len(),
            None => parse_obj_entries(s@, i as int) is None,
        },
    decreases s@.len() - i,
{
    if !(i < s.len() && s[i] == '"') {
        return None;
    }
    let (kv, j) = match parse_jstring_x(s, i + 1) {
        None => {
            return None;
        },
        Some(p) => p,
    };
    let key = crate::chars::string_from_chars(&kv);
    let j2 = skip_ws_x(s, j);
    if !(j2 < s.len() && s[j2] == ':') {
        return None;
    }
    let j3 = skip_ws_x(s, j2 + 1);
    let (v, j4) = match parse_scalar_x(s, j3) {
        None => {
            return None;
        },
        Some(p) => p,
    };
    let j5 = skip_ws_x(s, j4);
    if j5 < s.len() && s[j5] == ',' {
        let j6 = skip_ws_x(s, j5 + 1);
        match parse_obj_entries_x(s, j6) {
            None => None,
            Some((rest, j7)) => {
                let ghost restv = rest@;
                let mut rest = rest;
                rest.insert(0, (key, v));
                proof {
                    assert(pairs_view(rest@) =~= seq![(key@, v@)] + pairs_view(restv));
                }
                Some((rest, j7))
            },
        }
    } else if j5 < s.len() && s[j5] == '}' {
        let mut one: Vec<(String, Value)> = Vec::new();
        one.push((key, v));
        proof {
            assert(pairs_view(one@) =~= seq![(key@, v@)]);
        }
        Some((one, j5 + 1))
    } else {
        None
    }
}

/// Executable parse of an object of scalars, brace to brace.
pub(crate) fn parse_inner_object_x(s: &Vec<char>, i: usize) -> (r: Option<
    (Vec<(String, Value)>, usize),
>)
    requires
        i <= s@.len(),
    ensures
        match r {
            Some(p) => parse_inner_object(s@, i as int) == Some((pairs_view(p.0@), p.1 as int))
                && i < p.1 <= s@.len(),
            None => parse_inner_object(s@, i as int) is None,
        },
{
    if !(i < s.len() && s[i] == '{') {
        return None;
    }
    let j = skip_ws_x(s, i + 1);
    if j < s.len() && s[j] == '}' {
        let empty: Vec<(String, Value)> = Vec::new();
        proof {
            assert(pairs_view(empty@) =~= Seq::<(Seq<char>, ValueV)>::empty());
        }
        Some((empty, j + 1))
    } else {
        parse_obj_entries_x(s, j)
    }
}

/// Executable parse of one top-level field value.
pub(crate) fn parse_field_val_x(s: &Vec<char>, i: usize) -> (r: Option<(FieldVal, usize)>)
    requires
        i <= s@.len(),
    ensures
        match r {
            Some(p) => parse_field_val(s@, i as int) == Some((p.0@, p.1 as int)) && i < p.1
                <= s@.len(),
            None => parse_field_val(s@, i as int) is None,
        },
{
    if i >= s.len() {
        return None;
    }
    if s[i] == '{' {
        match parse_inner_object_x(s, i) {
            Some((ps, j)) => Some((FieldVal::Object(ps), j)),
            None => match skip_value_x(s, i) {
                Some(j) => Some((FieldVal::Other, j)),
                None => None,
            },
        }
    } else {
        match parse_scalar_x(s, i) {
            Some((v, j)) => Some((FieldVal::Scalar(v), j)),
            None => match skip_value_x(s, i) {
                Some(j) => Some((FieldVal::Other, j)),
                None => None,
            },
        }
    }
}

/// Executable parse of the top-level members of a payload.
pub(crate) fn parse_doc_entries_x(s: &Vec<char>, i: usize) -> (r: Option<
    (Vec<(String, FieldVal)>, usize),
>)
    requires
        i <= s@.len(),
    ensures
        match r {
            Some(p) => parse_doc_entries(s@, i as int) == Some((doc_view(p.0@), p.1 as int)) && i
                < p.1 <= s@.len(),
            None => parse_doc_entries(s@, i as int) is None,
        },
    decreases s@.len() - i,
{
    if !(i < s.len() && s[i] == '"') {
        return None;
    }
    let (kv, j) = match parse_jstring_x(s, i + 1) {
        None => {
            return None;
        },
        Some(p) => p,
    };
    let key = crate::chars::string_from_chars(&kv);
    let j2 = skip_ws_x(s, j);
    if !(j2 < s.len() && s[j2] == ':') {
        return None;
    }
    let j3 = skip_ws_x(s, j2 + 1);
    let (v, j4) = match parse_field_val_x(s, j3) {
        None => {
            return None;
        },
        Some(p) => p,
    };
    let j5 = skip_ws_x(s, j4);
    if j5 < s.len() && s[j5] == ',' {
        let j6 = skip_ws_x(s, j5 + 1);
        match parse_doc_entries_x(s, j6) {
            None => None,
            Some((rest, j7)) => {
                let ghost restv = rest@;
                let mut rest = rest;
                rest.insert(0, (key, v));
                proof {
                    assert(doc_view(rest@) =~= seq![(key@, v@)] + doc_view(restv));
                }
                Some((rest, j7))
            },
        }
    } else if j5 < s.len() && s[j5] == '}' {
        let mut one: Vec<(String, FieldVal)> = Vec::new();
        one.push((key, v));
        proof {
            assert(doc_view(one@) =~= seq![(key@, v@)]);
        }
        Some((one, j5 + 1))
    } else {
        None
    }
}

/// Executable parse of a whole payload into its field list.
pub(crate) fn parse_doc_x(s: &Vec<char>) -> (r: Option<Vec<(String, FieldVal)>>)
    ensures
        match r {
            Some(d) => parse_doc(s@) == Some(doc_view(d@)),
            None => parse_doc(s@) is None,
        },
{
    let i = skip_ws_x(s, 0);
    if !(i < s.len() && s[i] == '{') {
        return None;
    }
    let j = skip_ws_x(s, i + 1);
    let inner = if j < s.len() && s[j] == '}' {
        let empty: Vec<(String, FieldVal)> = Vec::new();
        proof {
            assert(doc_view(empty@) =~= Seq::<(Seq<char>, FieldValV)>::empty());
        }
        Some((empty, j + 1))
    } else {
        parse_doc_entries_x(s, j)
    };
    match inner {
        None => None,
        Some((d, e)) => {
            let t = skip_ws_x(s, e);
            if t == s.len() {
                Some(d)
            } else {
                None
            }
        },
    }
}

/// Push the wire text of the members of an object of scalars, from member
/// `k` on, onto `out`.
pub(crate) fn push_obj_entries(ps: &Vec<(String, Value)>, k: usize, out: &mut Vec<char>)
    requires
        k < ps@.len(),
    ensures
        final(out)@ == old(out)@ + emit_obj_entries(pairs_view(ps@).skip(k as int)),
    decreases ps@.len() - k,
{
    let ghost tail = pairs_view(ps@).skip(k as int);
    let p = &ps[k];
    push_jstring(p.0.as_str(), out);
    out.push(':');
    push_scalar(&p.1, out);
    proof {
        assert(tail[0] == (ps@[k as int].0@, ps@[k as int].1@));
    }
    let n = ps.len();
    if k < n - 1 {
        out.push(',');
        push_obj_entries(ps, k + 1, out);
        proof {
            assert(pairs_view(ps@).skip(k as int + 1) =~= tail.drop_first());
            assert(out@ =~= old(out)@ + emit_obj_entries(tail));
        }
    } else {
        proof {
            assert(tail.len() == 1);
            assert(out@ =~= old(out)@ + emit_obj_entries(tail));
        }
    }
}

/// Push the wire text of an object of scalars onto `out`.
pub(crate) fn push_inner_object(ps: &Vec<(String, Value)>, out: &mut Vec<char>)
    ensures
        final(out)@ == old(out)@ + emit_inner_object(pairs_view(ps@)),
{
    out.push('{');
    if ps.len() > 0 {
        push_obj_entries(ps, 0, out);
        proof {
            assert(pairs_view(ps@).skip(0) =~= pairs_view(ps@));
        }
    }
    out.push('}');
    proof {
        assert(out@ =~= old(out)@ + emit_inner_object(pairs_view(ps@)));
    }
}

/// Push the wire text of one field value onto `out`.
pub(crate) fn push_field_val(v: &FieldVal, out: &mut Vec<char>)
    ensures
        final(out)@ == old(out)@ + emit_field_val(v@),
{
    match v {
        FieldVal::Scalar(x) => {
            push_scalar(x, out);
        },
        FieldVal::Object(ps) => {
            push_inner_object(ps, out);
        },
        FieldVal::Other => {
            out.push('n');
            out.push('u');
            out.push('l');
            out.push('l');
            proof {
                assert(out@ =~= old(out)@ + lit_null());
            }
        },
    }
}

/// Push the wire text of the top-level members of a payload, from member
/// `k` on, onto `out`.
pub(crate) fn push_doc_entries(d: &Vec<(String, FieldVal)>, k: usize, out: &mut Vec<char>)
    requires
        k < d@.len(),
    ensures
        final(out)@ == old(out)@ + emit_doc_entries(doc_view(d@).skip(k as int)),
    decreases d@.len() - k,
{
    let ghost tail = doc_view(d@).skip(k as int);
    let p = &d[k];
    push_jstring(p.0.as_str(), out);
    out.push(':');
    push_field_val(&p.1, out);
    proof {
        assert(tail[0] == (d@[k as int].0@, d@[k as int].1@));
    }
    let n = d.len();
    if k < n - 1 {
        out.push(',');
        push_doc_entries(d, k + 1, out);
        proof {
            assert(doc_view(d@).skip(k as int + 1) =~= tail.drop_first());
            assert(out@ =~= old(out)@ + emit_doc_entries(tail));
        }
    } else {
        proof {
            assert(tail.len() == 1);
            assert(out@ =~= old(out)@ + emit_doc_entries(tail));
        }
    }
}

/// The wire text of a whole payload, as characters.
pub(crate) fn emit_doc_x(d: &Vec<(String, FieldVal)>) -> (out: Vec<char>)
    ensures
        out@ == emit_doc(doc_view(d@)),
{
    let mut out: Vec<char> = Vec::new();
    out.push('{');
    if d.len() > 0 {
        push_doc_entries(d, 0, &mut out);
        proof {
            assert(doc_view(d@).skip(0) =~= doc_view(d@));
        }
    }
    out.push('}');
    proof {
        assert(out@ =~= emit_doc(doc_view(d@)));
    }
    out
}

} // verus!
