//! Lexical layer of the JSON wire text: whitespace, numbers, strings and
//! scalar values, as character sequences.
//!
//! Every emitter has a specification-level definition over `Seq<char>` and an
//! executable mirror proved against it; every parser likewise.  The
//! round-trip lemmas state that parsing emitted text yields the original
//! value back.

use vstd::prelude::*;

use crate::value::Value;
use crate::value::ValueV;

verus! {

/// JSON whitespace.
pub open spec fn is_ws_char(c: char) -> bool {
    c == ' ' || c == '\t' || c == '\n' || c == '\r'
}

/// ASCII decimal digit.
pub open spec fn is_digit_char(c: char) -> bool {
    48 <= (c as u32) && (c as u32) <= 57
}

/// Numeric value of a decimal digit character.
pub open spec fn digit_val(c: char) -> nat {
    ((c as u32) - 48) as nat
}

/// The decimal digit character for a value below ten.
pub open spec fn digit_char(d: nat) -> char {
    if d == 0 {
        '0'
    } else if d == 1 {
        '1'
    } else if d == 2 {
        '2'
    } else if d == 3 {
        '3'
    } else if d == 4 {
        '4'
    } else if d == 5 {
        '5'
    } else if d == 6 {
        '6'
    } else if d == 7 {
        '7'
    } else if d == 8 {
        '8'
    } else {
        '9'
    }
}

/// The lower-case hexadecimal digit character for a value below sixteen.
pub open spec fn hex_char(d: nat) -> char {
    if d < 10 {
        digit_char(d)
    } else if d == 10 {
        'a'
    } else if d == 11 {
        'b'
    } else if d == 12 {
        'c'
    } else if d == 13 {
        'd'
    } else if d == 14 {
        'e'
    } else {
        'f'
    }
}

/// ASCII hexadecimal digit, either case.
pub open spec fn is_hex_char(c: char) -> bool {
    is_digit_char(c) || (97 <= (c as u32) && (c as u32) <= 102) || (65 <= (c as u32) && (c as u32)
        <= 70)
}

/// Numeric value of a hexadecimal digit character.
pub open spec fn hex_val(c: char) -> nat {
    if is_digit_char(c) {
        digit_val(c)
    } else if 97 <= (c as u32) {
        ((c as u32) - 87) as nat
    } else {
        ((c as u32) - 55) as nat
    }
}

/// First position at or after `i` that does not hold whitespace.
pub open spec fn skip_ws(s: Seq<char>, i: int) -> int
    decreases s.len() - i,
{
    if 0 <= i < s.len() && is_ws_char(s[i]) {
        skip_ws(s, i + 1)
    } else {
        i
    }
}

/// `skip_ws` never moves backwards and stays within the text.
pub proof fn lemma_skip_ws_bounds(s: Seq<char>, i: int)
    requires
        0 <= i <= s.len(),
    ensures
        i <= skip_ws(s, i) <= s.len(),
    decreases s.len() - i,
{
    if i < s.len() && is_ws_char(s[i]) {
        lemma_skip_ws_bounds(s, i + 1);
    }
}

/// End of the run of decimal digits that starts at `i`.
pub open spec fn digit_run_end(s: Seq<char>, i: int) -> int
    decreases s.len() - i,
{
    if 0 <= i < s.len() && is_digit_char(s[i]) {
        digit_run_end(s, i + 1)
    } else {
        i
    }
}

/// `digit_run_end` never moves backwards and stays within the text.
pub proof fn lemma_digit_run_end_bounds(s: Seq<char>, i: int)
    requires
        0 <= i <= s.len(),
    ensures
        i <= digit_run_end(s, i) <= s.len(),
        forall|k: int| i <= k < digit_run_end(s, i) ==> is_digit_char(s[k]),
        digit_run_end(s, i) < s.len() ==> !is_digit_char(s[digit_run_end(s, i)]),
    decreases s.len() - i,
{
    if i < s.len() && is_digit_char(s[i]) {
        lemma_digit_run_end_bounds(s, i + 1);
    }
}

/// Value of the digit run `s[i..j]`, most significant digit first.
pub open spec fn digits_value(s: Seq<char>, i: int, j: int) -> nat
    decreases j - i,
{
    if i >= j {
        0
    } else {
        digits_value(s, i, j - 1) * 10 + digit_val(s[j - 1])
    }
}

/// Decimal digits of a natural number, most significant first.
pub open spec fn dec_digits(n: nat) -> Seq<char>
    decreases n,
{
    if n < 10 {
        seq![digit_char(n)]
    } else {
        dec_digits(n / 10) + seq![digit_char(n % 10)]
    }
}

/// Decimal text of an integer: a minus sign for negative values, then the
/// digits of the magnitude.
pub open spec fn emit_int(n: int) -> Seq<char> {
    if n >= 0 {
        dec_digits(n as nat)
    } else {
        seq!['-'] + dec_digits((-n) as nat)
    }
}

/// The decimal digits of a number are digit characters, there is at least
/// one, and the first is not interpreted as whitespace.
pub proof fn lemma_dec_digits_shape(n: nat)
    ensures
        dec_digits(n).len() >= 1,
        forall|k: int| 0 <= k < dec_digits(n).len() ==> is_digit_char(#[trigger] dec_digits(n)[k]),
    decreases n,
{
    if n >= 10 {
        lemma_dec_digits_shape(n / 10);
    }
}

/// Digit characters carry their digit value.
pub proof fn lemma_digit_char_val(d: nat)
    requires
        d < 10,
    ensures
        digit_val(digit_char(d)) == d,
        is_digit_char(digit_char(d)),
{
}

/// Reading back the decimal digits of `n` embedded in a larger text yields
/// `n`: the digit run ends exactly where the digits end, and its value is
/// `n`.
pub proof fn lemma_parse_dec_digits(s: Seq<char>, i: int, n: nat)
    requires
        0 <= i,
        i + dec_digits(n).len() <= s.len(),
        s.subrange(i, i + dec_digits(n).len() as int) == dec_digits(n),
        i + dec_digits(n).len() == s.len() || !is_digit_char(s[i + dec_digits(n).len()]),
    ensures
        digit_run_end(s, i) == i + dec_digits(n).len(),
        digits_value(s, i, i + dec_digits(n).len() as int) == n,
{
    let ds = dec_digits(n);
    lemma_dec_digits_shape(n);
    assert forall|k: int| i <= k < i + ds.len() implies is_digit_char(s[k]) by {
        assert(s[k] == ds[k - i]);
    }
    lemma_digit_run_end_stops(s, i, i + ds.len());
    lemma_digits_value_of(s, i, n);
}

/// Helper: the value of the embedded decimal digits of `n` is `n`.
proof fn lemma_digits_value_of(s: Seq<char>, i: int, n: nat)
    requires
        0 <= i,
        i + dec_digits(n).len() <= s.len(),
        s.subrange(i, i + dec_digits(n).len() as int) == dec_digits(n),
    ensures
        digits_value(s, i, i + dec_digits(n).len() as int) == n,
    decreases n,
{
    let ds = dec_digits(n);
    if n < 10 {
        lemma_digit_char_val(n);
        assert(s[i] == ds[0]);
        assert(digits_value(s, i, i + 1) == digits_value(s, i, i) * 10 + digit_val(s[i]));
    } else {
        let hi = dec_digits(n / 10);
        lemma_dec_digits_shape(n / 10);
        assert(s.subrange(i, i + hi.len() as int) =~= hi) by {
            assert forall|k: int| 0 <= k < hi.len() implies s.subrange(
                i,
                i + hi.len() as int,
            )[k] == hi[k] by {
                assert(s[i + k] == ds[k]);
                assert(ds[k] == hi[k]);
            }
        }
        lemma_digits_value_of(s, i, n / 10);
        lemma_digit_char_val(n % 10);
        assert(s[i + ds.len() - 1] == ds[ds.len() - 1]);
        assert(digits_value(s, i, i + ds.len() as int) == digits_value(
            s,
            i,
            i + ds.len() - 1,
        ) * 10 + digit_val(s[i + ds.len() - 1]));
    }
}

/// The escape form of one character inside a JSON string.
pub open spec fn escape_char(c: char) -> Seq<char> {
    if c == '"' {
        seq!['\\', '"']
    } else if c == '\\' {
        seq!['\\', '\\']
    } else if c == '\n' {
        seq!['\\', 'n']
    } else if c == '\r' {
        seq!['\\', 'r']
    } else if c == '\t' {
        seq!['\\', 't']
    } else if (c as u32) < 32 {
        seq!['\\', 'u', '0', '0', hex_char(((c as u32) / 16) as nat), hex_char(
            ((c as u32) % 16) as nat,
        )]
    } else {
        seq![c]
    }
}

/// The body of a JSON string: every character in escape form.
pub open spec fn escape_str(s: Seq<char>) -> Seq<char>
    decreases s.len(),
{
    if s.len() == 0 {
        Seq::empty()
    } else {
        escape_char(s[0]) + escape_str(s.drop_first())
    }
}

/// A complete JSON string token, quotes included.
pub open spec fn emit_jstring(s: Seq<char>) -> Seq<char> {
    seq!['"'] + escape_str(s) + seq!['"']
}

/// The character named by a simple (single-letter) escape.
pub open spec fn unescape_simple(e: char) -> Option<char> {
    if e == '"' {
        Some('"')
    } else if e == '\\' {
        Some('\\')
    } else if e == '/' {
        Some('/')
    } else if e == 'n' {
        Some('\n')
    } else if e == 'r' {
        Some('\r')
    } else if e == 't' {
        Some('\t')
    } else if e == 'b' {
        Some('\u{0008}')
    } else if e == 'f' {
        Some('\u{000C}')
    } else {
        None
    }
}

/// Parse the body of a JSON string starting just after the opening quote;
/// yields the decoded content and the position after the closing quote.
pub open spec fn parse_jstring_body(s: Seq<char>, i: int) -> Option<(Seq<char>, int)>
    decreases s.len() - i,
{
    if i < 0 || i >= s.len() {
        None
    } else {
        let c = s[i];
        if c == '"' {
            Some((Seq::empty(), i + 1))
        } else if c == '\\' {
            if i + 1 >= s.len() {
                None
            } else {
                let e = s[i + 1];
                if e == 'u' {
                    if i + 6 <= s.len() && is_hex_char(s[i + 2]) && is_hex_char(s[i + 3])
                        && is_hex_char(s[i + 4]) && is_hex_char(s[i + 5]) {
                        let code = (hex_val(s[i + 2]) * 4096 + hex_val(s[i + 3]) * 256 + hex_val(
                            s[i + 4],
                        ) * 16 + hex_val(s[i + 5])) as u32;
                        if 0xD800 <= code < 0xE000 {
                            None
                        } else {
                            match parse_jstring_body(s, i + 6) {
                                Some((t, j)) => Some((seq![code as char] + t, j)),
                                None => None,
                            }
                        }
                    } else {
                        None
                    }
                } else {
                    match unescape_simple(e) {
                        Some(d) => match parse_jstring_body(s, i + 2) {
                            Some((t, j)) => Some((seq![d] + t, j)),
                            None => None,
                        },
                        None => None,
                    }
                }
            }
        } else if (c as u32) < 32 {
            None
        } else {
            match parse_jstring_body(s, i + 1) {
                Some((t, j)) => Some((seq![c] + t, j)),
                None => None,
            }
        }
    }
}

/// A successful string-body parse makes progress and stays within the text.
pub proof fn lemma_parse_jstring_body_bounds(s: Seq<char>, i: int)
    requires
        parse_jstring_body(s, i) is Some,
    ensures
        i < parse_jstring_body(s, i)->Some_0.1 <= s.len(),
    decreases s.len() - i,
{
    let c = s[i];
    if c == '"' {
    } else if c == '\\' {
        let e = s[i + 1];
        if e == 'u' {
            lemma_parse_jstring_body_bounds(s, i + 6);
        } else {
            lemma_parse_jstring_body_bounds(s, i + 2);
        }
    } else {
        lemma_parse_jstring_body_bounds(s, i + 1);
    }
}

/// Hexadecimal digit characters carry their value.
pub proof fn lemma_hex_char_val(d: nat)
    requires
        d < 16,
    ensures
        hex_val(hex_char(d)) == d,
        is_hex_char(hex_char(d)),
{
}

/// Reading back an escaped text embedded in a larger text, up to a closing
/// quote, yields the original text.
pub proof fn lemma_parse_escaped(s: Seq<char>, i: int, v: Seq<char>)
    requires
        0 <= i,
        i + escape_str(v).len() + 1 <= s.len(),
        s.subrange(i, i + escape_str(v).len() as int) == escape_str(v),
        s[i + escape_str(v).len()] == '"',
    ensures
        parse_jstring_body(s, i) == Some((v, i + escape_str(v).len() + 1)),
    decreases v.len(),
{
    let es = escape_str(v);
    if v.len() == 0 {
        assert(s[i] == '"');
        assert(v =~= Seq::<char>::empty());
    } else {
        let c = v[0];
        let ec = escape_char(c);
        let rest = escape_str(v.drop_first());
        assert(es == ec + rest);
        assert forall|k: int| 0 <= k < ec.len() implies s[i + k] == ec[k] by {
            assert(es[k] == s.subrange(i, i + es.len() as int)[k]);
        }
        assert(s[i + 0] == ec[0]);
        assert(s.subrange(i + ec.len(), (i + ec.len()) + rest.len() as int) =~= rest) by {
            assert forall|k: int| 0 <= k < rest.len() implies s[i + ec.len() + k] == rest[k] by {
                assert(es[ec.len() + k] == s.subrange(i, i + es.len() as int)[ec.len() + k]);
                assert(es[ec.len() + k] == rest[k]);
            }
        }
        lemma_parse_escaped(s, i + ec.len(), v.drop_first());
        let u = c as u32;
        if c == '"' || c == '\\' || c == '\n' || c == '\r' || c == '\t' {
            assert(s[i] == '\\');
            assert(unescape_simple(s[i + 1]) == Some(c));
            assert(seq![c] + v.drop_first() =~= v);
        } else if u < 32 {
            assert(s[i] == '\\' && s[i + 1] == 'u' && s[i + 2] == '0' && s[i + 3] == '0');
            lemma_hex_char_val((u / 16) as nat);
            lemma_hex_char_val((u % 16) as nat);
            let code = (hex_val(s[i + 2]) * 4096 + hex_val(s[i + 3]) * 256 + hex_val(s[i + 4]) * 16
                + hex_val(s[i + 5])) as u32;
            assert(hex_val('0') == 0);
            assert(code == u);
            vstd::utf8::char_u32_cast(c, code);
            assert(code as char == c);
            assert(seq![c] + v.drop_first() =~= v);
        } else {
            assert(s[i] == c);
            assert(seq![c] + v.drop_first() =~= v);
        }
    }
}

/// The JSON `null` literal.
pub open spec fn lit_null() -> Seq<char> {
    seq!['n', 'u', 'l', 'l']
}

/// The JSON `true` literal.
pub open spec fn lit_true() -> Seq<char> {
    seq!['t', 'r', 'u', 'e']
}

/// The JSON `false` literal.
pub open spec fn lit_false() -> Seq<char> {
    seq!['f', 'a', 'l', 's', 'e']
}

/// The wire text of a scalar value.
pub open spec fn emit_scalar(v: ValueV) -> Seq<char> {
    match v {
        ValueV::Null => lit_null(),
        ValueV::Bool(b) => if b {
            lit_true()
        } else {
            lit_false()
        },
        ValueV::UInt(n) => dec_digits(n as nat),
        ValueV::Int(n) => emit_int(n as int),
        ValueV::Str(t) => emit_jstring(t),
    }
}

/// The literal `lit` stands at position `i` of `s`.
pub open spec fn match_lit(s: Seq<char>, i: int, lit: Seq<char>) -> bool {
    0 <= i && i + lit.len() <= s.len() && s.subrange(i, i + lit.len() as int) == lit
}

/// Parse a JSON number starting at `i`; non-negative values become `UInt`,
/// negative values `Int`.
pub open spec fn parse_number(s: Seq<char>, i: int) -> Option<(ValueV, int)> {
    if 0 <= i < s.len() && s[i] == '-' {
        let e = digit_run_end(s, i + 1);
        if e == i + 1 {
            None
        } else {
            let m = digits_value(s, i + 1, e);
            if m == 0 {
                Some((ValueV::UInt(0), e))
            } else if m <= 0x8000_0000_0000_0000 {
                Some((ValueV::Int((-(m as int)) as i64), e))
            } else {
                None
            }
        }
    } else {
        let e = digit_run_end(s, i);
        if e == i {
            None
        } else {
            let m = digits_value(s, i, e);
            if m <= u64::MAX {
                Some((ValueV::UInt(m as u64), e))
            } else {
                None
            }
        }
    }
}

/// Parse a scalar value starting at `i`.
pub open spec fn parse_scalar(s: Seq<char>, i: int) -> Option<(ValueV, int)> {
    if i < 0 || i >= s.len() {
        None
    } else {
        let c = s[i];
        if c == 'n' {
            if match_lit(s, i, lit_null()) {
                Some((ValueV::Null, i + 4))
            } else {
                None
            }
        } else if c == 't' {
            if match_lit(s, i, lit_true()) {
                Some((ValueV::Bool(true), i + 4))
            } else {
                None
            }
        } else if c == 'f' {
            if match_lit(s, i, lit_false()) {
                Some((ValueV::Bool(false), i + 5))
            } else {
                None
            }
        } else if c == '"' {
            match parse_jstring_body(s, i + 1) {
                Some((t, j)) => Some((ValueV::Str(t), j)),
                None => None,
            }
        } else if c == '-' || is_digit_char(c) {
            parse_number(s, i)
        } else {
            None
        }
    }
}

/// A successful scalar parse makes progress and stays within the text.
pub proof fn lemma_parse_scalar_bounds(s: Seq<char>, i: int)
    requires
        parse_scalar(s, i) is Some,
    ensures
        i < parse_scalar(s, i)->Some_0.1 <= s.len(),
{
    let c = s[i];
    if c == 'n' || c == 't' || c == 'f' {
    } else if c == '"' {
        lemma_parse_jstring_body_bounds(s, i + 1);
    } else {
        if s[i] == '-' {
            lemma_digit_run_end_bounds(s, i + 1);
        } else {
            lemma_digit_run_end_bounds(s, i);
        }
    }
}

/// Reading back the wire text of a scalar embedded in a larger text yields
/// the scalar in canonical form.  The character that follows the scalar, if
/// any, must not be a digit (in the wire grammar it is a separator).
pub proof fn lemma_parse_scalar_emitted(s: Seq<char>, i: int, v: ValueV)
    requires
        0 <= i,
        i + emit_scalar(v).len() <= s.len(),
        s.subrange(i, i + emit_scalar(v).len() as int) == emit_scalar(v),
        i + emit_scalar(v).len() == s.len() || !is_digit_char(s[i + emit_scalar(v).len()]),
    ensures
        parse_scalar(s, i) == Some((v.norm(), i + emit_scalar(v).len() as int)),
{
    let ev = emit_scalar(v);
    assert forall|k: int| 0 <= k < ev.len() implies s[i + k] == ev[k] by {
        assert(ev[k] == s.subrange(i, i + ev.len() as int)[k]);
    }
    assert(s[i + 0] == ev[0]);
    match v {
        ValueV::Null => {
            assert(s.subrange(i, i + 4) == lit_null());
        },
        ValueV::Bool(b) => {},
        ValueV::UInt(n) => {
            lemma_dec_digits_shape(n as nat);
            lemma_parse_dec_digits(s, i, n as nat);
            assert(!is_digit_char('n') && !is_digit_char('t') && !is_digit_char('f')
                && !is_digit_char('"') && !is_digit_char('-'));
        },
        ValueV::Int(n) => {
            if n >= 0 {
                lemma_dec_digits_shape(n as nat);
                lemma_parse_dec_digits(s, i, n as nat);
                assert(!is_digit_char('n') && !is_digit_char('t') && !is_digit_char('f')
                    && !is_digit_char('"') && !is_digit_char('-'));
            } else {
                let m = (-(n as int)) as nat;
                let ds = dec_digits(m);
                assert(s.subrange(i + 1, i + 1 + ds.len() as int) =~= ds) by {
                    assert forall|k: int| 0 <= k < ds.len() implies s[i + 1 + k] == ds[k] by {
                        assert(s[i + (1 + k)] == ev[1 + k]);
                        assert(ev[1 + k] == ds[k]);
                    }
                }
                lemma_parse_dec_digits(s, i + 1, m);
                lemma_dec_digits_shape(m);
                assert(digit_run_end(s, i + 1) == i + 1 + ds.len() > i + 1);
            }
        },
        ValueV::Str(t) => {
            let es = escape_str(t);
            assert(s.subrange(i + 1, i + 1 + es.len() as int) =~= es) by {
                assert forall|k: int| 0 <= k < es.len() implies s[i + 1 + k] == es[k] by {
                    assert(s[i + (1 + k)] == ev[1 + k]);
                    assert(ev[1 + k] == es[k]);
                }
            }
            assert(s[i + (1 + es.len())] == ev[1 + es.len() as int]);
            lemma_parse_escaped(s, i + 1, t);
        },
    }
}

/// Helper: the digit run starting anywhere inside an all-digit stretch ends
/// at the stretch's end.
proof fn lemma_digit_run_end_stops(s: Seq<char>, k: int, e: int)
    requires
        0 <= k <= e <= s.len(),
        forall|m: int| k <= m < e ==> is_digit_char(s[m]),
        e == s.len() || !is_digit_char(s[e]),
    ensures
        digit_run_end(s, k) == e,
    decreases e - k,
{
    if k < e {
        lemma_digit_run_end_stops(s, k + 1, e);
    }
}

/// Every scalar the parser yields is in canonical form.
pub proof fn lemma_parse_scalar_wf(s: Seq<char>, i: int)
    requires
        parse_scalar(s, i) is Some,
    ensures
        parse_scalar(s, i)->Some_0.0.wf(),
{
}

/// Executable test for a decimal digit character.
pub(crate) fn is_digit_x(c: char) -> (b: bool)
    ensures
        b == is_digit_char(c),
{
    let u = c as u32;
    48 <= u && u <= 57
}

/// Executable test for JSON whitespace.
pub(crate) fn is_ws_x(c: char) -> (b: bool)
    ensures
        b == is_ws_char(c),
{
    c == ' ' || c == '\t' || c == '\n' || c == '\r'
}

/// Executable whitespace skip.
pub(crate) fn skip_ws_x(s: &Vec<char>, i: usize) -> (j: usize)
    requires
        i <= s@.len(),
    ensures
        j as int == skip_ws(s@, i as int),
        i <= j <= s@.len(),
{
    let mut j = i;
    while j < s.len() && is_ws_x(s[j])
        invariant
            i <= j <= s@.len(),
            skip_ws(s@, i as int) == skip_ws(s@, j as int),
        decreases s@.len() - j,
    {
        j = j + 1;
    }
    j
}

/// Executable decimal digit character.
pub(crate) fn digit_char_x(d: u64) -> (c: char)
    requires
        d < 10,
    ensures
        c == digit_char(d as nat),
{
    if d == 0 {
        '0'
    } else if d == 1 {
        '1'
    } else if d == 2 {
        '2'
    } else if d == 3 {
        '3'
    } else if d == 4 {
        '4'
    } else if d == 5 {
        '5'
    } else if d == 6 {
        '6'
    } else if d == 7 {
        '7'
    } else if d == 8 {
        '8'
    } else {
        '9'
    }
}

/// Executable hexadecimal digit character.
pub(crate) fn hex_char_x(d: u32) -> (c: char)
    requires
        d < 16,
    ensures
        c == hex_char(d as nat),
{
    if d < 10 {
        digit_char_x(d as u64)
    } else if d == 10 {
        'a'
    } else if d == 11 {
        'b'
    } else if d == 12 {
        'c'
    } else if d == 13 {
        'd'
    } else if d == 14 {
        'e'
    } else {
        'f'
    }
}

/// Executable value of a hexadecimal digit character.
pub(crate) fn hex_val_x(c: char) -> (d: u32)
    requires
        is_hex_char(c),
    ensures
        d as nat == hex_val(c),
        d < 16,
{
    let u = c as u32;
    if u <= 57 {
        u - 48
    } else if u >= 97 {
        u - 87
    } else {
        u - 55
    }
}

/// Executable parse of a run of decimal digits into a `u64`.
pub(crate) fn parse_u64_x(s: &Vec<char>, i: usize) -> (r: Option<(u64, usize)>)
    requires
        i <= s@.len(),
    ensures
        match r {
            Some(p) => {
                &&& p.1 as int == digit_run_end(s@, i as int)
                &&& i < p.1 <= s@.len()
                &&& digits_value(s@, i as int, p.1 as int) == p.0 as nat
            },
            None => digit_run_end(s@, i as int) == i as int || digits_value(
                s@,
                i as int,
                digit_run_end(s@, i as int),
            ) > u64::MAX,
        },
{
    proof {
        lemma_digit_run_end_bounds(s@, i as int);
    }
    let ghost e = digit_run_end(s@, i as int);
    let mut j = i;
    let mut acc: u64 = 0;
    let mut over = false;
    while j < s.len() && is_digit_x(s[j])
        invariant
            i <= j <= s@.len(),
            j as int <= e <= s@.len(),
            e == digit_run_end(s@, i as int),
            digit_run_end(s@, j as int) == e,
            !over ==> acc as nat == digits_value(s@, i as int, j as int),
            over ==> digits_value(s@, i as int, j as int) > u64::MAX,
        decreases s@.len() - j,
    {
        let d = (s[j] as u32 - 48) as u64;
        proof {
            lemma_digit_run_end_bounds(s@, j as int + 1);
            assert(digits_value(s@, i as int, j as int + 1) == digits_value(
                s@,
                i as int,
                j as int,
            ) * 10 + digit_val(s@[j as int]));
        }
        if over {
        } else if acc > (u64::MAX - d) / 10 {
            proof {
                vstd::arithmetic::div_mod::lemma_fundamental_div_mod((u64::MAX - d) as int, 10);
            }
            over = true;
        } else {
            proof {
                vstd::arithmetic::div_mod::lemma_fundamental_div_mod((u64::MAX - d) as int, 10);
            }
            acc = acc * 10 + d;
        }
        j = j + 1;
    }
    if j == i || over {
        None
    } else {
        Some((acc, j))
    }
}

/// Executable parse of a JSON number.
pub(crate) fn parse_number_x(s: &Vec<char>, i: usize) -> (r: Option<(Value, usize)>)
    requires
        i <= s@.len(),
    ensures
        match r {
            Some(p) => parse_number(s@, i as int) == Some((p.0@, p.1 as int)) && i < p.1
                <= s@.len(),
            None => parse_number(s@, i as int) is None,
        },
{
    if i < s.len() && s[i] == '-' {
        match parse_u64_x(s, i + 1) {
            None => None,
            Some((m, j)) => {
                if m == 0 {
                    Some((Value::UInt(0), j))
                } else if m <= 9223372036854775808 {
                    let v: i64 = if m == 9223372036854775808 {
                        i64::MIN
                    } else {
                        -(m as i64)
                    };
                    Some((Value::Int(v), j))
                } else {
                    None
                }
            },
        }
    } else {
        match parse_u64_x(s, i) {
            None => None,
            Some((m, j)) => Some((Value::UInt(m), j)),
        }
    }
}

/// Executable simple unescape.
pub(crate) fn unescape_simple_x(e: char) -> (r: Option<char>)
    ensures
        r == unescape_simple(e),
{
    if e == '"' {
        Some('"')
    } else if e == '\\' {
        Some('\\')
    } else if e == '/' {
        Some('/')
    } else if e == 'n' {
        Some('\n')
    } else if e == 'r' {
        Some('\r')
    } else if e == 't' {
        Some('\t')
    } else if e == 'b' {
        Some('\u{0008}')
    } else if e == 'f' {
        Some('\u{000C}')
    } else {
        None
    }
}

/// Executable test for a hexadecimal digit character.
pub(crate) fn is_hex_x(c: char) -> (b: bool)
    ensures
        b == is_hex_char(c),
{
    let u = c as u32;
    (48 <= u && u <= 57) || (97 <= u && u <= 102) || (65 <= u && u <= 70)
}

/// Executable parse of a JSON string body, after the opening quote.
pub(crate) fn parse_jstring_x(s: &Vec<char>, i: usize) -> (r: Option<(Vec<char>, usize)>)
    requires
        i <= s@.len(),
    ensures
        match r {
            Some(p) => parse_jstring_body(s@, i as int) == Some((p.0@, p.1 as int)) && i < p.1
                <= s@.len(),
            None => parse_jstring_body(s@, i as int) is None,
        },
    decreases s@.len() - i,
{
    if i >= s.len() {
        return None;
    }
    let c = s[i];
    if c == '"' {
        let t: Vec<char> = Vec::new();
        Some((t, i + 1))
    } else if c == '\\' {
        if s.len() - i < 2 {
            return None;
        }
        let e = s[i + 1];
        if e == 'u' {
            if s.len() - i >= 6 && is_hex_x(s[i + 2]) && is_hex_x(s[i + 3]) && is_hex_x(s[i + 4])
                && is_hex_x(s[i + 5]) {
                let code = hex_val_x(s[i + 2]) * 4096 + hex_val_x(s[i + 3]) * 256 + hex_val_x(
                    s[i + 4],
                ) * 16 + hex_val_x(s[i + 5]);
                if 0xD800 <= code && code < 0xE000 {
                    None
                } else {
                    let d = crate::chars::char_of_u32(code);
                    match parse_jstring_x(s, i + 6) {
                        Some((t, j)) => {
                            let mut t = t;
                            t.insert(0, d);
                            proof {
                                assert(t@ =~= seq![d] + t@.subrange(1, t@.len() as int));
                            }
                            Some((t, j))
                        },
                        None => None,
                    }
                }
            } else {
                None
            }
        } else {
            match unescape_simple_x(e) {
                Some(d) => match parse_jstring_x(s, i + 2) {
                    Some((t, j)) => {
                        let mut t = t;
                        t.insert(0, d);
                        Some((t, j))
                    },
                    None => None,
                },
                None => None,
            }
        }
    } else if (c as u32) < 32 {
        None
    } else {
        match parse_jstring_x(s, i + 1) {
            Some((t, j)) => {
                let mut t = t;
                t.insert(0, c);
                Some((t, j))
            },
            None => None,
        }
    }
}

/// Executable parse of a scalar value.
pub(crate) fn parse_scalar_x(s: &Vec<char>, i: usize) -> (r: Option<(Value, usize)>)
    requires
        i <= s@.len(),
    ensures
        match r {
            Some(p) => parse_scalar(s@, i as int) == Some((p.0@, p.1 as int)) && i < p.1
                <= s@.len(),
            None => parse_scalar(s@, i as int) is None,
        },
{
    if i >= s.len() {
        return None;
    }
    let c = s[i];
    if c == 'n' {
        if s.len() - i >= 4 && s[i + 1] == 'u' && s[i + 2] == 'l' && s[i + 3] == 'l' {
            proof {
                assert(s@.subrange(i as int, i as int + 4) =~= lit_null());
            }
            Some((Value::Null, i + 4))
        } else {
            proof {
                if match_lit(s@, i as int, lit_null()) {
                    assert(s@[i as int + 1] == s@.subrange(i as int, i as int + 4)[1]);
                    assert(s@[i as int + 2] == s@.subrange(i as int, i as int + 4)[2]);
                    assert(s@[i as int + 3] == s@.subrange(i as int, i as int + 4)[3]);
                }
            }
            None
        }
    } else if c == 't' {
        if s.len() - i >= 4 && s[i + 1] == 'r' && s[i + 2] == 'u' && s[i + 3] == 'e' {
            proof {
                assert(s@.subrange(i as int, i as int + 4) =~= lit_true());
            }
            Some((Value::Bool(true), i + 4))
        } else {
            proof {
                if match_lit(s@, i as int, lit_true()) {
                    assert(s@[i as int + 1] == s@.subrange(i as int, i as int + 4)[1]);
                    assert(s@[i as int + 2] == s@.subrange(i as int, i as int + 4)[2]);
                    assert(s@[i as int + 3] == s@.subrange(i as int, i as int + 4)[3]);
                }
            }
            None
        }
    } else if c == 'f' {
        if s.len() - i >= 5 && s[i + 1] == 'a' && s[i + 2] == 'l' && s[i + 3] == 's' && s[i + 4]
            == 'e' {
            proof {
                assert(s@.subrange(i as int, i as int + 5) =~= lit_false());
            }
            Some((Value::Bool(false), i + 5))
        } else {
            proof {
                if match_lit(s@, i as int, lit_false()) {
                    assert(s@[i as int + 1] == s@.subrange(i as int, i as int + 5)[1]);
                    assert(s@[i as int + 2] == s@.subrange(i as int, i as int + 5)[2]);
                    assert(s@[i as int + 3] == s@.subrange(i as int, i as int + 5)[3]);
                    assert(s@[i as int + 4] == s@.subrange(i as int, i as int + 5)[4]);
                }
            }
            None
        }
    } else if c == '"' {
        match parse_jstring_x(s, i + 1) {
            Some((t, j)) => {
                let txt = crate::chars::string_from_chars(&t);
                Some((Value::Str(txt), j))
            },
            None => None,
        }
    } else if c == '-' || is_digit_x(c) {
        parse_number_x(s, i)
    } else {
        None
    }
}

/// Push the decimal digits of `n` onto `out`.
pub(crate) fn push_u64(n: u64, out: &mut Vec<char>)
    ensures
        final(out)@ == old(out)@ + dec_digits(n as nat),
    decreases n,
{
    if n < 10 {
        out.push(digit_char_x(n));
        proof {
            assert(out@ =~= old(out)@ + dec_digits(n as nat));
        }
    } else {
        push_u64(n / 10, out);
        out.push(digit_char_x(n % 10));
        proof {
            assert(out@ =~= old(out)@ + dec_digits(n as nat));
        }
    }
}

/// Push the decimal text of `n` onto `out`.
pub(crate) fn push_i64(n: i64, out: &mut Vec<char>)
    ensures
        final(out)@ == old(out)@ + emit_int(n as int),
{
    if n >= 0 {
        push_u64(n as u64, out);
    } else {
        out.push('-');
        let m: u64 = if n == i64::MIN {
            9223372036854775808
        } else {
            (-n) as u64
        };
        push_u64(m, out);
        proof {
            assert(out@ =~= old(out)@ + emit_int(n as int));
        }
    }
}

/// Escaping a text extended by one character appends that character's
/// escape form.
pub proof fn lemma_escape_str_snoc(s: Seq<char>, c: char)
    ensures
        escape_str(s.push(c)) == escape_str(s) + escape_char(c),
    decreases s.len(),
{
    if s.len() == 0 {
        let t = s.push(c);
        assert(t.len() == 1 && t[0] == c);
        assert(t.drop_first() =~= Seq::<char>::empty());
        assert(escape_str(t) == escape_char(c) + escape_str(t.drop_first()));
        assert(escape_str(s) + escape_char(c) =~= escape_char(c) + escape_str(t.drop_first()));
    } else {
        assert(s.push(c)[0] == s[0]);
        assert(s.push(c).drop_first() =~= s.drop_first().push(c));
        lemma_escape_str_snoc(s.drop_first(), c);
        assert(escape_char(s[0]) + (escape_str(s.drop_first()) + escape_char(c)) =~= (escape_char(
            s[0],
        ) + escape_str(s.drop_first())) + escape_char(c));
    }
}

/// Push one character of a JSON string body, in escape form, onto `out`.
pub(crate) fn push_escaped_char(c: char, out: &mut Vec<char>)
    ensures
        final(out)@ == old(out)@ + escape_char(c),
{
    if c == '"' {
        out.push('\\');
        out.push('"');
    } else if c == '\\' {
        out.push('\\');
        out.push('\\');
    } else if c == '\n' {
        out.push('\\');
        out.push('n');
    } else if c == '\r' {
        out.push('\\');
        out.push('r');
    } else if c == '\t' {
        out.push('\\');
        out.push('t');
    } else {
        let u = c as u32;
        if u < 32 {
            out.push('\\');
            out.push('u');
            out.push('0');
            out.push('0');
            out.push(hex_char_x(u / 16));
            out.push(hex_char_x(u % 16));
        } else {
            out.push(c);
        }
    }
    proof {
        assert(out@ =~= old(out)@ + escape_char(c));
    }
}

/// Push a complete JSON string token for `t` onto `out`.
pub(crate) fn push_jstring(t: &str, out: &mut Vec<char>)
    ensures
        final(out)@ == old(out)@ + emit_jstring(t@),
{
    let cs = crate::chars::chars_of_str(t);
    out.push('"');
    let mut k: usize = 0;
    while k < cs.len()
        invariant
            k <= cs@.len(),
            cs@ == t@,
            out@ == old(out)@ + seq!['"'] + escape_str(t@.subrange(0, k as int)),
        decreases cs@.len() - k,
    {
        let ghost pre = t@.subrange(0, k as int);
        push_escaped_char(cs[k], out);
        proof {
            assert(t@.subrange(0, k as int + 1) =~= pre.push(t@[k as int]));
            lemma_escape_str_snoc(pre, t@[k as int]);
            assert(old(out)@ + seq!['"'] + (escape_str(pre) + escape_char(t@[k as int])) =~= (old(
                out,
            )@ + seq!['"'] + escape_str(pre)) + escape_char(t@[k as int]));
        }
        k = k + 1;
    }
    out.push('"');
    proof {
        assert(t@.subrange(0, t@.len() as int) =~= t@);
        assert(out@ =~= old(out)@ + emit_jstring(t@));
    }
}

/// Push the wire text of a scalar value onto `out`.
pub(crate) fn push_scalar(v: &Value, out: &mut Vec<char>)
    ensures
        final(out)@ == old(out)@ + emit_scalar(v@),
{
    match v {
        Value::Null => {
            out.push('n');
            out.push('u');
            out.push('l');
            out.push('l');
            proof {
                assert(out@ =~= old(out)@ + lit_null());
            }
        },
        Value::Bool(b) => {
            if *b {
                out.push('t');
                out.push('r');
                out.push('u');
                out.push('e');
                proof {
                    assert(out@ =~= old(out)@ + lit_true());
                }
            } else {
                out.push('f');
                out.push('a');
                out.push('l');
                out.push('s');
                out.push('e');
                proof {
                    assert(out@ =~= old(out)@ + lit_false());
                }
            }
        },
        Value::UInt(n) => {
            push_u64(*n, out);
        },
        Value::Int(n) => {
            push_i64(*n, out);
        },
        Value::Str(t) => {
            push_jstring(t.as_str(), out);
        },
    }
}

} // verus!
