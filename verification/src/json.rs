//! The textual JSON subset the protocol is written in: values, and the
//! serializer.
//!
//! The protocol's wire format nests objects at most three levels deep
//! (envelope, `d` payload, INFO `data` payload), and its payloads hold only
//! strings, non-negative decimal numbers with up to three fractional digits,
//! and `null`. The value types here mirror exactly that shape, level by
//! level, so every message of the protocol is representable and nothing
//! deeper is.

use vstd::prelude::*;
use vstd::string::StrSliceExecFns;
use crate::text::{digit_char, digit_char_exec, esc_char};

verus! {

/// A non-negative JSON number: a whole part and thousandths.
/// Well-formed values keep `milli` below 1000.
#[derive(Clone, Copy, PartialEq, Eq, Structural, Debug)]
pub struct JsonNum {
    /// The whole part of the number.
    pub whole: u64,
    /// The fractional part, in thousandths.
    pub milli: u16,
}

/// A leaf JSON value: `null`, a number, or a string.
#[derive(Debug, Clone)]
pub enum JsonScalar {
    /// The JSON `null` value.
    Null,
    /// A non-negative decimal number.
    Num(JsonNum),
    /// A string.
    Str(String),
}

/// The mathematical value of a [`JsonScalar`].
pub enum ScalarV {
    /// The JSON `null` value.
    Null,
    /// A non-negative decimal number.
    Num(JsonNum),
    /// A string.
    Str(Seq<char>),
}

impl View for JsonScalar {
    type V = ScalarV;

    open spec fn view(&self) -> ScalarV {
        match self {
            JsonScalar::Null => ScalarV::Null,
            JsonScalar::Num(n) => ScalarV::Num(*n),
            JsonScalar::Str(s) => ScalarV::Str(s@),
        }
    }
}

/// A value inside the `d` payload object: a scalar, or one more object of
/// scalars (the INFO `data` payload).
#[derive(Debug)]
pub enum JsonDVal {
    /// A leaf value.
    Scalar(JsonScalar),
    /// An object of leaf values.
    Obj(Vec<(String, JsonScalar)>),
}

/// The mathematical value of a [`JsonDVal`].
pub enum DValV {
    /// A leaf value.
    Scalar(ScalarV),
    /// An object of leaf values.
    Obj(Seq<(Seq<char>, ScalarV)>),
}

/// The members of an object of scalars, as a mathematical association list.
pub open spec fn flat_members_view(v: Seq<(String, JsonScalar)>) -> Seq<(Seq<char>, ScalarV)> {
    v.map_values(|p: (String, JsonScalar)| (p.0@, p.1@))
}

impl View for JsonDVal {
    type V = DValV;

    open spec fn view(&self) -> DValV {
        match self {
            JsonDVal::Scalar(s) => DValV::Scalar(s@),
            JsonDVal::Obj(v) => DValV::Obj(flat_members_view(v@)),
        }
    }
}

/// A value inside the top-level envelope object: a scalar, or the `d`
/// payload object.
#[derive(Debug)]
pub enum JsonTopVal {
    /// A leaf value.
    Scalar(JsonScalar),
    /// A payload object.
    Obj(Vec<(String, JsonDVal)>),
}

/// The mathematical value of a [`JsonTopVal`].
pub enum TopValV {
    /// A leaf value.
    Scalar(ScalarV),
    /// A payload object.
    Obj(Seq<(Seq<char>, DValV)>),
}

/// The members of a payload object, as a mathematical association list.
pub open spec fn d_members_view(v: Seq<(String, JsonDVal)>) -> Seq<(Seq<char>, DValV)> {
    v.map_values(|p: (String, JsonDVal)| (p.0@, p.1@))
}

impl View for JsonTopVal {
    type V = TopValV;

    open spec fn view(&self) -> TopValV {
        match self {
            JsonTopVal::Scalar(s) => TopValV::Scalar(s@),
            JsonTopVal::Obj(v) => TopValV::Obj(d_members_view(v@)),
        }
    }
}

/// The members of a top-level envelope object.
pub open spec fn top_members_view(v: Seq<(String, JsonTopVal)>) -> Seq<(Seq<char>, TopValV)> {
    v.map_values(|p: (String, JsonTopVal)| (p.0@, p.1@))
}

/// Whether a number is well formed: thousandths below 1000.
pub open spec fn num_wf(n: JsonNum) -> bool {
    n.milli < 1000
}

/// Whether a scalar is well formed.
pub open spec fn scalar_wf(v: ScalarV) -> bool {
    match v {
        ScalarV::Num(n) => num_wf(n),
        _ => true,
    }
}

/// Whether the scalars of an object of scalars are well formed.
pub open spec fn flat_members_scalars_wf(ms: Seq<(Seq<char>, ScalarV)>) -> bool {
    forall|i: int| 0 <= i < ms.len() ==> scalar_wf(#[trigger] ms[i].1)
}

/// Whether a payload value is well formed.
pub open spec fn dval_wf(v: DValV) -> bool {
    match v {
        DValV::Scalar(s) => scalar_wf(s),
        DValV::Obj(ms) => flat_members_scalars_wf(ms),
    }
}

/// Whether the values of a payload object are well formed.
pub open spec fn d_members_vals_wf(ms: Seq<(Seq<char>, DValV)>) -> bool {
    forall|i: int| 0 <= i < ms.len() ==> dval_wf(#[trigger] ms[i].1)
}

/// Whether a top-level value is well formed.
pub open spec fn topval_wf(v: TopValV) -> bool {
    match v {
        TopValV::Scalar(s) => scalar_wf(s),
        TopValV::Obj(ms) => d_members_vals_wf(ms),
    }
}

/// Whether the values of a top-level envelope object are well formed.
pub open spec fn top_members_vals_wf(ms: Seq<(Seq<char>, TopValV)>) -> bool {
    forall|i: int| 0 <= i < ms.len() ==> topval_wf(#[trigger] ms[i].1)
}

/// The decimal digits of a natural number, most significant first.
pub open spec fn wr_nat(n: nat) -> Seq<char>
    decreases n,
{
    if n < 10 {
        seq![digit_char(n as u64)]
    } else {
        wr_nat(n / 10).push(digit_char((n % 10) as u64))
    }
}

/// Exactly three decimal digits for a thousandths value, zero-padded.
pub open spec fn wr_frac3(m: u16) -> Seq<char>
    recommends
        m < 1000,
{
    seq![
        digit_char(((m as nat) / 100 % 10) as u64),
        digit_char(((m as nat) / 10 % 10) as u64),
        digit_char(((m as nat) % 10) as u64),
    ]
}

/// The canonical text of a number: the whole part, and for a non-zero
/// fraction a dot and three digits.
pub open spec fn wr_num(n: JsonNum) -> Seq<char> {
    if n.milli == 0 {
        wr_nat(n.whole as nat)
    } else {
        wr_nat(n.whole as nat) + seq!['.'] + wr_frac3(n.milli)
    }
}

/// The body of a string literal: every character, with `"` and `\` escaped.
pub open spec fn wr_str_body(s: Seq<char>) -> Seq<char>
    decreases s.len(),
{
    if s.len() == 0 {
        Seq::empty()
    } else {
        esc_char(s[0]) + wr_str_body(s.drop_first())
    }
}

/// A string literal: the escaped body between double quotes.
pub open spec fn wr_string(s: Seq<char>) -> Seq<char> {
    seq!['"'] + wr_str_body(s) + seq!['"']
}

/// The text of a scalar.
pub open spec fn wr_scalar(v: ScalarV) -> Seq<char> {
    match v {
        ScalarV::Null => seq!['n', 'u', 'l', 'l'],
        ScalarV::Num(n) => wr_num(n),
        ScalarV::Str(s) => wr_string(s),
    }
}

/// The members of an object of scalars, comma-separated.
pub open spec fn wr_flat_members(ms: Seq<(Seq<char>, ScalarV)>) -> Seq<char>
    decreases ms.len(),
{
    if ms.len() == 0 {
        Seq::empty()
    } else if ms.len() == 1 {
        wr_string(ms[0].0) + seq![':'] + wr_scalar(ms[0].1)
    } else {
        wr_string(ms[0].0) + seq![':'] + wr_scalar(ms[0].1) + seq![','] + wr_flat_members(
            ms.drop_first(),
        )
    }
}

/// An object of scalars.
pub open spec fn wr_flat_obj(ms: Seq<(Seq<char>, ScalarV)>) -> Seq<char> {
    seq!['{'] + wr_flat_members(ms) + seq!['}']
}

/// The text of a payload value.
pub open spec fn wr_dval(v: DValV) -> Seq<char> {
    match v {
        DValV::Scalar(s) => wr_scalar(s),
        DValV::Obj(ms) => wr_flat_obj(ms),
    }
}

/// The members of a payload object, comma-separated.
pub open spec fn wr_d_members(ms: Seq<(Seq<char>, DValV)>) -> Seq<char>
    decreases ms.len(),
{
    if ms.len() == 0 {
        Seq::empty()
    } else if ms.len() == 1 {
        wr_string(ms[0].0) + seq![':'] + wr_dval(ms[0].1)
    } else {
        wr_string(ms[0].0) + seq![':'] + wr_dval(ms[0].1) + seq![','] + wr_d_members(
            ms.drop_first(),
        )
    }
}

/// A payload object.
pub open spec fn wr_d_obj(ms: Seq<(Seq<char>, DValV)>) -> Seq<char> {
    seq!['{'] + wr_d_members(ms) + seq!['}']
}

/// The text of a top-level value.
pub open spec fn wr_topval(v: TopValV) -> Seq<char> {
    match v {
        TopValV::Scalar(s) => wr_scalar(s),
        TopValV::Obj(ms) => wr_d_obj(ms),
    }
}

/// The members of the envelope object, comma-separated.
pub open spec fn wr_top_members(ms: Seq<(Seq<char>, TopValV)>) -> Seq<char>
    decreases ms.len(),
{
    if ms.len() == 0 {
        Seq::empty()
    } else if ms.len() == 1 {
        wr_string(ms[0].0) + seq![':'] + wr_topval(ms[0].1)
    } else {
        wr_string(ms[0].0) + seq![':'] + wr_topval(ms[0].1) + seq![','] + wr_top_members(
            ms.drop_first(),
        )
    }
}

/// A whole document: the envelope object, with no surrounding whitespace.
pub open spec fn wr_document(ms: Seq<(Seq<char>, TopValV)>) -> Seq<char> {
    seq!['{'] + wr_top_members(ms) + seq!['}']
}

/// Appending a character to a string appends its escape to the body text.
pub proof fn lemma_wr_str_body_snoc(t: Seq<char>, c: char)
    ensures
        wr_str_body(t.push(c)) == wr_str_body(t) + esc_char(c),
    decreases t.len(),
{
    if t.len() == 0 {
        assert(t.push(c)[0] == c);
        assert(t.push(c).drop_first() =~= Seq::<char>::empty());
        assert(wr_str_body(t.push(c)) =~= esc_char(c) + wr_str_body(Seq::<char>::empty()));
        assert(esc_char(c) + Seq::<char>::empty() =~= esc_char(c));
        assert(wr_str_body(t) + esc_char(c) =~= esc_char(c));
    } else {
        assert(t.push(c)[0] == t[0]);
        assert(t.push(c).drop_first() =~= t.drop_first().push(c));
        lemma_wr_str_body_snoc(t.drop_first(), c);
        assert(wr_str_body(t.push(c)) =~= wr_str_body(t) + esc_char(c));
    }
}

/// Writes the decimal digits of `n`.
pub fn w_nat(n: u64, out: &mut Vec<char>)
    ensures
        final (out)@ == old(out)@ + wr_nat(n as nat),
    decreases n,
{
    if n < 10 {
        out.push(digit_char_exec(n));
        assert(out@ =~= old(out)@ + wr_nat(n as nat));
    } else {
        w_nat(n / 10, out);
        out.push(digit_char_exec(n % 10));
        assert(out@ =~= old(out)@ + wr_nat(n as nat));
    }
}

/// Writes exactly three digits of a thousandths value.
pub fn w_frac3(m: u16, out: &mut Vec<char>)
    requires
        m < 1000,
    ensures
        final (out)@ == old(out)@ + wr_frac3(m),
{
    out.push(digit_char_exec(((m / 100) % 10) as u64));
    out.push(digit_char_exec(((m / 10) % 10) as u64));
    out.push(digit_char_exec((m % 10) as u64));
    assert(out@ =~= old(out)@ + wr_frac3(m));
}

/// Writes the canonical text of a number.
pub fn w_num(n: &JsonNum, out: &mut Vec<char>)
    requires
        num_wf(*n),
    ensures
        final (out)@ == old(out)@ + wr_num(*n),
{
    w_nat(n.whole, out);
    if n.milli != 0 {
        out.push('.');
        w_frac3(n.milli, out);
        assert(out@ =~= old(out)@ + wr_num(*n));
    }
}

/// Writes a string literal with its quotes and escapes.
pub fn w_string(s: &str, out: &mut Vec<char>)
    ensures
        final (out)@ == old(out)@ + wr_string(s@),
{
    out.push('"');
    let n = s.unicode_len();
    let mut i: usize = 0;
    while i < n
        invariant
            n == s@.len(),
            i <= n,
            out@ =~= old(out)@ + seq!['"'] + wr_str_body(s@.subrange(0, i as int)),
        decreases n - i,
    {
        let c = s.get_char(i);
        if c == '"' {
            out.push('\\');
            out.push('"');
        } else if c == '\\' {
            out.push('\\');
            out.push('\\');
        } else {
            out.push(c);
        }
        proof {
            assert(s@.subrange(0, i + 1 as int) =~= s@.subrange(0, i as int).push(s@[i as int]));
            lemma_wr_str_body_snoc(s@.subrange(0, i as int), s@[i as int]);
            assert(out@ =~= old(out)@ + seq!['"'] + wr_str_body(s@.subrange(0, i + 1 as int)));
        }
        i = i + 1;
    }
    out.push('"');
    proof {
        assert(s@.subrange(0, n as int) =~= s@);
        assert(out@ =~= old(out)@ + wr_string(s@));
    }
}

/// Writes the text of a scalar.
pub fn w_scalar(v: &JsonScalar, out: &mut Vec<char>)
    requires
        scalar_wf(v@),
    ensures
        final (out)@ == old(out)@ + wr_scalar(v@),
{
    match v {
        JsonScalar::Null => {
            out.push('n');
            out.push('u');
            out.push('l');
            out.push('l');
            assert(out@ =~= old(out)@ + wr_scalar(v@));
        },
        JsonScalar::Num(n) => {
            w_num(n, out);
        },
        JsonScalar::Str(s) => {
            w_string(s.as_str(), out);
        },
    }
}

/// Writes the members of an object of scalars, from index `i` on.
pub fn w_flat_members(v: &Vec<(String, JsonScalar)>, i: usize, out: &mut Vec<char>)
    requires
        i <= v@.len(),
        flat_members_scalars_wf(flat_members_view(v@)),
    ensures
        final (out)@ == old(out)@ + wr_flat_members(
            flat_members_view(v@).subrange(i as int, v@.len() as int),
        ),
    decreases v@.len() - i,
{
    let ghost ms = flat_members_view(v@).subrange(i as int, v@.len() as int);
    if i == v.len() {
        assert(out@ =~= old(out)@ + wr_flat_members(ms));
    } else {
        let p = &v[i];
        proof {
            assert(flat_members_view(v@)[i as int] == (v@[i as int].0@, v@[i as int].1@));
            assert(flat_members_view(v@)[i as int].1 == v@[i as int].1@);
            assert(scalar_wf(flat_members_view(v@)[i as int].1));
        }
        w_string(p.0.as_str(), out);
        out.push(':');
        w_scalar(&p.1, out);
        if i + 1 < v.len() {
            out.push(',');
            w_flat_members(v, i + 1, out);
            proof {
                assert(ms.drop_first() =~= flat_members_view(v@).subrange(
                    i + 1 as int,
                    v@.len() as int,
                ));
                assert(out@ =~= old(out)@ + wr_flat_members(ms));
            }
        } else {
            assert(ms.len() == 1);
            assert(out@ =~= old(out)@ + wr_flat_members(ms));
        }
    }
}

/// Writes the text of a payload value.
pub fn w_dval(v: &JsonDVal, out: &mut Vec<char>)
    requires
        dval_wf(v@),
    ensures
        final (out)@ == old(out)@ + wr_dval(v@),
{
    match v {
        JsonDVal::Scalar(s) => {
            w_scalar(s, out);
        },
        JsonDVal::Obj(ms) => {
            out.push('{');
            w_flat_members(ms, 0, out);
            out.push('}');
            proof {
                assert(flat_members_view(ms@).subrange(0, ms@.len() as int) =~= flat_members_view(
                    ms@,
                ));
                assert(out@ =~= old(out)@ + wr_dval(v@));
            }
        },
    }
}

/// Writes the members of a payload object, from index `i` on.
pub fn w_d_members(v: &Vec<(String, JsonDVal)>, i: usize, out: &mut Vec<char>)
    requires
        i <= v@.len(),
        d_members_vals_wf(d_members_view(v@)),
    ensures
        final (out)@ == old(out)@ + wr_d_members(d_members_view(v@).subrange(i as int, v@.len() as int)),
    decreases v@.len() - i,
{
    let ghost ms = d_members_view(v@).subrange(i as int, v@.len() as int);
    if i == v.len() {
        assert(out@ =~= old(out)@ + wr_d_members(ms));
    } else {
        let p = &v[i];
        proof {
            assert(d_members_view(v@)[i as int] == (v@[i as int].0@, v@[i as int].1@));
            assert(d_members_view(v@)[i as int].1 == v@[i as int].1@);
            assert(dval_wf(d_members_view(v@)[i as int].1));
        }
        w_string(p.0.as_str(), out);
        out.push(':');
        w_dval(&p.1, out);
        if i + 1 < v.len() {
            out.push(',');
            w_d_members(v, i + 1, out);
            proof {
                assert(ms.drop_first() =~= d_members_view(v@).subrange(
                    i + 1 as int,
                    v@.len() as int,
                ));
                assert(out@ =~= old(out)@ + wr_d_members(ms));
            }
        } else {
            assert(ms.len() == 1);
            assert(out@ =~= old(out)@ + wr_d_members(ms));
        }
    }
}

/// Writes the text of a top-level value.
pub fn w_topval(v: &JsonTopVal, out: &mut Vec<char>)
    requires
        topval_wf(v@),
    ensures
        final (out)@ == old(out)@ + wr_topval(v@),
{
    match v {
        JsonTopVal::Scalar(s) => {
            w_scalar(s, out);
        },
        JsonTopVal::Obj(ms) => {
            out.push('{');
            w_d_members(ms, 0, out);
            out.push('}');
            proof {
                assert(d_members_view(ms@).subrange(0, ms@.len() as int) =~= d_members_view(ms@));
                assert(out@ =~= old(out)@ + wr_topval(v@));
            }
        },
    }
}

/// Writes the members of the envelope object, from index `i` on.
pub fn w_top_members(v: &Vec<(String, JsonTopVal)>, i: usize, out: &mut Vec<char>)
    requires
        i <= v@.len(),
        top_members_vals_wf(top_members_view(v@)),
    ensures
        final (out)@ == old(out)@ + wr_top_members(
            top_members_view(v@).subrange(i as int, v@.len() as int),
        ),
    decreases v@.len() - i,
{
    let ghost ms = top_members_view(v@).subrange(i as int, v@.len() as int);
    if i == v.len() {
        assert(out@ =~= old(out)@ + wr_top_members(ms));
    } else {
        let p = &v[i];
        proof {
            assert(top_members_view(v@)[i as int] == (v@[i as int].0@, v@[i as int].1@));
            assert(top_members_view(v@)[i as int].1 == v@[i as int].1@);
            assert(topval_wf(top_members_view(v@)[i as int].1));
        }
        w_string(p.0.as_str(), out);
        out.push(':');
        w_topval(&p.1, out);
        if i + 1 < v.len() {
            out.push(',');
            w_top_members(v, i + 1, out);
            proof {
                assert(ms.drop_first() =~= top_members_view(v@).subrange(
                    i + 1 as int,
                    v@.len() as int,
                ));
                assert(out@ =~= old(out)@ + wr_top_members(ms));
            }
        } else {
            assert(ms.len() == 1);
            assert(out@ =~= old(out)@ + wr_top_members(ms));
        }
    }
}

/// Writes a whole document: the envelope object.
pub fn w_document(v: &Vec<(String, JsonTopVal)>, out: &mut Vec<char>)
    requires
        top_members_vals_wf(top_members_view(v@)),
    ensures
        final (out)@ == old(out)@ + wr_document(top_members_view(v@)),
{
    out.push('{');
    w_top_members(v, 0, out);
    out.push('}');
    proof {
        assert(top_members_view(v@).subrange(0, v@.len() as int) =~= top_members_view(v@));
        assert(out@ =~= old(out)@ + wr_document(top_members_view(v@)));
    }
}

} // verus!
