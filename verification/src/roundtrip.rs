//! Decoding is the exact inverse of encoding: parsing the canonical text
//! of any well-formed value yields that value back, at every level of the
//! wire format, up to whole messages.

use vstd::prelude::*;
use crate::json::{wr_d_members, wr_d_obj, wr_document, wr_flat_members, wr_flat_obj};
use crate::json::{wr_dval, wr_frac3, wr_nat, wr_num, wr_scalar, wr_str_body, wr_string, wr_topval};
use crate::json::{wr_top_members};
use crate::json::{d_members_vals_wf, dval_wf, flat_members_scalars_wf, num_wf, scalar_wf};
use crate::json::{top_members_vals_wf, topval_wf};
use crate::json::{DValV, JsonNum, ScalarV, TopValV};
use crate::jsonparse::{sp_digits, sp_document, sp_frac, sp_num, sp_num_tail, sp_scalar};
use crate::jsonparse::{sp_str_body, sp_zero_digits};
use crate::jsonparse::{sp_d_members, sp_d_obj, sp_dval, sp_flat_members, sp_flat_obj};
use crate::jsonparse::{sp_string, sp_top_members, sp_top_obj, sp_topval, sp_ws};
use crate::text::{digit_val, esc_char, is_digit_char, is_ws_char};
use crate::infoops::{info_data_members, info_data_of_members, info_data_type, lookup};
use crate::infoops::{InfoDataV, InfoType};
use crate::opcodes::{data_d_members, data_of_d_members, data_op, lemma_data_d_members_wf};
use crate::opcodes::{message_data_wf, message_of_top_members, message_top_members, message_wf};
use crate::opcodes::{sp_decode_message, sp_encode_message, MessageDataV, SocketMessageV};

verus! {

/// Parsing a written string body, followed by its closing quote, yields
/// the string back.
proof fn lemma_parse_wr_str_body(t: Seq<char>, rest: Seq<char>)
    ensures
        sp_str_body(wr_str_body(t) + seq!['"'] + rest) == Some((t, rest)),
    decreases t.len(),
{
    let s = wr_str_body(t) + seq!['"'] + rest;
    if t.len() == 0 {
        assert(s[0] == '"');
        assert(s.drop_first() =~= rest);
        assert(t =~= Seq::<char>::empty());
    } else {
        let t0 = t[0];
        let tr = t.drop_first();
        assert(wr_str_body(t) == esc_char(t0) + wr_str_body(tr));
        lemma_parse_wr_str_body(tr, rest);
        if t0 == '"' {
            assert(s[0] == '\\');
            assert(s[1] == '"');
            assert(s.skip(2) =~= wr_str_body(tr) + seq!['"'] + rest);
            assert(seq!['"'] + tr =~= t);
        } else if t0 == '\\' {
            assert(s[0] == '\\');
            assert(s[1] == '\\');
            assert(s.skip(2) =~= wr_str_body(tr) + seq!['"'] + rest);
            assert(seq!['\\'] + tr =~= t);
        } else {
            assert(s[0] == t0);
            assert(s.drop_first() =~= wr_str_body(tr) + seq!['"'] + rest);
            assert(seq![t0] + tr =~= t);
        }
    }
}

/// Parsing a written string literal yields the string back.
proof fn lemma_parse_wr_string(t: Seq<char>, rest: Seq<char>)
    ensures
        sp_string(wr_string(t) + rest) == Some((t, rest)),
{
    let s = wr_string(t) + rest;
    assert(s[0] == '"');
    assert(s.drop_first() =~= wr_str_body(t) + seq!['"'] + rest);
    lemma_parse_wr_str_body(t, rest);
}

/// The digit value folded over a digit run, with unbounded arithmetic.
spec fn fold_digits(acc: nat, ds: Seq<char>) -> nat
    decreases ds.len(),
{
    if ds.len() == 0 {
        acc
    } else {
        fold_digits((acc * 10 + digit_val(ds[0])) as nat, ds.drop_first())
    }
}

/// Whether every character of a run is a decimal digit.
spec fn all_digits(ds: Seq<char>) -> bool {
    forall|i: int| 0 <= i < ds.len() ==> is_digit_char(#[trigger] ds[i])
}

/// Folding never shrinks the accumulator.
proof fn lemma_fold_digits_mono(acc: nat, ds: Seq<char>)
    ensures
        fold_digits(acc, ds) >= acc,
    decreases ds.len(),
{
    if ds.len() > 0 {
        lemma_fold_digits_mono((acc * 10 + digit_val(ds[0])) as nat, ds.drop_first());
    }
}

/// Appending a digit multiplies the folded value by ten and adds it.
proof fn lemma_fold_digits_snoc(acc: nat, ds: Seq<char>, c: char)
    ensures
        fold_digits(acc, ds.push(c)) == fold_digits(acc, ds) * 10 + digit_val(c),
    decreases ds.len(),
{
    if ds.len() == 0 {
        assert(ds.push(c)[0] == c);
        assert(ds.push(c).drop_first() =~= Seq::<char>::empty());
        assert(fold_digits(acc, ds.push(c)) == fold_digits(
            (acc * 10 + digit_val(c)) as nat,
            Seq::<char>::empty(),
        ));
    } else {
        let acc2 = (acc * 10 + digit_val(ds[0])) as nat;
        assert(ds.push(c)[0] == ds[0]);
        assert(ds.push(c).drop_first() =~= ds.drop_first().push(c));
        assert(fold_digits(acc, ds.push(c)) == fold_digits(acc2, ds.drop_first().push(c)));
        lemma_fold_digits_snoc(acc2, ds.drop_first(), c);
        assert(fold_digits(acc, ds) == fold_digits(acc2, ds.drop_first()));
    }
}

/// The parser's digit fold computes `fold_digits` over a maximal digit
/// run, when the result fits.
proof fn lemma_sp_digits_fold(ds: Seq<char>, rest: Seq<char>, acc: u64)
    requires
        all_digits(ds),
        rest.len() == 0 || !is_digit_char(rest[0]),
        fold_digits(acc as nat, ds) <= u64::MAX,
    ensures
        sp_digits(ds + rest, acc) == Some((fold_digits(acc as nat, ds) as u64, rest)),
    decreases ds.len(),
{
    let s = ds + rest;
    if ds.len() == 0 {
        assert(s =~= rest);
    } else {
        assert(s[0] == ds[0]);
        let d = digit_val(ds[0]);
        lemma_fold_digits_mono((acc * 10 + d) as nat, ds.drop_first());
        assert(acc * 10 + d <= u64::MAX);
        assert(acc <= (u64::MAX - d) / 10) by (nonlinear_arith)
            requires
                acc * 10 + d <= u64::MAX,
                d <= 9,
        ;
        assert(s.drop_first() =~= ds.drop_first() + rest);
        lemma_sp_digits_fold(ds.drop_first(), rest, (acc * 10 + d) as u64);
    }
}

/// The digits of a number are digits, and there is at least one.
proof fn lemma_wr_nat_digits(n: nat)
    ensures
        all_digits(wr_nat(n)),
        wr_nat(n).len() >= 1,
        is_digit_char(wr_nat(n)[0]),
    decreases n,
{
    if n < 10 {
        crate::text::lemma_digit_char_val(n as u64);
    } else {
        lemma_wr_nat_digits(n / 10);
        crate::text::lemma_digit_char_val((n % 10) as u64);
        let ds = wr_nat(n / 10);
        assert(wr_nat(n) == ds.push(crate::text::digit_char((n % 10) as u64)));
        assert(forall|i: int|
            0 <= i < ds.len() ==> is_digit_char(#[trigger] wr_nat(n)[i]) == is_digit_char(ds[i]));
        assert(wr_nat(n)[0] == ds[0]);
    }
}

/// Folding the written digits of a number from zero yields the number.
proof fn lemma_fold_wr_nat(n: nat)
    ensures
        fold_digits(0, wr_nat(n)) == n,
    decreases n,
{
    if n < 10 {
        crate::text::lemma_digit_char_val(n as u64);
        assert(wr_nat(n)[0] == crate::text::digit_char(n as u64));
        assert(wr_nat(n).drop_first() =~= Seq::<char>::empty());
        assert(fold_digits(0, wr_nat(n)) == fold_digits(n, Seq::<char>::empty()));
    } else {
        let c = crate::text::digit_char((n % 10) as u64);
        lemma_fold_wr_nat(n / 10);
        crate::text::lemma_digit_char_val((n % 10) as u64);
        assert(wr_nat(n) == wr_nat(n / 10).push(c));
        lemma_fold_digits_snoc(0, wr_nat(n / 10), c);
        assert(fold_digits(0, wr_nat(n)) == (n / 10) * 10 + n % 10);
    }
}

/// Parsing a written digit run, before a non-digit, yields the number.
proof fn lemma_parse_wr_nat(n: u64, rest: Seq<char>)
    requires
        rest.len() == 0 || !is_digit_char(rest[0]),
    ensures
        sp_digits(wr_nat(n as nat) + rest, 0) == Some((n, rest)),
{
    lemma_wr_nat_digits(n as nat);
    lemma_fold_wr_nat(n as nat);
    lemma_sp_digits_fold(wr_nat(n as nat), rest, 0);
}

/// A positive number's digits start with a non-zero digit.
proof fn lemma_wr_nat_lead(n: nat)
    ensures
        n > 0 ==> wr_nat(n)[0] != '0',
    decreases n,
{
    if n == 0 {
    } else if n < 10 {
    } else {
        lemma_wr_nat_lead(n / 10);
        lemma_wr_nat_digits(n / 10);
        assert(wr_nat(n)[0] == wr_nat(n / 10)[0]);
    }
}

/// Parsing a written number, before a character that ends it, yields the
/// number back.
proof fn lemma_parse_wr_num(n: JsonNum, rest: Seq<char>)
    requires
        num_wf(n),
        rest.len() == 0 || (!is_digit_char(rest[0]) && rest[0] != '.' && rest[0] != 'e'
            && rest[0] != 'E'),
    ensures
        sp_num(wr_num(n) + rest) == Some((n, rest)),
{
    let s = wr_num(n) + rest;
    lemma_wr_nat_digits(n.whole as nat);
    lemma_wr_nat_lead(n.whole as nat);
    assert(s[0] == wr_nat(n.whole as nat)[0]);
    if n.milli == 0 {
        assert(s =~= wr_nat(n.whole as nat) + rest);
        lemma_parse_wr_nat(n.whole, rest);
        if n.whole == 0 {
            assert(wr_nat(0)[0] == '0');
            assert(wr_nat(0).len() == 1);
            assert(s.len() > 1 ==> s[1] == rest[0]);
        }
        assert(sp_num_tail(false, n.whole, 0, rest) == Some((n, rest)));
    } else {
        let frac = wr_frac3(n.milli);
        let rest1 = seq!['.'] + frac + rest;
        assert(s =~= wr_nat(n.whole as nat) + rest1);
        assert(rest1[0] == '.');
        lemma_parse_wr_nat(n.whole, rest1);
        if n.whole == 0 {
            assert(wr_nat(0)[0] == '0');
            assert(wr_nat(0).len() == 1);
            assert(s[1] == '.');
        }
        let m = n.milli as nat;
        crate::text::lemma_digit_char_val((m / 100 % 10) as u64);
        crate::text::lemma_digit_char_val((m / 10 % 10) as u64);
        crate::text::lemma_digit_char_val((m % 10) as u64);
        let fr = rest1.drop_first();
        assert(fr =~= frac + rest);
        assert(fr[0] == frac[0]);
        assert(fr[1] == frac[1]);
        assert(fr[2] == frac[2]);
        assert(fr.skip(3) =~= rest);
        assert(sp_zero_digits(rest) == Some(rest));
        assert(m / 100 % 10 == m / 100);
        assert(digit_val(frac[0]) * 100 + digit_val(frac[1]) * 10 + digit_val(frac[2]) == m) by {
            assert(m == (m / 10) * 10 + m % 10);
            assert(m / 10 == (m / 100) * 10 + (m / 10) % 10);
        }
        assert(sp_frac(fr) == Some((n.milli, rest)));
        assert(sp_num_tail(false, n.whole, n.milli, rest) == Some((n, rest)));
    }
}

/// Parsing a written scalar, before a character that ends it, yields the
/// scalar back.
proof fn lemma_parse_wr_scalar(v: ScalarV, rest: Seq<char>)
    requires
        scalar_wf(v),
        rest.len() == 0 || (!is_digit_char(rest[0]) && rest[0] != '.' && rest[0] != 'e'
            && rest[0] != 'E'),
    ensures
        sp_scalar(wr_scalar(v) + rest) == Some((v, rest)),
{
    let s = wr_scalar(v) + rest;
    match v {
        ScalarV::Null => {
            assert(s[0] == 'n');
            assert(s[1] == 'u');
            assert(s[2] == 'l');
            assert(s[3] == 'l');
            assert(s.skip(4) =~= rest);
        },
        ScalarV::Num(n) => {
            lemma_wr_nat_digits(n.whole as nat);
            assert(s[0] == wr_nat(n.whole as nat)[0]);
            lemma_parse_wr_num(n, rest);
        },
        ScalarV::Str(t) => {
            assert(s[0] == '"');
            assert(s =~= wr_string(t) + rest);
            lemma_parse_wr_string(t, rest);
        },
    }
}

/// The text of a scalar starts with a quote, a digit, or `n` — never
/// whitespace, a brace, a comma, or a dot.
proof fn lemma_wr_scalar_first(v: ScalarV)
    requires
        scalar_wf(v),
    ensures
        wr_scalar(v).len() >= 1,
        wr_scalar(v)[0] == '"' || is_digit_char(wr_scalar(v)[0]) || wr_scalar(v)[0] == 'n',
        !is_ws_char(wr_scalar(v)[0]),
        wr_scalar(v)[0] != '{',
{
    match v {
        ScalarV::Null => {},
        ScalarV::Num(n) => {
            lemma_wr_nat_digits(n.whole as nat);
            assert(wr_scalar(v)[0] == wr_nat(n.whole as nat)[0]);
        },
        ScalarV::Str(t) => {},
    }
}

/// Parsing one written member of an object of scalars, followed by the
/// closing brace, yields it back.
#[verifier::rlimit(100)]
proof fn lemma_parse_wr_flat_members_one(ms: Seq<(Seq<char>, ScalarV)>, rest: Seq<char>)
    requires
        ms.len() == 1,
        flat_members_scalars_wf(ms),
    ensures
        sp_flat_members(wr_flat_members(ms) + seq!['}'] + rest) == Some((ms, rest)),
{
    let k = ms[0].0;
    let v = ms[0].1;
    let s = wr_flat_members(ms) + seq!['}'] + rest;
    assert(scalar_wf(ms[0].1));
    let rest1 = seq![':'] + wr_scalar(v) + seq!['}'] + rest;
    assert(s =~= wr_string(k) + rest1);
    lemma_parse_wr_string(k, rest1);
    assert(rest1[0] == ':');
    let stop = seq!['}'] + rest;
    let rest2 = wr_scalar(v) + stop;
    assert(rest1.drop_first() =~= rest2);
    lemma_wr_scalar_first(v);
    assert(rest2[0] == wr_scalar(v)[0]);
    assert(stop[0] == '}');
    lemma_parse_wr_scalar(v, stop);
    assert(stop.drop_first() =~= rest);
    assert((ms[0].0, ms[0].1) == ms[0]);
    assert(seq![(k, v)] =~= ms);
}

/// Parsing two or more written members of an object of scalars, up to the
/// closing brace, yields them back.
#[verifier::rlimit(100)]
proof fn lemma_parse_wr_flat_members_more(ms: Seq<(Seq<char>, ScalarV)>, rest: Seq<char>)
    requires
        ms.len() >= 2,
        flat_members_scalars_wf(ms),
    ensures
        sp_flat_members(wr_flat_members(ms) + seq!['}'] + rest) == Some((ms, rest)),
    decreases ms.len(),
{
    let k = ms[0].0;
    let v = ms[0].1;
    let s = wr_flat_members(ms) + seq!['}'] + rest;
    assert(scalar_wf(ms[0].1));
    let tail = ms.drop_first();
    let rest1 = seq![':'] + wr_scalar(v) + seq![','] + wr_flat_members(tail) + seq!['}'] + rest;
    assert(s =~= wr_string(k) + rest1);
    lemma_parse_wr_string(k, rest1);
    assert(rest1[0] == ':');
    let next = wr_flat_members(tail) + seq!['}'] + rest;
    let stop = seq![','] + next;
    let rest2 = wr_scalar(v) + stop;
    assert(rest1.drop_first() =~= rest2);
    lemma_wr_scalar_first(v);
    assert(rest2[0] == wr_scalar(v)[0]);
    assert(stop[0] == ',');
    lemma_parse_wr_scalar(v, stop);
    assert(stop.drop_first() =~= next);
    assert(tail.len() >= 1);
    assert(wr_flat_members(tail)[0] == '"');
    assert(next[0] == '"');
    assert(forall|i: int|
        0 <= i < tail.len() ==> scalar_wf(#[trigger] tail[i].1) == scalar_wf(ms[i + 1].1));
    if tail.len() == 1 {
        lemma_parse_wr_flat_members_one(tail, rest);
    } else {
        lemma_parse_wr_flat_members_more(tail, rest);
    }
    assert((ms[0].0, ms[0].1) == ms[0]);
    assert(seq![(k, v)] + tail =~= ms);
}

/// Parsing written members of an object of scalars, up to the closing
/// brace, yields the members back.
proof fn lemma_parse_wr_flat_members(ms: Seq<(Seq<char>, ScalarV)>, rest: Seq<char>)
    requires
        ms.len() >= 1,
        flat_members_scalars_wf(ms),
    ensures
        sp_flat_members(wr_flat_members(ms) + seq!['}'] + rest) == Some((ms, rest)),
{
    if ms.len() == 1 {
        lemma_parse_wr_flat_members_one(ms, rest);
    } else {
        lemma_parse_wr_flat_members_more(ms, rest);
    }
}

/// Parsing a written object of scalars yields its members back.
proof fn lemma_parse_wr_flat_obj(ms: Seq<(Seq<char>, ScalarV)>, rest: Seq<char>)
    requires
        flat_members_scalars_wf(ms),
    ensures
        sp_flat_obj(wr_flat_obj(ms) + rest) == Some((ms, rest)),
{
    let s = wr_flat_obj(ms) + rest;
    assert(s[0] == '{');
    let inner = wr_flat_members(ms) + seq!['}'] + rest;
    assert(s.drop_first() =~= inner);
    if ms.len() == 0 {
        assert(inner =~= seq!['}'] + rest);
        assert(inner[0] == '}');
        assert(inner.drop_first() =~= rest);
        assert(ms =~= Seq::<(Seq<char>, ScalarV)>::empty());
    } else {
        assert(wr_flat_members(ms)[0] == '"');
        assert(inner[0] == '"');
        lemma_parse_wr_flat_members(ms, rest);
    }
}

/// The text of a payload value never starts with whitespace.
proof fn lemma_wr_dval_first(v: DValV)
    requires
        dval_wf(v),
    ensures
        wr_dval(v).len() >= 1,
        !is_ws_char(wr_dval(v)[0]),
{
    match v {
        DValV::Scalar(sc) => {
            lemma_wr_scalar_first(sc);
        },
        DValV::Obj(ms) => {
            assert(wr_dval(v)[0] == '{');
        },
    }
}

/// Parsing a written payload value, before a character that ends it,
/// yields the value back.
proof fn lemma_parse_wr_dval(v: DValV, rest: Seq<char>)
    requires
        dval_wf(v),
        rest.len() == 0 || (!is_digit_char(rest[0]) && rest[0] != '.' && rest[0] != 'e'
            && rest[0] != 'E'),
    ensures
        sp_dval(wr_dval(v) + rest) == Some((v, rest)),
{
    let s = wr_dval(v) + rest;
    match v {
        DValV::Scalar(sc) => {
            lemma_wr_scalar_first(sc);
            assert(s[0] == wr_scalar(sc)[0]);
            assert(s[0] != '{');
            lemma_parse_wr_scalar(sc, rest);
        },
        DValV::Obj(ms) => {
            assert(s[0] == '{');
            assert(s =~= wr_flat_obj(ms) + rest);
            lemma_parse_wr_flat_obj(ms, rest);
        },
    }
}

/// Parsing one written member of a payload object, followed by the
/// closing brace, yields it back.
#[verifier::rlimit(100)]
proof fn lemma_parse_wr_d_members_one(ms: Seq<(Seq<char>, DValV)>, rest: Seq<char>)
    requires
        ms.len() == 1,
        d_members_vals_wf(ms),
    ensures
        sp_d_members(wr_d_members(ms) + seq!['}'] + rest) == Some((ms, rest)),
{
    let k = ms[0].0;
    let v = ms[0].1;
    let s = wr_d_members(ms) + seq!['}'] + rest;
    assert(dval_wf(ms[0].1));
    let rest1 = seq![':'] + wr_dval(v) + seq!['}'] + rest;
    assert(s =~= wr_string(k) + rest1);
    lemma_parse_wr_string(k, rest1);
    assert(rest1[0] == ':');
    let stop = seq!['}'] + rest;
    let rest2 = wr_dval(v) + stop;
    assert(rest1.drop_first() =~= rest2);
    lemma_wr_dval_first(v);
    assert(rest2[0] == wr_dval(v)[0]);
    assert(stop[0] == '}');
    lemma_parse_wr_dval(v, stop);
    assert(stop.drop_first() =~= rest);
    assert((ms[0].0, ms[0].1) == ms[0]);
    assert(seq![(k, v)] =~= ms);
}

/// Parsing two or more written members of a payload object, up to the
/// closing brace, yields them back.
#[verifier::rlimit(100)]
proof fn lemma_parse_wr_d_members_more(ms: Seq<(Seq<char>, DValV)>, rest: Seq<char>)
    requires
        ms.len() >= 2,
        d_members_vals_wf(ms),
    ensures
        sp_d_members(wr_d_members(ms) + seq!['}'] + rest) == Some((ms, rest)),
    decreases ms.len(),
{
    let k = ms[0].0;
    let v = ms[0].1;
    let s = wr_d_members(ms) + seq!['}'] + rest;
    assert(dval_wf(ms[0].1));
    let tail = ms.drop_first();
    let rest1 = seq![':'] + wr_dval(v) + seq![','] + wr_d_members(tail) + seq!['}'] + rest;
    assert(s =~= wr_string(k) + rest1);
    lemma_parse_wr_string(k, rest1);
    assert(rest1[0] == ':');
    let next = wr_d_members(tail) + seq!['}'] + rest;
    let stop = seq![','] + next;
    let rest2 = wr_dval(v) + stop;
    assert(rest1.drop_first() =~= rest2);
    lemma_wr_dval_first(v);
    assert(rest2[0] == wr_dval(v)[0]);
    assert(stop[0] == ',');
    lemma_parse_wr_dval(v, stop);
    assert(stop.drop_first() =~= next);
    assert(tail.len() >= 1);
    assert(wr_d_members(tail)[0] == '"');
    assert(next[0] == '"');
    assert(forall|i: int|
        0 <= i < tail.len() ==> dval_wf(#[trigger] tail[i].1) == dval_wf(ms[i + 1].1));
    if tail.len() == 1 {
        lemma_parse_wr_d_members_one(tail, rest);
    } else {
        lemma_parse_wr_d_members_more(tail, rest);
    }
    assert((ms[0].0, ms[0].1) == ms[0]);
    assert(seq![(k, v)] + tail =~= ms);
}

/// Parsing written members of a payload object, up to the closing
/// brace, yields the members back.
proof fn lemma_parse_wr_d_members(ms: Seq<(Seq<char>, DValV)>, rest: Seq<char>)
    requires
        ms.len() >= 1,
        d_members_vals_wf(ms),
    ensures
        sp_d_members(wr_d_members(ms) + seq!['}'] + rest) == Some((ms, rest)),
{
    if ms.len() == 1 {
        lemma_parse_wr_d_members_one(ms, rest);
    } else {
        lemma_parse_wr_d_members_more(ms, rest);
    }
}

/// Parsing a written payload object yields its members back.
proof fn lemma_parse_wr_d_obj(ms: Seq<(Seq<char>, DValV)>, rest: Seq<char>)
    requires
        d_members_vals_wf(ms),
    ensures
        sp_d_obj(wr_d_obj(ms) + rest) == Some((ms, rest)),
{
    let s = wr_d_obj(ms) + rest;
    assert(s[0] == '{');
    let inner = wr_d_members(ms) + seq!['}'] + rest;
    assert(s.drop_first() =~= inner);
    if ms.len() == 0 {
        assert(inner =~= seq!['}'] + rest);
        assert(inner[0] == '}');
        assert(inner.drop_first() =~= rest);
        assert(ms =~= Seq::<(Seq<char>, DValV)>::empty());
    } else {
        assert(wr_d_members(ms)[0] == '"');
        assert(inner[0] == '"');
        lemma_parse_wr_d_members(ms, rest);
    }
}

/// The text of a top-level value never starts with whitespace.
proof fn lemma_wr_topval_first(v: TopValV)
    requires
        topval_wf(v),
    ensures
        wr_topval(v).len() >= 1,
        !is_ws_char(wr_topval(v)[0]),
{
    match v {
        TopValV::Scalar(sc) => {
            lemma_wr_scalar_first(sc);
        },
        TopValV::Obj(ms) => {
            assert(wr_topval(v)[0] == '{');
        },
    }
}

/// Parsing a written top-level value, before a character that ends it,
/// yields the value back.
proof fn lemma_parse_wr_topval(v: TopValV, rest: Seq<char>)
    requires
        topval_wf(v),
        rest.len() == 0 || (!is_digit_char(rest[0]) && rest[0] != '.' && rest[0] != 'e'
            && rest[0] != 'E'),
    ensures
        sp_topval(wr_topval(v) + rest) == Some((v, rest)),
{
    let s = wr_topval(v) + rest;
    match v {
        TopValV::Scalar(sc) => {
            lemma_wr_scalar_first(sc);
            assert(s[0] == wr_scalar(sc)[0]);
            assert(s[0] != '{');
            lemma_parse_wr_scalar(sc, rest);
        },
        TopValV::Obj(ms) => {
            assert(s[0] == '{');
            assert(s =~= wr_d_obj(ms) + rest);
            lemma_parse_wr_d_obj(ms, rest);
        },
    }
}

/// Parsing one written member of the envelope object, followed by the
/// closing brace, yields it back.
#[verifier::rlimit(100)]
proof fn lemma_parse_wr_top_members_one(ms: Seq<(Seq<char>, TopValV)>, rest: Seq<char>)
    requires
        ms.len() == 1,
        top_members_vals_wf(ms),
    ensures
        sp_top_members(wr_top_members(ms) + seq!['}'] + rest) == Some((ms, rest)),
{
    let k = ms[0].0;
    let v = ms[0].1;
    let s = wr_top_members(ms) + seq!['}'] + rest;
    assert(topval_wf(ms[0].1));
    let rest1 = seq![':'] + wr_topval(v) + seq!['}'] + rest;
    assert(s =~= wr_string(k) + rest1);
    lemma_parse_wr_string(k, rest1);
    assert(rest1[0] == ':');
    let stop = seq!['}'] + rest;
    let rest2 = wr_topval(v) + stop;
    assert(rest1.drop_first() =~= rest2);
    lemma_wr_topval_first(v);
    assert(rest2[0] == wr_topval(v)[0]);
    assert(stop[0] == '}');
    lemma_parse_wr_topval(v, stop);
    assert(stop.drop_first() =~= rest);
    assert((ms[0].0, ms[0].1) == ms[0]);
    assert(seq![(k, v)] =~= ms);
}

/// Parsing two or more written members of the envelope object, up to the
/// closing brace, yields them back.
#[verifier::rlimit(100)]
proof fn lemma_parse_wr_top_members_more(ms: Seq<(Seq<char>, TopValV)>, rest: Seq<char>)
    requires
        ms.len() >= 2,
        top_members_vals_wf(ms),
    ensures
        sp_top_members(wr_top_members(ms) + seq!['}'] + rest) == Some((ms, rest)),
    decreases ms.len(),
{
    let k = ms[0].0;
    let v = ms[0].1;
    let s = wr_top_members(ms) + seq!['}'] + rest;
    assert(topval_wf(ms[0].1));
    let tail = ms.drop_first();
    let rest1 = seq![':'] + wr_topval(v) + seq![','] + wr_top_members(tail) + seq!['}'] + rest;
    assert(s =~= wr_string(k) + rest1);
    lemma_parse_wr_string(k, rest1);
    assert(rest1[0] == ':');
    let next = wr_top_members(tail) + seq!['}'] + rest;
    let stop = seq![','] + next;
    let rest2 = wr_topval(v) + stop;
    assert(rest1.drop_first() =~= rest2);
    lemma_wr_topval_first(v);
    assert(rest2[0] == wr_topval(v)[0]);
    assert(stop[0] == ',');
    lemma_parse_wr_topval(v, stop);
    assert(stop.drop_first() =~= next);
    assert(tail.len() >= 1);
    assert(wr_top_members(tail)[0] == '"');
    assert(next[0] == '"');
    assert(forall|i: int|
        0 <= i < tail.len() ==> topval_wf(#[trigger] tail[i].1) == topval_wf(ms[i + 1].1));
    if tail.len() == 1 {
        lemma_parse_wr_top_members_one(tail, rest);
    } else {
        lemma_parse_wr_top_members_more(tail, rest);
    }
    assert((ms[0].0, ms[0].1) == ms[0]);
    assert(seq![(k, v)] + tail =~= ms);
}

/// Parsing written members of the envelope object, up to the closing
/// brace, yields the members back.
proof fn lemma_parse_wr_top_members(ms: Seq<(Seq<char>, TopValV)>, rest: Seq<char>)
    requires
        ms.len() >= 1,
        top_members_vals_wf(ms),
    ensures
        sp_top_members(wr_top_members(ms) + seq!['}'] + rest) == Some((ms, rest)),
{
    if ms.len() == 1 {
        lemma_parse_wr_top_members_one(ms, rest);
    } else {
        lemma_parse_wr_top_members_more(ms, rest);
    }
}

/// Parsing a written envelope object yields its members back.
proof fn lemma_parse_wr_top_obj(ms: Seq<(Seq<char>, TopValV)>, rest: Seq<char>)
    requires
        top_members_vals_wf(ms),
    ensures
        sp_top_obj(wr_document(ms) + rest) == Some((ms, rest)),
{
    let s = wr_document(ms) + rest;
    assert(s[0] == '{');
    let inner = wr_top_members(ms) + seq!['}'] + rest;
    assert(s.drop_first() =~= inner);
    if ms.len() == 0 {
        assert(inner =~= seq!['}'] + rest);
        assert(inner[0] == '}');
        assert(inner.drop_first() =~= rest);
        assert(ms =~= Seq::<(Seq<char>, TopValV)>::empty());
    } else {
        assert(wr_top_members(ms)[0] == '"');
        assert(inner[0] == '"');
        lemma_parse_wr_top_members(ms, rest);
    }
}


/// Parsing a written document yields the envelope's members back.
pub proof fn lemma_parse_wr_document(ms: Seq<(Seq<char>, TopValV)>)
    requires
        top_members_vals_wf(ms),
    ensures
        sp_document(wr_document(ms)) == Some(ms),
{
    let s = wr_document(ms);
    assert(s[0] == '{');
    assert(sp_ws(s) == s);
    assert(s =~= wr_document(ms) + Seq::<char>::empty());
    lemma_parse_wr_top_obj(ms, Seq::empty());
}

/// What looking a key up in a one-member list yields.
proof fn lemma_lookup1<T>(a: (Seq<char>, T), k: Seq<char>)
    ensures
        lookup(seq![a], k) == (if a.0 == k {
            Some(a.1)
        } else {
            None
        }),
{
    assert(seq![a].drop_first() =~= Seq::<(Seq<char>, T)>::empty());
    assert(lookup(Seq::<(Seq<char>, T)>::empty(), k) == None::<T>);
    assert(seq![a][0] == a);
}

/// What looking a key up in a two-member list yields.
proof fn lemma_lookup2<T>(a: (Seq<char>, T), b: (Seq<char>, T), k: Seq<char>)
    ensures
        lookup(seq![a, b], k) == (if a.0 == k {
            Some(a.1)
        } else if b.0 == k {
            Some(b.1)
        } else {
            None
        }),
{
    assert(seq![a, b].drop_first() =~= seq![b]);
    lemma_lookup1(b, k);
}

/// What looking a key up in a three-member list yields.
proof fn lemma_lookup3<T>(a: (Seq<char>, T), b: (Seq<char>, T), c: (Seq<char>, T), k: Seq<char>)
    ensures
        lookup(seq![a, b, c], k) == (if a.0 == k {
            Some(a.1)
        } else if b.0 == k {
            Some(b.1)
        } else if c.0 == k {
            Some(c.1)
        } else {
            None
        }),
{
    assert(seq![a, b, c].drop_first() =~= seq![b, c]);
    lemma_lookup2(b, c, k);
}

/// What looking a key up in a four-member list yields.
proof fn lemma_lookup4<T>(
    a: (Seq<char>, T),
    b: (Seq<char>, T),
    c: (Seq<char>, T),
    d: (Seq<char>, T),
    k: Seq<char>,
)
    ensures
        lookup(seq![a, b, c, d], k) == (if a.0 == k {
            Some(a.1)
        } else if b.0 == k {
            Some(b.1)
        } else if c.0 == k {
            Some(c.1)
        } else if d.0 == k {
            Some(d.1)
        } else {
            None
        }),
{
    assert(seq![a, b, c, d].drop_first() =~= seq![b, c, d]);
    lemma_lookup3(b, c, d, k);
}

/// Reading back the written `data` members of an INFO payload under its
/// own type yields the payload back.
#[verifier::rlimit(100)]
proof fn lemma_info_data_round_trip(t: InfoType, data: InfoDataV)
    requires
        t == info_data_type(data),
    ensures
        info_data_of_members(t, info_data_members(data)) == Some(data),
{
    let fm = info_data_members(data);
    reveal_strlit("channel_id");
    reveal_strlit("guild_id");
    reveal_strlit("token");
    reveal_strlit("user_id");
    reveal_strlit("session_id");
    assert("channel_id"@.len() == 10);
    assert("guild_id"@.len() == 8);
    assert("token"@.len() == 5);
    assert("user_id"@.len() == 7);
    assert("session_id"@.len() == 10);
    assert("channel_id"@[0] == 'c');
    assert("session_id"@[0] == 's');
    match data {
        InfoDataV::CHANNEL_REQ(_) => {
            assert(fm =~= seq![fm[0], fm[1]]);
            lemma_lookup2(fm[0], fm[1], "channel_id"@);
            lemma_lookup2(fm[0], fm[1], "guild_id"@);
        },
        InfoDataV::CHANNEL_ASSIGN { .. } => {
            assert(fm =~= seq![fm[0], fm[1], fm[2]]);
            lemma_lookup3(fm[0], fm[1], fm[2], "channel_id"@);
            lemma_lookup3(fm[0], fm[1], fm[2], "guild_id"@);
            lemma_lookup3(fm[0], fm[1], fm[2], "token"@);
        },
        InfoDataV::CHANNEL_DESTROY { .. } => {
            assert(fm =~= seq![fm[0], fm[1]]);
            lemma_lookup2(fm[0], fm[1], "channel_id"@);
            lemma_lookup2(fm[0], fm[1], "guild_id"@);
        },
        InfoDataV::VST_CREATE(_) => {
            assert(fm =~= seq![fm[0], fm[1], fm[2]]);
            lemma_lookup3(fm[0], fm[1], fm[2], "user_id"@);
            lemma_lookup3(fm[0], fm[1], fm[2], "channel_id"@);
            lemma_lookup3(fm[0], fm[1], fm[2], "guild_id"@);
        },
        InfoDataV::VST_DONE { .. } => {
            assert(fm =~= seq![fm[0], fm[1], fm[2], fm[3]]);
            lemma_lookup4(fm[0], fm[1], fm[2], fm[3], "user_id"@);
            lemma_lookup4(fm[0], fm[1], fm[2], fm[3], "channel_id"@);
            lemma_lookup4(fm[0], fm[1], fm[2], fm[3], "guild_id"@);
            lemma_lookup4(fm[0], fm[1], fm[2], fm[3], "session_id"@);
        },
        InfoDataV::VST_DESTROY { .. } => {
            assert(fm =~= seq![fm[0]]);
            lemma_lookup1(fm[0], "session_id"@);
        },
        InfoDataV::VST_UPDATE { .. } => {
            assert(fm =~= seq![fm[0]]);
            lemma_lookup1(fm[0], "session_id"@);
        },
    }
}

/// Reading back the written `d` members of a payload under its own op
/// yields the payload back.
proof fn lemma_data_round_trip(d: MessageDataV)
    requires
        message_data_wf(d),
    ensures
        data_of_d_members(data_op(d), data_d_members(d)) == Some(d),
{
    let dm = data_d_members(d);
    match d {
        MessageDataV::HELLO { .. } => {
            reveal_strlit("heartbeat_interval");
            reveal_strlit("nonce");
            assert(dm =~= seq![dm[0], dm[1]]);
            lemma_lookup2(dm[0], dm[1], "heartbeat_interval"@);
            lemma_lookup2(dm[0], dm[1], "nonce"@);
            assert("heartbeat_interval"@.len() == 18);
            assert("nonce"@.len() == 5);
        },
        MessageDataV::IDENTIFY(_) => {
            reveal_strlit("token");
            assert(dm =~= seq![dm[0]]);
            lemma_lookup1(dm[0], "token"@);
        },
        MessageDataV::RESUME => {},
        MessageDataV::READY { .. } => {
            reveal_strlit("health");
            assert(dm =~= seq![dm[0]]);
            lemma_lookup1(dm[0], "health"@);
        },
        MessageDataV::HEARTBEAT => {},
        MessageDataV::HEARTBEAT_ACK { .. } => {
            reveal_strlit("health");
            assert(dm =~= seq![dm[0]]);
            lemma_lookup1(dm[0], "health"@);
        },
        MessageDataV::INFO(iv) => {
            reveal_strlit("type");
            reveal_strlit("data");
            assert(dm =~= seq![dm[0], dm[1]]);
            lemma_lookup2(dm[0], dm[1], "type"@);
            lemma_lookup2(dm[0], dm[1], "data"@);
            iv._type.lemma_number_round_trip();
            lemma_info_data_round_trip(iv._type, iv.data);
            assert("type"@[0] == 't');
            assert("data"@[0] == 'd');
        },
    }
}

/// Reading back the written envelope members of a message yields its op
/// and payload back.
proof fn lemma_message_round_trip(m: SocketMessageV)
    requires
        message_wf(m),
    ensures
        message_of_top_members(message_top_members(m)) == Some((m.op, m.d)),
{
    let tm = message_top_members(m);
    reveal_strlit("op");
    reveal_strlit("d");
    assert("op"@.len() == 2);
    assert("d"@.len() == 1);
    assert(tm =~= seq![tm[0], tm[1]]);
    lemma_lookup2(tm[0], tm[1], "op"@);
    lemma_lookup2(tm[0], tm[1], "d"@);
    m.op.lemma_number_round_trip();
    lemma_data_round_trip(m.d);
}

/// Decoding the canonical encoding of any well-formed message yields that
/// message back, structurally: for every op code and payload the protocol
/// can state, `decode(encode(m))` is `m`.
pub proof fn lemma_decode_encode_message(m: SocketMessageV)
    requires
        message_wf(m),
    ensures
        sp_decode_message(sp_encode_message(m)) == Some((m.op, m.d)),
{
    let tm = message_top_members(m);
    lemma_data_d_members_wf(m.d);
    assert forall|i: int| 0 <= i < tm.len() implies topval_wf(#[trigger] tm[i].1) by {
        if i == 1 {
            assert(d_members_vals_wf(data_d_members(m.d)));
        }
    }
    lemma_parse_wr_document(tm);
    lemma_message_round_trip(m);
}

} // verus!
