//! The textual JSON subset the protocol is written in: the parser.
//!
//! The grammar mirrors [`crate::json`]: objects nested at most three levels
//! deep whose leaves are strings, numbers, and `null`. Whitespace is
//! accepted between tokens; member order is free. Strings resolve every
//! JSON escape, `\uXXXX` and surrogate pairs included. Numbers are read in
//! any JSON form — sign, fraction of any length, exponent — and accepted
//! exactly when the value written is one the protocol can carry:
//! non-negative, whole and thousandths, the integer part as written
//! fitting `u64`.
//!
//! The grammar is deliberately the protocol's wire subset, not all of
//! JSON: arrays, booleans and deeper nesting appear in no message of the
//! protocol — not even optionally — and are rejected as malformed, and
//! strings are read leniently (an unescaped control character is not
//! rejected). Every payload shape a protocol message can carry is
//! accepted in every JSON spelling of it.
//!
//! The specification-level functions (`sp_*`) consume a character sequence
//! and yield the parsed value with the remaining input; the executable
//! functions (`p_*`) mirror them one branch at a time over slices.

use vstd::prelude::*;
use crate::json::{DValV, JsonDVal, JsonNum, JsonScalar, JsonTopVal, ScalarV, TopValV};
use crate::json::{d_members_view, flat_members_view, top_members_view};
use crate::text::{digit_val, digit_val_exec, is_digit_char, is_digit_exec, is_ws_char, is_ws_exec};
use crate::text::skipn;

verus! {

/// The input without its leading whitespace.
pub open spec fn sp_ws(s: Seq<char>) -> Seq<char>
    decreases s.len(),
{
    if s.len() > 0 && is_ws_char(s[0]) {
        sp_ws(s.drop_first())
    } else {
        s
    }
}

/// Skipping whitespace never lengthens the input.
pub proof fn lemma_sp_ws_len(s: Seq<char>)
    ensures
        sp_ws(s).len() <= s.len(),
    decreases s.len(),
{
    if s.len() > 0 && is_ws_char(s[0]) {
        lemma_sp_ws_len(s.drop_first());
    }
}

/// The value of an ASCII hex digit character, if it is one.
pub open spec fn hex_char_val(c: char) -> Option<u32> {
    let u = c as u32;
    if 48 <= u <= 57 {
        Some((u - 48) as u32)
    } else if 65 <= u <= 70 {
        Some((u - 55) as u32)
    } else if 97 <= u <= 102 {
        Some((u - 87) as u32)
    } else {
        None
    }
}

/// The value of the four hex digits at the start of the input, if they
/// are four hex digits.
pub open spec fn hex4_val(s: Seq<char>) -> Option<u32> {
    if s.len() < 4 {
        None
    } else {
        match (hex_char_val(s[0]), hex_char_val(s[1]), hex_char_val(s[2]), hex_char_val(s[3])) {
            (Some(a), Some(b), Some(c), Some(d)) => Some(
                (a * 4096 + b * 256 + c * 16 + d) as u32,
            ),
            _ => None,
        }
    }
}

/// The character denoted by the escape character `c` in a `\c` sequence,
/// if the escape is recognized. `\uXXXX` escapes are handled separately.
pub open spec fn unesc_char(c: char) -> Option<char> {
    if c == '"' {
        Some('"')
    } else if c == '\\' {
        Some('\\')
    } else if c == '/' {
        Some('/')
    } else if c == 'n' {
        Some('\n')
    } else if c == 't' {
        Some('\t')
    } else if c == 'r' {
        Some('\r')
    } else if c == 'b' {
        Some('\u{0008}')
    } else if c == 'f' {
        Some('\u{000C}')
    } else {
        None
    }
}

/// The body of a string literal after its opening quote: characters up to
/// the closing quote, with escapes resolved — the single-character escapes
/// and `\uXXXX`, where a high surrogate must be followed by a `\uXXXX` low
/// surrogate and the pair denotes one supplementary character.
pub open spec fn sp_str_body(s: Seq<char>) -> Option<(Seq<char>, Seq<char>)>
    decreases s.len(),
{
    if s.len() == 0 {
        None
    } else if s[0] == '"' {
        Some((Seq::empty(), s.drop_first()))
    } else if s[0] == '\\' {
        if s.len() < 2 {
            None
        } else if s[1] == 'u' {
            if s.len() < 6 {
                None
            } else {
                match hex4_val(s.skip(2)) {
                    None => None,
                    Some(n) => {
                        if n < 0xD800 || n > 0xDFFF {
                            match sp_str_body(s.skip(6)) {
                                None => None,
                                Some((t, r)) => Some((seq![(n as char)] + t, r)),
                            }
                        } else if n < 0xDC00 {
                            if s.len() < 12 {
                                None
                            } else if s[6] == '\\' && s[7] == 'u' {
                                match hex4_val(s.skip(8)) {
                                    None => None,
                                    Some(m) => {
                                        if 0xDC00 <= m <= 0xDFFF {
                                            match sp_str_body(s.skip(12)) {
                                                None => None,
                                                Some((t, r)) => Some(
                                                    (
                                                        seq![
                                                            ((0x10000 + (n - 0xD800) * 0x400 + (m
                                                                - 0xDC00)) as char)
                                                        ] + t,
                                                        r,
                                                    ),
                                                ),
                                            }
                                        } else {
                                            None
                                        }
                                    },
                                }
                            } else {
                                None
                            }
                        } else {
                            None
                        }
                    },
                }
            }
        } else {
            match unesc_char(s[1]) {
                None => None,
                Some(c) => match sp_str_body(s.skip(2)) {
                    None => None,
                    Some((t, r)) => Some((seq![c] + t, r)),
                },
            }
        }
    } else {
        match sp_str_body(s.drop_first()) {
            None => None,
            Some((t, r)) => Some((seq![s[0]] + t, r)),
        }
    }
}

/// A string-literal body consumes at least its closing quote.
pub proof fn lemma_sp_str_body_len(s: Seq<char>)
    ensures
        sp_str_body(s) matches Some((t, r)) ==> r.len() < s.len(),
    decreases s.len(),
{
    if s.len() == 0 {
    } else if s[0] == '"' {
    } else if s[0] == '\\' {
        if s.len() >= 2 {
            if s[1] == 'u' {
                if s.len() >= 6 {
                    lemma_sp_str_body_len(s.skip(6));
                    if s.len() >= 12 {
                        lemma_sp_str_body_len(s.skip(12));
                    }
                }
            } else {
                lemma_sp_str_body_len(s.skip(2));
            }
        }
    } else {
        lemma_sp_str_body_len(s.drop_first());
    }
}

/// A string literal: quote, body, quote.
pub open spec fn sp_string(s: Seq<char>) -> Option<(Seq<char>, Seq<char>)> {
    if s.len() > 0 && s[0] == '"' {
        sp_str_body(s.drop_first())
    } else {
        None
    }
}

/// A string literal consumes at least its two quotes.
pub proof fn lemma_sp_string_len(s: Seq<char>)
    ensures
        sp_string(s) matches Some((t, r)) ==> r.len() < s.len(),
{
    if s.len() > 0 && s[0] == '"' {
        lemma_sp_str_body_len(s.drop_first());
    }
}

/// A run of decimal digits folded onto `acc`, with the arithmetic of the
/// executable code: digits past `u64::MAX` are a parse failure.
pub open spec fn sp_digits(s: Seq<char>, acc: u64) -> Option<(u64, Seq<char>)>
    decreases s.len(),
{
    if s.len() > 0 && is_digit_char(s[0]) {
        let d = digit_val(s[0]);
        if acc > (u64::MAX - d) / 10 {
            None
        } else {
            sp_digits(s.drop_first(), (acc * 10 + d) as u64)
        }
    } else {
        Some((acc, s))
    }
}

/// A digit run never lengthens the input, and consumes a leading digit.
pub proof fn lemma_sp_digits_len(s: Seq<char>, acc: u64)
    ensures
        sp_digits(s, acc) matches Some((v, r)) ==> r.len() <= s.len() && ((s.len() > 0
            && is_digit_char(s[0])) ==> r.len() < s.len()),
    decreases s.len(),
{
    if s.len() > 0 && is_digit_char(s[0]) {
        let d = digit_val(s[0]);
        if acc <= (u64::MAX - d) / 10 {
            lemma_sp_digits_len(s.drop_first(), (acc * 10 + d) as u64);
        }
    }
}

/// Consumes a run of digits that must all be zero: fraction digits past
/// the third carry value the protocol's thousandths cannot hold unless
/// they are zero.
pub open spec fn sp_zero_digits(s: Seq<char>) -> Option<Seq<char>>
    decreases s.len(),
{
    if s.len() > 0 && is_digit_char(s[0]) {
        if s[0] == '0' {
            sp_zero_digits(s.drop_first())
        } else {
            None
        }
    } else {
        Some(s)
    }
}

/// A zero run never lengthens the input.
pub proof fn lemma_sp_zero_digits_len(s: Seq<char>)
    ensures
        sp_zero_digits(s) matches Some(r) ==> r.len() <= s.len(),
    decreases s.len(),
{
    if s.len() > 0 && is_digit_char(s[0]) && s[0] == '0' {
        lemma_sp_zero_digits_len(s.drop_first());
    }
}

/// One or more fractional digits, as thousandths: the first three carry
/// the value, and any further digits must be zero.
pub open spec fn sp_frac(s: Seq<char>) -> Option<(u16, Seq<char>)> {
    if s.len() > 0 && is_digit_char(s[0]) {
        let d0 = digit_val(s[0]);
        if s.len() > 1 && is_digit_char(s[1]) {
            let d1 = digit_val(s[1]);
            if s.len() > 2 && is_digit_char(s[2]) {
                let d2 = digit_val(s[2]);
                match sp_zero_digits(s.skip(3)) {
                    None => None,
                    Some(r) => Some(((d0 * 100 + d1 * 10 + d2) as u16, r)),
                }
            } else {
                Some(((d0 * 100 + d1 * 10) as u16, s.skip(2)))
            }
        } else {
            Some(((d0 * 100) as u16, s.skip(1)))
        }
    } else {
        None
    }
}

/// A fraction consumes at least one character.
pub proof fn lemma_sp_frac_len(s: Seq<char>)
    ensures
        sp_frac(s) matches Some((m, r)) ==> r.len() < s.len(),
{
    if s.len() > 2 && is_digit_char(s[0]) && is_digit_char(s[1]) && is_digit_char(s[2]) {
        lemma_sp_zero_digits_len(s.skip(3));
    }
}

/// A run of exponent digits folded onto `acc`, saturating: every exponent
/// beyond 100000 scales any non-zero value out of range and leaves zero
/// zero, so saturated values behave alike.
pub open spec fn sp_exp_digits(s: Seq<char>, acc: u64) -> (u64, Seq<char>)
    decreases s.len(),
{
    if s.len() > 0 && is_digit_char(s[0]) {
        let a2 = if acc > 100000 {
            acc
        } else {
            (acc * 10 + digit_val(s[0])) as u64
        };
        sp_exp_digits(s.drop_first(), a2)
    } else {
        (acc, s)
    }
}

/// An exponent digit run never lengthens the input.
pub proof fn lemma_sp_exp_digits_len(s: Seq<char>, acc: u64)
    ensures
        sp_exp_digits(s, acc).1.len() <= s.len(),
    decreases s.len(),
{
    if s.len() > 0 && is_digit_char(s[0]) {
        let a2 = if acc > 100000 {
            acc
        } else {
            (acc * 10 + digit_val(s[0])) as u64
        };
        lemma_sp_exp_digits_len(s.drop_first(), a2);
    }
}

/// Multiplies a value in whole-and-thousandths form by ten, `e` times,
/// exactly; `None` when the whole part would pass `u64::MAX`.
pub open spec fn scale_up(w: u64, m: u16, e: u64) -> Option<(u64, u16)>
    decreases e,
{
    if e == 0 {
        Some((w, m))
    } else if w == 0 && m == 0 {
        Some((0u64, 0u16))
    } else if w > (u64::MAX - (m / 100) as u64) / 10 {
        None
    } else {
        scale_up((w * 10 + (m / 100) as u64) as u64, ((m % 100) * 10) as u16, (e - 1) as u64)
    }
}

/// Divides a value in whole-and-thousandths form by ten, `e` times,
/// exactly; `None` when a non-zero digit would fall past the thousandths.
pub open spec fn scale_down(w: u64, m: u16, e: u64) -> Option<(u64, u16)>
    decreases e,
{
    if e == 0 {
        Some((w, m))
    } else if w == 0 && m == 0 {
        Some((0u64, 0u16))
    } else if m % 10 != 0 {
        None
    } else {
        scale_down((w / 10) as u64, ((m / 10) + (w % 10) * 100) as u16, (e - 1) as u64)
    }
}

/// The sign applied to a finished value: the protocol has no negative
/// values, so a minus is accepted exactly on zero.
pub open spec fn sp_num_done(neg: bool, w: u64, m: u16, s: Seq<char>) -> Option<
    (JsonNum, Seq<char>),
> {
    if neg && (w > 0 || m > 0) {
        None
    } else {
        Some((JsonNum { whole: w, milli: m }, s))
    }
}

/// The optional exponent of a number, applied exactly to its written
/// value, then the sign.
pub open spec fn sp_num_tail(neg: bool, w: u64, m: u16, s: Seq<char>) -> Option<
    (JsonNum, Seq<char>),
> {
    if s.len() > 0 && (s[0] == 'e' || s[0] == 'E') {
        let eneg = s.len() > 1 && s[1] == '-';
        let s1 = if s.len() > 1 && (s[1] == '-' || s[1] == '+') {
            s.skip(2)
        } else {
            s.drop_first()
        };
        if s1.len() > 0 && is_digit_char(s1[0]) {
            let (e, r) = sp_exp_digits(s1, 0);
            match (if eneg {
                scale_down(w, m, e)
            } else {
                scale_up(w, m, e)
            }) {
                None => None,
                Some((w2, m2)) => sp_num_done(neg, w2, m2, r),
            }
        } else {
            None
        }
    } else {
        sp_num_done(neg, w, m, s)
    }
}

/// A number tail never lengthens the input.
pub proof fn lemma_sp_num_tail_len(neg: bool, w: u64, m: u16, s: Seq<char>)
    ensures
        sp_num_tail(neg, w, m, s) matches Some((n, r)) ==> r.len() <= s.len(),
{
    if s.len() > 0 && (s[0] == 'e' || s[0] == 'E') {
        let s1 = if s.len() > 1 && (s[1] == '-' || s[1] == '+') {
            s.skip(2)
        } else {
            s.drop_first()
        };
        lemma_sp_exp_digits_len(s1, 0);
    }
}

/// A number, in any JSON form: an optional minus, an integer part without
/// leading zeros, an optional fraction of any length, an optional
/// exponent. The parse succeeds exactly when the written value is one the
/// protocol can carry: non-negative, whole and thousandths, the integer
/// part as written fitting `u64`.
pub open spec fn sp_num(s: Seq<char>) -> Option<(JsonNum, Seq<char>)> {
    let neg = s.len() > 0 && s[0] == '-';
    let s1 = if neg {
        s.drop_first()
    } else {
        s
    };
    if s1.len() > 0 && is_digit_char(s1[0]) {
        if s1[0] == '0' && s1.len() > 1 && is_digit_char(s1[1]) {
            None
        } else {
            match sp_digits(s1, 0) {
                None => None,
                Some((w, r)) => {
                    if r.len() > 0 && r[0] == '.' {
                        match sp_frac(r.drop_first()) {
                            None => None,
                            Some((m, r2)) => sp_num_tail(neg, w, m, r2),
                        }
                    } else {
                        sp_num_tail(neg, w, 0, r)
                    }
                },
            }
        }
    } else {
        None
    }
}

/// A number consumes at least one character.
pub proof fn lemma_sp_num_len(s: Seq<char>)
    ensures
        sp_num(s) matches Some((n, r)) ==> r.len() < s.len(),
{
    let neg = s.len() > 0 && s[0] == '-';
    let s1 = if neg {
        s.drop_first()
    } else {
        s
    };
    if s1.len() > 0 && is_digit_char(s1[0]) {
        lemma_sp_digits_len(s1, 0);
        if let Some((w, r)) = sp_digits(s1, 0) {
            if r.len() > 0 && r[0] == '.' {
                lemma_sp_frac_len(r.drop_first());
                if let Some((m, r2)) = sp_frac(r.drop_first()) {
                    lemma_sp_num_tail_len(neg, w, m, r2);
                }
            } else {
                lemma_sp_num_tail_len(neg, w, 0, r);
            }
        }
    }
}

/// A scalar: a string, a number, or `null`.
pub open spec fn sp_scalar(s: Seq<char>) -> Option<(ScalarV, Seq<char>)> {
    if s.len() == 0 {
        None
    } else if s[0] == '"' {
        match sp_string(s) {
            None => None,
            Some((t, r)) => Some((ScalarV::Str(t), r)),
        }
    } else if is_digit_char(s[0]) || s[0] == '-' {
        match sp_num(s) {
            None => None,
            Some((n, r)) => Some((ScalarV::Num(n), r)),
        }
    } else if s.len() >= 4 && s[0] == 'n' && s[1] == 'u' && s[2] == 'l' && s[3] == 'l' {
        Some((ScalarV::Null, s.skip(4)))
    } else {
        None
    }
}

/// A scalar consumes at least one character.
pub proof fn lemma_sp_scalar_len(s: Seq<char>)
    ensures
        sp_scalar(s) matches Some((v, r)) ==> r.len() < s.len(),
{
    if s.len() == 0 {
    } else if s[0] == '"' {
        lemma_sp_string_len(s);
    } else if is_digit_char(s[0]) || s[0] == '-' {
        lemma_sp_num_len(s);
    }
}

/// The members of an object of scalars, after the opening brace and any
/// whitespace, up to and including the closing brace. The input stands at
/// the first member's key.
pub open spec fn sp_flat_members(s: Seq<char>) -> Option<
    (Seq<(Seq<char>, ScalarV)>, Seq<char>),
>
    decreases s.len(),
    via sp_flat_members_dec
{
    match sp_string(s) {
        None => None,
        Some((k, r1)) => {
            let r2 = sp_ws(r1);
            if r2.len() > 0 && r2[0] == ':' {
                let r3 = sp_ws(r2.drop_first());
                match sp_scalar(r3) {
                    None => None,
                    Some((v, r4)) => {
                        let r5 = sp_ws(r4);
                        if r5.len() > 0 && r5[0] == ',' {
                            let r6 = sp_ws(r5.drop_first());
                            match sp_flat_members(r6) {
                                None => None,
                                Some((ms, r7)) => Some((seq![(k, v)] + ms, r7)),
                            }
                        } else if r5.len() > 0 && r5[0] == '}' {
                            Some((seq![(k, v)], r5.drop_first()))
                        } else {
                            None
                        }
                    },
                }
            } else {
                None
            }
        },
    }
}

#[via_fn]
proof fn sp_flat_members_dec(s: Seq<char>) {
    lemma_sp_string_len(s);
    if let Some((k, r1)) = sp_string(s) {
        let r2 = sp_ws(r1);
        lemma_sp_ws_len(r1);
        if r2.len() > 0 && r2[0] == ':' {
            let r3 = sp_ws(r2.drop_first());
            lemma_sp_ws_len(r2.drop_first());
            lemma_sp_scalar_len(r3);
            if let Some((v, r4)) = sp_scalar(r3) {
                let r5 = sp_ws(r4);
                lemma_sp_ws_len(r4);
                if r5.len() > 0 && r5[0] == ',' {
                    lemma_sp_ws_len(r5.drop_first());
                }
            }
        }
    }
}

/// A member list consumes at least its closing brace.
pub proof fn lemma_sp_flat_members_len(s: Seq<char>)
    ensures
        sp_flat_members(s) matches Some((ms, r)) ==> r.len() < s.len(),
    decreases s.len(),
{
    lemma_sp_string_len(s);
    if let Some((k, r1)) = sp_string(s) {
        let r2 = sp_ws(r1);
        lemma_sp_ws_len(r1);
        if r2.len() > 0 && r2[0] == ':' {
            let r3 = sp_ws(r2.drop_first());
            lemma_sp_ws_len(r2.drop_first());
            lemma_sp_scalar_len(r3);
            if let Some((v, r4)) = sp_scalar(r3) {
                let r5 = sp_ws(r4);
                lemma_sp_ws_len(r4);
                if r5.len() > 0 && r5[0] == ',' {
                    let r6 = sp_ws(r5.drop_first());
                    lemma_sp_ws_len(r5.drop_first());
                    lemma_sp_flat_members_len(r6);
                }
            }
        }
    }
}

/// An object of scalars: brace, members or nothing, brace.
pub open spec fn sp_flat_obj(s: Seq<char>) -> Option<(Seq<(Seq<char>, ScalarV)>, Seq<char>)> {
    if s.len() > 0 && s[0] == '{' {
        let r = sp_ws(s.drop_first());
        if r.len() > 0 && r[0] == '}' {
            Some((Seq::empty(), r.drop_first()))
        } else {
            sp_flat_members(r)
        }
    } else {
        None
    }
}

/// An object of scalars consumes at least its braces.
pub proof fn lemma_sp_flat_obj_len(s: Seq<char>)
    ensures
        sp_flat_obj(s) matches Some((ms, r)) ==> r.len() < s.len(),
{
    if s.len() > 0 && s[0] == '{' {
        let r = sp_ws(s.drop_first());
        lemma_sp_ws_len(s.drop_first());
        lemma_sp_flat_members_len(r);
    }
}

/// A payload value: an object of scalars, or a scalar.
pub open spec fn sp_dval(s: Seq<char>) -> Option<(DValV, Seq<char>)> {
    if s.len() > 0 && s[0] == '{' {
        match sp_flat_obj(s) {
            None => None,
            Some((ms, r)) => Some((DValV::Obj(ms), r)),
        }
    } else {
        match sp_scalar(s) {
            None => None,
            Some((v, r)) => Some((DValV::Scalar(v), r)),
        }
    }
}

/// A payload value consumes at least one character.
pub proof fn lemma_sp_dval_len(s: Seq<char>)
    ensures
        sp_dval(s) matches Some((v, r)) ==> r.len() < s.len(),
{
    if s.len() > 0 && s[0] == '{' {
        lemma_sp_flat_obj_len(s);
    } else {
        lemma_sp_scalar_len(s);
    }
}

/// The members of a payload object; the input stands at the first key.
pub open spec fn sp_d_members(s: Seq<char>) -> Option<(Seq<(Seq<char>, DValV)>, Seq<char>)>
    decreases s.len(),
    via sp_d_members_dec
{
    match sp_string(s) {
        None => None,
        Some((k, r1)) => {
            let r2 = sp_ws(r1);
            if r2.len() > 0 && r2[0] == ':' {
                let r3 = sp_ws(r2.drop_first());
                match sp_dval(r3) {
                    None => None,
                    Some((v, r4)) => {
                        let r5 = sp_ws(r4);
                        if r5.len() > 0 && r5[0] == ',' {
                            let r6 = sp_ws(r5.drop_first());
                            match sp_d_members(r6) {
                                None => None,
                                Some((ms, r7)) => Some((seq![(k, v)] + ms, r7)),
                            }
                        } else if r5.len() > 0 && r5[0] == '}' {
                            Some((seq![(k, v)], r5.drop_first()))
                        } else {
                            None
                        }
                    },
                }
            } else {
                None
            }
        },
    }
}

#[via_fn]
proof fn sp_d_members_dec(s: Seq<char>) {
    lemma_sp_string_len(s);
    if let Some((k, r1)) = sp_string(s) {
        let r2 = sp_ws(r1);
        lemma_sp_ws_len(r1);
        if r2.len() > 0 && r2[0] == ':' {
            let r3 = sp_ws(r2.drop_first());
            lemma_sp_ws_len(r2.drop_first());
            lemma_sp_dval_len(r3);
            if let Some((v, r4)) = sp_dval(r3) {
                let r5 = sp_ws(r4);
                lemma_sp_ws_len(r4);
                if r5.len() > 0 && r5[0] == ',' {
                    lemma_sp_ws_len(r5.drop_first());
                }
            }
        }
    }
}

/// A payload member list consumes at least its closing brace.
pub proof fn lemma_sp_d_members_len(s: Seq<char>)
    ensures
        sp_d_members(s) matches Some((ms, r)) ==> r.len() < s.len(),
    decreases s.len(),
{
    lemma_sp_string_len(s);
    if let Some((k, r1)) = sp_string(s) {
        let r2 = sp_ws(r1);
        lemma_sp_ws_len(r1);
        if r2.len() > 0 && r2[0] == ':' {
            let r3 = sp_ws(r2.drop_first());
            lemma_sp_ws_len(r2.drop_first());
            lemma_sp_dval_len(r3);
            if let Some((v, r4)) = sp_dval(r3) {
                let r5 = sp_ws(r4);
                lemma_sp_ws_len(r4);
                if r5.len() > 0 && r5[0] == ',' {
                    let r6 = sp_ws(r5.drop_first());
                    lemma_sp_ws_len(r5.drop_first());
                    lemma_sp_d_members_len(r6);
                }
            }
        }
    }
}

/// A payload object: brace, members or nothing, brace.
pub open spec fn sp_d_obj(s: Seq<char>) -> Option<(Seq<(Seq<char>, DValV)>, Seq<char>)> {
    if s.len() > 0 && s[0] == '{' {
        let r = sp_ws(s.drop_first());
        if r.len() > 0 && r[0] == '}' {
            Some((Seq::empty(), r.drop_first()))
        } else {
            sp_d_members(r)
        }
    } else {
        None
    }
}

/// A payload object consumes at least its braces.
pub proof fn lemma_sp_d_obj_len(s: Seq<char>)
    ensures
        sp_d_obj(s) matches Some((ms, r)) ==> r.len() < s.len(),
{
    if s.len() > 0 && s[0] == '{' {
        let r = sp_ws(s.drop_first());
        lemma_sp_ws_len(s.drop_first());
        lemma_sp_d_members_len(r);
    }
}

/// A top-level value: a payload object, or a scalar.
pub open spec fn sp_topval(s: Seq<char>) -> Option<(TopValV, Seq<char>)> {
    if s.len() > 0 && s[0] == '{' {
        match sp_d_obj(s) {
            None => None,
            Some((ms, r)) => Some((TopValV::Obj(ms), r)),
        }
    } else {
        match sp_scalar(s) {
            None => None,
            Some((v, r)) => Some((TopValV::Scalar(v), r)),
        }
    }
}

/// A top-level value consumes at least one character.
pub proof fn lemma_sp_topval_len(s: Seq<char>)
    ensures
        sp_topval(s) matches Some((v, r)) ==> r.len() < s.len(),
{
    if s.len() > 0 && s[0] == '{' {
        lemma_sp_d_obj_len(s);
    } else {
        lemma_sp_scalar_len(s);
    }
}

/// The members of the envelope object; the input stands at the first key.
pub open spec fn sp_top_members(s: Seq<char>) -> Option<(Seq<(Seq<char>, TopValV)>, Seq<char>)>
    decreases s.len(),
    via sp_top_members_dec
{
    match sp_string(s) {
        None => None,
        Some((k, r1)) => {
            let r2 = sp_ws(r1);
            if r2.len() > 0 && r2[0] == ':' {
                let r3 = sp_ws(r2.drop_first());
                match sp_topval(r3) {
                    None => None,
                    Some((v, r4)) => {
                        let r5 = sp_ws(r4);
                        if r5.len() > 0 && r5[0] == ',' {
                            let r6 = sp_ws(r5.drop_first());
                            match sp_top_members(r6) {
                                None => None,
                                Some((ms, r7)) => Some((seq![(k, v)] + ms, r7)),
                            }
                        } else if r5.len() > 0 && r5[0] == '}' {
                            Some((seq![(k, v)], r5.drop_first()))
                        } else {
                            None
                        }
                    },
                }
            } else {
                None
            }
        },
    }
}

#[via_fn]
proof fn sp_top_members_dec(s: Seq<char>) {
    lemma_sp_string_len(s);
    if let Some((k, r1)) = sp_string(s) {
        let r2 = sp_ws(r1);
        lemma_sp_ws_len(r1);
        if r2.len() > 0 && r2[0] == ':' {
            let r3 = sp_ws(r2.drop_first());
            lemma_sp_ws_len(r2.drop_first());
            lemma_sp_topval_len(r3);
            if let Some((v, r4)) = sp_topval(r3) {
                let r5 = sp_ws(r4);
                lemma_sp_ws_len(r4);
                if r5.len() > 0 && r5[0] == ',' {
                    lemma_sp_ws_len(r5.drop_first());
                }
            }
        }
    }
}

/// The envelope object: brace, members or nothing, brace.
pub open spec fn sp_top_obj(s: Seq<char>) -> Option<(Seq<(Seq<char>, TopValV)>, Seq<char>)> {
    if s.len() > 0 && s[0] == '{' {
        let r = sp_ws(s.drop_first());
        if r.len() > 0 && r[0] == '}' {
            Some((Seq::empty(), r.drop_first()))
        } else {
            sp_top_members(r)
        }
    } else {
        None
    }
}

/// A whole document: optional whitespace, the envelope object, optional
/// whitespace, end of input.
pub open spec fn sp_document(s: Seq<char>) -> Option<Seq<(Seq<char>, TopValV)>> {
    match sp_top_obj(sp_ws(s)) {
        None => None,
        Some((ms, r)) => {
            if sp_ws(r).len() == 0 {
                Some(ms)
            } else {
                None
            }
        },
    }
}

/// Skips leading whitespace.
pub fn p_ws<'a>(s: &'a [char]) -> (r: &'a [char])
    ensures
        r@ == sp_ws(s@),
        r@.len() <= s@.len(),
{
    let mut t: &[char] = s;
    loop
        invariant
            sp_ws(s@) == sp_ws(t@),
            t@.len() <= s@.len(),
        decreases t@.len(),
    {
        if t.len() == 0 || !is_ws_exec(t[0]) {
            proof {
                assert(sp_ws(t@) == t@);
            }
            return t;
        }
        let ghost t0 = t@;
        t = skipn(t, 1);
        proof {
            assert(t0.drop_first() =~= t@);
        }
    }
}

/// Reads the value of one hex digit character.
fn hex_char_val_exec(c: char) -> (r: Option<u32>)
    ensures
        r == hex_char_val(c),
{
    let u = c as u32;
    if 48 <= u && u <= 57 {
        Some(u - 48)
    } else if 65 <= u && u <= 70 {
        Some(u - 55)
    } else if 97 <= u && u <= 102 {
        Some(u - 87)
    } else {
        None
    }
}

/// Reads the value of the four hex digits at offset `i`.
fn hex4_exec(s: &[char], i: usize) -> (r: Option<u32>)
    requires
        i + 4 <= s@.len(),
    ensures
        r == hex4_val(s@.skip(i as int)),
{
    proof {
        assert(s@.skip(i as int)[0] == s@[i as int]);
        assert(s@.skip(i as int)[1] == s@[i as int + 1]);
        assert(s@.skip(i as int)[2] == s@[i as int + 2]);
        assert(s@.skip(i as int)[3] == s@[i as int + 3]);
    }
    match (
        hex_char_val_exec(s[i]),
        hex_char_val_exec(s[i + 1]),
        hex_char_val_exec(s[i + 2]),
        hex_char_val_exec(s[i + 3]),
    ) {
        (Some(a), Some(b), Some(c), Some(d)) => Some(a * 4096 + b * 256 + c * 16 + d),
        _ => None,
    }
}

/// Parses a string literal.
pub fn p_string<'a>(s: &'a [char]) -> (res: Option<(String, &'a [char])>)
    ensures
        match res {
            Some((t, rest)) => sp_string(s@) == Some((t@, rest@)) && rest@.len() < s@.len(),
            None => sp_string(s@) is None,
        },
{
    if s.len() == 0 || s[0] != '"' {
        return None;
    }
    let mut t: &[char] = skipn(s, 1);
    proof {
        assert(s@.skip(1) =~= s@.drop_first());
    }
    let ghost body = s@.drop_first();
    let mut acc = String::new();
    loop
        invariant
            sp_string(s@) == sp_str_body(body),
            sp_str_body(body) == (match sp_str_body(t@) {
                Option::None => Option::<(Seq<char>, Seq<char>)>::None,
                Option::Some((u, r)) => Option::Some((acc@ + u, r)),
            }),
            t@.len() <= body.len(),
            body.len() < s@.len() + 1,
        decreases t@.len(),
    {
        if t.len() == 0 {
            return None;
        }
        let c = t[0];
        if c == '"' {
            let rest = skipn(t, 1);
            proof {
                assert(t@.skip(1) =~= t@.drop_first());
                assert(sp_str_body(t@) == Some((Seq::<char>::empty(), t@.drop_first())));
                assert(acc@ + Seq::<char>::empty() =~= acc@);
                lemma_sp_str_body_len(body);
            }
            return Some((acc, rest));
        }
        let ghost t0 = t@;
        let ghost acc0 = acc@;
        if c == '\\' {
            if t.len() < 2 {
                return None;
            }
            let e = t[1];
            if e == 'u' {
                if t.len() < 6 {
                    return None;
                }
                match hex4_exec(t, 2) {
                    None => {
                        return None;
                    },
                    Some(n) => {
                        if n < 0xD800 || n > 0xDFFF {
                            if let Some(u) = char::from_u32(n) {
                                acc.push(u);
                                t = skipn(t, 6);
                                proof {
                                    assert(t0.skip(6) =~= t@);
                                    if let Some((w, r)) = sp_str_body(t@) {
                                        assert(sp_str_body(t0) == Some((seq![u] + w, r)));
                                        assert(acc0 + (seq![u] + w) =~= acc0.push(u) + w);
                                    }
                                }
                            } else {
                                proof {
                                    assert(false);
                                }
                                return None;
                            }
                        } else if n < 0xDC00 {
                            if t.len() < 12 {
                                return None;
                            }
                            if t[6] == '\\' && t[7] == 'u' {
                                match hex4_exec(t, 8) {
                                    None => {
                                        return None;
                                    },
                                    Some(m) => {
                                        if 0xDC00 <= m && m <= 0xDFFF {
                                            let code: u32 = 0x10000 + (n - 0xD800) * 0x400 + (m
                                                - 0xDC00);
                                            if let Some(u) = char::from_u32(code) {
                                                acc.push(u);
                                                t = skipn(t, 12);
                                                proof {
                                                    assert(t0.skip(12) =~= t@);
                                                    if let Some((w, r)) = sp_str_body(t@) {
                                                        assert(sp_str_body(t0) == Some(
                                                            (seq![u] + w, r),
                                                        ));
                                                        assert(acc0 + (seq![u] + w) =~= acc0.push(
                                                            u,
                                                        ) + w);
                                                    }
                                                }
                                            } else {
                                                proof {
                                                    assert(false);
                                                }
                                                return None;
                                            }
                                        } else {
                                            return None;
                                        }
                                    },
                                }
                            } else {
                                return None;
                            }
                        } else {
                            return None;
                        }
                    },
                }
            } else {
                let u: char;
                if e == '"' {
                    u = '"';
                } else if e == '\\' {
                    u = '\\';
                } else if e == '/' {
                    u = '/';
                } else if e == 'n' {
                    u = '\n';
                } else if e == 't' {
                    u = '\t';
                } else if e == 'r' {
                    u = '\r';
                } else if e == 'b' {
                    u = '\u{0008}';
                } else if e == 'f' {
                    u = '\u{000C}';
                } else {
                    return None;
                }
                acc.push(u);
                t = skipn(t, 2);
                proof {
                    assert(unesc_char(t0[1]) == Some(u));
                    assert(t0.skip(2) =~= t@);
                    if let Some((w, r)) = sp_str_body(t@) {
                        assert(sp_str_body(t0) == Some((seq![u] + w, r)));
                        assert(acc0 + (seq![u] + w) =~= acc0.push(u) + w);
                    }
                }
            }
        } else {
            acc.push(c);
            t = skipn(t, 1);
            proof {
                assert(t0.skip(1) =~= t0.drop_first());
                assert(t0.drop_first() =~= t@);
                if let Some((w, r)) = sp_str_body(t@) {
                    assert(sp_str_body(t0) == Some((seq![c] + w, r)));
                    assert(acc0 + (seq![c] + w) =~= acc0.push(c) + w);
                }
            }
        }
    }
}

/// Parses a run of decimal digits into a `u64`.
pub fn p_digits<'a>(s: &'a [char]) -> (res: Option<(u64, &'a [char])>)
    ensures
        match res {
            Some((v, rest)) => sp_digits(s@, 0) == Some((v, rest@)) && rest@.len() <= s@.len(),
            None => sp_digits(s@, 0) is None,
        },
{
    let mut acc: u64 = 0;
    let mut t: &[char] = s;
    loop
        invariant
            sp_digits(s@, 0) == sp_digits(t@, acc),
            t@.len() <= s@.len(),
        decreases t@.len(),
    {
        if t.len() == 0 || !is_digit_exec(t[0]) {
            proof {
                assert(sp_digits(t@, acc) == Some((acc, t@)));
            }
            return Some((acc, t));
        }
        let d = digit_val_exec(t[0]);
        if acc > (u64::MAX - d) / 10 {
            return None;
        }
        proof {
            assert(acc * 10 + d <= u64::MAX) by (nonlinear_arith)
                requires
                    acc <= (u64::MAX - d) / 10,
                    d <= 9,
            ;
        }
        let ghost t0 = t@;
        let ghost acc0 = acc;
        acc = acc * 10 + d;
        t = skipn(t, 1);
        proof {
            assert(t0.skip(1) =~= t0.drop_first());
            assert(t0.drop_first() =~= t@);
            assert(sp_digits(t0, acc0) == sp_digits(t@, acc));
        }
    }
}

/// Consumes a run of digits that must all be zero.
fn p_zero_digits<'a>(s: &'a [char]) -> (res: Option<&'a [char]>)
    ensures
        match res {
            Some(rest) => sp_zero_digits(s@) == Some(rest@) && rest@.len() <= s@.len(),
            None => sp_zero_digits(s@) is None,
        },
{
    let mut t: &[char] = s;
    loop
        invariant
            sp_zero_digits(s@) == sp_zero_digits(t@),
            t@.len() <= s@.len(),
        decreases t@.len(),
    {
        if t.len() == 0 || !is_digit_exec(t[0]) {
            proof {
                assert(sp_zero_digits(t@) == Some(t@));
            }
            return Some(t);
        }
        if t[0] != '0' {
            return None;
        }
        let ghost t0 = t@;
        t = skipn(t, 1);
        proof {
            assert(t0.skip(1) =~= t0.drop_first());
        }
    }
}

/// Parses one or more fractional digits into thousandths.
fn p_frac<'a>(s: &'a [char]) -> (res: Option<(u16, &'a [char])>)
    ensures
        match res {
            Some((m, rest)) => sp_frac(s@) == Some((m, rest@)) && rest@.len() < s@.len(),
            None => sp_frac(s@) is None,
        },
{
    if s.len() == 0 || !is_digit_exec(s[0]) {
        return None;
    }
    let d0 = digit_val_exec(s[0]);
    if s.len() > 1 && is_digit_exec(s[1]) {
        let d1 = digit_val_exec(s[1]);
        if s.len() > 2 && is_digit_exec(s[2]) {
            let d2 = digit_val_exec(s[2]);
            match p_zero_digits(skipn(s, 3)) {
                None => None,
                Some(r) => Some(((d0 * 100 + d1 * 10 + d2) as u16, r)),
            }
        } else {
            Some(((d0 * 100 + d1 * 10) as u16, skipn(s, 2)))
        }
    } else {
        Some(((d0 * 100) as u16, skipn(s, 1)))
    }
}

/// Parses a run of exponent digits, saturating.
fn p_exp_digits<'a>(s: &'a [char]) -> (res: (u64, &'a [char]))
    ensures
        sp_exp_digits(s@, 0) == (res.0, res.1@),
        res.1@.len() <= s@.len(),
{
    let mut acc: u64 = 0;
    let mut t: &[char] = s;
    loop
        invariant
            sp_exp_digits(s@, 0) == sp_exp_digits(t@, acc),
            t@.len() <= s@.len(),
        decreases t@.len(),
    {
        if t.len() == 0 || !is_digit_exec(t[0]) {
            proof {
                assert(sp_exp_digits(t@, acc) == (acc, t@));
            }
            return (acc, t);
        }
        let d = digit_val_exec(t[0]);
        let ghost t0 = t@;
        let ghost acc0 = acc;
        if acc <= 100000 {
            acc = acc * 10 + d;
        }
        t = skipn(t, 1);
        proof {
            assert(t0.skip(1) =~= t0.drop_first());
            assert(sp_exp_digits(t0, acc0) == sp_exp_digits(t@, acc));
        }
    }
}

/// Multiplies a value by ten, `e` times, exactly.
fn scale_up_exec(w: u64, m: u16, e: u64) -> (res: Option<(u64, u16)>)
    ensures
        res == scale_up(w, m, e),
    decreases e,
{
    if e == 0 {
        Some((w, m))
    } else if w == 0 && m == 0 {
        Some((0u64, 0u16))
    } else {
        let q = (m / 100) as u64;
        if w > (u64::MAX - q) / 10 {
            None
        } else {
            proof {
                assert(w * 10 + q <= u64::MAX) by (nonlinear_arith)
                    requires
                        w <= (u64::MAX - q) / 10,
                        q <= u64::MAX,
                ;
            }
            scale_up_exec(w * 10 + q, (m % 100) * 10, e - 1)
        }
    }
}

/// Divides a value by ten, `e` times, exactly.
fn scale_down_exec(w: u64, m: u16, e: u64) -> (res: Option<(u64, u16)>)
    ensures
        res == scale_down(w, m, e),
    decreases e,
{
    if e == 0 {
        Some((w, m))
    } else if w == 0 && m == 0 {
        Some((0u64, 0u16))
    } else if m % 10 != 0 {
        None
    } else {
        scale_down_exec(w / 10, (m / 10) + ((w % 10) as u16) * 100, e - 1)
    }
}

/// Parses the optional exponent of a number and applies the sign.
fn p_num_tail<'a>(neg: bool, w: u64, m: u16, s: &'a [char]) -> (res: Option<(JsonNum, &'a [char])>)
    ensures
        match res {
            Some((n, rest)) => sp_num_tail(neg, w, m, s@) == Some((n, rest@)) && rest@.len()
                <= s@.len(),
            None => sp_num_tail(neg, w, m, s@) is None,
        },
{
    if s.len() > 0 && (s[0] == 'e' || s[0] == 'E') {
        let eneg = s.len() > 1 && s[1] == '-';
        let s1: &[char] = if s.len() > 1 && (s[1] == '-' || s[1] == '+') {
            skipn(s, 2)
        } else {
            skipn(s, 1)
        };
        proof {
            assert(s@.skip(1) =~= s@.drop_first());
        }
        if s1.len() == 0 || !is_digit_exec(s1[0]) {
            return None;
        }
        let (e, r) = p_exp_digits(s1);
        let scaled = if eneg {
            scale_down_exec(w, m, e)
        } else {
            scale_up_exec(w, m, e)
        };
        match scaled {
            None => None,
            Some((w2, m2)) => {
                if neg && (w2 > 0 || m2 > 0) {
                    None
                } else {
                    Some((JsonNum { whole: w2, milli: m2 }, r))
                }
            },
        }
    } else {
        if neg && (w > 0 || m > 0) {
            None
        } else {
            Some((JsonNum { whole: w, milli: m }, s))
        }
    }
}

/// Parses a number.
pub fn p_num<'a>(s: &'a [char]) -> (res: Option<(JsonNum, &'a [char])>)
    ensures
        match res {
            Some((n, rest)) => sp_num(s@) == Some((n, rest@)) && rest@.len() < s@.len(),
            None => sp_num(s@) is None,
        },
{
    let neg = s.len() > 0 && s[0] == '-';
    let s1: &[char] = if neg {
        skipn(s, 1)
    } else {
        s
    };
    proof {
        if neg {
            assert(s@.skip(1) =~= s@.drop_first());
        }
    }
    if s1.len() == 0 || !is_digit_exec(s1[0]) {
        return None;
    }
    if s1[0] == '0' && s1.len() > 1 && is_digit_exec(s1[1]) {
        return None;
    }
    match p_digits(s1) {
        None => None,
        Some((w, r)) => {
            proof {
                lemma_sp_digits_len(s1@, 0);
            }
            if r.len() > 0 && r[0] == '.' {
                let r1 = skipn(r, 1);
                proof {
                    assert(r@.skip(1) =~= r@.drop_first());
                }
                match p_frac(r1) {
                    None => None,
                    Some((m, r2)) => p_num_tail(neg, w, m, r2),
                }
            } else {
                p_num_tail(neg, w, 0, r)
            }
        },
    }
}

/// Parses a scalar.
pub fn p_scalar<'a>(s: &'a [char]) -> (res: Option<(JsonScalar, &'a [char])>)
    ensures
        match res {
            Some((v, rest)) => sp_scalar(s@) == Some((v@, rest@)) && rest@.len() < s@.len(),
            None => sp_scalar(s@) is None,
        },
{
    if s.len() == 0 {
        return None;
    }
    let c = s[0];
    if c == '"' {
        match p_string(s) {
            None => None,
            Some((t, rest)) => Some((JsonScalar::Str(t), rest)),
        }
    } else if is_digit_exec(c) || c == '-' {
        match p_num(s) {
            None => None,
            Some((n, rest)) => Some((JsonScalar::Num(n), rest)),
        }
    } else if s.len() >= 4 && c == 'n' && s[1] == 'u' && s[2] == 'l' && s[3] == 'l' {
        Some((JsonScalar::Null, skipn(s, 4)))
    } else {
        None
    }
}

/// Parses the members of an object of scalars, closing brace included.
pub fn p_flat_members<'a>(s: &'a [char]) -> (res: Option<(Vec<(String, JsonScalar)>, &'a [char])>)
    ensures
        match res {
            Some((ms, rest)) => sp_flat_members(s@) == Some((flat_members_view(ms@), rest@))
                && rest@.len() < s@.len(),
            None => sp_flat_members(s@) is None,
        },
    decreases s@.len(),
{
    match p_string(s) {
        None => None,
        Some((k, r1)) => {
            let r2 = p_ws(r1);
            if r2.len() > 0 && r2[0] == ':' {
                let r3 = p_ws(skipn(r2, 1));
                proof {
                    assert(r2@.skip(1) =~= r2@.drop_first());
                }
                match p_scalar(r3) {
                    None => None,
                    Some((v, r4)) => {
                        let r5 = p_ws(r4);
                        if r5.len() > 0 && r5[0] == ',' {
                            let r6 = p_ws(skipn(r5, 1));
                            proof {
                                assert(r5@.skip(1) =~= r5@.drop_first());
                            }
                            match p_flat_members(r6) {
                                None => None,
                                Some((mut ms, r7)) => {
                                    let ghost tail_view = flat_members_view(ms@);
                                    ms.insert(0, (k, v));
                                    proof {
                                        assert(flat_members_view(ms@) =~= seq![(k@, v@)]
                                            + tail_view);
                                    }
                                    Some((ms, r7))
                                },
                            }
                        } else if r5.len() > 0 && r5[0] == '}' {
                            let mut ms: Vec<(String, JsonScalar)> = Vec::new();
                            ms.push((k, v));
                            proof {
                                assert(flat_members_view(ms@) =~= seq![(k@, v@)]);
                                assert(r5@.skip(1) =~= r5@.drop_first());
                            }
                            Some((ms, skipn(r5, 1)))
                        } else {
                            None
                        }
                    },
                }
            } else {
                None
            }
        },
    }
}

/// Parses an object of scalars.
pub fn p_flat_obj<'a>(s: &'a [char]) -> (res: Option<(Vec<(String, JsonScalar)>, &'a [char])>)
    ensures
        match res {
            Some((ms, rest)) => sp_flat_obj(s@) == Some((flat_members_view(ms@), rest@))
                && rest@.len() < s@.len(),
            None => sp_flat_obj(s@) is None,
        },
{
    if s.len() == 0 || s[0] != '{' {
        return None;
    }
    let r = p_ws(skipn(s, 1));
    proof {
        assert(s@.skip(1) =~= s@.drop_first());
    }
    if r.len() > 0 && r[0] == '}' {
        let ms: Vec<(String, JsonScalar)> = Vec::new();
        proof {
            assert(flat_members_view(ms@) =~= Seq::<(Seq<char>, ScalarV)>::empty());
            assert(r@.skip(1) =~= r@.drop_first());
        }
        return Some((ms, skipn(r, 1)));
    }
    p_flat_members(r)
}

/// Parses a payload value.
pub fn p_dval<'a>(s: &'a [char]) -> (res: Option<(JsonDVal, &'a [char])>)
    ensures
        match res {
            Some((v, rest)) => sp_dval(s@) == Some((v@, rest@)) && rest@.len() < s@.len(),
            None => sp_dval(s@) is None,
        },
{
    if s.len() > 0 && s[0] == '{' {
        match p_flat_obj(s) {
            None => None,
            Some((ms, rest)) => Some((JsonDVal::Obj(ms), rest)),
        }
    } else {
        match p_scalar(s) {
            None => None,
            Some((v, rest)) => Some((JsonDVal::Scalar(v), rest)),
        }
    }
}

/// Parses the members of a payload object, closing brace included.
pub fn p_d_members<'a>(s: &'a [char]) -> (res: Option<(Vec<(String, JsonDVal)>, &'a [char])>)
    ensures
        match res {
            Some((ms, rest)) => sp_d_members(s@) == Some((d_members_view(ms@), rest@))
                && rest@.len() < s@.len(),
            None => sp_d_members(s@) is None,
        },
    decreases s@.len(),
{
    match p_string(s) {
        None => None,
        Some((k, r1)) => {
            let r2 = p_ws(r1);
            if r2.len() > 0 && r2[0] == ':' {
                let r3 = p_ws(skipn(r2, 1));
                proof {
                    assert(r2@.skip(1) =~= r2@.drop_first());
                }
                match p_dval(r3) {
                    None => None,
                    Some((v, r4)) => {
                        let r5 = p_ws(r4);
                        if r5.len() > 0 && r5[0] == ',' {
                            let r6 = p_ws(skipn(r5, 1));
                            proof {
                                assert(r5@.skip(1) =~= r5@.drop_first());
                            }
                            match p_d_members(r6) {
                                None => None,
                                Some((mut ms, r7)) => {
                                    let ghost tail_view = d_members_view(ms@);
                                    ms.insert(0, (k, v));
                                    proof {
                                        assert(d_members_view(ms@) =~= seq![(k@, v@)] + tail_view);
                                    }
                                    Some((ms, r7))
                                },
                            }
                        } else if r5.len() > 0 && r5[0] == '}' {
                            let mut ms: Vec<(String, JsonDVal)> = Vec::new();
                            ms.push((k, v));
                            proof {
                                assert(d_members_view(ms@) =~= seq![(k@, v@)]);
                                assert(r5@.skip(1) =~= r5@.drop_first());
                            }
                            Some((ms, skipn(r5, 1)))
                        } else {
                            None
                        }
                    },
                }
            } else {
                None
            }
        },
    }
}

/// Parses a payload object.
pub fn p_d_obj<'a>(s: &'a [char]) -> (res: Option<(Vec<(String, JsonDVal)>, &'a [char])>)
    ensures
        match res {
            Some((ms, rest)) => sp_d_obj(s@) == Some((d_members_view(ms@), rest@)) && rest@.len()
                < s@.len(),
            None => sp_d_obj(s@) is None,
        },
{
    if s.len() == 0 || s[0] != '{' {
        return None;
    }
    let r = p_ws(skipn(s, 1));
    proof {
        assert(s@.skip(1) =~= s@.drop_first());
    }
    if r.len() > 0 && r[0] == '}' {
        let ms: Vec<(String, JsonDVal)> = Vec::new();
        proof {
            assert(d_members_view(ms@) =~= Seq::<(Seq<char>, DValV)>::empty());
            assert(r@.skip(1) =~= r@.drop_first());
        }
        return Some((ms, skipn(r, 1)));
    }
    p_d_members(r)
}

/// Parses a top-level value.
pub fn p_topval<'a>(s: &'a [char]) -> (res: Option<(JsonTopVal, &'a [char])>)
    ensures
        match res {
            Some((v, rest)) => sp_topval(s@) == Some((v@, rest@)) && rest@.len() < s@.len(),
            None => sp_topval(s@) is None,
        },
{
    if s.len() > 0 && s[0] == '{' {
        match p_d_obj(s) {
            None => None,
            Some((ms, rest)) => Some((JsonTopVal::Obj(ms), rest)),
        }
    } else {
        match p_scalar(s) {
            None => None,
            Some((v, rest)) => Some((JsonTopVal::Scalar(v), rest)),
        }
    }
}

/// Parses the members of the envelope object, closing brace included.
pub fn p_top_members<'a>(s: &'a [char]) -> (res: Option<(Vec<(String, JsonTopVal)>, &'a [char])>)
    ensures
        match res {
            Some((ms, rest)) => sp_top_members(s@) == Some((top_members_view(ms@), rest@))
                && rest@.len() < s@.len(),
            None => sp_top_members(s@) is None,
        },
    decreases s@.len(),
{
    match p_string(s) {
        None => None,
        Some((k, r1)) => {
            let r2 = p_ws(r1);
            if r2.len() > 0 && r2[0] == ':' {
                let r3 = p_ws(skipn(r2, 1));
                proof {
                    assert(r2@.skip(1) =~= r2@.drop_first());
                }
                match p_topval(r3) {
                    None => None,
                    Some((v, r4)) => {
                        let r5 = p_ws(r4);
                        if r5.len() > 0 && r5[0] == ',' {
                            let r6 = p_ws(skipn(r5, 1));
                            proof {
                                assert(r5@.skip(1) =~= r5@.drop_first());
                            }
                            match p_top_members(r6) {
                                None => None,
                                Some((mut ms, r7)) => {
                                    let ghost tail_view = top_members_view(ms@);
                                    ms.insert(0, (k, v));
                                    proof {
                                        assert(top_members_view(ms@) =~= seq![(k@, v@)]
                                            + tail_view);
                                    }
                                    Some((ms, r7))
                                },
                            }
                        } else if r5.len() > 0 && r5[0] == '}' {
                            let mut ms: Vec<(String, JsonTopVal)> = Vec::new();
                            ms.push((k, v));
                            proof {
                                assert(top_members_view(ms@) =~= seq![(k@, v@)]);
                                assert(r5@.skip(1) =~= r5@.drop_first());
                            }
                            Some((ms, skipn(r5, 1)))
                        } else {
                            None
                        }
                    },
                }
            } else {
                None
            }
        },
    }
}

/// Parses the envelope object.
pub fn p_top_obj<'a>(s: &'a [char]) -> (res: Option<(Vec<(String, JsonTopVal)>, &'a [char])>)
    ensures
        match res {
            Some((ms, rest)) => sp_top_obj(s@) == Some((top_members_view(ms@), rest@))
                && rest@.len() < s@.len(),
            None => sp_top_obj(s@) is None,
        },
{
    if s.len() == 0 || s[0] != '{' {
        return None;
    }
    let r = p_ws(skipn(s, 1));
    proof {
        assert(s@.skip(1) =~= s@.drop_first());
    }
    if r.len() > 0 && r[0] == '}' {
        let ms: Vec<(String, JsonTopVal)> = Vec::new();
        proof {
            assert(top_members_view(ms@) =~= Seq::<(Seq<char>, TopValV)>::empty());
            assert(r@.skip(1) =~= r@.drop_first());
        }
        return Some((ms, skipn(r, 1)));
    }
    p_top_members(r)
}

/// Parses a whole document: the envelope object alone, up to the end of the
/// input.
pub fn p_document(s: &[char]) -> (res: Option<Vec<(String, JsonTopVal)>>)
    ensures
        match res {
            Some(ms) => sp_document(s@) == Some(top_members_view(ms@)),
            None => sp_document(s@) is None,
        },
{
    let r = p_ws(s);
    match p_top_obj(r) {
        None => None,
        Some((ms, r2)) => {
            let r3 = p_ws(r2);
            if r3.len() == 0 {
                proof {
                    assert(sp_ws(r2@).len() == 0);
                }
                Some(ms)
            } else {
                None
            }
        },
    }
}

} // verus!
