//! The An+B micro-syntax: reads `odd`, `even`, `<integer>`, `n`, `-n`,
//! `An`, with an optional white-space-tolerant `+B`/`-B` tail, from a
//! run of component values, yielding the (A, B) pair.

use crate::ast::ComponentValue;
use crate::tokenizer::{digits_acc, lower_seq};
use vstd::prelude::*;

verus! {

/// The first index at or after `i` that is not a WhiteSpace value.
pub open spec fn cv_skip_ws(toks: Seq<ComponentValue>, i: int) -> int
    decreases toks.len() - i,
{
    if !(0 <= i < toks.len()) {
        i
    } else if toks[i] is WhiteSpace {
        cv_skip_ws(toks, i + 1)
    } else {
        i
    }
}

/// Saturating conversion to `i32`.
pub open spec fn sat32(v: i64) -> i32 {
    if v > 0x7FFF_FFFF {
        0x7FFF_FFFFi32
    } else if v < -0x8000_0000 {
        (-0x8000_0000) as i32
    } else {
        v as i32
    }
}

/// Saturating negation.
pub open spec fn neg64(v: i64) -> i64 {
    if v == i64::MIN {
        i64::MAX
    } else {
        (-v) as i64
    }
}

/// The characters of `s[from..]` are all decimal digits (and there is at
/// least one).
pub open spec fn all_digits(s: Seq<char>, from: int) -> bool
    decreases s.len() - from,
{
    if from >= s.len() {
        true
    } else {
        crate::tokenizer::is_digit(s[from]) && all_digits(s, from + 1)
    }
}

/// The value of the digit run `s[from..]`, as `-digits`, saturated.
pub open spec fn neg_digits(s: Seq<char>, from: int) -> i32 {
    sat32(neg64(digits_acc(s, 0, from, s.len() as int) as i64))
}

/// The numeric token carries an explicit sign in its source text.
pub open spec fn has_sign(nv: crate::ast::NumericValue) -> bool {
    nv.representation@.len() > 0 && (nv.representation@[0] == '+' || nv.representation@[0]
        == '-')
}

/// The rest is white space only; then the pair is the answer.
pub open spec fn nth_end(toks: Seq<ComponentValue>, j: int, pair: (i32, i32)) -> Option<
    (i32, i32),
> {
    if cv_skip_ws(toks, j) >= toks.len() {
        Some(pair)
    } else {
        None
    }
}

/// After `An`: nothing, or a signed B, or a sign delimiter followed by a
/// signless B.
pub open spec fn nth_b(toks: Seq<ComponentValue>, j: int, a: i32) -> Option<(i32, i32)> {
    let k = cv_skip_ws(toks, j);
    if k >= toks.len() {
        Some((a, 0))
    } else {
        match toks[k] {
            ComponentValue::Delim(c) => if c == '+' {
                nth_signless_b(toks, k + 1, a, false)
            } else if c == '-' {
                nth_signless_b(toks, k + 1, a, true)
            } else {
                None
            },
            ComponentValue::Number(nv) => if nv.int_value is Some && has_sign(nv) {
                nth_end(toks, k + 1, (a, sat32(nv.int_value->0)))
            } else {
                None
            },
            _ => None,
        }
    }
}

/// After an explicit sign: a signless integer B.
pub open spec fn nth_signless_b(toks: Seq<ComponentValue>, j: int, a: i32, neg: bool) -> Option<
    (i32, i32),
> {
    let k = cv_skip_ws(toks, j);
    if k < toks.len() && (toks[k] matches ComponentValue::Number(nv) && nv.int_value is Some
        && !has_sign(nv)) {
        match toks[k] {
            ComponentValue::Number(nv) => nth_end(
                toks,
                k + 1,
                (
                    a,
                    if neg {
                        sat32(neg64(nv.int_value->0))
                    } else {
                        sat32(nv.int_value->0)
                    },
                ),
            ),
            _ => None,
        }
    } else {
        None
    }
}

/// The identifier-shaped forms, shared by the `Ident` and the
/// `+`-then-`Ident` readings; `l` is already lower-cased. `allow_minus`
/// admits the forms beginning with `-n`.
pub open spec fn nth_ident(
    toks: Seq<ComponentValue>,
    j: int,
    l: Seq<char>,
    allow_minus: bool,
) -> Option<(i32, i32)> {
    if l == seq!['e', 'v', 'e', 'n'] && allow_minus {
        nth_end(toks, j, (2, 0))
    } else if l == seq!['o', 'd', 'd'] && allow_minus {
        nth_end(toks, j, (2, 1))
    } else if l == seq!['n'] {
        nth_b(toks, j, 1)
    } else if l == seq!['-', 'n'] && allow_minus {
        nth_b(toks, j, -1i32)
    } else if l == seq!['n', '-'] {
        nth_signless_b(toks, j, 1, true)
    } else if l == seq!['-', 'n', '-'] && allow_minus {
        nth_signless_b(toks, j, -1i32, true)
    } else if l.len() > 2 && l[0] == 'n' && l[1] == '-' && all_digits(l, 2) {
        nth_end(toks, j, (1, neg_digits(l, 2)))
    } else if allow_minus && l.len() > 3 && l[0] == '-' && l[1] == 'n' && l[2] == '-'
        && all_digits(l, 3) {
        nth_end(toks, j, (-1i32, neg_digits(l, 3)))
    } else {
        None
    }
}

/// The whole An+B reading of a component-value run.
pub open spec fn spec_nth(toks: Seq<ComponentValue>) -> Option<(i32, i32)> {
    let i = cv_skip_ws(toks, 0);
    if i >= toks.len() {
        None
    } else {
        match toks[i] {
            ComponentValue::Number(nv) => if nv.int_value is Some {
                nth_end(toks, i + 1, (0, sat32(nv.int_value->0)))
            } else {
                None
            },
            ComponentValue::Dimension(nv, unit) => if nv.int_value is Some {
                let u = lower_seq(unit@);
                if u == seq!['n'] {
                    nth_b(toks, i + 1, sat32(nv.int_value->0))
                } else if u == seq!['n', '-'] {
                    nth_signless_b(toks, i + 1, sat32(nv.int_value->0), true)
                } else if u.len() > 2 && u[0] == 'n' && u[1] == '-' && all_digits(u, 2) {
                    nth_end(toks, i + 1, (sat32(nv.int_value->0), neg_digits(u, 2)))
                } else {
                    None
                }
            } else {
                None
            },
            ComponentValue::Ident(name) => nth_ident(toks, i + 1, lower_seq(name@), true),
            ComponentValue::Delim(c) => if c == '+' && i + 1 < toks.len() && (toks[i + 1]
                matches ComponentValue::Ident(_)) {
                match toks[i + 1] {
                    ComponentValue::Ident(name) => nth_ident(
                        toks,
                        i + 2,
                        lower_seq(name@),
                        false,
                    ),
                    _ => None,
                }
            } else {
                None
            },
            _ => None,
        }
    }
}

// ---------------------------------------------------------------------------
// Executable reading.
// ---------------------------------------------------------------------------

fn exec_cv_skip_ws(toks: &Vec<ComponentValue>, i: usize) -> (r: usize)
    requires
        i <= toks@.len(),
    ensures
        r as int == cv_skip_ws(toks@, i as int),
        i <= r <= toks@.len(),
    decreases toks@.len() - i,
{
    if i < toks.len() && matches!(toks[i], ComponentValue::WhiteSpace) {
        exec_cv_skip_ws(toks, i + 1)
    } else {
        i
    }
}

fn exec_sat32(v: i64) -> (r: i32)
    ensures
        r == sat32(v),
{
    if v > 0x7FFF_FFFF {
        0x7FFF_FFFFi32
    } else if v < -0x8000_0000 {
        -0x8000_0000
    } else {
        v as i32
    }
}

fn exec_neg64(v: i64) -> (r: i64)
    ensures
        r == neg64(v),
{
    if v == i64::MIN {
        i64::MAX
    } else {
        -v
    }
}

fn exec_has_sign(nv: &crate::ast::NumericValue) -> (r: bool)
    ensures
        r == has_sign(*nv),
{
    let rv = crate::support::str_to_chars(nv.representation.as_str());
    rv.len() > 0 && (rv[0] == '+' || rv[0] == '-')
}

/// The digit tail of an identifier-shaped form, as `-digits`.
fn exec_tail(v: &Vec<char>, from: usize) -> (r: (bool, i32))
    requires
        from <= v@.len(),
    ensures
        r.0 == all_digits(v@, from as int),
        r.0 ==> r.1 == neg_digits(v@, from as int),
{
    let mut j = from;
    while j < v.len() && crate::tokenizer::exec_is_digit_pub(v[j])
        invariant
            from <= j <= v@.len(),
            all_digits(v@, from as int) == all_digits(v@, j as int),
        decreases v@.len() - j,
    {
        j = j + 1;
    }
    if j < v.len() {
        (false, 0)
    } else {
        let d = crate::tokenizer::exec_digits_acc_pub(v, 0, from, v.len());
        let b = exec_sat32(exec_neg64(d as i64));
        (true, b)
    }
}

fn exec_nth_end(
    toks: &Vec<ComponentValue>,
    j: usize,
    pair: (i32, i32),
) -> (r: Result<(i32, i32), ()>)
    requires
        j <= toks@.len(),
    ensures
        match nth_end(toks@, j as int, pair) {
            Some(p) => r == Ok::<(i32, i32), ()>(p),
            None => r == Err::<(i32, i32), ()>(()),
        },
{
    if exec_cv_skip_ws(toks, j) >= toks.len() {
        Ok(pair)
    } else {
        Err(())
    }
}

fn exec_nth_signless_b(
    toks: &Vec<ComponentValue>,
    j: usize,
    a: i32,
    neg: bool,
) -> (r: Result<(i32, i32), ()>)
    requires
        j <= toks@.len(),
    ensures
        match nth_signless_b(toks@, j as int, a, neg) {
            Some(p) => r == Ok::<(i32, i32), ()>(p),
            None => r == Err::<(i32, i32), ()>(()),
        },
{
    let k = exec_cv_skip_ws(toks, j);
    if k >= toks.len() {
        return Err(());
    }
    match &toks[k] {
        ComponentValue::Number(nv) => {
            if let Some(b) = nv.int_value {
                if !exec_has_sign(nv) {
                    let bb = if neg {
                        exec_sat32(exec_neg64(b))
                    } else {
                        exec_sat32(b)
                    };
                    exec_nth_end(toks, k + 1, (a, bb))
                } else {
                    Err(())
                }
            } else {
                Err(())
            }
        },
        _ => Err(()),
    }
}

fn exec_nth_b(toks: &Vec<ComponentValue>, j: usize, a: i32) -> (r: Result<(i32, i32), ()>)
    requires
        j <= toks@.len(),
    ensures
        match nth_b(toks@, j as int, a) {
            Some(p) => r == Ok::<(i32, i32), ()>(p),
            None => r == Err::<(i32, i32), ()>(()),
        },
{
    let k = exec_cv_skip_ws(toks, j);
    if k >= toks.len() {
        return Ok((a, 0));
    }
    match &toks[k] {
        ComponentValue::Delim(c) => {
            if *c == '+' {
                exec_nth_signless_b(toks, k + 1, a, false)
            } else if *c == '-' {
                exec_nth_signless_b(toks, k + 1, a, true)
            } else {
                Err(())
            }
        },
        ComponentValue::Number(nv) => {
            if let Some(b) = nv.int_value {
                if exec_has_sign(nv) {
                    exec_nth_end(toks, k + 1, (a, exec_sat32(b)))
                } else {
                    Err(())
                }
            } else {
                Err(())
            }
        },
        _ => Err(()),
    }
}

fn exec_nth_ident(
    toks: &Vec<ComponentValue>,
    j: usize,
    name: &String,
    allow_minus: bool,
) -> (r: Result<(i32, i32), ()>)
    requires
        j <= toks@.len(),
    ensures
        match nth_ident(toks@, j as int, lower_seq(name@), allow_minus) {
            Some(p) => r == Ok::<(i32, i32), ()>(p),
            None => r == Err::<(i32, i32), ()>(()),
        },
{
    let ghost l = lower_seq(name@);
    let raw = crate::support::str_to_chars(name.as_str());
    let mut v: Vec<char> = Vec::new();
    let mut i: usize = 0;
    while i < raw.len()
        invariant
            i <= raw@.len(),
            raw@ == name@,
            v@ == lower_seq(name@).take(i as int),
        decreases raw@.len() - i,
    {
        v.push(crate::tokenizer::exec_lower_char(raw[i]));
        proof {
            assert(v@ =~= lower_seq(name@).take(i + 1));
        }
        i = i + 1;
    }
    proof {
        assert(v@ =~= lower_seq(name@));
    }
    let n = v.len();
    if allow_minus && n == 4 && v[0] == 'e' && v[1] == 'v' && v[2] == 'e' && v[3] == 'n' {
        proof {
            assert(l =~= seq!['e', 'v', 'e', 'n']);
        }
        exec_nth_end(toks, j, (2, 0))
    } else if allow_minus && n == 3 && v[0] == 'o' && v[1] == 'd' && v[2] == 'd' {
        proof {
            assert(l =~= seq!['o', 'd', 'd']);
        }
        exec_nth_end(toks, j, (2, 1))
    } else if n == 1 && v[0] == 'n' {
        proof {
            assert(l =~= seq!['n']);
        }
        exec_nth_b(toks, j, 1)
    } else if allow_minus && n == 2 && v[0] == '-' && v[1] == 'n' {
        proof {
            assert(l =~= seq!['-', 'n']);
        }
        exec_nth_b(toks, j, -1i32)
    } else if n == 2 && v[0] == 'n' && v[1] == '-' {
        proof {
            assert(l =~= seq!['n', '-']);
        }
        exec_nth_signless_b(toks, j, 1, true)
    } else if allow_minus && n == 3 && v[0] == '-' && v[1] == 'n' && v[2] == '-' {
        proof {
            assert(l =~= seq!['-', 'n', '-']);
        }
        exec_nth_signless_b(toks, j, -1i32, true)
    } else if n > 2 && v[0] == 'n' && v[1] == '-' {
        let (ok, b) = exec_tail(&v, 2);
        if ok {
            exec_nth_end(toks, j, (1, b))
        } else {
            proof {
                assert(nth_ident(toks@, j as int, l, allow_minus) is None);
            }
            Err(())
        }
    } else if allow_minus && n > 3 && v[0] == '-' && v[1] == 'n' && v[2] == '-' {
        let (ok, b) = exec_tail(&v, 3);
        if ok {
            exec_nth_end(toks, j, (-1, b))
        } else {
            proof {
                assert(nth_ident(toks@, j as int, l, allow_minus) is None);
            }
            Err(())
        }
    } else {
        proof {
            assert(nth_ident(toks@, j as int, l, allow_minus) is None);
        }
        Err(())
    }
}

/// Reads a whole component-value run as the An+B micro-syntax, yielding
/// the (A, B) pair, or an opaque failure for any other shape.
pub fn parse_nth(input: &Vec<ComponentValue>) -> (r: Result<(i32, i32), ()>)
    ensures
        match spec_nth(input@) {
            Some(p) => r == Ok::<(i32, i32), ()>(p),
            None => r == Err::<(i32, i32), ()>(()),
        },
{
    let i = exec_cv_skip_ws(input, 0);
    if i >= input.len() {
        return Err(());
    }
    match &input[i] {
        ComponentValue::Number(nv) => {
            if let Some(b) = nv.int_value {
                exec_nth_end(input, i + 1, (0, exec_sat32(b)))
            } else {
                Err(())
            }
        },
        ComponentValue::Dimension(nv, unit) => {
            if let Some(a) = nv.int_value {
                let ghost u = lower_seq(unit@);
                let raw = crate::support::str_to_chars(unit.as_str());
                let mut v: Vec<char> = Vec::new();
                let mut kk: usize = 0;
                while kk < raw.len()
                    invariant
                        kk <= raw@.len(),
                        raw@ == unit@,
                        v@ == lower_seq(unit@).take(kk as int),
                    decreases raw@.len() - kk,
                {
                    v.push(crate::tokenizer::exec_lower_char(raw[kk]));
                    proof {
                        assert(v@ =~= lower_seq(unit@).take(kk + 1));
                    }
                    kk = kk + 1;
                }
                proof {
                    assert(v@ =~= lower_seq(unit@));
                }
                let n = v.len();
                if n == 1 && v[0] == 'n' {
                    proof {
                        assert(u =~= seq!['n']);
                    }
                    exec_nth_b(input, i + 1, exec_sat32(a))
                } else if n == 2 && v[0] == 'n' && v[1] == '-' {
                    proof {
                        assert(u =~= seq!['n', '-']);
                    }
                    exec_nth_signless_b(input, i + 1, exec_sat32(a), true)
                } else if n > 2 && v[0] == 'n' && v[1] == '-' {
                    let (ok, b) = exec_tail(&v, 2);
                    if ok {
                        exec_nth_end(input, i + 1, (exec_sat32(a), b))
                    } else {
                        proof {
                            assert(spec_nth(input@) is None);
                        }
                        Err(())
                    }
                } else {
                    proof {
                        assert(spec_nth(input@) is None);
                    }
                    Err(())
                }
            } else {
                Err(())
            }
        },
        ComponentValue::Ident(name) => exec_nth_ident(input, i + 1, name, true),
        ComponentValue::Delim(c) => {
            if *c == '+' && i + 1 < input.len() {
                match &input[i + 1] {
                    ComponentValue::Ident(name) => exec_nth_ident(input, i + 2, name, false),
                    _ => Err(()),
                }
            } else {
                Err(())
            }
        },
        _ => Err(()),
    }
}

} // verus!
