//! The grammar-level parsers: six entry points that consume the
//! tokenizer's output and produce single items or lists of declarations
//! and rules, with per-item error recovery.

use crate::ast::{
    AtRule, ComponentValue, Declaration, DeclarationListItem, ErrorReason, QualifiedRule, Rule,
    SourceLocation, SyntaxError,
};
use crate::tokenizer::lower_seq;
use vstd::prelude::*;

verus! {

/// The first index at or after `i` whose token is not white space.
pub open spec fn skip_ws(toks: Seq<(ComponentValue, SourceLocation)>, i: int) -> int
    decreases toks.len() - i,
{
    if !(0 <= i < toks.len()) {
        i
    } else if toks[i].0 is WhiteSpace {
        skip_ws(toks, i + 1)
    } else {
        i
    }
}

pub proof fn lemma_skip_ws(toks: Seq<(ComponentValue, SourceLocation)>, i: int)
    requires
        0 <= i <= toks.len(),
    ensures
        i <= skip_ws(toks, i) <= toks.len(),
    decreases toks.len() - i,
{
    if i < toks.len() && toks[i].0 is WhiteSpace {
        lemma_skip_ws(toks, i + 1);
    }
}

/// The first index at or after `i` whose token is neither white space nor
/// a semicolon.
pub open spec fn skip_ws_semi(toks: Seq<(ComponentValue, SourceLocation)>, i: int) -> int
    decreases toks.len() - i,
{
    if !(0 <= i < toks.len()) {
        i
    } else if toks[i].0 is WhiteSpace || toks[i].0 is Semicolon {
        skip_ws_semi(toks, i + 1)
    } else {
        i
    }
}

/// The first index at or after `i` whose token is none of white space,
/// CDO and CDC (the stylesheet top level discards the HTML comment
/// delimiters).
pub open spec fn skip_ws_cd(toks: Seq<(ComponentValue, SourceLocation)>, i: int) -> int
    decreases toks.len() - i,
{
    if !(0 <= i < toks.len()) {
        i
    } else if toks[i].0 is WhiteSpace || toks[i].0 is CDO || toks[i].0 is CDC {
        skip_ws_cd(toks, i + 1)
    } else {
        i
    }
}

/// The index of the next top-level semicolon at or after `i`, or the
/// length.
pub open spec fn next_semi(toks: Seq<(ComponentValue, SourceLocation)>, i: int) -> int
    decreases toks.len() - i,
{
    if !(0 <= i < toks.len()) {
        toks.len() as int
    } else if toks[i].0 is Semicolon {
        i
    } else {
        next_semi(toks, i + 1)
    }
}

/// The index of the next semicolon or curly-bracket block at or after
/// `i` (the possible ends of an at-rule's prelude), or the length.
pub open spec fn at_prelude_end(toks: Seq<(ComponentValue, SourceLocation)>, i: int) -> int
    decreases toks.len() - i,
{
    if !(0 <= i < toks.len()) {
        toks.len() as int
    } else if toks[i].0 is Semicolon || toks[i].0 is CurlyBracketBlock {
        i
    } else {
        at_prelude_end(toks, i + 1)
    }
}

/// The index of the next curly-bracket block at or after `i` (the end of
/// a qualified rule's prelude), or the length.
pub open spec fn rule_block_pos(toks: Seq<(ComponentValue, SourceLocation)>, i: int) -> int
    decreases toks.len() - i,
{
    if !(0 <= i < toks.len()) {
        toks.len() as int
    } else if toks[i].0 is CurlyBracketBlock {
        i
    } else {
        rule_block_pos(toks, i + 1)
    }
}

/// The component values of `toks[a..b]`, locations dropped.
pub open spec fn cvs_of(toks: Seq<(ComponentValue, SourceLocation)>, a: int, b: int) -> Seq<
    ComponentValue,
> {
    toks.subrange(a, b).map_values(|p: (ComponentValue, SourceLocation)| p.0)
}

// ---------------------------------------------------------------------------
// One component value.
// ---------------------------------------------------------------------------

/// What `parse_one_component_value` returns: the single non-whitespace
/// token, `EmptyInput` when there is none, `ExtraInput` when a second one
/// follows.
pub open spec fn spec_parse_one_component_value(
    toks: Seq<(ComponentValue, SourceLocation)>,
) -> Result<ComponentValue, SyntaxError> {
    let i = skip_ws(toks, 0);
    if i >= toks.len() {
        Err(SyntaxError { reason: ErrorReason::EmptyInput })
    } else if skip_ws(toks, i + 1) < toks.len() {
        Err(SyntaxError { reason: ErrorReason::ExtraInput })
    } else {
        Ok(toks[i].0)
    }
}

fn exec_skip_ws(toks: &Vec<(ComponentValue, SourceLocation)>, i: usize) -> (r: usize)
    requires
        i <= toks@.len(),
    ensures
        r as int == skip_ws(toks@, i as int),
        i <= r <= toks@.len(),
    decreases toks@.len() - i,
{
    if i < toks.len() && matches!(toks[i].0, ComponentValue::WhiteSpace) {
        exec_skip_ws(toks, i + 1)
    } else {
        i
    }
}

/// Expects exactly one component value, surrounding white space aside.
pub fn parse_one_component_value(mut input: Vec<(ComponentValue, SourceLocation)>) -> (r: Result<
    ComponentValue,
    SyntaxError,
>)
    ensures
        r == spec_parse_one_component_value(input@),
{
    let i = exec_skip_ws(&input, 0);
    if i >= input.len() {
        Err(SyntaxError { reason: ErrorReason::EmptyInput })
    } else if exec_skip_ws(&input, i + 1) < input.len() {
        Err(SyntaxError { reason: ErrorReason::ExtraInput })
    } else {
        let (cv, _) = input.remove(i);
        Ok(cv)
    }
}

// ---------------------------------------------------------------------------
// Declarations.
// ---------------------------------------------------------------------------

pub open spec fn important_kw() -> Seq<char> {
    seq!['i', 'm', 'p', 'o', 'r', 't', 'a', 'n', 't']
}

/// Drops trailing white space tokens.
pub open spec fn strip_ws_end(v: Seq<ComponentValue>) -> Seq<ComponentValue>
    decreases v.len(),
{
    if v.len() == 0 {
        v
    } else if v.last() is WhiteSpace {
        strip_ws_end(v.drop_last())
    } else {
        v
    }
}

/// The value run ends with `! important` (case-insensitive, white space
/// tolerant).
pub open spec fn important_at_end(v: Seq<ComponentValue>) -> bool {
    let v1 = strip_ws_end(v);
    &&& v1.len() > 0
    &&& (v1.last() matches ComponentValue::Ident(n) && lower_seq(n@) == important_kw())
    &&& {
        let v2 = strip_ws_end(v1.drop_last());
        v2.len() > 0 && v2.last() == ComponentValue::Delim('!')
    }
}

/// The declaration's value: the run after the colon, with a trailing
/// `! important` stripped.
pub open spec fn decl_value(v: Seq<ComponentValue>) -> Seq<ComponentValue> {
    if important_at_end(v) {
        strip_ws_end(strip_ws_end(strip_ws_end(v).drop_last()).drop_last())
    } else {
        v
    }
}

/// The token run is shaped like a declaration: an identifier, then a
/// colon.
pub open spec fn decl_valid(toks: Seq<(ComponentValue, SourceLocation)>) -> bool {
    let i0 = skip_ws(toks, 0);
    &&& i0 < toks.len()
    &&& toks[i0].0 is Ident
    &&& {
        let i1 = skip_ws(toks, i0 + 1);
        i1 < toks.len() && toks[i1].0 is Colon
    }
}

/// `d` is exactly the declaration the token run describes.
pub open spec fn decl_ok(toks: Seq<(ComponentValue, SourceLocation)>, d: Declaration) -> bool {
    let i0 = skip_ws(toks, 0);
    let i1 = skip_ws(toks, i0 + 1);
    let v = cvs_of(toks, i1 + 1, toks.len() as int);
    &&& decl_valid(toks)
    &&& (toks[i0].0 matches ComponentValue::Ident(n) && d.name@ == n@)
    &&& d.location == toks[i0].1
    &&& d.important == important_at_end(v)
    &&& d.value@ == decl_value(v)
}

// ---------------------------------------------------------------------------
// Lemmas connecting index scans with the value-run functions.
// ---------------------------------------------------------------------------

pub proof fn lemma_strip_ws_end(v: Seq<ComponentValue>, j: int)
    requires
        0 <= j <= v.len(),
        forall|k: int| j <= k < v.len() ==> v[k] is WhiteSpace,
        j > 0 ==> !(v[j - 1] is WhiteSpace),
    ensures
        strip_ws_end(v) == v.take(j),
    decreases v.len(),
{
    if v.len() == 0 {
        assert(v.take(0) =~= v);
    } else if v.last() is WhiteSpace {
        assert(j < v.len());
        lemma_strip_ws_end(v.drop_last(), j);
        assert(v.drop_last().take(j) =~= v.take(j));
    } else {
        assert(j == v.len());
        assert(v.take(v.len() as int) =~= v);
    }
}

// ---------------------------------------------------------------------------
// Executable scanners.
// ---------------------------------------------------------------------------

fn exec_skip_ws_semi(toks: &Vec<(ComponentValue, SourceLocation)>, i: usize) -> (r: usize)
    requires
        i <= toks@.len(),
    ensures
        r as int == skip_ws_semi(toks@, i as int),
        i <= r <= toks@.len(),
    decreases toks@.len() - i,
{
    if i < toks.len() && (matches!(toks[i].0, ComponentValue::WhiteSpace) || matches!(
        toks[i].0,
        ComponentValue::Semicolon,
    )) {
        exec_skip_ws_semi(toks, i + 1)
    } else {
        i
    }
}

fn exec_skip_ws_cd(toks: &Vec<(ComponentValue, SourceLocation)>, i: usize) -> (r: usize)
    requires
        i <= toks@.len(),
    ensures
        r as int == skip_ws_cd(toks@, i as int),
        i <= r <= toks@.len(),
    decreases toks@.len() - i,
{
    if i < toks.len() && (matches!(toks[i].0, ComponentValue::WhiteSpace) || matches!(
        toks[i].0,
        ComponentValue::CDO,
    ) || matches!(toks[i].0, ComponentValue::CDC)) {
        exec_skip_ws_cd(toks, i + 1)
    } else {
        i
    }
}

fn exec_next_semi(toks: &Vec<(ComponentValue, SourceLocation)>, i: usize) -> (r: usize)
    requires
        i <= toks@.len(),
    ensures
        r as int == next_semi(toks@, i as int),
        i <= r <= toks@.len(),
    decreases toks@.len() - i,
{
    if i >= toks.len() {
        toks.len()
    } else if matches!(toks[i].0, ComponentValue::Semicolon) {
        i
    } else {
        exec_next_semi(toks, i + 1)
    }
}

fn exec_at_prelude_end(toks: &Vec<(ComponentValue, SourceLocation)>, i: usize) -> (r: usize)
    requires
        i <= toks@.len(),
    ensures
        r as int == at_prelude_end(toks@, i as int),
        i <= r <= toks@.len(),
    decreases toks@.len() - i,
{
    if i >= toks.len() {
        toks.len()
    } else if matches!(toks[i].0, ComponentValue::Semicolon) || matches!(
        toks[i].0,
        ComponentValue::CurlyBracketBlock(_),
    ) {
        i
    } else {
        exec_at_prelude_end(toks, i + 1)
    }
}

fn exec_rule_block_pos(toks: &Vec<(ComponentValue, SourceLocation)>, i: usize) -> (r: usize)
    requires
        i <= toks@.len(),
    ensures
        r as int == rule_block_pos(toks@, i as int),
        i <= r <= toks@.len(),
    decreases toks@.len() - i,
{
    if i >= toks.len() {
        toks.len()
    } else if matches!(toks[i].0, ComponentValue::CurlyBracketBlock(_)) {
        i
    } else {
        exec_rule_block_pos(toks, i + 1)
    }
}

/// Drops the leading `count` tokens.
fn drop_front(
    toks: &mut Vec<(ComponentValue, SourceLocation)>,
    count: usize,
)
    requires
        count <= old(toks)@.len(),
    ensures
        final(toks)@ == old(toks)@.skip(count as int),
{
    let mut k: usize = 0;
    while k < count
        invariant
            k <= count <= old(toks)@.len(),
            toks@ == old(toks)@.skip(k as int),
        decreases count - k,
    {
        toks.remove(0);
        proof {
            assert(toks@ =~= old(toks)@.skip(k + 1));
        }
        k = k + 1;
    }
}

/// Moves the leading `count` tokens out, in order.
fn take_front(
    toks: &mut Vec<(ComponentValue, SourceLocation)>,
    count: usize,
) -> (r: Vec<(ComponentValue, SourceLocation)>)
    requires
        count <= old(toks)@.len(),
    ensures
        final(toks)@ == old(toks)@.skip(count as int),
        r@ == old(toks)@.take(count as int),
{
    let mut out: Vec<(ComponentValue, SourceLocation)> = Vec::new();
    let mut k: usize = 0;
    while k < count
        invariant
            k <= count <= old(toks)@.len(),
            toks@ == old(toks)@.skip(k as int),
            out@ == old(toks)@.take(k as int),
        decreases count - k,
    {
        let pair = toks.remove(0);
        out.push(pair);
        proof {
            assert(toks@ =~= old(toks)@.skip(k + 1));
            assert(out@ =~= old(toks)@.take(k + 1));
        }
        k = k + 1;
    }
    out
}

/// Moves the leading `count` tokens' component values out, in order.
fn take_front_cvs(
    toks: &mut Vec<(ComponentValue, SourceLocation)>,
    count: usize,
) -> (r: Vec<ComponentValue>)
    requires
        count <= old(toks)@.len(),
    ensures
        final(toks)@ == old(toks)@.skip(count as int),
        r@ == cvs_of(old(toks)@, 0, count as int),
{
    let mut out: Vec<ComponentValue> = Vec::new();
    let mut k: usize = 0;
    while k < count
        invariant
            k <= count <= old(toks)@.len(),
            toks@ == old(toks)@.skip(k as int),
            out@ == cvs_of(old(toks)@, 0, k as int),
        decreases count - k,
    {
        let pair = toks.remove(0);
        out.push(pair.0);
        proof {
            assert(toks@ =~= old(toks)@.skip(k + 1));
            assert(out@ =~= cvs_of(old(toks)@, 0, k + 1));
        }
        k = k + 1;
    }
    out
}

// ---------------------------------------------------------------------------
// One declaration.
// ---------------------------------------------------------------------------

/// Parses one declaration out of a complete token run (used both for the
/// single-declaration entry point and for the segments of a declaration
/// list).
fn exec_parse_declaration(mut seg: Vec<(ComponentValue, SourceLocation)>) -> (r: Result<
    Declaration,
    SyntaxError,
>)
    ensures
        match r {
            Ok(d) => decl_valid(seg@) && decl_ok(seg@, d),
            Err(e) => !decl_valid(seg@) && e.reason is InvalidValue,
        },
{
    let ghost o = seg@;
    let i0 = exec_skip_ws(&seg, 0);
    if i0 >= seg.len() || !matches!(seg[i0].0, ComponentValue::Ident(_)) {
        return Err(
            SyntaxError {
                reason: ErrorReason::InvalidValue(String::from_str("expected a declaration name")),
            },
        );
    }
    let i1 = exec_skip_ws(&seg, i0 + 1);
    if i1 >= seg.len() || !matches!(seg[i1].0, ComponentValue::Colon) {
        return Err(
            SyntaxError {
                reason: ErrorReason::InvalidValue(String::from_str("expected a colon")),
            },
        );
    }
    let n = seg.len();
    let c = i1 + 1;
    let ghost v = cvs_of(o, c as int, o.len() as int);
    let mut ve1 = n;
    while ve1 > c && matches!(seg[ve1 - 1].0, ComponentValue::WhiteSpace)
        invariant
            c <= ve1 <= n == seg@.len(),
            seg@ == o,
            c == i1 + 1,
            forall|k: int| ve1 <= k < n ==> o[k].0 is WhiteSpace,
        decreases ve1,
    {
        ve1 = ve1 - 1;
    }
    proof {
        assert forall|k: int| (ve1 - c) <= k < v.len() implies v[k] is WhiteSpace by {
            assert(v[k] == o[c + k].0);
        }
        if ve1 > c {
            assert(v[ve1 - c - 1] == o[ve1 - 1].0);
        }
        lemma_strip_ws_end(v, ve1 - c);
    }
    let mut important = false;
    let mut vend = n;
    if ve1 > c {
        let is_imp = match &seg[ve1 - 1].0 {
            ComponentValue::Ident(nm) => crate::tokenizer::lower_matches(nm, "important"),
            _ => false,
        };
        proof {
            reveal_strlit("important");
            assert("important"@ =~= important_kw());
        }
        if is_imp {
            let mut ve2 = ve1 - 1;
            while ve2 > c && matches!(seg[ve2 - 1].0, ComponentValue::WhiteSpace)
                invariant
                    c <= ve2 <= ve1 - 1 <= n == seg@.len(),
                    seg@ == o,
                    c == i1 + 1,
                    forall|k: int| ve2 <= k < ve1 - 1 ==> o[k].0 is WhiteSpace,
                decreases ve2,
            {
                ve2 = ve2 - 1;
            }
            let ghost v1 = strip_ws_end(v);
            let ghost v2x = v1.drop_last();
            proof {
                assert(v1 == v.take(ve1 - c));
                assert(v2x =~= v.take(ve1 - c - 1));
                assert forall|k: int| (ve2 - c) <= k < v2x.len() implies v2x[k] is WhiteSpace by {
                    assert(v2x[k] == o[c + k].0);
                }
                if ve2 > c {
                    assert(v2x[ve2 - c - 1] == o[ve2 - 1].0);
                }
                lemma_strip_ws_end(v2x, ve2 - c);
            }
            if ve2 > c && matches!(seg[ve2 - 1].0, ComponentValue::Delim('!')) {
                important = true;
                let mut ve3 = ve2 - 1;
                while ve3 > c && matches!(seg[ve3 - 1].0, ComponentValue::WhiteSpace)
                    invariant
                        c <= ve3 <= ve2 - 1 <= n == seg@.len(),
                        seg@ == o,
                        c == i1 + 1,
                        forall|k: int| ve3 <= k < ve2 - 1 ==> o[k].0 is WhiteSpace,
                    decreases ve3,
                {
                    ve3 = ve3 - 1;
                }
                vend = ve3;
                proof {
                    assert(strip_ws_end(v2x).last() == o[ve2 - 1].0);
                    assert(important_at_end(v));
                    let v3x = v.take(ve2 - 1 - c);
                    assert(v3x =~= strip_ws_end(strip_ws_end(v).drop_last()).drop_last());
                    assert forall|k: int| (ve3 - c) <= k < v3x.len() implies v3x[k]
                        is WhiteSpace by {
                        assert(v3x[k] == o[c + k].0);
                    }
                    if ve3 > c {
                        assert(v3x[ve3 - c - 1] == o[ve3 - 1].0);
                    }
                    lemma_strip_ws_end(v3x, ve3 - c);
                    assert(decl_value(v) =~= v.take(ve3 - c));
                }
            } else {
                proof {
                    if important_at_end(v) {
                        assert(strip_ws_end(v2x).len() > 0);
                        assert(strip_ws_end(v2x).last() == o[ve2 - 1].0);
                    }
                }
            }
        } else {
            proof {
                if important_at_end(v) {
                    assert(strip_ws_end(v).last() == o[ve1 - 1].0);
                }
            }
        }
    } else {
        proof {
            if important_at_end(v) {
                assert(strip_ws_end(v).len() > 0);
            }
        }
    }
    proof {
        assert(important == important_at_end(v));
        if !important {
            assert(decl_value(v) =~= v);
        }
    }
    // Extract the owned pieces, front to back.
    let mut pre = take_front(&mut seg, i0 + 1);
    let last = pre.len() - 1;
    proof {
        assert(pre@[i0 as int] == o[i0 as int]);
    }
    let (name_cv, loc) = pre.remove(last);
    proof {
        assert((name_cv, loc) == o[i0 as int]);
    }
    let name = match name_cv {
        ComponentValue::Ident(nm) => nm,
        _ => {
            proof {
                assert(false);
            }
            String::new()
        },
    };
    drop_front(&mut seg, i1 - i0);
    proof {
        assert(seg@ =~= o.skip(c as int));
    }
    let value = take_front_cvs(&mut seg, vend - c);
    proof {
        assert(value@ =~= cvs_of(o, c as int, vend as int));
        assert(value@ =~= decl_value(v));
    }
    Ok(Declaration { location: loc, name, value, important })
}

/// Expects a single declaration: a name, a colon and a value run ending
/// at the next top-level semicolon (if any), with a trailing `!important`
/// recognized and stripped. Non-whitespace content after that semicolon
/// is `ExtraInput`.
pub fn parse_one_declaration(mut input: Vec<(ComponentValue, SourceLocation)>) -> (r: Result<
    Declaration,
    SyntaxError,
>)
    ensures
        ({
            let toks = input@;
            let b = next_semi(toks, 0);
            let seg = toks.subrange(0, b);
            match r {
                Ok(d) => {
                    &&& skip_ws(toks, 0) < toks.len()
                    &&& decl_valid(seg)
                    &&& skip_ws(toks, b + 1) >= toks.len()
                    &&& decl_ok(seg, d)
                },
                Err(e) => match e.reason {
                    ErrorReason::EmptyInput => skip_ws(toks, 0) >= toks.len(),
                    ErrorReason::InvalidValue(_) => skip_ws(toks, 0) < toks.len() && !decl_valid(
                        seg,
                    ),
                    ErrorReason::ExtraInput => {
                        &&& skip_ws(toks, 0) < toks.len()
                        &&& decl_valid(seg)
                        &&& skip_ws(toks, b + 1) < toks.len()
                    },
                },
            }
        }),
{
    let ghost o = input@;
    if exec_skip_ws(&input, 0) >= input.len() {
        return Err(SyntaxError { reason: ErrorReason::EmptyInput });
    }
    let b = exec_next_semi(&input, 0);
    let extra = b < input.len() && exec_skip_ws(&input, b + 1) < input.len();
    proof {
        if b >= o.len() {
            assert(skip_ws(o, b + 1) == b + 1);
        }
        assert(extra == (skip_ws(o, next_semi(o, 0) + 1) < o.len()));
    }
    let seg = take_front(&mut input, b);
    proof {
        assert(seg@ =~= o.subrange(0, next_semi(o, 0)));
    }
    match exec_parse_declaration(seg) {
        Ok(d) => if extra {
            Err(SyntaxError { reason: ErrorReason::ExtraInput })
        } else {
            Ok(d)
        },
        Err(e) => Err(e),
    }
}

// ---------------------------------------------------------------------------
// At-rules and rule/declaration lists.
// ---------------------------------------------------------------------------

/// All the index scans stay within the sequence.
pub proof fn lemma_scan_bounds(toks: Seq<(ComponentValue, SourceLocation)>, i: int)
    requires
        0 <= i <= toks.len(),
    ensures
        i <= skip_ws_semi(toks, i) <= toks.len(),
        i <= skip_ws_cd(toks, i) <= toks.len(),
        i <= next_semi(toks, i) <= toks.len(),
        i <= at_prelude_end(toks, i) <= toks.len(),
        i <= rule_block_pos(toks, i) <= toks.len(),
        next_semi(toks, i) < toks.len() ==> toks[next_semi(toks, i)].0 is Semicolon,
        at_prelude_end(toks, i) < toks.len() ==> (toks[at_prelude_end(toks, i)].0 is Semicolon
            || toks[at_prelude_end(toks, i)].0 is CurlyBracketBlock),
        rule_block_pos(toks, i) < toks.len() ==> toks[rule_block_pos(toks, i)].0
            is CurlyBracketBlock,
    decreases toks.len() - i,
{
    if i < toks.len() {
        lemma_scan_bounds(toks, i + 1);
    }
}

/// `a` is exactly the at-rule starting at the at-keyword at `p`: prelude
/// up to the next semicolon or curly block, the block's contents if a
/// block follows.
pub open spec fn at_rule_ok(
    toks: Seq<(ComponentValue, SourceLocation)>,
    p: int,
    a: AtRule,
) -> bool {
    let e = at_prelude_end(toks, p + 1);
    &&& (toks[p].0 matches ComponentValue::AtKeyword(n) && a.name@ == n@)
    &&& a.location == toks[p].1
    &&& a.prelude@ == cvs_of(toks, p + 1, e)
    &&& if e < toks.len() && toks[e].0 is CurlyBracketBlock {
        toks[e].0 matches ComponentValue::CurlyBracketBlock(b) && (a.block matches Some(bb)
            && bb@ == b@)
    } else {
        a.block is None
    }
}

/// The position right after the at-rule starting at `p` (past its block
/// or semicolon).
pub open spec fn at_rule_end(toks: Seq<(ComponentValue, SourceLocation)>, p: int) -> int {
    let e = at_prelude_end(toks, p + 1);
    if e < toks.len() {
        e + 1
    } else {
        toks.len() as int
    }
}

/// `items` is exactly the output of "consume a list of declarations" on
/// `toks[i..]`: semicolons separate items, at-keyword items become
/// at-rules, a malformed declaration yields one `Err` and parsing resumes
/// after the next top-level semicolon.
pub open spec fn decl_list_items(
    toks: Seq<(ComponentValue, SourceLocation)>,
    i: int,
    items: Seq<Result<DeclarationListItem, SyntaxError>>,
) -> bool
    decreases items.len(),
{
    let p = skip_ws_semi(toks, i);
    if p >= toks.len() {
        items.len() == 0
    } else if toks[p].0 is AtKeyword {
        &&& items.len() > 0
        &&& (items[0] matches Ok(DeclarationListItem::AtRule(a)) && at_rule_ok(toks, p, a))
        &&& decl_list_items(toks, at_rule_end(toks, p), items.drop_first())
    } else {
        let b = next_semi(toks, p);
        &&& items.len() > 0
        &&& if decl_valid(toks.subrange(p, b)) {
            items[0] matches Ok(DeclarationListItem::Declaration(d)) && decl_ok(
                toks.subrange(p, b),
                d,
            )
        } else {
            items[0] matches Err(e) && e.reason is InvalidValue
        }
        &&& decl_list_items(toks, b + 1, items.drop_first())
    }
}


/// One malformed declaration between two valid ones yields exactly three
/// items — `Ok`, `Err`, `Ok` — and parsing resumes at the token right
/// after the top-level semicolon that follows the malformed one. The
/// positions are spelled with the same scans the list predicate walks:
/// `p0`/`p1`/`p2` start the three runs, `b1`/`b2` are the semicolons
/// that end the first two.
pub proof fn lemma_decl_list_one_error_between(
    toks: Seq<(ComponentValue, SourceLocation)>,
    items: Seq<Result<DeclarationListItem, SyntaxError>>,
)
    requires
        decl_list_items(toks, 0, items),
        ({
            let p0 = skip_ws_semi(toks, 0);
            let b1 = next_semi(toks, p0);
            let p1 = skip_ws_semi(toks, b1 + 1);
            let b2 = next_semi(toks, p1);
            let p2 = skip_ws_semi(toks, b2 + 1);
            &&& p0 < toks.len() && !(toks[p0].0 is AtKeyword)
            &&& decl_valid(toks.subrange(p0, b1))
            &&& p1 < toks.len() && !(toks[p1].0 is AtKeyword)
            &&& !decl_valid(toks.subrange(p1, b2))
            &&& p2 < toks.len() && !(toks[p2].0 is AtKeyword)
            &&& decl_valid(toks.subrange(p2, next_semi(toks, p2)))
            &&& skip_ws_semi(toks, next_semi(toks, p2) + 1) >= toks.len()
        }),
    ensures
        items.len() == 3,
        items[0] matches Ok(DeclarationListItem::Declaration(d)) && decl_ok(
            toks.subrange(skip_ws_semi(toks, 0), next_semi(toks, skip_ws_semi(toks, 0))),
            d,
        ),
        items[1] matches Err(e) && e.reason is InvalidValue,
        ({
            let b2 = next_semi(toks, skip_ws_semi(toks, next_semi(toks, skip_ws_semi(toks, 0))
                + 1));
            items[2] matches Ok(DeclarationListItem::Declaration(d)) && decl_ok(
                toks.subrange(skip_ws_semi(toks, b2 + 1), next_semi(toks, skip_ws_semi(
                    toks,
                    b2 + 1,
                ))),
                d,
            )
        }),
{
    let p0 = skip_ws_semi(toks, 0);
    let b1 = next_semi(toks, p0);
    let p1 = skip_ws_semi(toks, b1 + 1);
    let b2 = next_semi(toks, p1);
    let p2 = skip_ws_semi(toks, b2 + 1);
    let b3 = next_semi(toks, p2);
    lemma_scan_bounds(toks, 0);
    lemma_scan_bounds(toks, p0);
    assert(b1 < toks.len());
    lemma_scan_bounds(toks, b1 + 1);
    lemma_scan_bounds(toks, p1);
    assert(b2 < toks.len());
    lemma_scan_bounds(toks, b2 + 1);
    lemma_scan_bounds(toks, p2);
    assert(decl_list_items(toks, b1 + 1, items.drop_first()));
    lemma_skip_ws_semi_stable(toks, b1 + 1, p1);
    assert(next_semi(toks, p1) == b2);
    assert(decl_list_items(toks, b2 + 1, items.drop_first().drop_first()));
    lemma_skip_ws_semi_stable(toks, b2 + 1, p2);
    assert(decl_list_items(toks, b3 + 1, items.drop_first().drop_first().drop_first()));
    assert(skip_ws_semi(toks, b3 + 1) >= toks.len());
    assert(items.drop_first().drop_first().drop_first().len() == 0);
    assert(items.len() == 3);
    assert(items[1] == items.drop_first()[0]);
    assert(items[2] == items.drop_first().drop_first()[0]);
}

/// Skipping white space and semicolons lands where the list predicate's
/// own scan lands: the scan is stable between its start and its result.
proof fn lemma_skip_ws_semi_stable(toks: Seq<(ComponentValue, SourceLocation)>, i: int, j: int)
    requires
        0 <= i,
        j == skip_ws_semi(toks, i),
    ensures
        skip_ws_semi(toks, j) == j,
    decreases toks.len() - i,
{
    if 0 <= i < toks.len() && (toks[i].0 is WhiteSpace || toks[i].0 is Semicolon) {
        lemma_skip_ws_semi_stable(toks, i + 1, j);
    }
}

/// `q` is exactly the qualified rule whose prelude starts at `p` and
/// whose block is the curly block at `j`.
pub open spec fn qrule_ok(
    toks: Seq<(ComponentValue, SourceLocation)>,
    p: int,
    j: int,
    q: QualifiedRule,
) -> bool {
    &&& q.location == toks[p].1
    &&& q.prelude@ == cvs_of(toks, p, j)
    &&& (toks[j].0 matches ComponentValue::CurlyBracketBlock(b) && q.block@ == b@)
}

/// `items` is exactly the rule list of `toks[i..]`: at-rules and
/// qualified rules; a prelude that reaches the end of input without its
/// curly block yields one `Err`. At the stylesheet top level (`top`),
/// CDO and CDC tokens are additionally discarded between rules.
pub open spec fn rule_items(
    toks: Seq<(ComponentValue, SourceLocation)>,
    i: int,
    items: Seq<Result<Rule, SyntaxError>>,
    top: bool,
) -> bool
    decreases items.len(),
{
    let p = if top {
        skip_ws_cd(toks, i)
    } else {
        skip_ws(toks, i)
    };
    if p >= toks.len() {
        items.len() == 0
    } else if toks[p].0 is AtKeyword {
        &&& items.len() > 0
        &&& (items[0] matches Ok(Rule::AtRule(a)) && at_rule_ok(toks, p, a))
        &&& rule_items(toks, at_rule_end(toks, p), items.drop_first(), top)
    } else {
        let j = rule_block_pos(toks, p);
        &&& items.len() > 0
        &&& if j < toks.len() {
            items[0] matches Ok(Rule::QualifiedRule(q)) && qrule_ok(toks, p, j, q)
        } else {
            items[0] matches Err(e) && e.reason is InvalidValue
        }
        &&& rule_items(
            toks,
            if j < toks.len() {
                j + 1
            } else {
                j
            },
            items.drop_first(),
            top,
        )
    }
}

pub open spec fn stylesheet_items(
    toks: Seq<(ComponentValue, SourceLocation)>,
    i: int,
    items: Seq<Result<Rule, SyntaxError>>,
) -> bool {
    rule_items(toks, i, items, true)
}


proof fn lemma_decl_items_intro(
    toks: Seq<(ComponentValue, SourceLocation)>,
    p: int,
    items: Seq<Result<DeclarationListItem, SyntaxError>>,
)
    requires
        skip_ws_semi(toks, 0) == p,
        items.len() > 0,
        0 <= p < toks.len(),
        toks[p].0 is AtKeyword ==> (items[0] matches Ok(DeclarationListItem::AtRule(a))
            && at_rule_ok(toks, p, a)) && decl_list_items(
            toks,
            at_rule_end(toks, p),
            items.drop_first(),
        ),
        !(toks[p].0 is AtKeyword) ==> {
            let b = next_semi(toks, p);
            &&& (if decl_valid(toks.subrange(p, b)) {
                items[0] matches Ok(DeclarationListItem::Declaration(d)) && decl_ok(
                    toks.subrange(p, b),
                    d,
                )
            } else {
                items[0] matches Err(e) && e.reason is InvalidValue
            })
            &&& decl_list_items(toks, b + 1, items.drop_first())
        },
    ensures
        decl_list_items(toks, 0, items),
{
}

proof fn lemma_decl_items_past_end(
    toks: Seq<(ComponentValue, SourceLocation)>,
    i: int,
    j: int,
)
    requires
        toks.len() <= i <= j,
        decl_list_items(toks, i, Seq::empty()),
    ensures
        decl_list_items(toks, j, Seq::empty()),
{
    assert(skip_ws_semi(toks, j) == j);
}

proof fn lemma_rule_items_intro(
    toks: Seq<(ComponentValue, SourceLocation)>,
    p: int,
    items: Seq<Result<Rule, SyntaxError>>,
    top: bool,
)
    requires
        (if top {
            skip_ws_cd(toks, 0)
        } else {
            skip_ws(toks, 0)
        }) == p,
        items.len() > 0,
        0 <= p < toks.len(),
        toks[p].0 is AtKeyword ==> (items[0] matches Ok(Rule::AtRule(a)) && at_rule_ok(
            toks,
            p,
            a,
        )) && rule_items(toks, at_rule_end(toks, p), items.drop_first(), top),
        !(toks[p].0 is AtKeyword) ==> {
            let j = rule_block_pos(toks, p);
            &&& (if j < toks.len() {
                items[0] matches Ok(Rule::QualifiedRule(q)) && qrule_ok(toks, p, j, q)
            } else {
                items[0] matches Err(e) && e.reason is InvalidValue
            })
            &&& rule_items(
                toks,
                if j < toks.len() {
                    j + 1
                } else {
                    j
                },
                items.drop_first(),
                top,
            )
        },
    ensures
        rule_items(toks, 0, items, top),
{
}

/// Consumes the at-rule whose at-keyword is at index `p`, the leading
/// `p` tokens included.
fn exec_consume_at_rule(
    mut input: Vec<(ComponentValue, SourceLocation)>,
    p: usize,
) -> (r: (AtRule, Vec<(ComponentValue, SourceLocation)>))
    requires
        p < input@.len(),
        input@[p as int].0 is AtKeyword,
    ensures
        at_rule_ok(input@, p as int, r.0),
        r.1@ == input@.skip(at_rule_end(input@, p as int)),
        at_rule_end(input@, p as int) > p,
{
    let ghost o = input@;
    let n = input.len();
    let e = exec_at_prelude_end(&input, p + 1);
    drop_front(&mut input, p);
    proof {
        assert(input@[0] == o[p as int]);
    }
    let (cv0, loc0) = input.remove(0);
    proof {
        assert(input@ =~= o.skip(p + 1));
    }
    let name = match cv0 {
        ComponentValue::AtKeyword(n) => n,
        _ => {
            proof {
                assert(false);
            }
            String::new()
        },
    };
    let prelude = take_front_cvs(&mut input, e - (p + 1));
    proof {
        assert(prelude@ =~= cvs_of(o, p + 1, e as int));
        assert(input@ =~= o.skip(e as int));
    }
    let block: Option<Vec<(ComponentValue, SourceLocation)>>;
    if input.len() > 0 && matches!(input[0].0, ComponentValue::CurlyBracketBlock(_)) {
        proof {
            assert(input@[0] == o[e as int]);
        }
        let (cb, _) = input.remove(0);
        block = match cb {
            ComponentValue::CurlyBracketBlock(b) => Some(b),
            _ => {
                proof {
                    assert(false);
                }
                None
            },
        };
        proof {
            assert(input@ =~= o.skip(e + 1));
        }
    } else if input.len() > 0 {
        proof {
            assert(input@[0] == o[e as int]);
        }
        input.remove(0);
        block = None;
        proof {
            assert(input@ =~= o.skip(e + 1));
        }
    } else {
        block = None;
    }
    (AtRule { location: loc0, name, prelude, block }, input)
}

/// Produces the list of declarations and at-rules, one `Result` per
/// item, never aborting on a malformed item.
pub fn parse_declaration_list(mut input: Vec<(ComponentValue, SourceLocation)>) -> (r: Vec<
    Result<DeclarationListItem, SyntaxError>,
>)
    ensures
        decl_list_items(input@, 0, r@),
    decreases input@.len(),
{
    let ghost o = input@;
    let p = exec_skip_ws_semi(&input, 0);
    if p >= input.len() {
        Vec::new()
    } else if matches!(input[p].0, ComponentValue::AtKeyword(_)) {
        let (at, rest_toks) = exec_consume_at_rule(input, p);
        let ghost consumed = at_rule_end(o, p as int);
        let mut rest = parse_declaration_list(rest_toks);
        let ghost old_rest = rest@;
        rest.insert(0, Ok(DeclarationListItem::AtRule(at)));
        proof {
            assert(rest@.drop_first() =~= old_rest);
            lemma_decl_list_shift(o, consumed, 0, old_rest);
            lemma_decl_items_intro(o, p as int, rest@);
        }
        rest
    } else {
        let b = exec_next_semi(&input, p);
        drop_front(&mut input, p);
        let seg = take_front(&mut input, b - p);
        proof {
            assert(seg@ =~= o.subrange(p as int, b as int));
        }
        if input.len() > 0 {
            input.remove(0);
            proof {
                assert(input@ =~= o.skip(b + 1));
            }
        }
        let ghost segv = seg@;
        let item: Result<DeclarationListItem, SyntaxError> = match exec_parse_declaration(seg) {
            Ok(d) => Ok(DeclarationListItem::Declaration(d)),
            Err(e) => Err(e),
        };
        let ghost consumed = if b < o.len() {
            b + 1
        } else {
            b as int
        };
        let mut rest = parse_declaration_list(input);
        let ghost old_rest = rest@;
        rest.insert(0, item);
        proof {
            assert(rest@.drop_first() =~= old_rest);
            lemma_decl_list_shift(o, consumed, 0, old_rest);
            if b >= o.len() {
                lemma_decl_items_past_end(o, o.len() as int, b + 1);
            }
            lemma_decl_items_intro(o, p as int, rest@);
        }
        rest
    }
}

/// Restating the list predicate from an absolute index: the items of the
/// suffix `toks[m..]` are the items of `toks` read from `m`.
proof fn lemma_decl_list_shift(
    toks: Seq<(ComponentValue, SourceLocation)>,
    m: int,
    i: int,
    items: Seq<Result<DeclarationListItem, SyntaxError>>,
)
    requires
        0 <= m <= toks.len(),
        0 <= i,
        decl_list_items(toks.skip(m), i, items),
    ensures
        decl_list_items(toks, i + m, items),
    decreases items.len(),
{
    let sub = toks.skip(m);
    if i > sub.len() {
        assert(skip_ws_semi(sub, i) == i);
        assert(skip_ws_semi(toks, i + m) == i + m);
        return ;
    }
    lemma_skip_scan_shift(toks, m);
    lemma_scan_bounds(toks, m);
    lemma_scan_bounds(sub, 0);
    lemma_scan_bounds(toks, i + m);
    lemma_scan_bounds(sub, i);
    let p = skip_ws_semi(toks, i + m);
    let ps = skip_ws_semi(sub, i);
    assert(p == ps + m);
    if p >= toks.len() {
    } else {
        assert(sub[ps] == toks[ps + m]);
        assert(toks[p] == sub[ps]);
        if toks[p].0 is AtKeyword {
            lemma_scan_bounds(toks, p + 1);
            lemma_scan_bounds(sub, ps + 1);
            assert(at_prelude_end(toks, p + 1) == at_prelude_end(sub, ps + 1) + m);
            assert(cvs_of(toks, p + 1, at_prelude_end(toks, p + 1)) =~= cvs_of(
                sub,
                ps + 1,
                at_prelude_end(sub, ps + 1),
            ));
            assert(at_rule_end(toks, p) == at_rule_end(sub, ps) + m);
            lemma_decl_list_shift(toks, m, at_rule_end(sub, ps), items.drop_first());
        } else {
            let b = next_semi(toks, p);
            let bs = next_semi(sub, ps);
            lemma_scan_bounds(toks, p);
            lemma_scan_bounds(sub, ps);
            assert(b == bs + m);
            assert(toks.subrange(p, b) =~= sub.subrange(ps, bs));
            lemma_decl_list_shift(toks, m, bs + 1, items.drop_first());
        }
    }
}

/// The index scans commute with taking a suffix.
proof fn lemma_skip_scan_shift(toks: Seq<(ComponentValue, SourceLocation)>, m: int)
    requires
        0 <= m <= toks.len(),
    ensures
        forall|i: int|
            0 <= i <= toks.skip(m).len() ==> #[trigger] skip_ws_semi(toks.skip(m), i) + m
                == skip_ws_semi(toks, i + m),
        forall|i: int|
            0 <= i <= toks.skip(m).len() ==> #[trigger] skip_ws(toks.skip(m), i) + m == skip_ws(
                toks,
                i + m,
            ),
        forall|i: int|
            0 <= i <= toks.skip(m).len() ==> #[trigger] skip_ws_cd(toks.skip(m), i) + m
                == skip_ws_cd(toks, i + m),
        forall|i: int|
            0 <= i <= toks.skip(m).len() ==> #[trigger] next_semi(toks.skip(m), i) + m
                == next_semi(toks, i + m),
        forall|i: int|
            0 <= i <= toks.skip(m).len() ==> #[trigger] at_prelude_end(toks.skip(m), i) + m
                == at_prelude_end(toks, i + m),
        forall|i: int|
            0 <= i <= toks.skip(m).len() ==> #[trigger] rule_block_pos(toks.skip(m), i) + m
                == rule_block_pos(toks, i + m),
{
    let sub = toks.skip(m);
    assert forall|i: int| 0 <= i <= sub.len() implies #[trigger] skip_ws_semi(sub, i) + m
        == skip_ws_semi(toks, i + m) by {
        lemma_one_scan_shift(toks, m, i, 0);
    }
    assert forall|i: int| 0 <= i <= sub.len() implies #[trigger] skip_ws(sub, i) + m == skip_ws(
        toks,
        i + m,
    ) by {
        lemma_one_scan_shift(toks, m, i, 1);
    }
    assert forall|i: int| 0 <= i <= sub.len() implies #[trigger] skip_ws_cd(sub, i) + m
        == skip_ws_cd(toks, i + m) by {
        lemma_one_scan_shift(toks, m, i, 2);
    }
    assert forall|i: int| 0 <= i <= sub.len() implies #[trigger] next_semi(sub, i) + m
        == next_semi(toks, i + m) by {
        lemma_one_scan_shift(toks, m, i, 3);
    }
    assert forall|i: int| 0 <= i <= sub.len() implies #[trigger] at_prelude_end(sub, i) + m
        == at_prelude_end(toks, i + m) by {
        lemma_one_scan_shift(toks, m, i, 4);
    }
    assert forall|i: int| 0 <= i <= sub.len() implies #[trigger] rule_block_pos(sub, i) + m
        == rule_block_pos(toks, i + m) by {
        lemma_one_scan_shift(toks, m, i, 5);
    }
}

proof fn lemma_one_scan_shift(
    toks: Seq<(ComponentValue, SourceLocation)>,
    m: int,
    i: int,
    which: int,
)
    requires
        0 <= m <= toks.len(),
        0 <= i <= toks.skip(m).len(),
    ensures
        which == 0 ==> skip_ws_semi(toks.skip(m), i) + m == skip_ws_semi(toks, i + m),
        which == 1 ==> skip_ws(toks.skip(m), i) + m == skip_ws(toks, i + m),
        which == 2 ==> skip_ws_cd(toks.skip(m), i) + m == skip_ws_cd(toks, i + m),
        which == 3 ==> next_semi(toks.skip(m), i) + m == next_semi(toks, i + m),
        which == 4 ==> at_prelude_end(toks.skip(m), i) + m == at_prelude_end(toks, i + m),
        which == 5 ==> rule_block_pos(toks.skip(m), i) + m == rule_block_pos(toks, i + m),
    decreases toks.len() - i - m,
{
    let sub = toks.skip(m);
    if i < sub.len() {
        assert(sub[i] == toks[i + m]);
        lemma_one_scan_shift(toks, m, i + 1, which);
    }
}

/// Consumes one rule starting at index `p` (an at-rule or a qualified
/// rule); `Err` when a qualified rule's prelude reaches the end of input
/// without a block.
fn exec_consume_rule(
    input: Vec<(ComponentValue, SourceLocation)>,
    p: usize,
) -> (r: (Result<Rule, SyntaxError>, Vec<(ComponentValue, SourceLocation)>, Ghost<int>))
    requires
        p < input@.len(),
    ensures
        ({
            let end = r.2@;
            &&& p < end <= input@.len() || (end == input@.len() && r.0 is Err)
            &&& r.1@ == input@.skip(end)
            &&& if input@[p as int].0 is AtKeyword {
                end == at_rule_end(input@, p as int) && (r.0 matches Ok(Rule::AtRule(a))
                    && at_rule_ok(input@, p as int, a))
            } else {
                let j = rule_block_pos(input@, p as int);
                if j < input@.len() {
                    end == j + 1 && (r.0 matches Ok(Rule::QualifiedRule(q)) && qrule_ok(
                        input@,
                        p as int,
                        j,
                        q,
                    ))
                } else {
                    end == input@.len() && (r.0 matches Err(e) && e.reason is InvalidValue)
                }
            }
        }),
{
    let ghost o = input@;
    if matches!(input[p].0, ComponentValue::AtKeyword(_)) {
        let (at, rest) = exec_consume_at_rule(input, p);
        (Ok(Rule::AtRule(at)), rest, Ghost(at_rule_end(o, p as int)))
    } else {
        let mut input = input;
        let j = exec_rule_block_pos(&input, p);
        proof {
            lemma_scan_bounds(o, p as int);
        }
        if j >= input.len() {
            let empty: Vec<(ComponentValue, SourceLocation)> = Vec::new();
            proof {
                assert(empty@ =~= o.skip(o.len() as int));
            }
            (
                Err(
                    SyntaxError {
                        reason: ErrorReason::InvalidValue(
                            String::from_str("a qualified rule without a block"),
                        ),
                    },
                ),
                empty,
                Ghost(o.len() as int),
            )
        } else {
            drop_front(&mut input, p);
            proof {
                assert(input@[0] == o[p as int]);
            }
            let loc = input[0].1;
            let prelude = take_front_cvs(&mut input, j - p);
            proof {
                assert(prelude@ =~= cvs_of(o, p as int, j as int));
                assert(input@ =~= o.skip(j as int));
                assert(input@[0] == o[j as int]);
            }
            let (cb, _) = input.remove(0);
            proof {
                assert(input@ =~= o.skip(j + 1));
            }
            let block = match cb {
                ComponentValue::CurlyBracketBlock(b) => b,
                _ => {
                    proof {
                        assert(false);
                    }
                    Vec::new()
                },
            };
            (
                Ok(Rule::QualifiedRule(QualifiedRule { location: loc, prelude, block })),
                input,
                Ghost(j + 1),
            )
        }
    }
}

fn exec_parse_rules(mut input: Vec<(ComponentValue, SourceLocation)>, top: bool) -> (r: Vec<
    Result<Rule, SyntaxError>,
>)
    ensures
        rule_items(input@, 0, r@, top),
    decreases input@.len(),
{
    let ghost o = input@;
    let p = if top {
        exec_skip_ws_cd(&input, 0)
    } else {
        exec_skip_ws(&input, 0)
    };
    if p >= input.len() {
        Vec::new()
    } else {
        let n0 = input.len();
        let (item, rest_toks, ghost_end) = exec_consume_rule(input, p);
        let ghost end = ghost_end@;
        proof {
            assert(p < end || end == o.len());
            assert(1 <= end <= o.len());
            assert(rest_toks@.len() == o.len() - end);
        }
        let mut rest = if rest_toks.len() < n0 {
            exec_parse_rules(rest_toks, top)
        } else {
            proof {
                assert(false);
            }
            Vec::new()
        };
        let ghost old_rest = rest@;
        rest.insert(0, item);
        proof {
            assert(rest@.drop_first() =~= old_rest);
            lemma_rule_list_shift(o, end, 0, old_rest, top);
            lemma_rule_items_intro(o, p as int, rest@, top);
        }
        rest
    }
}

proof fn lemma_rule_list_shift(
    toks: Seq<(ComponentValue, SourceLocation)>,
    m: int,
    i: int,
    items: Seq<Result<Rule, SyntaxError>>,
    top: bool,
)
    requires
        0 <= m <= toks.len(),
        0 <= i,
        rule_items(toks.skip(m), i, items, top),
    ensures
        rule_items(toks, i + m, items, top),
    decreases items.len(),
{
    let sub = toks.skip(m);
    if i > sub.len() {
        assert(skip_ws(sub, i) == i && skip_ws_cd(sub, i) == i);
        assert(skip_ws(toks, i + m) == i + m && skip_ws_cd(toks, i + m) == i + m);
        return ;
    }
    lemma_skip_scan_shift(toks, m);
    lemma_scan_bounds(toks, m);
    lemma_scan_bounds(sub, 0);
    lemma_scan_bounds(toks, i + m);
    lemma_scan_bounds(sub, i);
    lemma_skip_ws(toks, i + m);
    lemma_skip_ws(sub, i);
    let p = if top {
        skip_ws_cd(toks, i + m)
    } else {
        skip_ws(toks, i + m)
    };
    let ps = if top {
        skip_ws_cd(sub, i)
    } else {
        skip_ws(sub, i)
    };
    assert(p == ps + m);
    if p >= toks.len() {
    } else {
        assert(sub[ps] == toks[ps + m]);
        assert(toks[p] == sub[ps]);
        if toks[p].0 is AtKeyword {
            lemma_scan_bounds(toks, p + 1);
            lemma_scan_bounds(sub, ps + 1);
            assert(at_prelude_end(toks, p + 1) == at_prelude_end(sub, ps + 1) + m);
            assert(cvs_of(toks, p + 1, at_prelude_end(toks, p + 1)) =~= cvs_of(
                sub,
                ps + 1,
                at_prelude_end(sub, ps + 1),
            ));
            assert(at_rule_end(toks, p) == at_rule_end(sub, ps) + m);
            lemma_rule_list_shift(toks, m, at_rule_end(sub, ps), items.drop_first(), top);
        } else {
            let j = rule_block_pos(toks, p);
            let js = rule_block_pos(sub, ps);
            lemma_scan_bounds(toks, p);
            lemma_scan_bounds(sub, ps);
            assert(j == js + m);
            if j < toks.len() {
                assert(cvs_of(toks, p, j) =~= cvs_of(sub, ps, js));
                lemma_rule_list_shift(toks, m, js + 1, items.drop_first(), top);
            } else {
                lemma_rule_list_shift(toks, m, js, items.drop_first(), top);
            }
        }
    }
}

/// Produces the rule list of a nested rule context (no CDO/CDC
/// tolerance), one `Result` per rule.
pub fn parse_rule_list(input: Vec<(ComponentValue, SourceLocation)>) -> (r: Vec<
    Result<Rule, SyntaxError>,
>)
    ensures
        rule_items(input@, 0, r@, false),
{
    exec_parse_rules(input, false)
}

/// Produces the rule list of a whole stylesheet, discarding top-level
/// CDO/CDC tokens.
pub fn parse_stylesheet_rules(input: Vec<(ComponentValue, SourceLocation)>) -> (r: Vec<
    Result<Rule, SyntaxError>,
>)
    ensures
        stylesheet_items(input@, 0, r@),
{
    exec_parse_rules(input, true)
}

/// Expects exactly one rule (at-rule or qualified rule), surrounding
/// white space aside.
pub fn parse_one_rule(input: Vec<(ComponentValue, SourceLocation)>) -> (r: Result<
    Rule,
    SyntaxError,
>)
    ensures
        ({
            let toks = input@;
            let p = skip_ws(toks, 0);
            match r {
                Ok(rule) => {
                    &&& p < toks.len()
                    &&& (match rule {
                        Rule::AtRule(a) => toks[p].0 is AtKeyword && at_rule_ok(toks, p, a)
                            && skip_ws(toks, at_rule_end(toks, p)) >= toks.len(),
                        Rule::QualifiedRule(q) => {
                            let j = rule_block_pos(toks, p);
                            &&& !(toks[p].0 is AtKeyword)
                            &&& j < toks.len()
                            &&& qrule_ok(toks, p, j, q)
                            &&& skip_ws(toks, j + 1) >= toks.len()
                        },
                    })
                },
                Err(e) => match e.reason {
                    ErrorReason::EmptyInput => p >= toks.len(),
                    ErrorReason::ExtraInput => p < toks.len() && (if toks[p].0 is AtKeyword {
                        skip_ws(toks, at_rule_end(toks, p)) < toks.len()
                    } else {
                        rule_block_pos(toks, p) < toks.len() && skip_ws(
                            toks,
                            rule_block_pos(toks, p) + 1,
                        ) < toks.len()
                    }),
                    ErrorReason::InvalidValue(_) => p < toks.len() && !(toks[p].0 is AtKeyword)
                        && rule_block_pos(toks, p) >= toks.len(),
                },
            }
        }),
{
    let ghost o = input@;
    let p = exec_skip_ws(&input, 0);
    if p >= input.len() {
        return Err(SyntaxError { reason: ErrorReason::EmptyInput });
    }
    let (item, rest, ghost_end) = exec_consume_rule(input, p);
    match item {
        Ok(rule) => {
            let q = exec_skip_ws(&rest, 0);
            proof {
                lemma_skip_scan_shift(o, ghost_end@);
            }
            if q < rest.len() {
                Err(SyntaxError { reason: ErrorReason::ExtraInput })
            } else {
                Ok(rule)
            }
        },
        Err(e) => Err(e),
    }
}

} // verus!
