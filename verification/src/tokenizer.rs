//! The tokenizer: turns CSS text into a tree-shaped sequence of component
//! values, resolving bracket nesting as it goes.
//!
//! Every function here is specified against small spec-level functions over
//! the character sequence; `tokenize` ties them together with the
//! `tokens_from` predicate, which pins down the exact token list for a given
//! input.

use crate::ast::{ComponentValue, NumericValue, SourceLocation};
use crate::support::{chars_to_string, str_to_chars};
use vstd::prelude::*;
use vstd::string::StrSliceExecFns;

verus! {

// ---------------------------------------------------------------------------
// Character classes of the CSS syntax.
// ---------------------------------------------------------------------------

/// White space, after newline preprocessing.
pub open spec fn is_ws(c: char) -> bool {
    c == ' ' || c == '\t' || c == '\n'
}

pub open spec fn is_digit(c: char) -> bool {
    0x30 <= c as u32 <= 0x39
}

pub open spec fn is_hex_digit(c: char) -> bool {
    is_digit(c) || (0x41 <= c as u32 <= 0x46) || (0x61 <= c as u32 <= 0x66)
}

/// A character that can begin an identifier: a letter, `_`, or any
/// non-ASCII character.
pub open spec fn is_name_start(c: char) -> bool {
    (0x61 <= c as u32 <= 0x7A) || (0x41 <= c as u32 <= 0x5A) || c == '_' || c as u32 > 0x7F
}

/// A character that can continue a name.
pub open spec fn is_name_char(c: char) -> bool {
    is_name_start(c) || is_digit(c) || c == '-'
}

/// The numeric value of a hex digit.
pub open spec fn hex_value(c: char) -> u32 {
    if is_digit(c) {
        (c as u32 - 0x30) as u32
    } else if 0x41 <= c as u32 <= 0x46 {
        (c as u32 - 0x41 + 10) as u32
    } else {
        (c as u32 - 0x61 + 10) as u32
    }
}

fn exec_is_ws(c: char) -> (r: bool)
    ensures
        r == is_ws(c),
{
    c == ' ' || c == '\t' || c == '\n'
}

fn exec_is_digit(c: char) -> (r: bool)
    ensures
        r == is_digit(c),
{
    let u = c as u32;
    0x30 <= u && u <= 0x39
}

pub fn exec_is_hex_digit_pub(c: char) -> (r: bool)
    ensures
        r == is_hex_digit(c),
{
    exec_is_hex_digit(c)
}

pub fn exec_hex_value_pub(c: char) -> (r: u32)
    requires
        is_hex_digit(c),
    ensures
        r == hex_value(c),
{
    exec_hex_value(c)
}

/// The ASCII-lower-cased characters of a name.
pub fn lower_chars(n: &String) -> (r: Vec<char>)
    ensures
        r@ == lower_seq(n@),
{
    let raw = crate::support::str_to_chars(n.as_str());
    let mut v: Vec<char> = Vec::new();
    let mut i: usize = 0;
    while i < raw.len()
        invariant
            i <= raw@.len(),
            raw@ == n@,
            v@ == lower_seq(n@).take(i as int),
        decreases raw@.len() - i,
    {
        v.push(exec_lower_char(raw[i]));
        proof {
            assert(v@ =~= lower_seq(n@).take(i + 1));
        }
        i = i + 1;
    }
    proof {
        assert(v@ =~= lower_seq(n@));
    }
    v
}

pub fn exec_is_digit_pub(c: char) -> (r: bool)
    ensures
        r == is_digit(c),
{
    exec_is_digit(c)
}

fn exec_is_hex_digit(c: char) -> (r: bool)
    ensures
        r == is_hex_digit(c),
{
    let u = c as u32;
    (0x30 <= u && u <= 0x39) || (0x41 <= u && u <= 0x46) || (0x61 <= u && u <= 0x66)
}

fn exec_is_name_start(c: char) -> (r: bool)
    ensures
        r == is_name_start(c),
{
    let u = c as u32;
    (0x61 <= u && u <= 0x7A) || (0x41 <= u && u <= 0x5A) || c == '_' || u > 0x7F
}

pub fn exec_is_name_start_pub(c: char) -> (r: bool)
    ensures
        r == is_name_start(c),
{
    exec_is_name_start(c)
}

pub fn exec_is_name_char_pub(c: char) -> (r: bool)
    ensures
        r == is_name_char(c),
{
    exec_is_name_start(c) || exec_is_digit(c) || c == '-'
}

fn exec_is_name_char(c: char) -> (r: bool)
    ensures
        r == is_name_char(c),
{
    exec_is_name_start(c) || exec_is_digit(c) || c == '-'
}

fn exec_hex_value(c: char) -> (r: u32)
    requires
        is_hex_digit(c),
    ensures
        r == hex_value(c),
{
    let u = c as u32;
    if 0x30 <= u && u <= 0x39 {
        u - 0x30
    } else if 0x41 <= u && u <= 0x46 {
        u - 0x41 + 10
    } else {
        u - 0x61 + 10
    }
}

/// ASCII lower-casing of a single character, used for case-insensitive
/// keyword comparison.
pub open spec fn lower_char(c: char) -> char {
    if 0x41 <= c as u32 <= 0x5A {
        ((c as u32 + 0x20) as u8) as char
    } else {
        c
    }
}

pub fn exec_lower_char(c: char) -> (r: char)
    ensures
        r == lower_char(c),
{
    let u = c as u32;
    if 0x41 <= u && u <= 0x5A {
        ((u + 0x20) as u8) as char
    } else {
        c
    }
}

/// ASCII-lower-cases a whole sequence.
pub open spec fn lower_seq(s: Seq<char>) -> Seq<char> {
    s.map_values(|c: char| lower_char(c))
}

/// Compares a name, ASCII-case-insensitively, with an expected (already
/// lower-case) text.
pub fn lower_matches(n: &String, expected: &str) -> (r: bool)
    ensures
        r == (lower_seq(n@) == expected@),
{
    let nv = crate::support::str_to_chars(n.as_str());
    let ev = crate::support::str_to_chars(expected);
    if nv.len() != ev.len() {
        proof {
            assert(lower_seq(n@).len() == n@.len());
        }
        return false;
    }
    let mut i: usize = 0;
    while i < nv.len()
        invariant
            i <= nv@.len() == ev@.len(),
            nv@ == n@,
            ev@ == expected@,
            forall|k: int| 0 <= k < i ==> lower_seq(n@)[k] == expected@[k],
        decreases nv@.len() - i,
    {
        let lc = exec_lower_char(nv[i]);
        if lc != ev[i] {
            proof {
                assert(lower_seq(n@)[i as int] == lower_char(n@[i as int]));
            }
            return false;
        }
        proof {
            assert(lower_seq(n@)[i as int] == lower_char(n@[i as int]));
        }
        i = i + 1;
    }
    proof {
        assert(lower_seq(n@) =~= expected@);
    }
    true
}

// ---------------------------------------------------------------------------
// Newline preprocessing: CR LF, CR and FF each become a single LF.
// ---------------------------------------------------------------------------

pub open spec fn preprocess(s: Seq<char>) -> Seq<char>
    decreases s.len(),
{
    if s.len() == 0 {
        s
    } else if s[0] == '\r' {
        if s.len() >= 2 && s[1] == '\n' {
            seq!['\n'] + preprocess(s.skip(2))
        } else {
            seq!['\n'] + preprocess(s.skip(1))
        }
    } else if s[0] == '\u{c}' {
        seq!['\n'] + preprocess(s.skip(1))
    } else {
        seq![s[0]] + preprocess(s.skip(1))
    }
}

fn preprocess_from(s: &Vec<char>, i: usize) -> (out: Vec<char>)
    requires
        i <= s@.len(),
    ensures
        out@ == preprocess(s@.skip(i as int)),
    decreases s@.len() - i,
{
    if i >= s.len() {
        let out: Vec<char> = Vec::new();
        proof {
            assert(s@.skip(i as int).len() == 0);
            assert(out@ =~= preprocess(s@.skip(i as int)));
        }
        out
    } else {
        let c = s[i];
        proof {
            assert(s@.skip(i as int)[0] == s@[i as int]);
        }
        if c == '\r' {
            let two = i + 1 < s.len() && s[i + 1] == '\n';
            proof {
                if i + 1 < s@.len() {
                    assert(s@.skip(i as int)[1] == s@[i + 1]);
                }
                assert(two == (s@.skip(i as int).len() >= 2 && s@.skip(i as int)[1] == '\n'));
            }
            let j = if two {
                i + 2
            } else {
                i + 1
            };
            let mut rest = preprocess_from(s, j);
            rest.insert(0, '\n');
            proof {
                if two {
                    assert(s@.skip(i as int).skip(2) =~= s@.skip(i + 2));
                } else {
                    assert(s@.skip(i as int).skip(1) =~= s@.skip(i + 1));
                }
                assert(rest@ =~= preprocess(s@.skip(i as int)));
            }
            rest
        } else if c == '\u{c}' {
            let mut rest = preprocess_from(s, i + 1);
            rest.insert(0, '\n');
            proof {
                assert(s@.skip(i as int).skip(1) =~= s@.skip(i + 1));
                assert(rest@ =~= preprocess(s@.skip(i as int)));
            }
            rest
        } else {
            let mut rest = preprocess_from(s, i + 1);
            rest.insert(0, c);
            proof {
                assert(s@.skip(i as int).skip(1) =~= s@.skip(i + 1));
                assert(rest@ =~= preprocess(s@.skip(i as int)));
            }
            rest
        }
    }
}

// ---------------------------------------------------------------------------
// Source locations: 1-based line and column, computed from character counts.
// ---------------------------------------------------------------------------

pub open spec fn spec_line(s: Seq<char>, pos: int) -> int
    decreases pos,
{
    if pos <= 0 {
        1
    } else {
        spec_line(s, pos - 1) + if 0 <= pos - 1 < s.len() && s[pos - 1] == '\n' {
            1int
        } else {
            0int
        }
    }
}

pub open spec fn spec_col(s: Seq<char>, pos: int) -> int
    decreases pos,
{
    if pos <= 0 {
        1
    } else if 0 <= pos - 1 < s.len() && s[pos - 1] == '\n' {
        1
    } else {
        spec_col(s, pos - 1) + 1
    }
}

/// The location of the character at `pos`.
pub open spec fn spec_location(s: Seq<char>, pos: int) -> SourceLocation {
    SourceLocation { line: spec_line(s, pos) as u64, column: spec_col(s, pos) as u64 }
}

proof fn lemma_line_col_bounds(s: Seq<char>, pos: int)
    requires
        0 <= pos,
    ensures
        1 <= spec_line(s, pos) <= pos + 1,
        1 <= spec_col(s, pos) <= pos + 1,
    decreases pos,
{
    if pos > 0 {
        lemma_line_col_bounds(s, pos - 1);
    }
}

pub fn location_at(s: &Vec<char>, pos: usize) -> (loc: SourceLocation)
    requires
        pos < s@.len(),
    ensures
        loc == spec_location(s@, pos as int),
{
    let n: usize = s.len();
    let mut line: u64 = 1;
    let mut col: u64 = 1;
    let mut i: usize = 0;
    while i < pos
        invariant
            0 <= i <= pos < n == s@.len(),
            line == spec_line(s@, i as int),
            col == spec_col(s@, i as int),
            line <= i as u64 + 1,
            col <= i as u64 + 1,
        decreases pos - i,
    {
        proof {
            lemma_line_col_bounds(s@, i as int);
            lemma_line_col_bounds(s@, i as int + 1);
        }
        if s[i] == '\n' {
            line = line + 1;
            col = 1;
        } else {
            col = col + 1;
        }
        i = i + 1;
    }
    SourceLocation { line, column: col }
}

// ---------------------------------------------------------------------------
// Comments.
// ---------------------------------------------------------------------------

/// A `/*` comment opener at `pos`.
pub open spec fn comment_at(s: Seq<char>, pos: int) -> bool {
    0 <= pos && pos + 1 < s.len() && s[pos] == '/' && s[pos + 1] == '*'
}

/// The position right after the `*/` that closes a comment whose body starts
/// at `p`; end of input if the comment is unterminated.
pub open spec fn comment_close(s: Seq<char>, p: int) -> int
    decreases s.len() - p,
{
    if p < 0 || p >= s.len() {
        s.len() as int
    } else if p + 1 < s.len() && s[p] == '*' && s[p + 1] == '/' {
        p + 2
    } else {
        comment_close(s, p + 1)
    }
}

pub proof fn lemma_comment_close(s: Seq<char>, p: int)
    requires
        0 <= p <= s.len(),
    ensures
        p <= comment_close(s, p) <= s.len(),
    decreases s.len() - p,
{
    if p < s.len() && !(p + 1 < s.len() && s[p] == '*' && s[p + 1] == '/') {
        lemma_comment_close(s, p + 1);
    }
}

pub open spec fn comment_end(s: Seq<char>, pos: int) -> int {
    comment_close(s, pos + 2)
}

/// Skips any run of comments starting at `pos`.
pub open spec fn after_comments(s: Seq<char>, pos: int) -> int
    decreases s.len() - pos,
{
    if comment_at(s, pos) {
        proof {
            lemma_comment_close(s, pos + 2);
        }
        after_comments(s, comment_end(s, pos))
    } else {
        pos
    }
}

pub proof fn lemma_after_comments(s: Seq<char>, pos: int)
    requires
        0 <= pos <= s.len(),
    ensures
        pos <= after_comments(s, pos) <= s.len(),
        !comment_at(s, after_comments(s, pos)),
    decreases s.len() - pos,
{
    if comment_at(s, pos) {
        lemma_comment_close(s, pos + 2);
        lemma_after_comments(s, comment_end(s, pos));
    }
}

// ---------------------------------------------------------------------------
// Simple character runs.
// ---------------------------------------------------------------------------

/// The end of the white space run starting at `pos`.
pub open spec fn ws_end(s: Seq<char>, pos: int) -> int
    decreases s.len() - pos,
{
    if pos < 0 || pos >= s.len() {
        pos
    } else if is_ws(s[pos]) {
        ws_end(s, pos + 1)
    } else {
        pos
    }
}

pub proof fn lemma_ws_end(s: Seq<char>, pos: int)
    requires
        0 <= pos <= s.len(),
    ensures
        pos <= ws_end(s, pos) <= s.len(),
    decreases s.len() - pos,
{
    if pos < s.len() && is_ws(s[pos]) {
        lemma_ws_end(s, pos + 1);
    }
}

/// The end of the digit run starting at `pos`.
pub open spec fn digits_end(s: Seq<char>, pos: int) -> int
    decreases s.len() - pos,
{
    if pos < 0 || pos >= s.len() {
        pos
    } else if is_digit(s[pos]) {
        digits_end(s, pos + 1)
    } else {
        pos
    }
}

pub proof fn lemma_digits_end(s: Seq<char>, pos: int)
    requires
        0 <= pos <= s.len(),
    ensures
        pos <= digits_end(s, pos) <= s.len(),
    decreases s.len() - pos,
{
    if pos < s.len() && is_digit(s[pos]) {
        lemma_digits_end(s, pos + 1);
    }
}

// ---------------------------------------------------------------------------
// Escapes.
// ---------------------------------------------------------------------------

/// A backslash at `pos` that begins a valid escape (not followed by a
/// newline, not at end of input).
pub open spec fn valid_escape(s: Seq<char>, pos: int) -> bool {
    0 <= pos && pos + 1 < s.len() && s[pos] == '\\' && s[pos + 1] != '\n'
}

pub open spec fn hex_at(s: Seq<char>, p: int) -> bool {
    0 <= p < s.len() && is_hex_digit(s[p])
}

/// The end of a run of at most six hex digits starting at `p`.
pub open spec fn hex_run_end(s: Seq<char>, p: int) -> int {
    if !hex_at(s, p) {
        p
    } else if !hex_at(s, p + 1) {
        p + 1
    } else if !hex_at(s, p + 2) {
        p + 2
    } else if !hex_at(s, p + 3) {
        p + 3
    } else if !hex_at(s, p + 4) {
        p + 4
    } else if !hex_at(s, p + 5) {
        p + 5
    } else {
        p + 6
    }
}

/// The value of the hex digits in `s[from..to]`.
pub open spec fn hex_val_range(s: Seq<char>, from: int, to: int) -> int
    decreases to - from,
{
    if from >= to {
        0
    } else {
        hex_val_range(s, from, to - 1) * 16 + if 0 <= to - 1 < s.len() && is_hex_digit(
            s[to - 1],
        ) {
            hex_value(s[to - 1]) as int
        } else {
            0
        }
    }
}

pub proof fn lemma_hex_val_bound(s: Seq<char>, from: int, to: int)
    ensures
        0 <= hex_val_range(s, from, to),
        to - from <= 1 ==> hex_val_range(s, from, to) < 0x10,
        to - from <= 2 ==> hex_val_range(s, from, to) < 0x100,
        to - from <= 3 ==> hex_val_range(s, from, to) < 0x1000,
        to - from <= 4 ==> hex_val_range(s, from, to) < 0x10000,
        to - from <= 5 ==> hex_val_range(s, from, to) < 0x100000,
        to - from <= 6 ==> hex_val_range(s, from, to) < 0x1000000,
    decreases to - from,
{
    if from < to {
        lemma_hex_val_bound(s, from, to - 1);
    }
}

/// The position after the escape whose body (after the backslash) starts at
/// `p`: up to six hex digits and one optional white space character, or a
/// single literal character.
pub open spec fn escape_end(s: Seq<char>, p: int) -> int {
    if !(0 <= p < s.len()) {
        p
    } else if hex_at(s, p) {
        let h = hex_run_end(s, p);
        if h < s.len() && is_ws(s[h]) {
            h + 1
        } else {
            h
        }
    } else {
        p + 1
    }
}

/// The character an escape denotes. Hex escapes of zero, of surrogates and
/// of values beyond the last code point give the replacement character.
pub open spec fn escape_char(s: Seq<char>, p: int) -> char {
    if !(0 <= p < s.len()) {
        '\u{FFFD}'
    } else if hex_at(s, p) {
        let v = hex_val_range(s, p, hex_run_end(s, p));
        if v == 0 || v > 0x10FFFF || (0xD800 <= v < 0xE000) {
            '\u{FFFD}'
        } else {
            (v as u32) as char
        }
    } else {
        s[p]
    }
}

// ---------------------------------------------------------------------------
// Names and identifiers.
// ---------------------------------------------------------------------------

/// An identifier can start at `pos`: a name-start character, a suitable
/// `-` prefix, or a valid escape.
pub open spec fn starts_ident(s: Seq<char>, pos: int) -> bool {
    0 <= pos < s.len() && (is_name_start(s[pos]) || valid_escape(s, pos) || (s[pos] == '-' && pos
        + 1 < s.len() && (is_name_start(s[pos + 1]) || s[pos + 1] == '-' || valid_escape(
        s,
        pos + 1,
    ))))
}

/// The end of the name (name characters and escapes) starting at `pos`.
pub open spec fn name_end(s: Seq<char>, pos: int) -> int
    decreases s.len() - pos,
{
    if !(0 <= pos < s.len()) {
        pos
    } else if is_name_char(s[pos]) {
        name_end(s, pos + 1)
    } else if valid_escape(s, pos) {
        name_end(s, escape_end(s, pos + 1))
    } else {
        pos
    }
}

/// The decoded text of the name starting at `pos`.
pub open spec fn name_val(s: Seq<char>, pos: int) -> Seq<char>
    decreases s.len() - pos,
{
    if !(0 <= pos < s.len()) {
        Seq::empty()
    } else if is_name_char(s[pos]) {
        seq![s[pos]] + name_val(s, pos + 1)
    } else if valid_escape(s, pos) {
        seq![escape_char(s, pos + 1)] + name_val(s, escape_end(s, pos + 1))
    } else {
        Seq::empty()
    }
}

pub proof fn lemma_name_end(s: Seq<char>, pos: int)
    requires
        0 <= pos <= s.len(),
    ensures
        pos <= name_end(s, pos) <= s.len(),
    decreases s.len() - pos,
{
    if 0 <= pos < s.len() {
        if is_name_char(s[pos]) {
            lemma_name_end(s, pos + 1);
        } else if valid_escape(s, pos) {
            lemma_name_end(s, escape_end(s, pos + 1));
        }
    }
}

// ---------------------------------------------------------------------------
// Numbers.
// ---------------------------------------------------------------------------

/// A number can start at `pos`: a digit, a dot followed by a digit, or a
/// sign followed by either.
pub open spec fn starts_number(s: Seq<char>, pos: int) -> bool {
    0 <= pos < s.len() && (is_digit(s[pos]) || (s[pos] == '.' && pos + 1 < s.len() && is_digit(
        s[pos + 1],
    )) || ((s[pos] == '+' || s[pos] == '-') && pos + 1 < s.len() && (is_digit(s[pos + 1]) || (s[pos
        + 1] == '.' && pos + 2 < s.len() && is_digit(s[pos + 2])))))
}

pub open spec fn num_int_start(s: Seq<char>, pos: int) -> int {
    if 0 <= pos < s.len() && (s[pos] == '+' || s[pos] == '-') {
        pos + 1
    } else {
        pos
    }
}

pub open spec fn num_int_end(s: Seq<char>, pos: int) -> int {
    digits_end(s, num_int_start(s, pos))
}

pub open spec fn num_has_frac(s: Seq<char>, pos: int) -> bool {
    let ie = num_int_end(s, pos);
    ie + 1 < s.len() && s[ie] == '.' && is_digit(s[ie + 1])
}

pub open spec fn num_frac_end(s: Seq<char>, pos: int) -> int {
    if num_has_frac(s, pos) {
        digits_end(s, num_int_end(s, pos) + 1)
    } else {
        num_int_end(s, pos)
    }
}

pub open spec fn num_has_exp(s: Seq<char>, pos: int) -> bool {
    let fe = num_frac_end(s, pos);
    0 <= fe && fe < s.len() && (s[fe] == 'e' || s[fe] == 'E') && ((fe + 1 < s.len() && is_digit(
        s[fe + 1],
    )) || (fe + 2 < s.len() && (s[fe + 1] == '+' || s[fe + 1] == '-') && is_digit(s[fe + 2])))
}

pub open spec fn num_exp_digits_start(s: Seq<char>, pos: int) -> int {
    let fe = num_frac_end(s, pos);
    if fe + 1 < s.len() && (s[fe + 1] == '+' || s[fe + 1] == '-') {
        fe + 2
    } else {
        fe + 1
    }
}

/// The end of the number token starting at `pos`.
pub open spec fn num_end(s: Seq<char>, pos: int) -> int {
    if num_has_exp(s, pos) {
        digits_end(s, num_exp_digits_start(s, pos))
    } else {
        num_frac_end(s, pos)
    }
}

/// One step of decimal accumulation, saturating so the result always fits
/// the positive range of `i64`.
pub open spec fn push_digit(acc: u64, c: char) -> u64 {
    if !is_digit(c) {
        acc
    } else {
        let d = (c as u32 - 0x30) as u64;
        if acc > ((0x7FFF_FFFF_FFFF_FFFFu64 - d) / 10) as u64 {
            0x7FFF_FFFF_FFFF_FFFFu64
        } else {
            (acc * 10 + d) as u64
        }
    }
}

/// Folds the digits of `s[from..to]` onto `acc`, saturating.
pub open spec fn digits_acc(s: Seq<char>, acc: u64, from: int, to: int) -> u64
    decreases to - from,
{
    if from < 0 || from >= to || to > s.len() {
        acc
    } else {
        digits_acc(s, push_digit(acc, s[from]), from + 1, to)
    }
}

pub proof fn lemma_push_digit_bound(acc: u64, c: char)
    requires
        acc <= 0x7FFF_FFFF_FFFF_FFFFu64,
    ensures
        push_digit(acc, c) <= 0x7FFF_FFFF_FFFF_FFFFu64,
{
}

pub proof fn lemma_digits_acc_bound(s: Seq<char>, acc: u64, from: int, to: int)
    requires
        acc <= 0x7FFF_FFFF_FFFF_FFFFu64,
    ensures
        digits_acc(s, acc, from, to) <= 0x7FFF_FFFF_FFFF_FFFFu64,
    decreases to - from,
{
    if !(from < 0 || from >= to || to > s.len()) {
        lemma_push_digit_bound(acc, s[from]);
        lemma_digits_acc_bound(s, push_digit(acc, s[from]), from + 1, to);
    }
}

/// Ten to the power `p`, for small `p`.
pub open spec fn pow10(p: int) -> u64
    decreases p,
{
    if p <= 0 {
        1
    } else {
        (10 * pow10(p - 1)) as u64
    }
}

/// Ten to the power `p` as an unbounded integer.
pub open spec fn cap10(p: int) -> int
    decreases p,
{
    if p <= 0 {
        1
    } else {
        10 * cap10(p - 1)
    }
}

pub proof fn lemma_cap10_pos(p: int)
    ensures
        cap10(p) >= 1,
    decreases p,
{
    if p > 0 {
        lemma_cap10_pos(p - 1);
    }
}

pub proof fn lemma_cap10_mono(p1: int, p2: int)
    requires
        p1 <= p2,
    ensures
        cap10(p1) <= cap10(p2),
    decreases p2 - p1,
{
    if p1 < p2 {
        lemma_cap10_mono(p1, p2 - 1);
        lemma_cap10_pos(p2 - 1);
    }
}

pub proof fn lemma_pow10_bound(p: int)
    requires
        0 <= p <= 18,
    ensures
        pow10(p) == cap10(p),
        1 <= pow10(p),
        pow10(p) <= 1_000_000_000_000_000_000u64,
        p <= 17 ==> pow10(p) <= 100_000_000_000_000_000u64,
    decreases p,
{
    assert(cap10(18) == 1_000_000_000_000_000_000) by {
        reveal_with_fuel(cap10, 20);
    }
    assert(cap10(17) == 100_000_000_000_000_000) by {
        reveal_with_fuel(cap10, 20);
    }
    if p > 0 {
        lemma_pow10_bound(p - 1);
        lemma_cap10_mono(p - 1, 17);
    }
    lemma_cap10_pos(p);
    lemma_cap10_mono(p, 18);
    if p <= 17 {
        lemma_cap10_mono(p, 17);
    }
}

pub open spec fn clamp18(p: int) -> int {
    if p > 18 {
        18
    } else if p < 0 {
        0
    } else {
        p
    }
}

/// Saturating product, capped at the positive range of `i64`.
pub open spec fn mul_sat(a: u64, b: u64) -> u64 {
    if a == 0 {
        0
    } else if b > (0x7FFF_FFFF_FFFF_FFFFu64 / a) as u64 {
        0x7FFF_FFFF_FFFF_FFFFu64
    } else {
        (a * b) as u64
    }
}

pub open spec fn num_neg(s: Seq<char>, pos: int) -> bool {
    0 <= pos < s.len() && s[pos] == '-'
}

/// The digits of the integer and fraction parts, read as one saturated
/// decimal integer.
pub open spec fn num_mantissa(s: Seq<char>, pos: int) -> u64 {
    let int_part = digits_acc(s, 0, num_int_start(s, pos), num_int_end(s, pos));
    if num_has_frac(s, pos) {
        digits_acc(s, int_part, num_int_end(s, pos) + 1, num_frac_end(s, pos))
    } else {
        int_part
    }
}

pub open spec fn num_frac_len(s: Seq<char>, pos: int) -> int {
    if num_has_frac(s, pos) {
        num_frac_end(s, pos) - (num_int_end(s, pos) + 1)
    } else {
        0
    }
}

pub open spec fn num_exp_val(s: Seq<char>, pos: int) -> u64 {
    if num_has_exp(s, pos) {
        digits_acc(s, 0, num_exp_digits_start(s, pos), num_end(s, pos))
    } else {
        0
    }
}

pub open spec fn num_exp_neg(s: Seq<char>, pos: int) -> bool {
    let fe = num_frac_end(s, pos);
    num_has_exp(s, pos) && fe + 1 < s.len() && s[fe + 1] == '-'
}

/// The power of ten the numerator is scaled up by.
pub open spec fn num_num_pow(s: Seq<char>, pos: int) -> int {
    if num_has_exp(s, pos) && !num_exp_neg(s, pos) && num_exp_val(s, pos) >= num_frac_len(
        s,
        pos,
    ) {
        num_exp_val(s, pos) - num_frac_len(s, pos)
    } else {
        0
    }
}

/// The power of ten of the denominator.
pub open spec fn num_den_pow(s: Seq<char>, pos: int) -> int {
    if num_has_exp(s, pos) && !num_exp_neg(s, pos) {
        if num_exp_val(s, pos) >= num_frac_len(s, pos) {
            0
        } else {
            num_frac_len(s, pos) - num_exp_val(s, pos)
        }
    } else if num_exp_neg(s, pos) {
        num_frac_len(s, pos) + num_exp_val(s, pos)
    } else {
        num_frac_len(s, pos)
    }
}

pub open spec fn num_numer_u(s: Seq<char>, pos: int) -> u64 {
    mul_sat(num_mantissa(s, pos), pow10(clamp18(num_num_pow(s, pos))))
}

/// The numerator of the decoded value.
pub open spec fn num_numerator(s: Seq<char>, pos: int) -> i64 {
    if num_neg(s, pos) {
        (-(num_numer_u(s, pos) as int)) as i64
    } else {
        num_numer_u(s, pos) as i64
    }
}

/// The denominator of the decoded value: a power of ten.
pub open spec fn num_denominator(s: Seq<char>, pos: int) -> u64 {
    pow10(clamp18(num_den_pow(s, pos)))
}

pub open spec fn num_is_int(s: Seq<char>, pos: int) -> bool {
    !num_has_frac(s, pos) && !num_has_exp(s, pos)
}

/// `nv` is exactly the numeric payload of the number token at `pos`.
pub open spec fn num_matches(s: Seq<char>, pos: int, nv: NumericValue) -> bool {
    &&& nv.representation@ == s.subrange(pos, num_end(s, pos))
    &&& nv.numerator == num_numerator(s, pos)
    &&& nv.denominator == num_denominator(s, pos)
    &&& nv.int_value == if num_is_int(s, pos) {
        Some(num_numerator(s, pos))
    } else {
        None::<i64>
    }
}

// ---------------------------------------------------------------------------
// Strings.
// ---------------------------------------------------------------------------

/// The outcome of scanning a string body: whether a bare newline aborted it,
/// the decoded text, and the position after the token.
pub struct SpecStrScan {
    pub bad: bool,
    pub val: Seq<char>,
    pub end: int,
}

/// Scans a string body starting at `pos` (after the opening quote `q`).
/// A bare newline aborts the string and is left unconsumed; end of input
/// terminates it normally; escapes are decoded, and a backslash-newline
/// pair is a line continuation.
pub open spec fn str_scan(s: Seq<char>, pos: int, q: char) -> SpecStrScan
    decreases s.len() - pos,
{
    if pos < 0 || pos >= s.len() {
        SpecStrScan { bad: false, val: Seq::empty(), end: s.len() as int }
    } else if s[pos] == q {
        SpecStrScan { bad: false, val: Seq::empty(), end: pos + 1 }
    } else if s[pos] == '\n' {
        SpecStrScan { bad: true, val: Seq::empty(), end: pos }
    } else if s[pos] == '\\' {
        if pos + 1 >= s.len() {
            SpecStrScan { bad: false, val: Seq::empty(), end: s.len() as int }
        } else if s[pos + 1] == '\n' {
            str_scan(s, pos + 2, q)
        } else {
            let r = str_scan(s, escape_end(s, pos + 1), q);
            SpecStrScan { bad: r.bad, val: seq![escape_char(s, pos + 1)] + r.val, end: r.end }
        }
    } else {
        let r = str_scan(s, pos + 1, q);
        SpecStrScan { bad: r.bad, val: seq![s[pos]] + r.val, end: r.end }
    }
}

pub proof fn lemma_str_scan(s: Seq<char>, pos: int, q: char)
    requires
        0 <= pos <= s.len(),
    ensures
        pos <= str_scan(s, pos, q).end <= s.len(),
    decreases s.len() - pos,
{
    if 0 <= pos < s.len() {
        if s[pos] == q || s[pos] == '\n' {
        } else if s[pos] == '\\' {
            if pos + 1 >= s.len() {
            } else if s[pos + 1] == '\n' {
                lemma_str_scan(s, pos + 2, q);
            } else {
                lemma_str_scan(s, escape_end(s, pos + 1), q);
            }
        } else {
            lemma_str_scan(s, pos + 1, q);
        }
    }
}

// ---------------------------------------------------------------------------
// Raw URLs.
// ---------------------------------------------------------------------------

/// A character that may not appear unescaped in a raw URL body.
pub open spec fn non_printable(c: char) -> bool {
    c as u32 <= 0x08 || c as u32 == 0x0B || (0x0E <= c as u32 <= 0x1F) || c as u32 == 0x7F
}

/// The position after the remnants of a bad URL: everything up to and
/// including the matching close parenthesis, honoring escapes.
pub open spec fn bad_url_end(s: Seq<char>, pos: int) -> int
    decreases s.len() - pos,
{
    if pos < 0 || pos >= s.len() {
        s.len() as int
    } else if s[pos] == ')' {
        pos + 1
    } else if valid_escape(s, pos) {
        bad_url_end(s, escape_end(s, pos + 1))
    } else {
        bad_url_end(s, pos + 1)
    }
}

pub proof fn lemma_bad_url_end(s: Seq<char>, pos: int)
    requires
        0 <= pos <= s.len(),
    ensures
        pos <= bad_url_end(s, pos) <= s.len(),
    decreases s.len() - pos,
{
    if 0 <= pos < s.len() && s[pos] != ')' {
        if valid_escape(s, pos) {
            lemma_bad_url_end(s, escape_end(s, pos + 1));
        } else {
            lemma_bad_url_end(s, pos + 1);
        }
    }
}

/// The outcome of scanning a raw URL body.
pub struct SpecUrlScan {
    pub bad: bool,
    pub val: Seq<char>,
    pub end: int,
}

/// Scans a raw URL body starting at `pos` (after `url(` and any leading
/// white space). Quotes, an extra `(`, non-printable characters, interior
/// white space and invalid escapes make the URL bad, which consumes to the
/// matching close parenthesis.
pub open spec fn url_scan(s: Seq<char>, pos: int) -> SpecUrlScan
    decreases s.len() - pos,
{
    if pos < 0 || pos >= s.len() {
        SpecUrlScan { bad: false, val: Seq::empty(), end: s.len() as int }
    } else if s[pos] == ')' {
        SpecUrlScan { bad: false, val: Seq::empty(), end: pos + 1 }
    } else if is_ws(s[pos]) {
        let w = ws_end(s, pos);
        if w >= s.len() {
            SpecUrlScan { bad: false, val: Seq::empty(), end: s.len() as int }
        } else if s[w] == ')' {
            SpecUrlScan { bad: false, val: Seq::empty(), end: w + 1 }
        } else {
            proof {
                lemma_ws_end(s, pos);
            }
            SpecUrlScan { bad: true, val: Seq::empty(), end: bad_url_end(s, w) }
        }
    } else if s[pos] == '"' || s[pos] == '\'' || s[pos] == '(' || non_printable(s[pos]) {
        SpecUrlScan { bad: true, val: Seq::empty(), end: bad_url_end(s, pos) }
    } else if s[pos] == '\\' {
        if valid_escape(s, pos) {
            let r = url_scan(s, escape_end(s, pos + 1));
            SpecUrlScan { bad: r.bad, val: seq![escape_char(s, pos + 1)] + r.val, end: r.end }
        } else {
            SpecUrlScan { bad: true, val: Seq::empty(), end: bad_url_end(s, pos) }
        }
    } else {
        let r = url_scan(s, pos + 1);
        SpecUrlScan { bad: r.bad, val: seq![s[pos]] + r.val, end: r.end }
    }
}

pub proof fn lemma_url_scan(s: Seq<char>, pos: int)
    requires
        0 <= pos <= s.len(),
    ensures
        pos <= url_scan(s, pos).end <= s.len(),
    decreases s.len() - pos,
{
    if 0 <= pos < s.len() {
        lemma_ws_end(s, pos);
        lemma_bad_url_end(s, pos);
        if is_ws(s[pos]) {
            if ws_end(s, pos) < s.len() && s[ws_end(s, pos)] != ')' {
                lemma_bad_url_end(s, ws_end(s, pos));
            }
        } else if s[pos] == '\\' && valid_escape(s, pos) {
            lemma_url_scan(s, escape_end(s, pos + 1));
        } else if !(s[pos] == ')' || s[pos] == '"' || s[pos] == '\'' || s[pos] == '('
            || non_printable(s[pos])) {
            lemma_url_scan(s, pos + 1);
        }
    }
}

// ---------------------------------------------------------------------------
// Unicode ranges.
// ---------------------------------------------------------------------------

/// `u+` or `U+` followed by a hex digit or `?` begins a unicode range.
pub open spec fn uni_at(s: Seq<char>, pos: int) -> bool {
    0 <= pos && pos + 2 < s.len() && (s[pos] == 'u' || s[pos] == 'U') && s[pos + 1] == '+' && (
    is_hex_digit(s[pos + 2]) || s[pos + 2] == '?')
}

/// The end of a run of at most `cap` question marks starting at `p`.
pub open spec fn question_run_end(s: Seq<char>, p: int, cap: int) -> int
    decreases cap,
{
    if cap <= 0 || !(0 <= p < s.len()) || s[p] != '?' {
        p
    } else {
        question_run_end(s, p + 1, cap - 1)
    }
}

pub proof fn lemma_question_run_end(s: Seq<char>, p: int, cap: int)
    requires
        0 <= p <= s.len(),
    ensures
        p <= question_run_end(s, p, cap) <= s.len(),
        question_run_end(s, p, cap) - p <= if cap >= 0 { cap } else { 0 },
    decreases cap,
{
    if !(cap <= 0 || !(0 <= p < s.len()) || s[p] != '?') {
        lemma_question_run_end(s, p + 1, cap - 1);
    }
}

/// The value of the hex-or-question pattern in `s[from..to]`, with `?`
/// read as 0 (`low`) or as F (`high`).
pub open spec fn hexq_val(s: Seq<char>, from: int, to: int, low: bool) -> int
    decreases to - from,
{
    if from >= to {
        0
    } else {
        hexq_val(s, from, to - 1, low) * 16 + if 0 <= to - 1 < s.len() && is_hex_digit(
            s[to - 1],
        ) {
            hex_value(s[to - 1]) as int
        } else if low {
            0
        } else {
            15
        }
    }
}

pub proof fn lemma_hexq_bound(s: Seq<char>, from: int, to: int, low: bool)
    ensures
        0 <= hexq_val(s, from, to, low),
        to - from <= 1 ==> hexq_val(s, from, to, low) < 0x10,
        to - from <= 2 ==> hexq_val(s, from, to, low) < 0x100,
        to - from <= 3 ==> hexq_val(s, from, to, low) < 0x1000,
        to - from <= 4 ==> hexq_val(s, from, to, low) < 0x10000,
        to - from <= 5 ==> hexq_val(s, from, to, low) < 0x100000,
        to - from <= 6 ==> hexq_val(s, from, to, low) < 0x1000000,
    decreases to - from,
{
    if from < to {
        lemma_hexq_bound(s, from, to - 1, low);
    }
}

/// End of the first hex-digit part of the range pattern.
pub open spec fn uni_hex1_end(s: Seq<char>, pos: int) -> int {
    hex_run_end(s, pos + 2)
}

/// End of the question-mark part of the range pattern.
pub open spec fn uni_q_end(s: Seq<char>, pos: int) -> int {
    question_run_end(s, uni_hex1_end(s, pos), 6 - (uni_hex1_end(s, pos) - (pos + 2)))
}

/// Whether the range pattern has an explicit second bound `-hhh`.
pub open spec fn uni_has_second(s: Seq<char>, pos: int) -> bool {
    let h1 = uni_hex1_end(s, pos);
    uni_q_end(s, pos) == h1 && h1 < s.len() && s[h1] == '-' && hex_at(s, h1 + 1)
}

/// The position after the whole unicode-range token.
pub open spec fn uni_end(s: Seq<char>, pos: int) -> int {
    if uni_q_end(s, pos) > uni_hex1_end(s, pos) {
        uni_q_end(s, pos)
    } else if uni_has_second(s, pos) {
        hex_run_end(s, uni_hex1_end(s, pos) + 1)
    } else {
        uni_hex1_end(s, pos)
    }
}

/// The inclusive lower bound the token denotes.
pub open spec fn uni_start_val(s: Seq<char>, pos: int) -> int {
    hexq_val(s, pos + 2, uni_q_end(s, pos), true)
}

/// The inclusive upper bound the token denotes.
pub open spec fn uni_end_val(s: Seq<char>, pos: int) -> int {
    if uni_q_end(s, pos) > uni_hex1_end(s, pos) {
        hexq_val(s, pos + 2, uni_q_end(s, pos), false)
    } else if uni_has_second(s, pos) {
        hexq_val(s, uni_hex1_end(s, pos) + 1, hex_run_end(s, uni_hex1_end(s, pos) + 1), true)
    } else {
        uni_start_val(s, pos)
    }
}

// ---------------------------------------------------------------------------
// Token classification predicates.
// ---------------------------------------------------------------------------

pub open spec fn cdo_at(s: Seq<char>, pos: int) -> bool {
    0 <= pos && pos + 3 < s.len() && s[pos] == '<' && s[pos + 1] == '!' && s[pos + 2] == '-'
        && s[pos + 3] == '-'
}

pub open spec fn cdc_at(s: Seq<char>, pos: int) -> bool {
    0 <= pos && pos + 2 < s.len() && s[pos] == '-' && s[pos + 1] == '-' && s[pos + 2] == '>'
}

/// A second character `=` or a doubled `|` follows.
pub open spec fn pair_at(s: Seq<char>, pos: int, second: char) -> bool {
    0 <= pos && pos + 1 < s.len() && s[pos + 1] == second
}

/// A `#` introducing a hash token (followed by a name character or escape).
pub open spec fn hash_at(s: Seq<char>, pos: int) -> bool {
    0 <= pos < s.len() && s[pos] == '#' && pos + 1 < s.len() && (is_name_char(s[pos + 1])
        || valid_escape(s, pos + 1))
}

/// The character at `pos` is classified as a lone delimiter: no other token
/// class claims it.
pub open spec fn delim_ok(s: Seq<char>, pos: int) -> bool {
    let c = s[pos];
    &&& 0 <= pos < s.len()
    &&& !is_ws(c)
    &&& c != '"' && c != '\''
    &&& !(is_name_start(c) || valid_escape(s, pos))
    &&& !is_digit(c)
    &&& c != '(' && c != ')' && c != '[' && c != ']' && c != '{' && c != '}'
    &&& c != ':' && c != ';' && c != ','
    &&& (c == '#' ==> !hash_at(s, pos))
    &&& (c == '+' || c == '.' ==> !starts_number(s, pos))
    &&& (c == '-' ==> !starts_number(s, pos) && !starts_ident(s, pos) && !cdc_at(s, pos))
    &&& (c == '<' ==> !cdo_at(s, pos))
    &&& (c == '@' ==> !starts_ident(s, pos + 1))
    &&& (c == '~' || c == '^' || c == '$' || c == '*' ==> !pair_at(s, pos, '='))
    &&& (c == '|' ==> !pair_at(s, pos, '=') && !pair_at(s, pos, '|'))
    &&& (c == '/' ==> !comment_at(s, pos))
}

/// An identifier-shaped token begins at `pos` (and it is not a unicode
/// range).
pub open spec fn identlike_at(s: Seq<char>, pos: int) -> bool {
    starts_ident(s, pos) && !uni_at(s, pos) && !cdc_at(s, pos)
}

/// After `name(` for a name that lower-cases to `url`: the argument starts
/// (after white space) with a quote, so the token is an ordinary function.
pub open spec fn url_is_quoted(s: Seq<char>, after_paren: int) -> bool {
    let w = ws_end(s, after_paren);
    w < s.len() && (s[w] == '"' || s[w] == '\'')
}

pub open spec fn is_url_name(n: Seq<char>) -> bool {
    lower_seq(n) == seq!['u', 'r', 'l']
}

/// The content of `cv` is exactly that of the token starting at `pos`
/// (nested content included); `token_end_of` gives the matching end
/// position.
pub open spec fn token_ok(s: Seq<char>, pos: int, cv: ComponentValue) -> bool
    decreases cv,
{
    0 <= pos < s.len() && match cv {
        ComponentValue::WhiteSpace => is_ws(s[pos]),
        ComponentValue::QuotedString(v) => {
            &&& (s[pos] == '"' || s[pos] == '\'')
            &&& !str_scan(s, pos + 1, s[pos]).bad
            &&& v@ == str_scan(s, pos + 1, s[pos]).val
        },
        ComponentValue::BadString => {
            &&& (s[pos] == '"' || s[pos] == '\'')
            &&& str_scan(s, pos + 1, s[pos]).bad
        },
        ComponentValue::Hash(n) => {
            &&& hash_at(s, pos) && !starts_ident(s, pos + 1)
            &&& n@ == name_val(s, pos + 1)
        },
        ComponentValue::IDHash(n) => {
            &&& hash_at(s, pos) && starts_ident(s, pos + 1)
            &&& n@ == name_val(s, pos + 1)
        },
        ComponentValue::AtKeyword(n) => {
            &&& s[pos] == '@' && starts_ident(s, pos + 1)
            &&& n@ == name_val(s, pos + 1)
        },
        ComponentValue::Number(nv) => {
            &&& starts_number(s, pos)
            &&& num_matches(s, pos, nv)
            &&& !(num_end(s, pos) < s.len() && s[num_end(s, pos)] == '%')
            &&& !starts_ident(s, num_end(s, pos))
        },
        ComponentValue::Percentage(nv) => {
            &&& starts_number(s, pos)
            &&& num_matches(s, pos, nv)
            &&& num_end(s, pos) < s.len() && s[num_end(s, pos)] == '%'
        },
        ComponentValue::Dimension(nv, unit) => {
            &&& starts_number(s, pos)
            &&& num_matches(s, pos, nv)
            &&& !(num_end(s, pos) < s.len() && s[num_end(s, pos)] == '%')
            &&& starts_ident(s, num_end(s, pos))
            &&& unit@ == name_val(s, num_end(s, pos))
        },
        ComponentValue::UnicodeRange(a, b) => {
            &&& uni_at(s, pos)
            &&& a == uni_start_val(s, pos)
            &&& b == uni_end_val(s, pos)
        },
        ComponentValue::Ident(n) => {
            &&& identlike_at(s, pos)
            &&& n@ == name_val(s, pos)
            &&& !(name_end(s, pos) < s.len() && s[name_end(s, pos)] == '(')
        },
        ComponentValue::Function(n, args) => {
            &&& identlike_at(s, pos)
            &&& n@ == name_val(s, pos)
            &&& name_end(s, pos) < s.len() && s[name_end(s, pos)] == '('
            &&& (is_url_name(name_val(s, pos)) ==> url_is_quoted(s, name_end(s, pos) + 1))
            &&& plain_list_ok(s, name_end(s, pos) + 1, args@, ')')
        },
        ComponentValue::URL(v) => {
            &&& identlike_at(s, pos)
            &&& is_url_name(name_val(s, pos))
            &&& name_end(s, pos) < s.len() && s[name_end(s, pos)] == '('
            &&& !url_is_quoted(s, name_end(s, pos) + 1)
            &&& !url_scan(s, ws_end(s, name_end(s, pos) + 1)).bad
            &&& v@ == url_scan(s, ws_end(s, name_end(s, pos) + 1)).val
        },
        ComponentValue::BadURL => {
            &&& identlike_at(s, pos)
            &&& is_url_name(name_val(s, pos))
            &&& name_end(s, pos) < s.len() && s[name_end(s, pos)] == '('
            &&& !url_is_quoted(s, name_end(s, pos) + 1)
            &&& url_scan(s, ws_end(s, name_end(s, pos) + 1)).bad
        },
        ComponentValue::ParenthesisBlock(c) => {
            s[pos] == '(' && plain_list_ok(s, pos + 1, c@, ')')
        },
        ComponentValue::SquareBracketBlock(c) => {
            s[pos] == '[' && plain_list_ok(s, pos + 1, c@, ']')
        },
        ComponentValue::CurlyBracketBlock(c) => {
            s[pos] == '{' && loc_list_ok(s, pos + 1, c@, '}')
        },
        ComponentValue::CloseParenthesis => s[pos] == ')',
        ComponentValue::CloseSquareBracket => s[pos] == ']',
        ComponentValue::CloseCurlyBracket => s[pos] == '}',
        ComponentValue::Colon => s[pos] == ':',
        ComponentValue::Semicolon => s[pos] == ';',
        ComponentValue::Comma => s[pos] == ',',
        ComponentValue::IncludeMatch => s[pos] == '~' && pair_at(s, pos, '='),
        ComponentValue::DashMatch => s[pos] == '|' && pair_at(s, pos, '='),
        ComponentValue::PrefixMatch => s[pos] == '^' && pair_at(s, pos, '='),
        ComponentValue::SuffixMatch => s[pos] == '$' && pair_at(s, pos, '='),
        ComponentValue::SubstringMatch => s[pos] == '*' && pair_at(s, pos, '='),
        ComponentValue::Column => s[pos] == '|' && pair_at(s, pos, '|') && !pair_at(s, pos, '='),
        ComponentValue::CDO => cdo_at(s, pos),
        ComponentValue::CDC => cdc_at(s, pos),
        ComponentValue::Delim(c) => s[pos] == c && delim_ok(s, pos),
    }
}

/// The position right after the token `cv` starting at `pos`.
pub open spec fn token_end_of(s: Seq<char>, pos: int, cv: ComponentValue) -> int
    decreases cv,
{
    match cv {
        ComponentValue::WhiteSpace => ws_end(s, pos),
        ComponentValue::QuotedString(_) => str_scan(s, pos + 1, s[pos]).end,
        ComponentValue::BadString => str_scan(s, pos + 1, s[pos]).end,
        ComponentValue::Hash(_) => name_end(s, pos + 1),
        ComponentValue::IDHash(_) => name_end(s, pos + 1),
        ComponentValue::AtKeyword(_) => name_end(s, pos + 1),
        ComponentValue::Number(_) => num_end(s, pos),
        ComponentValue::Percentage(_) => num_end(s, pos) + 1,
        ComponentValue::Dimension(_, _) => name_end(s, num_end(s, pos)),
        ComponentValue::UnicodeRange(_, _) => uni_end(s, pos),
        ComponentValue::Ident(_) => name_end(s, pos),
        ComponentValue::Function(_, args) => plain_list_end(s, name_end(s, pos) + 1, args@, ')'),
        ComponentValue::URL(_) => url_scan(s, ws_end(s, name_end(s, pos) + 1)).end,
        ComponentValue::BadURL => url_scan(s, ws_end(s, name_end(s, pos) + 1)).end,
        ComponentValue::ParenthesisBlock(c) => plain_list_end(s, pos + 1, c@, ')'),
        ComponentValue::SquareBracketBlock(c) => plain_list_end(s, pos + 1, c@, ']'),
        ComponentValue::CurlyBracketBlock(c) => loc_list_end(s, pos + 1, c@, '}'),
        ComponentValue::IncludeMatch => pos + 2,
        ComponentValue::DashMatch => pos + 2,
        ComponentValue::PrefixMatch => pos + 2,
        ComponentValue::SuffixMatch => pos + 2,
        ComponentValue::SubstringMatch => pos + 2,
        ComponentValue::Column => pos + 2,
        ComponentValue::CDO => pos + 4,
        ComponentValue::CDC => pos + 3,
        _ => pos + 1,
    }
}

/// The contents of `toks` (without locations) are exactly the component
/// values from `pos` up to the matching `close` character or the end of
/// input.
pub open spec fn plain_list_ok(s: Seq<char>, pos: int, toks: Seq<ComponentValue>, close: char) -> bool
    decreases toks,
{
    let p = after_comments(s, pos);
    if p >= s.len() {
        toks.len() == 0
    } else if s[p] == close {
        toks.len() == 0
    } else {
        toks.len() > 0 && token_ok(s, p, toks[0]) && plain_list_ok(
            s,
            token_end_of(s, p, toks[0]),
            toks.drop_first(),
            close,
        )
    }
}

/// The position after the consumed closer (or the input length) for the
/// list starting at `pos`.
pub open spec fn plain_list_end(s: Seq<char>, pos: int, toks: Seq<ComponentValue>, close: char) -> int
    decreases toks,
{
    let p = after_comments(s, pos);
    if p >= s.len() {
        s.len() as int
    } else if s[p] == close {
        p + 1
    } else if toks.len() == 0 {
        p
    } else {
        plain_list_end(s, token_end_of(s, p, toks[0]), toks.drop_first(), close)
    }
}

/// As `plain_list_ok`, for lists that also record source locations.
pub open spec fn loc_list_ok(
    s: Seq<char>,
    pos: int,
    toks: Seq<(ComponentValue, SourceLocation)>,
    close: char,
) -> bool
    decreases toks,
{
    let p = after_comments(s, pos);
    if p >= s.len() {
        toks.len() == 0
    } else if s[p] == close {
        toks.len() == 0
    } else {
        toks.len() > 0 && toks[0].1 == spec_location(s, p) && token_ok(s, p, toks[0].0)
            && loc_list_ok(s, token_end_of(s, p, toks[0].0), toks.drop_first(), close)
    }
}

pub open spec fn loc_list_end(
    s: Seq<char>,
    pos: int,
    toks: Seq<(ComponentValue, SourceLocation)>,
    close: char,
) -> int
    decreases toks,
{
    let p = after_comments(s, pos);
    if p >= s.len() {
        s.len() as int
    } else if s[p] == close {
        p + 1
    } else if toks.len() == 0 {
        p
    } else {
        loc_list_end(s, token_end_of(s, p, toks[0].0), toks.drop_first(), close)
    }
}

/// `cv` is exactly the component value whose token starts at `pos`, and
/// `end` is the position right after it (nested content included).
pub open spec fn token_at(s: Seq<char>, pos: int, cv: ComponentValue, end: int) -> bool {
    token_ok(s, pos, cv) && end == token_end_of(s, pos, cv)
}

/// `toks` (with locations) are exactly the component values from `pos` up
/// to the matching `close` character (consumed) or the end of input, and
/// `end` is the position after the consumed closer or the input length.
pub open spec fn cv_loc_list_at(
    s: Seq<char>,
    pos: int,
    toks: Seq<(ComponentValue, SourceLocation)>,
    close: char,
    end: int,
) -> bool {
    loc_list_ok(s, pos, toks, close) && end == loc_list_end(s, pos, toks, close)
}

/// As `cv_loc_list_at`, without locations.
pub open spec fn cv_plain_list_at(
    s: Seq<char>,
    pos: int,
    toks: Seq<ComponentValue>,
    close: char,
    end: int,
) -> bool {
    plain_list_ok(s, pos, toks, close) && end == plain_list_end(s, pos, toks, close)
}

/// The top-level token list: `toks` are exactly the tokens of the whole
/// input from `pos` on. A stray closer is consumed as a pseudo-token here.
pub open spec fn tokens_from(
    s: Seq<char>,
    pos: int,
    toks: Seq<(ComponentValue, SourceLocation)>,
) -> bool
    decreases toks,
{
    let p = after_comments(s, pos);
    if p >= s.len() {
        toks.len() == 0
    } else {
        toks.len() > 0 && toks[0].1 == spec_location(s, p) && token_ok(s, p, toks[0].0)
            && tokens_from(s, token_end_of(s, p, toks[0].0), toks.drop_first())
    }
}

// ---------------------------------------------------------------------------
// Executable scanners for the simple runs.
// ---------------------------------------------------------------------------

fn exec_ws_end(s: &Vec<char>, pos: usize) -> (r: usize)
    requires
        pos <= s@.len(),
    ensures
        r as int == ws_end(s@, pos as int),
        pos <= r <= s@.len(),
    decreases s@.len() - pos,
{
    if pos < s.len() && exec_is_ws(s[pos]) {
        exec_ws_end(s, pos + 1)
    } else {
        pos
    }
}

fn exec_digits_end(s: &Vec<char>, pos: usize) -> (r: usize)
    requires
        pos <= s@.len(),
    ensures
        r as int == digits_end(s@, pos as int),
        pos <= r <= s@.len(),
    decreases s@.len() - pos,
{
    if pos < s.len() && exec_is_digit(s[pos]) {
        exec_digits_end(s, pos + 1)
    } else {
        pos
    }
}

fn exec_comment_at(s: &Vec<char>, pos: usize) -> (r: bool)
    requires
        pos <= s@.len(),
    ensures
        r == comment_at(s@, pos as int),
{
    if pos >= s.len() {
        false
    } else {
        pos + 1 < s.len() && s[pos] == '/' && s[pos + 1] == '*'
    }
}

fn exec_comment_close(s: &Vec<char>, p: usize) -> (r: usize)
    requires
        p <= s@.len(),
    ensures
        r as int == comment_close(s@, p as int),
        p <= r <= s@.len(),
    decreases s@.len() - p,
{
    if p >= s.len() {
        s.len()
    } else if p + 1 < s.len() && s[p] == '*' && s[p + 1] == '/' {
        p + 2
    } else {
        exec_comment_close(s, p + 1)
    }
}

fn exec_after_comments(s: &Vec<char>, pos: usize) -> (r: usize)
    requires
        pos <= s@.len(),
    ensures
        r as int == after_comments(s@, pos as int),
        pos <= r <= s@.len(),
        !comment_at(s@, r as int),
    decreases s@.len() - pos,
{
    proof {
        lemma_after_comments(s@, pos as int);
    }
    if exec_comment_at(s, pos) {
        let n = s.len();
        let e = exec_comment_close(s, pos + 2);
        proof {
            lemma_comment_close(s@, pos as int + 2);
        }
        exec_after_comments(s, e)
    } else {
        pos
    }
}

fn exec_valid_escape(s: &Vec<char>, pos: usize) -> (r: bool)
    requires
        pos <= s@.len(),
    ensures
        r == valid_escape(s@, pos as int),
{
    if pos >= s.len() {
        false
    } else {
        pos + 1 < s.len() && s[pos] == '\\' && s[pos + 1] != '\n'
    }
}

fn exec_starts_ident(s: &Vec<char>, pos: usize) -> (r: bool)
    requires
        pos <= s@.len(),
    ensures
        r == starts_ident(s@, pos as int),
{
    if pos >= s.len() {
        false
    } else if exec_is_name_start(s[pos]) || exec_valid_escape(s, pos) {
        true
    } else if s[pos] == '-' && pos + 1 < s.len() {
        exec_is_name_start(s[pos + 1]) || s[pos + 1] == '-' || exec_valid_escape(s, pos + 1)
    } else {
        false
    }
}

fn exec_starts_number(s: &Vec<char>, pos: usize) -> (r: bool)
    requires
        pos <= s@.len(),
    ensures
        r == starts_number(s@, pos as int),
{
    if pos >= s.len() {
        false
    } else if exec_is_digit(s[pos]) {
        true
    } else if s[pos] == '.' {
        pos + 1 < s.len() && exec_is_digit(s[pos + 1])
    } else if s[pos] == '+' || s[pos] == '-' {
        pos + 1 < s.len() && (exec_is_digit(s[pos + 1]) || (s[pos + 1] == '.' && pos + 2 < s.len()
            && exec_is_digit(s[pos + 2])))
    } else {
        false
    }
}

// ---------------------------------------------------------------------------
// Executable escape decoding.
// ---------------------------------------------------------------------------

fn exec_hex_run_end(s: &Vec<char>, p: usize) -> (r: usize)
    requires
        p <= s@.len(),
    ensures
        r as int == hex_run_end(s@, p as int),
        p <= r <= s@.len(),
        r - p <= 6,
{
    let mut j = p;
    while j < s.len() && j - p < 6 && exec_is_hex_digit(s[j])
        invariant
            p <= j <= s@.len(),
            j - p <= 6,
            forall|k: int| p <= k < j ==> hex_at(s@, k),
        decreases s@.len() - j,
    {
        j = j + 1;
    }
    proof {
        assert(!hex_at(s@, j as int) || j - p == 6);
    }
    j
}

/// Decodes the escape whose body starts at `p` (right after the
/// backslash); returns the denoted character and the position after the
/// escape.
fn exec_consume_escape(s: &Vec<char>, p: usize) -> (r: (char, usize))
    requires
        p <= s@.len(),
    ensures
        r.0 == escape_char(s@, p as int),
        r.1 as int == escape_end(s@, p as int),
        p <= r.1 <= s@.len(),
{
    if p >= s.len() {
        ('\u{FFFD}', p)
    } else if exec_is_hex_digit(s[p]) {
        let h = exec_hex_run_end(s, p);
        let mut v: u32 = 0;
        let mut j = p;
        while j < h
            invariant
                p <= j <= h <= s@.len(),
                h - p <= 6,
                h as int == hex_run_end(s@, p as int),
                v == hex_val_range(s@, p as int, j as int),
                v < 0x1000000,
            decreases h - j,
        {
            proof {
                lemma_hex_val_bound(s@, p as int, j as int);
                lemma_hex_val_bound(s@, p as int, j + 1);
                assert(hex_at(s@, j as int)) by {
                    assert(j < hex_run_end(s@, p as int));
                }
            }
            let d = exec_hex_value(s[j]);
            v = v * 16 + d;
            j = j + 1;
        }
        let e = if h < s.len() && exec_is_ws(s[h]) {
            h + 1
        } else {
            h
        };
        let c = if v == 0 || v > 0x10FFFF || (0xD800 <= v && v < 0xE000) {
            '\u{FFFD}'
        } else {
            match char::from_u32(v) {
                Some(c) => c,
                None => '\u{FFFD}',
            }
        };
        proof {
            assert(c == escape_char(s@, p as int));
        }
        (c, e)
    } else {
        (s[p], p + 1)
    }
}

// ---------------------------------------------------------------------------
// Executable name consumption.
// ---------------------------------------------------------------------------

/// Consumes the name starting at `pos`, decoding escapes.
fn consume_name_chars(s: &Vec<char>, pos: usize) -> (r: (Vec<char>, usize))
    requires
        pos <= s@.len(),
    ensures
        r.0@ == name_val(s@, pos as int),
        r.1 as int == name_end(s@, pos as int),
        pos <= r.1 <= s@.len(),
    decreases s@.len() - pos,
{
    if pos >= s.len() {
        let v: Vec<char> = Vec::new();
        proof {
            assert(v@ =~= name_val(s@, pos as int));
        }
        (v, pos)
    } else if exec_is_name_char(s[pos]) {
        let c = s[pos];
        let (mut v, e) = consume_name_chars(s, pos + 1);
        v.insert(0, c);
        proof {
            assert(v@ =~= name_val(s@, pos as int));
        }
        (v, e)
    } else if exec_valid_escape(s, pos) {
        let (c, ee) = exec_consume_escape(s, pos + 1);
        let (mut v, e) = consume_name_chars(s, ee);
        v.insert(0, c);
        proof {
            assert(v@ =~= name_val(s@, pos as int));
        }
        (v, e)
    } else {
        let v: Vec<char> = Vec::new();
        proof {
            assert(v@ =~= name_val(s@, pos as int));
        }
        (v, pos)
    }
}

fn consume_name(s: &Vec<char>, pos: usize) -> (r: (String, usize))
    requires
        pos <= s@.len(),
    ensures
        r.0@ == name_val(s@, pos as int),
        r.1 as int == name_end(s@, pos as int),
        pos <= r.1 <= s@.len(),
{
    let (v, e) = consume_name_chars(s, pos);
    (chars_to_string(&v), e)
}

// ---------------------------------------------------------------------------
// Executable number consumption.
// ---------------------------------------------------------------------------

fn exec_pow10(p: u64) -> (r: u64)
    requires
        p <= 18,
    ensures
        r == pow10(p as int),
        1 <= r <= 1_000_000_000_000_000_000u64,
{
    let mut r: u64 = 1;
    let mut i: u64 = 0;
    proof {
        lemma_pow10_bound(0);
    }
    while i < p
        invariant
            i <= p <= 18,
            r == pow10(i as int),
            1 <= r <= 1_000_000_000_000_000_000u64,
        decreases p - i,
    {
        proof {
            lemma_pow10_bound(i as int);
            lemma_pow10_bound(i as int + 1);
        }
        r = r * 10;
        i = i + 1;
    }
    r
}

pub fn exec_digits_acc_pub(s: &Vec<char>, acc0: u64, from: usize, to: usize) -> (r: u64)
    requires
        to <= s@.len(),
        acc0 <= 0x7FFF_FFFF_FFFF_FFFFu64,
    ensures
        r == digits_acc(s@, acc0, from as int, to as int),
        r <= 0x7FFF_FFFF_FFFF_FFFFu64,
{
    exec_digits_acc(s, acc0, from, to)
}

fn exec_digits_acc(s: &Vec<char>, acc0: u64, from: usize, to: usize) -> (r: u64)
    requires
        to <= s@.len(),
        acc0 <= 0x7FFF_FFFF_FFFF_FFFFu64,
    ensures
        r == digits_acc(s@, acc0, from as int, to as int),
        r <= 0x7FFF_FFFF_FFFF_FFFFu64,
{
    if from >= to {
        return acc0;
    }
    let mut acc = acc0;
    let mut j = from;
    while j < to
        invariant
            from <= j <= to <= s@.len(),
            acc <= 0x7FFF_FFFF_FFFF_FFFFu64,
            digits_acc(s@, acc0, from as int, to as int) == digits_acc(
                s@,
                acc,
                j as int,
                to as int,
            ),
        decreases to - j,
    {
        let c = s[j];
        if exec_is_digit(c) {
            let d = (c as u32 - 0x30) as u64;
            if acc > (0x7FFF_FFFF_FFFF_FFFFu64 - d) / 10 {
                acc = 0x7FFF_FFFF_FFFF_FFFFu64;
            } else {
                proof {
                    assert(acc * 10 + d <= 0x7FFF_FFFF_FFFF_FFFFu64) by (nonlinear_arith)
                        requires
                            acc <= (0x7FFF_FFFF_FFFF_FFFFu64 - d) / 10,
                            d <= 9,
                    ;
                }
                acc = acc * 10 + d;
            }
        }
        proof {
            assert(acc == push_digit(digits_acc(s@, acc0, from as int, j as int), s@[j as int])
                || true);
        }
        j = j + 1;
    }
    acc
}

fn exec_mul_sat(a: u64, b: u64) -> (r: u64)
    requires
        a <= 0x7FFF_FFFF_FFFF_FFFFu64,
        b >= 1,
    ensures
        r == mul_sat(a, b),
        r <= 0x7FFF_FFFF_FFFF_FFFFu64,
{
    if a == 0 {
        0
    } else if b > 0x7FFF_FFFF_FFFF_FFFFu64 / a {
        0x7FFF_FFFF_FFFF_FFFFu64
    } else {
        proof {
            assert(a * b <= 0x7FFF_FFFF_FFFF_FFFFu64) by (nonlinear_arith)
                requires
                    a >= 1,
                    b <= 0x7FFF_FFFF_FFFF_FFFFu64 / a,
            ;
        }
        a * b
    }
}

/// Copies `s[from..to]` into a fresh string.
fn copy_range(s: &Vec<char>, from: usize, to: usize) -> (r: String)
    requires
        from <= to <= s@.len(),
    ensures
        r@ == s@.subrange(from as int, to as int),
{
    let mut v: Vec<char> = Vec::new();
    let mut j = from;
    while j < to
        invariant
            from <= j <= to <= s@.len(),
            v@ == s@.subrange(from as int, j as int),
        decreases to - j,
    {
        v.push(s[j]);
        proof {
            assert(v@ =~= s@.subrange(from as int, j + 1));
        }
        j = j + 1;
    }
    chars_to_string(&v)
}

/// Consumes the number starting at `pos` together with a following `%` or
/// unit, yielding the Number, Percentage or Dimension token.
#[verifier::rlimit(100)]
fn consume_numeric(s: &Vec<char>, pos: usize) -> (r: (ComponentValue, usize))
    requires
        pos < s@.len(),
        starts_number(s@, pos as int),
    ensures
        token_at(s@, pos as int, r.0, r.1 as int),
        pos < r.1 <= s@.len(),
{
    let n = s.len();
    let ghost sq = s@;
    let ghost gpos = pos as int;
    let neg = s[pos] == '-';
    let is0 = if s[pos] == '+' || s[pos] == '-' {
        pos + 1
    } else {
        pos
    };
    proof {
        assert(is0 as int == num_int_start(sq, gpos));
    }
    let ie = exec_digits_end(s, is0);
    let has_frac = ie < n && s[ie] == '.' && ie + 1 < n && exec_is_digit(s[ie + 1]);
    proof {
        assert(has_frac == num_has_frac(sq, gpos));
    }
    let fe = if has_frac {
        exec_digits_end(s, ie + 1)
    } else {
        ie
    };
    proof {
        assert(fe as int == num_frac_end(sq, gpos));
    }
    let has_exp = fe < n && (s[fe] == 'e' || s[fe] == 'E') && ((fe + 1 < n && exec_is_digit(
        s[fe + 1],
    )) || (fe + 1 < n && (s[fe + 1] == '+' || s[fe + 1] == '-') && fe + 2 < n && exec_is_digit(
        s[fe + 2],
    )));
    proof {
        assert(has_exp == num_has_exp(sq, gpos));
    }
    let eds = if has_exp && (s[fe + 1] == '+' || s[fe + 1] == '-') {
        fe + 2
    } else if has_exp {
        fe + 1
    } else {
        fe
    };
    let end_num = if has_exp {
        exec_digits_end(s, eds)
    } else {
        fe
    };
    proof {
        if has_exp {
            assert(eds as int == num_exp_digits_start(sq, gpos));
        }
        assert(end_num as int == num_end(sq, gpos));
        lemma_digits_end(sq, is0 as int);
    }
    let int_part = exec_digits_acc(s, 0, is0, ie);
    let mant = if has_frac {
        exec_digits_acc(s, int_part, ie + 1, fe)
    } else {
        int_part
    };
    proof {
        assert(mant == num_mantissa(sq, gpos));
    }
    let ev: u64 = if has_exp {
        exec_digits_acc(s, 0, eds, end_num)
    } else {
        0
    };
    let exp_neg = has_exp && s[fe + 1] == '-';
    proof {
        assert(ev == num_exp_val(sq, gpos));
        assert(exp_neg == num_exp_neg(sq, gpos));
    }
    proof {
        if has_frac {
            lemma_digits_end(sq, ie as int + 1);
        }
    }
    let frac_len: u64 = if has_frac {
        (fe - (ie + 1)) as u64
    } else {
        0
    };
    let (np_c, dp_c): (u64, u64) = if has_exp && !exp_neg {
        if ev >= frac_len {
            let np = ev - frac_len;
            (
                if np > 18 {
                    18
                } else {
                    np
                },
                0,
            )
        } else {
            let dp = frac_len - ev;
            (
                0,
                if dp > 18 {
                    18
                } else {
                    dp
                },
            )
        }
    } else if exp_neg {
        let dp: u64 = if frac_len > 18 {
            18
        } else if ev > 18 {
            18
        } else if frac_len + ev > 18 {
            18
        } else {
            frac_len + ev
        };
        (0, dp)
    } else {
        (
            0,
            if frac_len > 18 {
                18
            } else {
                frac_len
            },
        )
    };
    proof {
        assert(np_c as int == clamp18(num_num_pow(sq, gpos)));
        assert(dp_c as int == clamp18(num_den_pow(sq, gpos)));
        lemma_pow10_bound(np_c as int);
        lemma_pow10_bound(dp_c as int);
    }
    let nu = exec_mul_sat(mant, exec_pow10(np_c));
    let numerator: i64 = if neg {
        -(nu as i64)
    } else {
        nu as i64
    };
    let denominator: u64 = exec_pow10(dp_c);
    proof {
        assert(numerator == num_numerator(sq, gpos));
        assert(denominator == num_denominator(sq, gpos));
    }
    let is_int = !has_frac && !has_exp;
    let representation = copy_range(s, pos, end_num);
    let nv = NumericValue {
        representation,
        numerator,
        denominator,
        int_value: if is_int {
            Some(numerator)
        } else {
            None
        },
    };
    proof {
        assert(num_matches(sq, gpos, nv));
        lemma_digits_end(sq, is0 as int);
        if has_exp {
            lemma_digits_end(sq, eds as int);
        }
        if is_digit(sq[gpos]) {
            assert(digits_end(sq, gpos) == digits_end(sq, gpos + 1));
            lemma_digits_end(sq, gpos + 1);
        }
        if has_frac {
            lemma_digits_end(sq, ie as int + 1);
        }
        assert(end_num > pos);
    }
    if end_num < n && s[end_num] == '%' {
        (ComponentValue::Percentage(nv), end_num + 1)
    } else if exec_starts_ident(s, end_num) {
        let (unit, ue) = consume_name(s, end_num);
        proof {
            lemma_name_end(sq, end_num as int);
        }
        (ComponentValue::Dimension(nv, unit), ue)
    } else {
        (ComponentValue::Number(nv), end_num)
    }
}

// ---------------------------------------------------------------------------
// Executable string and URL consumption.
// ---------------------------------------------------------------------------

fn exec_str_scan(s: &Vec<char>, pos: usize, q: char) -> (r: (bool, Vec<char>, usize))
    requires
        pos <= s@.len(),
    ensures
        r.0 == str_scan(s@, pos as int, q).bad,
        r.1@ == str_scan(s@, pos as int, q).val,
        r.2 as int == str_scan(s@, pos as int, q).end,
        pos <= r.2 <= s@.len(),
    decreases s@.len() - pos,
{
    let n = s.len();
    if pos >= n {
        let v: Vec<char> = Vec::new();
        proof {
            assert(v@ =~= str_scan(s@, pos as int, q).val);
        }
        (false, v, n)
    } else if s[pos] == q {
        let v: Vec<char> = Vec::new();
        proof {
            assert(v@ =~= str_scan(s@, pos as int, q).val);
        }
        (false, v, pos + 1)
    } else if s[pos] == '\n' {
        let v: Vec<char> = Vec::new();
        proof {
            assert(v@ =~= str_scan(s@, pos as int, q).val);
        }
        (true, v, pos)
    } else if s[pos] == '\\' {
        if pos + 1 >= n {
            let v: Vec<char> = Vec::new();
            proof {
                assert(v@ =~= str_scan(s@, pos as int, q).val);
            }
            (false, v, n)
        } else if s[pos + 1] == '\n' {
            exec_str_scan(s, pos + 2, q)
        } else {
            let (c, e) = exec_consume_escape(s, pos + 1);
            let (bad, mut v, end) = exec_str_scan(s, e, q);
            v.insert(0, c);
            proof {
                assert(v@ =~= str_scan(s@, pos as int, q).val);
            }
            (bad, v, end)
        }
    } else {
        let c = s[pos];
        let (bad, mut v, end) = exec_str_scan(s, pos + 1, q);
        v.insert(0, c);
        proof {
            assert(v@ =~= str_scan(s@, pos as int, q).val);
        }
        (bad, v, end)
    }
}

/// Consumes the quoted string token starting at the quote at `pos`.
fn consume_string(s: &Vec<char>, pos: usize) -> (r: (ComponentValue, usize))
    requires
        pos < s@.len(),
        s@[pos as int] == '"' || s@[pos as int] == '\'',
    ensures
        token_at(s@, pos as int, r.0, r.1 as int),
        pos < r.1 <= s@.len(),
{
    let n = s.len();
    let q = s[pos];
    let (bad, v, end) = exec_str_scan(s, pos + 1, q);
    if bad {
        (ComponentValue::BadString, end)
    } else {
        (ComponentValue::QuotedString(chars_to_string(&v)), end)
    }
}

fn exec_bad_url_end(s: &Vec<char>, pos: usize) -> (r: usize)
    requires
        pos <= s@.len(),
    ensures
        r as int == bad_url_end(s@, pos as int),
        pos <= r <= s@.len(),
    decreases s@.len() - pos,
{
    let n = s.len();
    if pos >= n {
        n
    } else if s[pos] == ')' {
        pos + 1
    } else if exec_valid_escape(s, pos) {
        let (_, e) = exec_consume_escape(s, pos + 1);
        exec_bad_url_end(s, e)
    } else {
        exec_bad_url_end(s, pos + 1)
    }
}

fn exec_url_scan(s: &Vec<char>, pos: usize) -> (r: (bool, Vec<char>, usize))
    requires
        pos <= s@.len(),
    ensures
        r.0 == url_scan(s@, pos as int).bad,
        r.1@ == url_scan(s@, pos as int).val,
        r.2 as int == url_scan(s@, pos as int).end,
        pos <= r.2 <= s@.len(),
    decreases s@.len() - pos,
{
    let n = s.len();
    if pos >= n {
        let v: Vec<char> = Vec::new();
        proof {
            assert(v@ =~= url_scan(s@, pos as int).val);
        }
        (false, v, n)
    } else if s[pos] == ')' {
        let v: Vec<char> = Vec::new();
        proof {
            assert(v@ =~= url_scan(s@, pos as int).val);
        }
        (false, v, pos + 1)
    } else if exec_is_ws(s[pos]) {
        let w = exec_ws_end(s, pos);
        let v: Vec<char> = Vec::new();
        if w >= n {
            proof {
                assert(v@ =~= url_scan(s@, pos as int).val);
            }
            (false, v, n)
        } else if s[w] == ')' {
            proof {
                assert(v@ =~= url_scan(s@, pos as int).val);
            }
            (false, v, w + 1)
        } else {
            let e = exec_bad_url_end(s, w);
            proof {
                assert(v@ =~= url_scan(s@, pos as int).val);
            }
            (true, v, e)
        }
    } else if s[pos] == '"' || s[pos] == '\'' || s[pos] == '(' || {
        let u = s[pos] as u32;
        u <= 0x08 || u == 0x0B || (0x0E <= u && u <= 0x1F) || u == 0x7F
    } {
        let e = exec_bad_url_end(s, pos);
        let v: Vec<char> = Vec::new();
        proof {
            assert(v@ =~= url_scan(s@, pos as int).val);
        }
        (true, v, e)
    } else if s[pos] == '\\' {
        if exec_valid_escape(s, pos) {
            let (c, e) = exec_consume_escape(s, pos + 1);
            let (bad, mut v, end) = exec_url_scan(s, e);
            v.insert(0, c);
            proof {
                assert(v@ =~= url_scan(s@, pos as int).val);
            }
            (bad, v, end)
        } else {
            let e = exec_bad_url_end(s, pos);
            let v: Vec<char> = Vec::new();
            proof {
                assert(v@ =~= url_scan(s@, pos as int).val);
            }
            (true, v, e)
        }
    } else {
        let c = s[pos];
        let (bad, mut v, end) = exec_url_scan(s, pos + 1);
        v.insert(0, c);
        proof {
            assert(v@ =~= url_scan(s@, pos as int).val);
        }
        (bad, v, end)
    }
}

// ---------------------------------------------------------------------------
// Executable unicode-range consumption.
// ---------------------------------------------------------------------------

fn exec_question_run_end(s: &Vec<char>, p: usize, cap: usize) -> (r: usize)
    requires
        p <= s@.len(),
    ensures
        r as int == question_run_end(s@, p as int, cap as int),
        p <= r <= s@.len(),
    decreases cap,
{
    if cap == 0 || p >= s.len() || s[p] != '?' {
        p
    } else {
        exec_question_run_end(s, p + 1, cap - 1)
    }
}

fn exec_hexq_val(s: &Vec<char>, from: usize, to: usize, low: bool) -> (r: u32)
    requires
        from <= to <= s@.len(),
        to - from <= 6,
    ensures
        r as int == hexq_val(s@, from as int, to as int, low),
{
    let mut v: u32 = 0;
    let mut j = from;
    while j < to
        invariant
            from <= j <= to <= s@.len(),
            to - from <= 6,
            v as int == hexq_val(s@, from as int, j as int, low),
            v < 0x1000000,
        decreases to - j,
    {
        proof {
            lemma_hexq_bound(s@, from as int, j as int, low);
            lemma_hexq_bound(s@, from as int, j + 1, low);
        }
        let d: u32 = if exec_is_hex_digit(s[j]) {
            exec_hex_value(s[j])
        } else if low {
            0
        } else {
            15
        };
        v = v * 16 + d;
        j = j + 1;
    }
    v
}

/// Consumes the unicode-range token starting at `u+`.
fn consume_unicode_range(s: &Vec<char>, pos: usize) -> (r: (ComponentValue, usize))
    requires
        pos < s@.len(),
        uni_at(s@, pos as int),
    ensures
        token_at(s@, pos as int, r.0, r.1 as int),
        pos < r.1 <= s@.len(),
{
    let n = s.len();
    let ghost sq = s@;
    let h1 = exec_hex_run_end(s, pos + 2);
    let qe = exec_question_run_end(s, h1, 6 - (h1 - (pos + 2)));
    proof {
        assert(h1 as int == uni_hex1_end(sq, pos as int));
        assert(qe as int == uni_q_end(sq, pos as int));
        lemma_question_run_end(sq, h1 as int, 6 - (h1 - (pos + 2)) as int);
    }
    if qe > h1 {
        let a = exec_hexq_val(s, pos + 2, qe, true);
        let b = exec_hexq_val(s, pos + 2, qe, false);
        (ComponentValue::UnicodeRange(a, b), qe)
    } else if h1 < n && s[h1] == '-' && h1 + 1 < n && exec_is_hex_digit(s[h1 + 1]) {
        let h2 = exec_hex_run_end(s, h1 + 1);
        let a = exec_hexq_val(s, pos + 2, h1, true);
        let b = exec_hexq_val(s, h1 + 1, h2, true);
        proof {
            assert(uni_has_second(sq, pos as int));
        }
        (ComponentValue::UnicodeRange(a, b), h2)
    } else {
        let a = exec_hexq_val(s, pos + 2, h1, true);
        (ComponentValue::UnicodeRange(a, a), h1)
    }
}

// ---------------------------------------------------------------------------
// The main dispatch and the list builders.
// ---------------------------------------------------------------------------


proof fn lemma_plain_cons(
    s: Seq<char>,
    pos: int,
    toks: Seq<ComponentValue>,
    close: char,
    end: int,
    mid: int,
)
    requires
        after_comments(s, pos) < s.len(),
        s[after_comments(s, pos)] != close,
        toks.len() > 0,
        token_at(s, after_comments(s, pos), toks[0], mid),
        after_comments(s, pos) < mid <= s.len(),
        cv_plain_list_at(s, mid, toks.drop_first(), close, end),
    ensures
        cv_plain_list_at(s, pos, toks, close, end),
{
}

proof fn lemma_loc_cons(
    s: Seq<char>,
    pos: int,
    toks: Seq<(ComponentValue, SourceLocation)>,
    close: char,
    end: int,
    mid: int,
)
    requires
        after_comments(s, pos) < s.len(),
        s[after_comments(s, pos)] != close,
        toks.len() > 0,
        toks[0].1 == spec_location(s, after_comments(s, pos)),
        token_at(s, after_comments(s, pos), toks[0].0, mid),
        after_comments(s, pos) < mid <= s.len(),
        cv_loc_list_at(s, mid, toks.drop_first(), close, end),
    ensures
        cv_loc_list_at(s, pos, toks, close, end),
{
}

/// Consumes an identifier-shaped token: an identifier, a function with its
/// nested arguments, or a URL.
fn consume_identlike(s: &Vec<char>, pos: usize) -> (r: (ComponentValue, usize))
    requires
        pos < s@.len(),
        identlike_at(s@, pos as int),
    ensures
        token_at(s@, pos as int, r.0, r.1 as int),
        pos < r.1 <= s@.len(),
    decreases s@.len() - pos, 0int,
{
    let n = s.len();
    let ghost sq = s@;
    let ghost g = pos as int;
    let (v, ne) = consume_name_chars(s, pos);
    proof {
        lemma_name_end(sq, g);
        assert(name_end(sq, g) > g) by {
            if is_name_char(sq[g]) {
                lemma_name_end(sq, g + 1);
            } else if valid_escape(sq, g) {
                lemma_name_end(sq, escape_end(sq, g + 1));
            }
        }
    }
    let name = chars_to_string(&v);
    if ne < n && s[ne] == '(' {
        let is_url = v.len() == 3 && exec_lower_char(v[0]) == 'u' && exec_lower_char(v[1]) == 'r'
            && exec_lower_char(v[2]) == 'l';
        proof {
            assert(is_url == is_url_name(name_val(sq, g))) by {
                let lv = lower_seq(name_val(sq, g));
                if is_url {
                    assert(lv =~= seq!['u', 'r', 'l']);
                } else if lv == seq!['u', 'r', 'l'] {
                    assert(lv.len() == 3);
                    assert(lv[0] == 'u' && lv[1] == 'r' && lv[2] == 'l');
                }
            }
        }
        if is_url {
            let w = exec_ws_end(s, ne + 1);
            if w < n && (s[w] == '"' || s[w] == '\'') {
                let (args, end) = tokenize_plain_up_to(s, ne + 1, ')');
                (ComponentValue::Function(name, args), end)
            } else {
                proof {
                    lemma_url_scan(sq, ws_end(sq, ne as int + 1));
                    lemma_ws_end(sq, ne as int + 1);
                }
                let (bad, uv, end) = exec_url_scan(s, w);
                if bad {
                    (ComponentValue::BadURL, end)
                } else {
                    (ComponentValue::URL(chars_to_string(&uv)), end)
                }
            }
        } else {
            let (args, end) = tokenize_plain_up_to(s, ne + 1, ')');
            (ComponentValue::Function(name, args), end)
        }
    } else {
        (ComponentValue::Ident(name), ne)
    }
}

/// Consumes a lone delimiter.
fn make_delim(s: &Vec<char>, pos: usize, c: char) -> (r: (ComponentValue, usize))
    requires
        pos < s@.len(),
        s@[pos as int] == c,
        delim_ok(s@, pos as int),
    ensures
        token_at(s@, pos as int, r.0, r.1 as int),
        pos < r.1 <= s@.len(),
{
    let n = s.len();
    (ComponentValue::Delim(c), pos + 1)
}

/// Consumes the single component value starting at `pos` (never a
/// comment), nested content included.
#[verifier::rlimit(100)]
#[verifier::spinoff_prover]
fn consume_component_value(s: &Vec<char>, pos: usize) -> (r: (ComponentValue, usize))
    requires
        pos < s@.len(),
        !comment_at(s@, pos as int),
    ensures
        token_at(s@, pos as int, r.0, r.1 as int),
        pos < r.1 <= s@.len(),
    decreases s@.len() - pos, 1int,
{
    let n = s.len();
    let ghost sq = s@;
    let ghost g = pos as int;
    let c = s[pos];
    if exec_is_ws(c) {
        let e = exec_ws_end(s, pos);
        proof {
            assert(ws_end(sq, g) == ws_end(sq, g + 1));
            lemma_ws_end(sq, g + 1);
        }
        let res = (ComponentValue::WhiteSpace, e);
        proof {
            assert(token_ok(sq, g, res.0));
            assert(res.1 as int == token_end_of(sq, g, res.0));
        }
        res
    } else if c == '"' || c == '\'' {
        consume_string(s, pos)
    } else if c == '#' {
        if pos + 1 < n && (exec_is_name_char(s[pos + 1]) || exec_valid_escape(s, pos + 1)) {
            let idh = exec_starts_ident(s, pos + 1);
            let (name, e) = consume_name(s, pos + 1);
            if idh {
                let res = (ComponentValue::IDHash(name), e);
                proof {
                    assert(token_ok(sq, g, res.0));
                    assert(res.1 as int == token_end_of(sq, g, res.0));
                }
                res
            } else {
                let res = (ComponentValue::Hash(name), e);
                proof {
                    assert(token_ok(sq, g, res.0));
                    assert(res.1 as int == token_end_of(sq, g, res.0));
                }
                res
            }
        } else {
            let res = (ComponentValue::Delim('#'), pos + 1);
            proof {
                assert(token_ok(sq, g, res.0));
                assert(res.1 as int == token_end_of(sq, g, res.0));
            }
            res
        }
    } else if c == '$' {
        if pos + 1 < n && s[pos + 1] == '=' {
            let res = (ComponentValue::SuffixMatch, pos + 2);
            proof {
                assert(token_ok(sq, g, res.0));
                assert(res.1 as int == token_end_of(sq, g, res.0));
            }
            res
        } else {
            let res = (ComponentValue::Delim('$'), pos + 1);
            proof {
                assert(token_ok(sq, g, res.0));
                assert(res.1 as int == token_end_of(sq, g, res.0));
            }
            res
        }
    } else if c == '*' {
        if pos + 1 < n && s[pos + 1] == '=' {
            let res = (ComponentValue::SubstringMatch, pos + 2);
            proof {
                assert(token_ok(sq, g, res.0));
                assert(res.1 as int == token_end_of(sq, g, res.0));
            }
            res
        } else {
            let res = (ComponentValue::Delim('*'), pos + 1);
            proof {
                assert(token_ok(sq, g, res.0));
                assert(res.1 as int == token_end_of(sq, g, res.0));
            }
            res
        }
    } else if c == '^' {
        if pos + 1 < n && s[pos + 1] == '=' {
            let res = (ComponentValue::PrefixMatch, pos + 2);
            proof {
                assert(token_ok(sq, g, res.0));
                assert(res.1 as int == token_end_of(sq, g, res.0));
            }
            res
        } else {
            let res = (ComponentValue::Delim('^'), pos + 1);
            proof {
                assert(token_ok(sq, g, res.0));
                assert(res.1 as int == token_end_of(sq, g, res.0));
            }
            res
        }
    } else if c == '~' {
        if pos + 1 < n && s[pos + 1] == '=' {
            let res = (ComponentValue::IncludeMatch, pos + 2);
            proof {
                assert(token_ok(sq, g, res.0));
                assert(res.1 as int == token_end_of(sq, g, res.0));
            }
            res
        } else {
            let res = (ComponentValue::Delim('~'), pos + 1);
            proof {
                assert(token_ok(sq, g, res.0));
                assert(res.1 as int == token_end_of(sq, g, res.0));
            }
            res
        }
    } else if c == '|' {
        if pos + 1 < n && s[pos + 1] == '=' {
            let res = (ComponentValue::DashMatch, pos + 2);
            proof {
                assert(token_ok(sq, g, res.0));
                assert(res.1 as int == token_end_of(sq, g, res.0));
            }
            res
        } else if pos + 1 < n && s[pos + 1] == '|' {
            let res = (ComponentValue::Column, pos + 2);
            proof {
                assert(token_ok(sq, g, res.0));
                assert(res.1 as int == token_end_of(sq, g, res.0));
            }
            res
        } else {
            let res = (ComponentValue::Delim('|'), pos + 1);
            proof {
                assert(token_ok(sq, g, res.0));
                assert(res.1 as int == token_end_of(sq, g, res.0));
            }
            res
        }
    } else if c == '(' {
        let (content, end) = tokenize_plain_up_to(s, pos + 1, ')');
        let res = (ComponentValue::ParenthesisBlock(content), end);
        proof {
            assert(token_ok(sq, g, res.0));
            assert(res.1 as int == token_end_of(sq, g, res.0));
        }
        res
    } else if c == '[' {
        let (content, end) = tokenize_plain_up_to(s, pos + 1, ']');
        let res = (ComponentValue::SquareBracketBlock(content), end);
        proof {
            assert(token_ok(sq, g, res.0));
            assert(res.1 as int == token_end_of(sq, g, res.0));
        }
        res
    } else if c == '{' {
        let (content, end) = tokenize_loc_up_to(s, pos + 1, '}');
        let res = (ComponentValue::CurlyBracketBlock(content), end);
        proof {
            assert(token_ok(sq, g, res.0));
            assert(res.1 as int == token_end_of(sq, g, res.0));
        }
        res
    } else if c == ')' {
        let res = (ComponentValue::CloseParenthesis, pos + 1);
        proof {
            assert(token_ok(sq, g, res.0));
            assert(res.1 as int == token_end_of(sq, g, res.0));
        }
        res
    } else if c == ']' {
        let res = (ComponentValue::CloseSquareBracket, pos + 1);
        proof {
            assert(token_ok(sq, g, res.0));
            assert(res.1 as int == token_end_of(sq, g, res.0));
        }
        res
    } else if c == '}' {
        let res = (ComponentValue::CloseCurlyBracket, pos + 1);
        proof {
            assert(token_ok(sq, g, res.0));
            assert(res.1 as int == token_end_of(sq, g, res.0));
        }
        res
    } else if c == ':' {
        let res = (ComponentValue::Colon, pos + 1);
        proof {
            assert(token_ok(sq, g, res.0));
            assert(res.1 as int == token_end_of(sq, g, res.0));
        }
        res
    } else if c == ';' {
        let res = (ComponentValue::Semicolon, pos + 1);
        proof {
            assert(token_ok(sq, g, res.0));
            assert(res.1 as int == token_end_of(sq, g, res.0));
        }
        res
    } else if c == ',' {
        let res = (ComponentValue::Comma, pos + 1);
        proof {
            assert(token_ok(sq, g, res.0));
            assert(res.1 as int == token_end_of(sq, g, res.0));
        }
        res
    } else if c == '<' {
        if n - pos > 3 && s[pos + 1] == '!' && s[pos + 2] == '-' && s[pos + 3] == '-' {
            let res = (ComponentValue::CDO, pos + 4);
            proof {
                assert(token_ok(sq, g, res.0));
                assert(res.1 as int == token_end_of(sq, g, res.0));
            }
            res
        } else {
            let res = (ComponentValue::Delim('<'), pos + 1);
            proof {
                assert(token_ok(sq, g, res.0));
                assert(res.1 as int == token_end_of(sq, g, res.0));
            }
            res
        }
    } else if c == '@' {
        if exec_starts_ident(s, pos + 1) {
            let (name, e) = consume_name(s, pos + 1);
            proof {
                assert(name_end(sq, g + 1) > g + 1) by {
                    if is_name_char(sq[g + 1]) {
                        lemma_name_end(sq, g + 2);
                    } else if valid_escape(sq, g + 1) {
                        lemma_name_end(sq, escape_end(sq, g + 2));
                    } else {
                        assert(sq[g + 1] == '-');
                        lemma_name_end(sq, g + 2);
                    }
                }
            }
            let res = (ComponentValue::AtKeyword(name), e);
            proof {
                assert(token_ok(sq, g, res.0));
                assert(res.1 as int == token_end_of(sq, g, res.0));
            }
            res
        } else {
            let res = (ComponentValue::Delim('@'), pos + 1);
            proof {
                assert(token_ok(sq, g, res.0));
                assert(res.1 as int == token_end_of(sq, g, res.0));
            }
            res
        }
    } else if c == 'u' || c == 'U' {
        if n - pos > 2 && s[pos + 1] == '+' && (exec_is_hex_digit(s[pos + 2]) || s[pos + 2] == '?')
            {
            consume_unicode_range(s, pos)
        } else {
            consume_identlike(s, pos)
        }
    } else if exec_starts_number(s, pos) {
        consume_numeric(s, pos)
    } else if c == '-' {
        if n - pos > 2 && s[pos + 1] == '-' && s[pos + 2] == '>' {
            let res = (ComponentValue::CDC, pos + 3);
            proof {
                assert(token_ok(sq, g, res.0));
                assert(res.1 as int == token_end_of(sq, g, res.0));
            }
            res
        } else if exec_starts_ident(s, pos) {
            consume_identlike(s, pos)
        } else {
            proof {
                assert(delim_ok(sq, g)) by {
                    assert(!cdc_at(sq, g));
                    assert(!starts_ident(sq, g) && !starts_number(sq, g));
                    assert(!is_name_start(c) && !valid_escape(sq, g));
                    assert(!is_digit(c));
                }
            }
            make_delim(s, pos, '-')
        }
    } else if exec_starts_ident(s, pos) {
        consume_identlike(s, pos)
    } else {
        proof {
            assert(delim_ok(sq, g)) by {
                assert(!is_ws(c));
                assert(!is_name_start(c) && !valid_escape(sq, g)) by {
                    assert(!starts_ident(sq, g));
                }
                assert(!is_digit(c)) by {
                    assert(!starts_number(sq, g));
                }
            }
        }
        make_delim(s, pos, c)
    }
}

/// Collects component values from `pos` until the closer (or the end of
/// input), skipping comments, without locations.
#[verifier::rlimit(100)]
#[verifier::spinoff_prover]
fn tokenize_plain_up_to(s: &Vec<char>, pos: usize, close: char) -> (r: (Vec<ComponentValue>, usize))
    requires
        pos <= s@.len(),
    ensures
        cv_plain_list_at(s@, pos as int, r.0@, close, r.1 as int),
        pos <= r.1 <= s@.len(),
    decreases s@.len() - pos, 2int,
{
    let p = exec_after_comments(s, pos);
    if p >= s.len() {
        let v: Vec<ComponentValue> = Vec::new();
        proof {
            assert(cv_plain_list_at(s@, pos as int, v@, close, s@.len() as int));
        }
        (v, s.len())
    } else if s[p] == close {
        let v: Vec<ComponentValue> = Vec::new();
        proof {
            assert(cv_plain_list_at(s@, pos as int, v@, close, p as int + 1));
        }
        (v, p + 1)
    } else {
        let (cv, mid) = consume_component_value(s, p);
        let (mut rest, end) = tokenize_plain_up_to(s, mid, close);
        let ghost old_rest = rest@;
        rest.insert(0, cv);
        proof {
            assert(rest@.drop_first() =~= old_rest);
            lemma_plain_cons(s@, pos as int, rest@, close, end as int, mid as int);
        }
        (rest, end)
    }
}

/// Collects component values with their source locations from `pos` until
/// the closer (or the end of input), skipping comments.
#[verifier::rlimit(100)]
#[verifier::spinoff_prover]
fn tokenize_loc_up_to(s: &Vec<char>, pos: usize, close: char) -> (r: (
    Vec<(ComponentValue, SourceLocation)>,
    usize,
))
    requires
        pos <= s@.len(),
    ensures
        cv_loc_list_at(s@, pos as int, r.0@, close, r.1 as int),
        pos <= r.1 <= s@.len(),
    decreases s@.len() - pos, 2int,
{
    let p = exec_after_comments(s, pos);
    if p >= s.len() {
        let v: Vec<(ComponentValue, SourceLocation)> = Vec::new();
        (v, s.len())
    } else if s[p] == close {
        let v: Vec<(ComponentValue, SourceLocation)> = Vec::new();
        (v, p + 1)
    } else {
        let loc = location_at(s, p);
        let (cv, mid) = consume_component_value(s, p);
        let (mut rest, end) = tokenize_loc_up_to(s, mid, close);
        let ghost old_rest = rest@;
        rest.insert(0, (cv, loc));
        proof {
            assert(rest@.drop_first() =~= old_rest);
            lemma_loc_cons(s@, pos as int, rest@, close, end as int, mid as int);
        }
        (rest, end)
    }
}

/// Collects the whole top-level token list from `pos` on.
#[verifier::rlimit(100)]
#[verifier::spinoff_prover]
fn tokenize_all(s: &Vec<char>, pos: usize) -> (r: Vec<(ComponentValue, SourceLocation)>)
    requires
        pos <= s@.len(),
    ensures
        tokens_from(s@, pos as int, r@),
    decreases s@.len() - pos, 2int,
{
    let p = exec_after_comments(s, pos);
    if p >= s.len() {
        Vec::new()
    } else {
        let loc = location_at(s, p);
        let (cv, mid) = consume_component_value(s, p);
        let mut rest = tokenize_all(s, mid);
        let ghost old_rest = rest@;
        rest.insert(0, (cv, loc));
        proof {
            assert(rest@.drop_first() =~= old_rest);
            assert(rest@[0].0 == cv && rest@[0].1 == loc);
            assert(token_at(s@, p as int, rest@[0].0, mid as int));
        }
        rest
    }
}

/// Drops the source locations from a token list, keeping the component
/// values in order.
pub fn strip_locations(toks: Vec<(ComponentValue, SourceLocation)>) -> (r: Vec<ComponentValue>)
    ensures
        r@ == toks@.map_values(|p: (ComponentValue, SourceLocation)| p.0),
{
    let mut toks = toks;
    let ghost o = toks@;
    let mut out: Vec<ComponentValue> = Vec::new();
    let mut k: usize = 0;
    let n = toks.len();
    while k < n
        invariant
            k <= n == o.len(),
            toks@ == o.skip(k as int),
            out@ == o.subrange(0, k as int).map_values(
                |p: (ComponentValue, SourceLocation)| p.0,
            ),
        decreases n - k,
    {
        let pair = toks.remove(0);
        out.push(pair.0);
        proof {
            assert(toks@ =~= o.skip(k + 1));
            assert(out@ =~= o.subrange(0, k + 1).map_values(
                |p: (ComponentValue, SourceLocation)| p.0,
            ));
        }
        k = k + 1;
    }
    proof {
        assert(out@ =~= o.map_values(|p: (ComponentValue, SourceLocation)| p.0));
    }
    out
}

/// Turns CSS text into its complete token list: each element is one
/// component value (with resolved bracket nesting) and the source location
/// it starts at. The `tokens_from` predicate pins the result down exactly,
/// after newline preprocessing.
pub fn tokenize(input: &str) -> (r: Vec<(ComponentValue, SourceLocation)>)
    ensures
        tokens_from(preprocess(input@), 0, r@),
{
    let chars = str_to_chars(input);
    let pp = preprocess_from(&chars, 0);
    proof {
        assert(chars@.skip(0) =~= chars@);
    }
    tokenize_all(&pp, 0)
}

} // verus!
