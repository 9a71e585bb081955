//! The serializer: renders component values, declarations and rules back
//! into CSS text. Every renderer is specified exactly against a spec-level
//! serialization function over character sequences.

use crate::ast::{
    AtRule, ComponentValue, Declaration, DeclarationListItem, QualifiedRule, Rule, SourceLocation,
};
use crate::support::chars_to_string;
use crate::tokenizer::{is_name_char, is_name_start, lower_char};
use vstd::prelude::*;

verus! {

/// The lower-case hex digit with value `v`.
pub open spec fn hex_digit_char(v: int) -> char {
    if v < 10 {
        ((0x30 + v) as u8) as char
    } else {
        ((0x61 + (v - 10)) as u8) as char
    }
}

/// The code point `v` in lower-case hex, most significant digit first.
pub open spec fn hex_seq(v: int) -> Seq<char>
    decreases v,
{
    if v < 16 {
        seq![hex_digit_char(if v < 0 {
            0
        } else {
            v
        })]
    } else {
        hex_seq(v / 16) + seq![hex_digit_char(v % 16)]
    }
}

/// A hex escape for one character: backslash, hex digits, one space.
pub open spec fn escape_hex(c: char) -> Seq<char> {
    seq!['\\'] + hex_seq(c as u32 as int) + seq![' ']
}

/// One character of a serialized name: kept if it is a name character,
/// hex-escaped otherwise.
pub open spec fn serialize_name_char(c: char) -> Seq<char> {
    if is_name_char(c) {
        seq![c]
    } else {
        escape_hex(c)
    }
}

/// The tail of a name, every character kept or escaped.
pub open spec fn serialize_name_tail(n: Seq<char>, i: int) -> Seq<char>
    decreases n.len() - i,
{
    if i < 0 || i >= n.len() {
        Seq::empty()
    } else {
        serialize_name_char(n[i]) + serialize_name_tail(n, i + 1)
    }
}

/// An identifier-shaped name: the first character is escaped unless it can
/// begin an identifier (a `-` may stay when what follows keeps the text
/// identifier-shaped).
pub open spec fn serialize_name(n: Seq<char>) -> Seq<char> {
    if n.len() == 0 {
        Seq::empty()
    } else if is_name_start(n[0]) {
        seq![n[0]] + serialize_name_tail(n, 1)
    } else if n[0] == '-' && n.len() > 1 && (is_name_start(n[1]) || n[1] == '-') {
        seq!['-'] + serialize_name_tail(n, 1)
    } else {
        escape_hex(n[0]) + serialize_name_tail(n, 1)
    }
}

/// A hash name: digits and `-` may lead, so no first-character rule.
pub open spec fn serialize_hash_name(n: Seq<char>) -> Seq<char> {
    serialize_name_tail(n, 0)
}

/// One character of a string body: quote and backslash are escaped, a
/// newline is hex-escaped, everything else is kept.
pub open spec fn serialize_string_char(c: char) -> Seq<char> {
    if c == '"' || c == '\\' {
        seq!['\\', c]
    } else if c == '\n' {
        escape_hex(c)
    } else {
        seq![c]
    }
}

pub open spec fn serialize_string_body(v: Seq<char>, i: int) -> Seq<char>
    decreases v.len() - i,
{
    if i < 0 || i >= v.len() {
        Seq::empty()
    } else {
        serialize_string_char(v[i]) + serialize_string_body(v, i + 1)
    }
}

/// A quoted string: double quotes around the escaped body.
pub open spec fn serialize_string(v: Seq<char>) -> Seq<char> {
    seq!['"'] + serialize_string_body(v, 0) + seq!['"']
}

/// A character safe inside a raw URL body.
pub open spec fn url_safe_char(c: char) -> bool {
    !(c == ' ' || c == '\t' || c == '\n' || c == '"' || c == '\'' || c == '(' || c == ')' || c
        == '\\' || c as u32 <= 0x1F || c as u32 == 0x7F)
}

pub open spec fn serialize_url_body(v: Seq<char>, i: int) -> Seq<char>
    decreases v.len() - i,
{
    if i < 0 || i >= v.len() {
        Seq::empty()
    } else {
        (if url_safe_char(v[i]) {
            seq![v[i]]
        } else {
            escape_hex(v[i])
        }) + serialize_url_body(v, i + 1)
    }
}

/// The text of one serialized component value, nested content included.
pub open spec fn serialize_cv(cv: ComponentValue) -> Seq<char>
    decreases cv,
{
    match cv {
        ComponentValue::Ident(n) => serialize_name(n@),
        ComponentValue::AtKeyword(n) => seq!['@'] + serialize_name(n@),
        ComponentValue::Hash(n) => seq!['#'] + serialize_hash_name(n@),
        ComponentValue::IDHash(n) => seq!['#'] + serialize_name(n@),
        ComponentValue::QuotedString(v) => serialize_string(v@),
        ComponentValue::URL(v) => seq!['u', 'r', 'l', '('] + serialize_url_body(v@, 0) + seq![')'],
        ComponentValue::Delim(c) => seq![c],
        ComponentValue::Number(nv) => nv.representation@,
        ComponentValue::Percentage(nv) => nv.representation@ + seq!['%'],
        ComponentValue::Dimension(nv, unit) => nv.representation@ + serialize_name(unit@),
        ComponentValue::UnicodeRange(a, b) => {
            let first = seq!['u', '+'] + hex_seq(a as int);
            if a == b {
                first
            } else {
                first + seq!['-'] + hex_seq(b as int)
            }
        },
        ComponentValue::WhiteSpace => seq![' '],
        ComponentValue::Colon => seq![':'],
        ComponentValue::Semicolon => seq![';'],
        ComponentValue::Comma => seq![','],
        ComponentValue::IncludeMatch => seq!['~', '='],
        ComponentValue::DashMatch => seq!['|', '='],
        ComponentValue::PrefixMatch => seq!['^', '='],
        ComponentValue::SuffixMatch => seq!['$', '='],
        ComponentValue::SubstringMatch => seq!['*', '='],
        ComponentValue::Column => seq!['|', '|'],
        ComponentValue::CDO => seq!['<', '!', '-', '-'],
        ComponentValue::CDC => seq!['-', '-', '>'],
        ComponentValue::Function(n, args) => serialize_name(n@) + seq!['('] + serialize_plain_from(
            args@,
            0,
        ) + seq![')'],
        ComponentValue::ParenthesisBlock(c) => seq!['('] + serialize_plain_from(c@, 0) + seq![')'],
        ComponentValue::SquareBracketBlock(c) => seq!['['] + serialize_plain_from(c@, 0)
            + seq![']'],
        ComponentValue::CurlyBracketBlock(c) => seq!['{'] + serialize_loc_from(c@, 0) + seq!['}'],
        ComponentValue::BadURL => seq![
            'u',
            'r',
            'l',
            '(',
            '<',
            'b',
            'a',
            'd',
            ' ',
            'u',
            'r',
            'l',
            '>',
            ')',
        ],
        ComponentValue::BadString => seq!['"', '\n'],
        ComponentValue::CloseParenthesis => seq![')'],
        ComponentValue::CloseSquareBracket => seq![']'],
        ComponentValue::CloseCurlyBracket => seq!['}'],
    }
}

/// The concatenated serialization of `toks[i..]`.
pub open spec fn serialize_plain_from(toks: Seq<ComponentValue>, i: int) -> Seq<char>
    decreases toks, toks.len() - i,
{
    if i < 0 || i >= toks.len() {
        Seq::empty()
    } else {
        serialize_cv(toks[i]) + serialize_plain_from(toks, i + 1)
    }
}

/// The concatenated serialization of `toks[i..]`, locations dropped.
pub open spec fn serialize_loc_from(toks: Seq<(ComponentValue, SourceLocation)>, i: int) -> Seq<
    char,
>
    decreases toks, toks.len() - i,
{
    if i < 0 || i >= toks.len() {
        Seq::empty()
    } else {
        serialize_cv(toks[i].0) + serialize_loc_from(toks, i + 1)
    }
}

// ---------------------------------------------------------------------------
// Executable renderers.
// ---------------------------------------------------------------------------

fn hex_digit_of(v: u32) -> (r: char)
    requires
        v < 16,
    ensures
        r == hex_digit_char(v as int),
{
    if v < 10 {
        ((0x30 + v) as u8) as char
    } else {
        ((0x61 + (v - 10)) as u8) as char
    }
}

fn push_hex(out: &mut Vec<char>, v: u32)
    ensures
        final(out)@ == old(out)@ + hex_seq(v as int),
    decreases v,
{
    if v < 16 {
        out.push(hex_digit_of(v));
        proof {
            assert(final(out)@ =~= old(out)@ + hex_seq(v as int));
        }
    } else {
        push_hex(out, v / 16);
        out.push(hex_digit_of(v % 16));
        proof {
            assert(final(out)@ =~= old(out)@ + hex_seq(v as int));
        }
    }
}

fn push_escape_hex(out: &mut Vec<char>, c: char)
    ensures
        final(out)@ == old(out)@ + escape_hex(c),
{
    out.push('\\');
    push_hex(out, c as u32);
    out.push(' ');
    proof {
        assert(final(out)@ =~= old(out)@ + escape_hex(c));
    }
}

fn push_name_tail(n: &Vec<char>, i: usize, out: &mut Vec<char>)
    requires
        i <= n@.len(),
    ensures
        final(out)@ == old(out)@ + serialize_name_tail(n@, i as int),
    decreases n@.len() - i,
{
    if i >= n.len() {
        proof {
            assert(final(out)@ =~= old(out)@ + serialize_name_tail(n@, i as int));
        }
    } else {
        let c = n[i];
        if crate::tokenizer::exec_is_name_char_pub(c) {
            out.push(c);
        } else {
            push_escape_hex(out, c);
        }
        push_name_tail(n, i + 1, out);
        proof {
            assert(final(out)@ =~= old(out)@ + serialize_name_tail(n@, i as int));
        }
    }
}

fn push_name(n: &String, out: &mut Vec<char>)
    ensures
        final(out)@ == old(out)@ + serialize_name(n@),
{
    let v = crate::support::str_to_chars(n.as_str());
    if v.len() == 0 {
        proof {
            assert(final(out)@ =~= old(out)@ + serialize_name(n@));
        }
    } else {
        let c0 = v[0];
        if crate::tokenizer::exec_is_name_start_pub(c0) {
            out.push(c0);
        } else if c0 == '-' && v.len() > 1 && (crate::tokenizer::exec_is_name_start_pub(v[1])
            || v[1] == '-') {
            out.push('-');
        } else {
            push_escape_hex(out, c0);
        }
        push_name_tail(&v, 1, out);
        proof {
            assert(final(out)@ =~= old(out)@ + serialize_name(n@));
        }
    }
}

fn push_hash_name(n: &String, out: &mut Vec<char>)
    ensures
        final(out)@ == old(out)@ + serialize_hash_name(n@),
{
    let v = crate::support::str_to_chars(n.as_str());
    push_name_tail(&v, 0, out);
    proof {
        assert(final(out)@ =~= old(out)@ + serialize_hash_name(n@));
    }
}

fn push_string_body(v: &Vec<char>, i: usize, out: &mut Vec<char>)
    requires
        i <= v@.len(),
    ensures
        final(out)@ == old(out)@ + serialize_string_body(v@, i as int),
    decreases v@.len() - i,
{
    if i >= v.len() {
        proof {
            assert(final(out)@ =~= old(out)@ + serialize_string_body(v@, i as int));
        }
    } else {
        let c = v[i];
        if c == '"' || c == '\\' {
            out.push('\\');
            out.push(c);
        } else if c == '\n' {
            push_escape_hex(out, c);
        } else {
            out.push(c);
        }
        push_string_body(v, i + 1, out);
        proof {
            assert(final(out)@ =~= old(out)@ + serialize_string_body(v@, i as int));
        }
    }
}

fn push_url_body(v: &Vec<char>, i: usize, out: &mut Vec<char>)
    requires
        i <= v@.len(),
    ensures
        final(out)@ == old(out)@ + serialize_url_body(v@, i as int),
    decreases v@.len() - i,
{
    if i >= v.len() {
        proof {
            assert(final(out)@ =~= old(out)@ + serialize_url_body(v@, i as int));
        }
    } else {
        let c = v[i];
        let u = c as u32;
        let safe = !(c == ' ' || c == '\t' || c == '\n' || c == '"' || c == '\'' || c == '(' || c
            == ')' || c == '\\' || u <= 0x1F || u == 0x7F);
        if safe {
            out.push(c);
        } else {
            push_escape_hex(out, c);
        }
        push_url_body(v, i + 1, out);
        proof {
            assert(final(out)@ =~= old(out)@ + serialize_url_body(v@, i as int));
        }
    }
}

pub(crate) fn push_str_chars(out: &mut Vec<char>, t: &str)
    ensures
        final(out)@ == old(out)@ + t@,
{
    let v = crate::support::str_to_chars(t);
    let mut i: usize = 0;
    while i < v.len()
        invariant
            i <= v@.len() == t@.len(),
            v@ == t@,
            out@ == old(out)@ + t@.subrange(0, i as int),
        decreases v@.len() - i,
    {
        out.push(v[i]);
        proof {
            assert(out@ =~= old(out)@ + t@.subrange(0, i + 1));
        }
        i = i + 1;
    }
    proof {
        assert(final(out)@ =~= old(out)@ + t@);
    }
}

/// Appends the serialization of one component value.
fn serialize_cv_into(cv: &ComponentValue, out: &mut Vec<char>)
    ensures
        final(out)@ == old(out)@ + serialize_cv(*cv),
    decreases cv,
{
    match cv {
        ComponentValue::Ident(n) => {
            push_name(n, out);
        },
        ComponentValue::AtKeyword(n) => {
            out.push('@');
            push_name(n, out);
        },
        ComponentValue::Hash(n) => {
            out.push('#');
            push_hash_name(n, out);
        },
        ComponentValue::IDHash(n) => {
            out.push('#');
            push_name(n, out);
        },
        ComponentValue::QuotedString(v) => {
            let cs = crate::support::str_to_chars(v.as_str());
            out.push('"');
            push_string_body(&cs, 0, out);
            out.push('"');
        },
        ComponentValue::URL(v) => {
            let cs = crate::support::str_to_chars(v.as_str());
            push_str_chars(out, "url(");
            proof {
                reveal_strlit("url(");
            }
            push_url_body(&cs, 0, out);
            out.push(')');
        },
        ComponentValue::Delim(c) => {
            out.push(*c);
        },
        ComponentValue::Number(nv) => {
            push_str_chars(out, nv.representation.as_str());
        },
        ComponentValue::Percentage(nv) => {
            push_str_chars(out, nv.representation.as_str());
            out.push('%');
        },
        ComponentValue::Dimension(nv, unit) => {
            push_str_chars(out, nv.representation.as_str());
            push_name(unit, out);
        },
        ComponentValue::UnicodeRange(a, b) => {
            out.push('u');
            out.push('+');
            push_hex(out, *a);
            if *a != *b {
                out.push('-');
                push_hex(out, *b);
            }
        },
        ComponentValue::WhiteSpace => {
            out.push(' ');
        },
        ComponentValue::Colon => {
            out.push(':');
        },
        ComponentValue::Semicolon => {
            out.push(';');
        },
        ComponentValue::Comma => {
            out.push(',');
        },
        ComponentValue::IncludeMatch => {
            out.push('~');
            out.push('=');
        },
        ComponentValue::DashMatch => {
            out.push('|');
            out.push('=');
        },
        ComponentValue::PrefixMatch => {
            out.push('^');
            out.push('=');
        },
        ComponentValue::SuffixMatch => {
            out.push('$');
            out.push('=');
        },
        ComponentValue::SubstringMatch => {
            out.push('*');
            out.push('=');
        },
        ComponentValue::Column => {
            out.push('|');
            out.push('|');
        },
        ComponentValue::CDO => {
            out.push('<');
            out.push('!');
            out.push('-');
            out.push('-');
        },
        ComponentValue::CDC => {
            out.push('-');
            out.push('-');
            out.push('>');
        },
        ComponentValue::Function(n, args) => {
            push_name(n, out);
            out.push('(');
            serialize_plain_into(args, 0, out);
            out.push(')');
        },
        ComponentValue::ParenthesisBlock(c) => {
            out.push('(');
            serialize_plain_into(c, 0, out);
            out.push(')');
        },
        ComponentValue::SquareBracketBlock(c) => {
            out.push('[');
            serialize_plain_into(c, 0, out);
            out.push(']');
        },
        ComponentValue::CurlyBracketBlock(c) => {
            out.push('{');
            serialize_loc_into(c, 0, out);
            out.push('}');
        },
        ComponentValue::BadURL => {
            push_str_chars(out, "url(<bad url>)");
            proof {
                reveal_strlit("url(<bad url>)");
            }
        },
        ComponentValue::BadString => {
            out.push('"');
            out.push('\n');
        },
        ComponentValue::CloseParenthesis => {
            out.push(')');
        },
        ComponentValue::CloseSquareBracket => {
            out.push(']');
        },
        ComponentValue::CloseCurlyBracket => {
            out.push('}');
        },
    }
    proof {
        assert(final(out)@ =~= old(out)@ + serialize_cv(*cv));
    }
}

fn serialize_plain_into(toks: &Vec<ComponentValue>, i: usize, out: &mut Vec<char>)
    requires
        i <= toks@.len(),
    ensures
        final(out)@ == old(out)@ + serialize_plain_from(toks@, i as int),
    decreases toks@, toks@.len() - i,
{
    if i < toks.len() {
        serialize_cv_into(&toks[i], out);
        serialize_plain_into(toks, i + 1, out);
    }
    proof {
        assert(final(out)@ =~= old(out)@ + serialize_plain_from(toks@, i as int));
    }
}

fn serialize_loc_into(toks: &Vec<(ComponentValue, SourceLocation)>, i: usize, out: &mut Vec<char>)
    requires
        i <= toks@.len(),
    ensures
        final(out)@ == old(out)@ + serialize_loc_from(toks@, i as int),
    decreases toks@, toks@.len() - i,
{
    if i < toks.len() {
        serialize_cv_into(&toks[i].0, out);
        serialize_loc_into(toks, i + 1, out);
    }
    proof {
        assert(final(out)@ =~= old(out)@ + serialize_loc_from(toks@, i as int));
    }
}

// ---------------------------------------------------------------------------
// Public serialization entry points.
// ---------------------------------------------------------------------------

/// The serialization of a whole declaration.
pub open spec fn serialize_declaration(d: Declaration) -> Seq<char> {
    serialize_name(d.name@) + seq![':'] + serialize_plain_from(d.value@, 0) + if d.important {
        seq![' ', '!', 'i', 'm', 'p', 'o', 'r', 't', 'a', 'n', 't']
    } else {
        Seq::empty()
    }
}

/// The serialization of an at-rule: block if present, semicolon otherwise.
pub open spec fn serialize_at_rule(r: AtRule) -> Seq<char> {
    seq!['@'] + serialize_name(r.name@) + serialize_plain_from(r.prelude@, 0) + match r.block {
        Some(b) => seq!['{'] + serialize_loc_from(b@, 0) + seq!['}'],
        None => seq![';'],
    }
}

/// The serialization of a qualified rule.
pub open spec fn serialize_qualified_rule(r: QualifiedRule) -> Seq<char> {
    serialize_plain_from(r.prelude@, 0) + seq!['{'] + serialize_loc_from(r.block@, 0) + seq!['}']
}

pub open spec fn serialize_rule(r: Rule) -> Seq<char> {
    match r {
        Rule::QualifiedRule(q) => serialize_qualified_rule(q),
        Rule::AtRule(a) => serialize_at_rule(a),
    }
}

pub open spec fn serialize_declaration_list_item(d: DeclarationListItem) -> Seq<char> {
    match d {
        DeclarationListItem::Declaration(dd) => serialize_declaration(dd),
        DeclarationListItem::AtRule(a) => serialize_at_rule(a),
    }
}

impl ComponentValue {
    /// Renders this component value to CSS text.
    pub fn to_css_string(&self) -> (r: String)
        ensures
            r@ == serialize_cv(*self),
    {
        let mut out: Vec<char> = Vec::new();
        serialize_cv_into(self, &mut out);
        chars_to_string(&out)
    }
}

/// Renders an ordered sequence of component values to CSS text.
pub fn component_values_to_css_string(toks: &Vec<ComponentValue>) -> (r: String)
    ensures
        r@ == serialize_plain_from(toks@, 0),
{
    let mut out: Vec<char> = Vec::new();
    serialize_plain_into(toks, 0, &mut out);
    chars_to_string(&out)
}

impl Declaration {
    /// Renders `name: value` with any `!important` flag.
    pub fn to_css_string(&self) -> (r: String)
        ensures
            r@ == serialize_declaration(*self),
    {
        let mut out: Vec<char> = Vec::new();
        push_name(&self.name, &mut out);
        out.push(':');
        serialize_plain_into(&self.value, 0, &mut out);
        if self.important {
            push_str_chars(&mut out, " !important");
            proof {
                reveal_strlit(" !important");
            }
        }
        proof {
            assert(out@ =~= serialize_declaration(*self));
        }
        chars_to_string(&out)
    }
}

fn serialize_at_rule_into(r: &AtRule, out: &mut Vec<char>)
    ensures
        final(out)@ == old(out)@ + serialize_at_rule(*r),
{
    out.push('@');
    push_name(&r.name, out);
    serialize_plain_into(&r.prelude, 0, out);
    match &r.block {
        Some(b) => {
            out.push('{');
            serialize_loc_into(b, 0, out);
            out.push('}');
        },
        None => {
            out.push(';');
        },
    }
    proof {
        assert(final(out)@ =~= old(out)@ + serialize_at_rule(*r));
    }
}

impl AtRule {
    /// Renders `@name prelude { block }` or `@name prelude;`.
    pub fn to_css_string(&self) -> (r: String)
        ensures
            r@ == serialize_at_rule(*self),
    {
        let mut out: Vec<char> = Vec::new();
        serialize_at_rule_into(self, &mut out);
        chars_to_string(&out)
    }
}

impl QualifiedRule {
    /// Renders `prelude { block }`.
    pub fn to_css_string(&self) -> (r: String)
        ensures
            r@ == serialize_qualified_rule(*self),
    {
        let mut out: Vec<char> = Vec::new();
        serialize_plain_into(&self.prelude, 0, &mut out);
        out.push('{');
        serialize_loc_into(&self.block, 0, &mut out);
        out.push('}');
        proof {
            assert(out@ =~= serialize_qualified_rule(*self));
        }
        chars_to_string(&out)
    }
}

impl Rule {
    /// Renders either kind of rule.
    pub fn to_css_string(&self) -> (r: String)
        ensures
            r@ == serialize_rule(*self),
    {
        match self {
            Rule::QualifiedRule(q) => q.to_css_string(),
            Rule::AtRule(a) => a.to_css_string(),
        }
    }
}

impl DeclarationListItem {
    /// Renders either kind of declaration-list item.
    pub fn to_css_string(&self) -> (r: String)
        ensures
            r@ == serialize_declaration_list_item(*self),
    {
        match self {
            DeclarationListItem::Declaration(d) => d.to_css_string(),
            DeclarationListItem::AtRule(a) => a.to_css_string(),
        }
    }
}

// ---------------------------------------------------------------------------
// Round-trip law, for the payload-free tokens.
// ---------------------------------------------------------------------------

/// The component values whose serialization is a fixed character
/// sequence.
pub open spec fn is_fixed_token(cv: ComponentValue) -> bool {
    ||| cv is WhiteSpace
    ||| cv is Colon
    ||| cv is Semicolon
    ||| cv is Comma
    ||| cv is IncludeMatch
    ||| cv is DashMatch
    ||| cv is PrefixMatch
    ||| cv is SuffixMatch
    ||| cv is SubstringMatch
    ||| cv is Column
    ||| cv is CDO
    ||| cv is CDC
    ||| cv is CloseParenthesis
    ||| cv is CloseSquareBracket
    ||| cv is CloseCurlyBracket
}

/// Round-trip, stated for every payload-free token: serializing it and
/// tokenizing the text yields the same token again, spanning the whole
/// text. (The law for the full token vocabulary also depends on the
/// neighbouring tokens and is checked on concrete inputs instead.)
pub proof fn lemma_fixed_token_round_trip(cv: ComponentValue)
    requires
        is_fixed_token(cv),
    ensures
        crate::tokenizer::token_at(serialize_cv(cv), 0, cv, serialize_cv(cv).len() as int),
{
    let s = serialize_cv(cv);
    if cv is WhiteSpace {
        assert(crate::tokenizer::ws_end(s, 0) == crate::tokenizer::ws_end(s, 1));
    }
    if cv is CDO {
        assert(crate::tokenizer::cdo_at(s, 0));
    }
    if cv is CDC {
        assert(crate::tokenizer::cdc_at(s, 0));
    }
}

/// The same, lifted to token lists: the serialization of one payload-free
/// token tokenizes back to exactly the one-token list, and serializing
/// that list reproduces the text — the round-trip and idempotence laws at
/// the single-token level. (The laws over arbitrary token sequences also
/// depend on how neighbouring serializations join, and are checked on
/// concrete inputs instead.)
pub proof fn lemma_fixed_token_reparse(cv: ComponentValue, loc: SourceLocation)
    requires
        is_fixed_token(cv),
        loc == crate::tokenizer::spec_location(serialize_cv(cv), 0),
    ensures
        crate::tokenizer::tokens_from(serialize_cv(cv), 0, seq![(cv, loc)]),
        serialize_loc_from(seq![(cv, loc)], 0) == serialize_cv(cv),
{
    let s = serialize_cv(cv);
    lemma_fixed_token_round_trip(cv);
    assert(!crate::tokenizer::comment_at(s, 0));
    assert(crate::tokenizer::after_comments(s, 0) == 0);
    assert(crate::tokenizer::after_comments(s, s.len() as int) == s.len());
    assert(seq![(cv, loc)].drop_first() =~= Seq::<(ComponentValue, SourceLocation)>::empty());
    assert(crate::tokenizer::tokens_from(s, s.len() as int, seq![(cv, loc)].drop_first()));
    assert(serialize_loc_from(seq![(cv, loc)], 1) =~= Seq::<char>::empty());
    assert(serialize_loc_from(seq![(cv, loc)], 0) =~= s);
}

} // verus!
