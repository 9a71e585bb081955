//! The component-value data model: the shared vocabulary for every syntactic
//! unit a stylesheet is made of, together with the declaration/rule structures
//! the grammar-level parsers produce and the error model they report with.

use vstd::prelude::*;

verus! {

/// A (line, column) pair attached to component values.
/// Used only for diagnostics, never for semantics.
#[derive(Clone, Copy, PartialEq, Eq, Structural, Debug)]
pub struct SourceLocation {
    /// The first line of the input is line 1.
    pub line: u64,
    /// The first character of each line is column 1.
    pub column: u64,
}

/// The decoded payload of a `Number`, `Percentage` or `Dimension` token.
///
/// The exact source text is retained in `representation`, so that
/// serialization can reproduce the token byte for byte. The decoded value is
/// kept losslessly as the decimal fraction `numerator / denominator`, where
/// `denominator` is a power of ten; `int_value` is present exactly when the
/// token was lexically an integer (no fraction part and no exponent).
#[derive(Clone, PartialEq, Debug)]
pub struct NumericValue {
    pub representation: String,
    pub numerator: i64,
    pub denominator: u64,
    pub int_value: Option<i64>,
}

/// One syntactic unit of a stylesheet: a token, or a nested block or function
/// whose matching close bracket has already been resolved by the tokenizer.
///
/// The recovery pseudo-tokens (`BadURL`, `BadString` and the `Close*`
/// variants) are emitted only on malformed input and are never nested
/// further.
#[derive(PartialEq, Debug)]
pub enum ComponentValue {
    // Textual and identifier-shaped tokens.
    Ident(String),
    AtKeyword(String),
    /// `#` followed by name characters that do not form an identifier.
    Hash(String),
    /// `#` followed by an identifier-shaped name.
    IDHash(String),
    QuotedString(String),
    URL(String),
    /// Any single character not otherwise classified.
    Delim(char),

    // Numeric tokens.
    Number(NumericValue),
    Percentage(NumericValue),
    Dimension(NumericValue, String),

    /// `u+` followed by a hex range pattern; inclusive code point bounds.
    UnicodeRange(u32, u32),

    // Fixed punctuation with no payload.
    WhiteSpace,
    Colon,
    Semicolon,
    Comma,
    /// `~=`
    IncludeMatch,
    /// `|=`
    DashMatch,
    /// `^=`
    PrefixMatch,
    /// `$=`
    SuffixMatch,
    /// `*=`
    SubstringMatch,
    /// `||`
    Column,
    /// `<!--`
    CDO,
    /// `-->`
    CDC,

    // Composite tokens: brackets already matched, content nested inside.
    Function(String, Vec<ComponentValue>),
    ParenthesisBlock(Vec<ComponentValue>),
    SquareBracketBlock(Vec<ComponentValue>),
    /// Curly blocks retain per-item source locations: they are the entry
    /// point for declaration and rule parsing, which reports positions.
    CurlyBracketBlock(Vec<(ComponentValue, SourceLocation)>),

    // Recovery pseudo-tokens.
    BadURL,
    BadString,
    CloseParenthesis,
    CloseSquareBracket,
    CloseCurlyBracket,
}

/// `name: value`, with the `!important` flag already stripped from the value.
#[derive(PartialEq, Debug)]
pub struct Declaration {
    pub location: SourceLocation,
    pub name: String,
    pub value: Vec<ComponentValue>,
    pub important: bool,
}

/// `@name prelude { block }` or `@name prelude;`.
#[derive(PartialEq, Debug)]
pub struct AtRule {
    pub location: SourceLocation,
    pub name: String,
    pub prelude: Vec<ComponentValue>,
    pub block: Option<Vec<(ComponentValue, SourceLocation)>>,
}

/// `prelude { block }`: a rule with a mandatory curly-brace block.
#[derive(PartialEq, Debug)]
pub struct QualifiedRule {
    pub location: SourceLocation,
    pub prelude: Vec<ComponentValue>,
    pub block: Vec<(ComponentValue, SourceLocation)>,
}

/// One item of a rule list.
#[derive(PartialEq, Debug)]
pub enum Rule {
    QualifiedRule(QualifiedRule),
    AtRule(AtRule),
}

/// One item of a declaration list: at-rules are allowed between
/// declarations.
#[derive(PartialEq, Debug)]
pub enum DeclarationListItem {
    Declaration(Declaration),
    AtRule(AtRule),
}

/// Why a single-item parse failed.
#[derive(Clone, PartialEq, Debug)]
pub enum ErrorReason {
    /// Nothing to parse after skipping white space.
    EmptyInput,
    /// A well-formed item was followed by more non-whitespace content when
    /// exactly one item was expected.
    ExtraInput,
    /// A structurally malformed item, with a free-form description.
    InvalidValue(String),
}

#[derive(Clone, PartialEq, Debug)]
pub struct SyntaxError {
    pub reason: ErrorReason,
}

} // verus!
