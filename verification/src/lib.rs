//! A low-level CSS tokenizer and syntactic parser.
//!
//! Raw CSS source (text or encoded bytes) is turned into a lossless tree of
//! component values; grammar-level readers built on that tree produce
//! declarations, rules and stylesheets, with per-item error recovery.
//! A serializer renders the tree back to CSS text, and two narrow grammar
//! readers (colors and the An+B micro-syntax) show how small grammars are
//! layered on the shared model.

pub mod ast;
pub mod color;
pub mod from_bytes;
pub mod nth;
pub mod parser;
pub mod support;
pub mod serializer;
pub mod tokenizer;

pub use ast::{
    AtRule, ComponentValue, Declaration, DeclarationListItem, ErrorReason, NumericValue,
    QualifiedRule, Rule, SourceLocation, SyntaxError,
};
pub use color::{Color, RGBA};
pub use from_bytes::{parse_stylesheet_rules_from_bytes, resolve_encoding};
pub use nth::parse_nth;
pub use parser::{
    parse_declaration_list, parse_one_component_value, parse_one_declaration, parse_one_rule,
    parse_rule_list, parse_stylesheet_rules,
};
pub use serializer::component_values_to_css_string;
pub use tokenizer::{strip_locations, tokenize};
