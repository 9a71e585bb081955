//! The encoding resolver: picks a character encoding for a raw byte
//! stream (byte-order mark, protocol label, `@charset` rule, environment
//! hint, UTF-8 default, in that order), decodes the remaining bytes, and
//! hands the text to the tokenizer and stylesheet parser.

use crate::ast::{ComponentValue, Rule, SourceLocation, SyntaxError};
use crate::parser::{parse_stylesheet_rules, stylesheet_items};
use crate::tokenizer::{preprocess, tokens_from};
use vstd::prelude::*;

verus! {

/// The canonical name of an encoding, as plain text. The WHATWG label
/// registry itself lives in the outside encoding library; the resolver
/// treats labels as opaque text.
pub open spec fn utf8_name() -> Seq<char> {
    seq!['u', 't', 'f', '-', '8']
}

pub open spec fn utf16le_name() -> Seq<char> {
    seq!['u', 't', 'f', '-', '1', '6', 'l', 'e']
}

pub open spec fn utf16be_name() -> Seq<char> {
    seq!['u', 't', 'f', '-', '1', '6', 'b', 'e']
}

/// The canonical encoding name the WHATWG label registry gives for a
/// label, or nothing for an unknown label.
pub uninterp spec fn whatwg_encoding_name(label: Seq<char>) -> Option<Seq<char>>;

/// The text that decoding `bytes` under the encoding the WHATWG registry
/// gives for `label` (UTF-8 for an unknown label) yields, with malformed
/// sequences replaced.
pub uninterp spec fn decoded_text(label: Seq<char>, bytes: Seq<u8>) -> Seq<char>;

/// Relies on `encoding::label::encoding_from_whatwg_label`: `Some` exactly
/// for labels of the WHATWG registry, and then the encoding's canonical
/// name.
#[verifier::external_body]
fn lookup_label(label: &str) -> (r: Option<String>)
    ensures
        r is Some <==> whatwg_encoding_name(label@) is Some,
        match r {
            Some(n) => whatwg_encoding_name(label@) == Some(n@),
            None => true,
        },
{
    encoding::label::encoding_from_whatwg_label(label).map(|e| e.name().to_string())
}

/// Relies on `encoding::types::Encoding::decode` with the replacement
/// trap: a total decode of the bytes under the encoding the label names
/// (UTF-8 for an unknown label); the result depends on the label and the
/// bytes alone.
#[verifier::external_body]
fn decode_bytes(label: &str, bytes: &Vec<u8>) -> (r: String)
    ensures
        r@ == decoded_text(label@, bytes@),
{
    let enc = match encoding::label::encoding_from_whatwg_label(label) {
        Some(e) => e,
        None => encoding::all::UTF_8,
    };
    match enc.decode(bytes, encoding::DecoderTrap::Replace) {
        Ok(s) => s,
        Err(e) => e.into_owned(),
    }
}

/// A `@charset "<label>";` rule at the very start of the bytes: the label
/// runs to the next `"` byte. Nothing is found when the prefix or the
/// closing quote is missing.
pub open spec fn charset_quote_end(bytes: Seq<u8>, i: int) -> int
    decreases bytes.len() - i,
{
    if i < 0 || i >= bytes.len() {
        bytes.len() as int
    } else if bytes[i] == 0x22 {
        i
    } else {
        charset_quote_end(bytes, i + 1)
    }
}

/// The ten bytes of `@charset "` in ASCII.
pub open spec fn has_charset_prefix(bytes: Seq<u8>) -> bool {
    bytes.len() >= 10 && bytes[0] == 0x40 && bytes[1] == 0x63 && bytes[2] == 0x68 && bytes[3]
        == 0x61 && bytes[4] == 0x72 && bytes[5] == 0x73 && bytes[6] == 0x65 && bytes[7] == 0x74
        && bytes[8] == 0x20 && bytes[9] == 0x22
}

/// The label of a leading `@charset` rule, read as ASCII bytes.
pub open spec fn charset_label(bytes: Seq<u8>) -> Option<Seq<char>> {
    if has_charset_prefix(bytes) && charset_quote_end(bytes, 10) < bytes.len() {
        Some(
            bytes.subrange(10, charset_quote_end(bytes, 10)).map_values(
                |b: u8| b as char,
            ),
        )
    } else {
        None
    }
}

/// Which encoding decodes the stylesheet: the canonical name reported to
/// the caller, the label the bytes are decoded under, and how many
/// leading bytes (a byte-order mark) are not part of the decoded text.
/// A recognized byte-order mark wins outright; then a known protocol
/// label; then a known `@charset` label; then the environment hint; else
/// UTF-8. The decoding label is the label that was recognized (a
/// canonical name is not always a registry label itself), so the bytes
/// are decoded under exactly the encoding that was chosen.
pub open spec fn spec_resolve(
    bytes: Seq<u8>,
    protocol: Option<Seq<char>>,
    environment: Option<Seq<char>>,
) -> (Seq<char>, Seq<char>, int) {
    if bytes.len() >= 3 && bytes[0] == 0xEF && bytes[1] == 0xBB && bytes[2] == 0xBF {
        (utf8_name(), utf8_name(), 3)
    } else if bytes.len() >= 2 && bytes[0] == 0xFF && bytes[1] == 0xFE {
        (utf16le_name(), utf16le_name(), 2)
    } else if bytes.len() >= 2 && bytes[0] == 0xFE && bytes[1] == 0xFF {
        (utf16be_name(), utf16be_name(), 2)
    } else if protocol is Some && whatwg_encoding_name(protocol->0) is Some {
        (whatwg_encoding_name(protocol->0)->0, protocol->0, 0)
    } else if charset_label(bytes) is Some && whatwg_encoding_name(charset_label(bytes)->0)
        is Some {
        (whatwg_encoding_name(charset_label(bytes)->0)->0, charset_label(bytes)->0, 0)
    } else if environment is Some {
        (environment->0, environment->0, 0)
    } else {
        (utf8_name(), utf8_name(), 0)
    }
}

/// A byte-order mark always wins: whatever labels are supplied, input
/// starting with the UTF-16LE mark is reported as UTF-16LE (and likewise
/// for the other recognized marks).
pub proof fn lemma_bom_wins(
    bytes: Seq<u8>,
    protocol: Option<Seq<char>>,
    environment: Option<Seq<char>>,
)
    requires
        bytes.len() >= 2,
        bytes[0] == 0xFF,
        bytes[1] == 0xFE,
    ensures
        spec_resolve(bytes, protocol, environment).0 == utf16le_name(),
        spec_resolve(bytes, protocol, environment).1 == utf16le_name(),
        spec_resolve(bytes, protocol, environment).2 == 2,
{
}

fn exec_charset_quote_end(bytes: &Vec<u8>, i: usize) -> (r: usize)
    requires
        i <= bytes@.len(),
    ensures
        r as int == charset_quote_end(bytes@, i as int),
        i <= r <= bytes@.len(),
    decreases bytes@.len() - i,
{
    if i >= bytes.len() {
        bytes.len()
    } else if bytes[i] == 0x22 {
        i
    } else {
        exec_charset_quote_end(bytes, i + 1)
    }
}

fn exec_charset_label(bytes: &Vec<u8>) -> (r: Option<String>)
    ensures
        match r {
            Some(l) => charset_label(bytes@) == Some(l@),
            None => charset_label(bytes@) is None,
        },
{
    let n = bytes.len();
    let has_prefix = n >= 10 && bytes[0] == 0x40 && bytes[1] == 0x63 && bytes[2] == 0x68
        && bytes[3] == 0x61 && bytes[4] == 0x72 && bytes[5] == 0x73 && bytes[6] == 0x65
        && bytes[7] == 0x74 && bytes[8] == 0x20 && bytes[9] == 0x22;
    if !has_prefix {
        return None;
    }
    let q = exec_charset_quote_end(bytes, 10);
    if q >= n {
        return None;
    }
    let mut v: Vec<char> = Vec::new();
    let mut j: usize = 10;
    while j < q
        invariant
            10 <= j <= q <= bytes@.len(),
            v@ == bytes@.subrange(10, j as int).map_values(|b: u8| b as char),
        decreases q - j,
    {
        v.push(bytes[j] as char);
        proof {
            assert(v@ =~= bytes@.subrange(10, j + 1).map_values(|b: u8| b as char));
        }
        j = j + 1;
    }
    proof {
        assert(v@ =~= bytes@.subrange(10, charset_quote_end(bytes@, 10)).map_values(
            |b: u8| b as char,
        ));
    }
    Some(crate::support::chars_to_string(&v))
}

/// Resolves the encoding: its canonical-or-given name (for diagnostics),
/// the label to decode under, and how many leading byte-order-mark bytes
/// to skip before decoding.
pub fn resolve_encoding(
    bytes: &Vec<u8>,
    protocol_encoding_label: Option<&str>,
    environment_encoding: Option<&str>,
) -> (r: (String, String, usize))
    ensures
        ({
            let spec = spec_resolve(
                bytes@,
                match protocol_encoding_label {
                    Some(p) => Some(p@),
                    None => None,
                },
                match environment_encoding {
                    Some(e) => Some(e@),
                    None => None,
                },
            );
            r.0@ == spec.0 && r.1@ == spec.1 && r.2 as int == spec.2
        }),
{
    let n = bytes.len();
    if n >= 3 && bytes[0] == 0xEF && bytes[1] == 0xBB && bytes[2] == 0xBF {
        let name = String::from_str("utf-8");
        proof {
            reveal_strlit("utf-8");
            assert(name@ =~= utf8_name());
        }
        let label = String::from_str("utf-8");
        (name, label, 3)
    } else if n >= 2 && bytes[0] == 0xFF && bytes[1] == 0xFE {
        let name = String::from_str("utf-16le");
        proof {
            reveal_strlit("utf-16le");
            assert(name@ =~= utf16le_name());
        }
        let label = String::from_str("utf-16le");
        (name, label, 2)
    } else if n >= 2 && bytes[0] == 0xFE && bytes[1] == 0xFF {
        let name = String::from_str("utf-16be");
        proof {
            reveal_strlit("utf-16be");
            assert(name@ =~= utf16be_name());
        }
        let label = String::from_str("utf-16be");
        (name, label, 2)
    } else {
        let from_protocol = match protocol_encoding_label {
            Some(label) => lookup_label(label),
            None => None,
        };
        match from_protocol {
            Some(name) => {
                let label = match protocol_encoding_label {
                    Some(label) => String::from_str(label),
                    None => {
                        proof {
                            assert(false);
                        }
                        String::new()
                    },
                };
                (name, label, 0)
            },
            None => {
                let charset = exec_charset_label(bytes);
                let from_charset = match &charset {
                    Some(l) => lookup_label(l.as_str()),
                    None => None,
                };
                match (from_charset, charset) {
                    (Some(name), Some(label)) => (name, label, 0),
                    (_, _) => match environment_encoding {
                        Some(e) => (String::from_str(e), String::from_str(e), 0),
                        None => {
                            let name = String::from_str("utf-8");
                            proof {
                                reveal_strlit("utf-8");
                                assert(name@ =~= utf8_name());
                            }
                            let label = String::from_str("utf-8");
                            (name, label, 0)
                        },
                    },
                }
            },
        }
    }
}

/// Decodes everything after the byte-order mark under the chosen
/// encoding.
fn bytes_suffix(bytes: &Vec<u8>, skip: usize) -> (r: Vec<u8>)
    requires
        skip <= bytes@.len(),
    ensures
        r@ == bytes@.skip(skip as int),
{
    let mut v: Vec<u8> = Vec::new();
    let mut j = skip;
    while j < bytes.len()
        invariant
            skip <= j <= bytes@.len(),
            v@ == bytes@.subrange(skip as int, j as int),
        decreases bytes@.len() - j,
    {
        v.push(bytes[j]);
        proof {
            assert(v@ =~= bytes@.subrange(skip as int, j + 1));
        }
        j = j + 1;
    }
    proof {
        assert(v@ =~= bytes@.skip(skip as int));
    }
    v
}

/// The contract of `parse_stylesheet_rules_from_bytes`: the name is the
/// resolved encoding's, and the rules are the stylesheet items of the
/// token list of the bytes decoded under the resolved label.
pub open spec fn from_bytes_post(
    bytes: Seq<u8>,
    protocol: Option<Seq<char>>,
    environment: Option<Seq<char>>,
    rules: Seq<Result<Rule, SyntaxError>>,
    name: Seq<char>,
) -> bool {
    let spec = spec_resolve(bytes, protocol, environment);
    &&& name == spec.0
    &&& exists|toks: Seq<(ComponentValue, SourceLocation)>|
        #![trigger stylesheet_items(toks, 0, rules)]
        {
            &&& tokens_from(preprocess(decoded_text(spec.1, bytes.skip(spec.2))), 0, toks)
            &&& stylesheet_items(toks, 0, rules)
        }
}

/// Determines the encoding of the byte stream, decodes it, and parses the
/// decoded text as a stylesheet. Returns the rule list and the chosen
/// encoding's name.
pub fn parse_stylesheet_rules_from_bytes(
    bytes: &Vec<u8>,
    protocol_encoding_label: Option<&str>,
    environment_encoding: Option<&str>,
) -> (r: (Vec<Result<Rule, SyntaxError>>, String))
    ensures
        from_bytes_post(
            bytes@,
            match protocol_encoding_label {
                Some(p) => Some(p@),
                None => None,
            },
            match environment_encoding {
                Some(e) => Some(e@),
                None => None,
            },
            r.0@,
            r.1@,
        ),
{
    let (name, label, skip) = resolve_encoding(
        bytes,
        protocol_encoding_label,
        environment_encoding,
    );
    let rest = bytes_suffix(bytes, skip);
    let text = decode_bytes(label.as_str(), &rest);
    let toks = crate::tokenizer::tokenize(text.as_str());
    let ghost gtoks = toks@;
    let rules = parse_stylesheet_rules(toks);
    proof {
        let po = match protocol_encoding_label {
            Some(p) => Some(p@),
            None => None,
        };
        let eo = match environment_encoding {
            Some(e) => Some(e@),
            None => None,
        };
        let spec = spec_resolve(bytes@, po, eo);
        assert(spec.0 == name@ && spec.1 == label@ && spec.2 == skip as int);
        assert(rest@ == bytes@.skip(spec.2));
        assert(tokens_from(preprocess(decoded_text(spec.1, bytes@.skip(spec.2))), 0, gtoks));
        assert(stylesheet_items(gtoks, 0, rules@));
        assert(from_bytes_post(bytes@, po, eo, rules@, name@));
    }
    (rules, name)
}

} // verus!
