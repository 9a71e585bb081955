use cssparser::{
    component_values_to_css_string, parse_declaration_list, parse_nth, parse_one_component_value,
    parse_one_declaration, parse_one_rule, parse_stylesheet_rules, parse_stylesheet_rules_from_bytes,
    strip_locations, tokenize, Color, ComponentValue, DeclarationListItem, ErrorReason, RGBA,
    SyntaxError,
};

fn one(input: &str) -> ComponentValue {
    parse_one_component_value(tokenize(input)).unwrap()
}

#[test]
fn serialize_current_color() {
    let c = Color::CurrentColor;
    assert!(c.to_css_string() == "currentColor");
}

#[test]
fn serialize_rgb_full_alpha() {
    let c = Color::RGBA(RGBA { red: 255, green: 230, blue: 204, alpha_num: 1, alpha_den: 1 });
    assert!(c.to_css_string() == "rgb(255, 230, 204)");
}

#[test]
fn serialize_rgba() {
    let c = Color::RGBA(RGBA { red: 26, green: 51, blue: 77, alpha_num: 5, alpha_den: 10 });
    assert!(c.to_css_string() == "rgba(26, 51, 77, 0.5)");
}

#[test]
fn declaration_list_recovers_after_one_error() {
    let items = parse_declaration_list(tokenize("a: 1; oops; b: 2"));
    assert_eq!(items.len(), 3);
    match &items[0] {
        Ok(DeclarationListItem::Declaration(d)) => assert_eq!(d.name, "a"),
        other => panic!("expected a declaration, got {:?}", other),
    }
    match &items[1] {
        Err(SyntaxError { reason: ErrorReason::InvalidValue(_) }) => {}
        other => panic!("expected an invalid-value error, got {:?}", other),
    }
    match &items[2] {
        Ok(DeclarationListItem::Declaration(d)) => {
            assert_eq!(d.name, "b");
            assert!(!d.important);
        }
        other => panic!("expected a declaration, got {:?}", other),
    }
}

#[test]
fn numeric_fidelity() {
    let toks = strip_locations(tokenize("1.0"));
    assert_eq!(toks.len(), 1);
    match &toks[0] {
        ComponentValue::Number(nv) => {
            assert_eq!(nv.representation, "1.0");
            assert_eq!(nv.numerator, 10);
            assert_eq!(nv.denominator, 10);
            assert_eq!(nv.int_value, None);
        }
        other => panic!("expected a number, got {:?}", other),
    }
    let toks = strip_locations(tokenize("10"));
    match &toks[0] {
        ComponentValue::Number(nv) => {
            assert_eq!(nv.representation, "10");
            assert_eq!(nv.numerator, 10);
            assert_eq!(nv.denominator, 1);
            assert_eq!(nv.int_value, Some(10));
        }
        other => panic!("expected a number, got {:?}", other),
    }
}

#[test]
fn numeric_exponent() {
    let toks = strip_locations(tokenize("1.5e2 -2 +.5"));
    match &toks[0] {
        ComponentValue::Number(nv) => {
            assert_eq!(nv.representation, "1.5e2");
            assert_eq!(nv.numerator, 150);
            assert_eq!(nv.denominator, 1);
            assert_eq!(nv.int_value, None);
        }
        other => panic!("expected a number, got {:?}", other),
    }
    match &toks[2] {
        ComponentValue::Number(nv) => {
            assert_eq!(nv.numerator, -2);
            assert_eq!(nv.int_value, Some(-2));
        }
        other => panic!("expected a number, got {:?}", other),
    }
    match &toks[4] {
        ComponentValue::Number(nv) => {
            assert_eq!(nv.representation, "+.5");
            assert_eq!(nv.numerator, 5);
            assert_eq!(nv.denominator, 10);
            assert_eq!(nv.int_value, None);
        }
        other => panic!("expected a number, got {:?}", other),
    }
}

#[test]
fn color_current_and_hex() {
    assert_eq!(Color::parse(&one("currentColor")), Ok(Color::CurrentColor));
    assert_eq!(
        Color::parse(&one("#ff0000")),
        Ok(Color::RGBA(RGBA { red: 255, green: 0, blue: 0, alpha_num: 1, alpha_den: 1 }))
    );
    assert_eq!(
        Color::parse(&one("#f00")),
        Ok(Color::RGBA(RGBA { red: 255, green: 0, blue: 0, alpha_num: 1, alpha_den: 1 }))
    );
    assert!(Color::parse(&one("#ff00")).is_ok());
    assert!(Color::parse(&one("#f0f0f")).is_err());
}

#[test]
fn color_keywords() {
    assert_eq!(
        Color::parse(&one("red")),
        Ok(Color::RGBA(RGBA { red: 255, green: 0, blue: 0, alpha_num: 1, alpha_den: 1 }))
    );
    assert_eq!(
        Color::parse(&one("LightGoldenRodYellow")),
        Ok(Color::RGBA(RGBA { red: 250, green: 250, blue: 210, alpha_num: 1, alpha_den: 1 }))
    );
    assert_eq!(
        Color::parse(&one("transparent")),
        Ok(Color::RGBA(RGBA { red: 0, green: 0, blue: 0, alpha_num: 0, alpha_den: 1 }))
    );
    assert!(Color::parse(&one("lightgoldenrodyellowbazinga")).is_err());
}

#[test]
fn color_rgb_round_trip() {
    let c = Color::parse(&one("rgb(255, 230, 204)")).unwrap();
    assert_eq!(c.to_css_string(), "rgb(255, 230, 204)");
    let c = Color::parse(&one("rgba(26, 51, 77, 0.5)")).unwrap();
    assert_eq!(c.to_css_string(), "rgba(26, 51, 77, 0.5)");
    let c = Color::parse(&one("rgb(10%, 50%, 100%)")).unwrap();
    assert_eq!(
        c,
        Color::RGBA(RGBA { red: 26, green: 128, blue: 255, alpha_num: 1, alpha_den: 1 })
    );
    assert!(Color::parse(&one("rgb(1, 2%, 3)")).is_err());
}

#[test]
fn color_hsl() {
    let c = Color::parse(&one("hsl(120, 100%, 50%)")).unwrap();
    assert_eq!(
        c,
        Color::RGBA(RGBA { red: 0, green: 255, blue: 0, alpha_num: 1, alpha_den: 1 })
    );
    let c = Color::parse(&one("hsl(0, 0%, 100%)")).unwrap();
    assert_eq!(
        c,
        Color::RGBA(RGBA { red: 255, green: 255, blue: 255, alpha_num: 1, alpha_den: 1 })
    );
}

#[test]
fn nth() {
    let run = |s: &str| parse_nth(&strip_locations(tokenize(s)));
    assert_eq!(run("odd"), Ok((2, 1)));
    assert_eq!(run("even"), Ok((2, 0)));
    assert_eq!(run("2n+1"), Ok((2, 1)));
    assert_eq!(run("0"), Ok((0, 0)));
    assert_eq!(run("3n"), Ok((3, 0)));
    assert_eq!(run("-n+6"), Ok((-1, 6)));
    assert_eq!(run("n- 5"), Ok((1, -5)));
    assert_eq!(run("2n + 1"), Ok((2, 1)));
    assert_eq!(run("+n"), Ok((1, 0)));
    assert_eq!(run("n-3"), Ok((1, -3)));
    assert!(run("3 n").is_err());
    assert!(run("2n+").is_err());
}

#[test]
fn encoding_bom_wins() {
    // UTF-16LE encoded "a{}" after the byte-order mark.
    let bytes = vec![0xFF, 0xFE, 0x61, 0x00, 0x7B, 0x00, 0x7D, 0x00];
    let (rules, name) = parse_stylesheet_rules_from_bytes(&bytes, Some("utf-8"), None);
    assert_eq!(name, "utf-16le");
    assert_eq!(rules.len(), 1);
    match &rules[0] {
        Ok(cssparser::Rule::QualifiedRule(q)) => {
            assert_eq!(q.prelude, vec![ComponentValue::Ident(String::from("a"))]);
            assert!(q.block.is_empty());
        }
        other => panic!("expected a qualified rule, got {:?}", other),
    }
}

#[test]
fn encoding_fallbacks() {
    let plain = b"x{}".to_vec();
    let (_, name) = parse_stylesheet_rules_from_bytes(&plain, None, None);
    assert_eq!(name, "utf-8");
    let (_, name) = parse_stylesheet_rules_from_bytes(&plain, None, Some("gbk"));
    assert_eq!(name, "gbk");
    let charset = b"@charset \"utf-8\";x{}".to_vec();
    let (_, name) = parse_stylesheet_rules_from_bytes(&charset, None, Some("gbk"));
    assert_eq!(name, "utf-8");
    // A non-canonical label resolves to the canonical encoding name.
    let (_, name) = parse_stylesheet_rules_from_bytes(&plain, Some("ascii"), None);
    assert_eq!(name, "windows-1252");
}

#[test]
fn encoding_decodes_under_the_recognized_label() {
    // 0x80 is U+00C4 in mac-roman; the canonical name "mac-roman" is not
    // itself a registry label, so the bytes must be decoded under the
    // label that was recognized.
    let bytes = vec![0x61, 0x80, 0x7B, 0x7D];
    let (rules, name) = parse_stylesheet_rules_from_bytes(&bytes, Some("macintosh"), None);
    assert_eq!(name, "mac-roman");
    match &rules[0] {
        Ok(cssparser::Rule::QualifiedRule(q)) => {
            assert_eq!(q.prelude, vec![ComponentValue::Ident(String::from("a\u{c4}"))]);
        }
        other => panic!("expected a qualified rule, got {:?}", other),
    }
}


#[test]
fn unmatched_brackets() {
    let toks = strip_locations(tokenize("foo("));
    assert_eq!(toks.len(), 1);
    match &toks[0] {
        ComponentValue::Function(name, args) => {
            assert_eq!(name, "foo");
            assert!(args.is_empty());
        }
        other => panic!("expected a function, got {:?}", other),
    }
    let toks = strip_locations(tokenize("(a b"));
    assert_eq!(toks.len(), 1);
    match &toks[0] {
        ComponentValue::ParenthesisBlock(content) => assert_eq!(content.len(), 3),
        other => panic!("expected a parenthesis block, got {:?}", other),
    }
    let toks = strip_locations(tokenize(")"));
    assert_eq!(toks, vec![ComponentValue::CloseParenthesis]);
}

#[test]
fn round_trip_and_idempotence() {
    let input = "a { b: c; } 12px 50% url(y) \"s\" #id u+1f-2f ~= <!-- @x;";
    let toks = strip_locations(tokenize(input));
    let text1 = component_values_to_css_string(&toks);
    let back = strip_locations(tokenize(&text1));
    assert_eq!(back, toks);
    let text2 = component_values_to_css_string(&back);
    assert_eq!(text2, text1);
}

#[test]
fn tokenize_strings_and_urls() {
    let toks = strip_locations(tokenize("\"a\\\"b\" url( spa ce ) url(ok) 'q'"));
    match &toks[0] {
        ComponentValue::QuotedString(s) => assert_eq!(s, "a\"b"),
        other => panic!("expected a string, got {:?}", other),
    }
    assert!(toks.contains(&ComponentValue::BadURL));
    match toks.iter().find(|t| matches!(t, ComponentValue::URL(_))) {
        Some(ComponentValue::URL(u)) => assert_eq!(u, "ok"),
        other => panic!("expected a url, got {:?}", other),
    }
    let toks = strip_locations(tokenize("\"a\nb\""));
    assert_eq!(toks[0], ComponentValue::BadString);
}

#[test]
fn tokenize_unicode_range_and_escapes() {
    let toks = strip_locations(tokenize("u+1? u+20-2f \\41 b"));
    assert_eq!(toks[0], ComponentValue::UnicodeRange(0x10, 0x1F));
    assert_eq!(toks[2], ComponentValue::UnicodeRange(0x20, 0x2F));
    match &toks[4] {
        ComponentValue::Ident(s) => assert_eq!(s, "Ab"),
        other => panic!("expected an ident, got {:?}", other),
    }
}

#[test]
fn one_component_value_errors() {
    assert_eq!(
        parse_one_component_value(tokenize("  ")),
        Err(SyntaxError { reason: ErrorReason::EmptyInput })
    );
    assert_eq!(
        parse_one_component_value(tokenize("a b")),
        Err(SyntaxError { reason: ErrorReason::ExtraInput })
    );
    assert!(parse_one_component_value(tokenize(" a ")).is_ok());
}

#[test]
fn one_declaration() {
    let d = parse_one_declaration(tokenize("color: red !important")).unwrap();
    assert_eq!(d.name, "color");
    assert!(d.important);
    assert!(d.value.contains(&ComponentValue::Ident(String::from("red"))));
    let d = parse_one_declaration(tokenize("a: b")).unwrap();
    assert!(!d.important);
    match parse_one_declaration(tokenize("  ")) {
        Err(SyntaxError { reason: ErrorReason::EmptyInput }) => {}
        other => panic!("expected empty input, got {:?}", other),
    }
    match parse_one_declaration(tokenize("nocolon")) {
        Err(SyntaxError { reason: ErrorReason::InvalidValue(_) }) => {}
        other => panic!("expected invalid value, got {:?}", other),
    }
    // The single declaration ends at a top-level semicolon; more
    // non-whitespace content after it is extra input.
    match parse_one_declaration(tokenize("a: b; c: d")) {
        Err(SyntaxError { reason: ErrorReason::ExtraInput }) => {}
        other => panic!("expected extra input, got {:?}", other),
    }
    let d = parse_one_declaration(tokenize("a: b ; ")).unwrap();
    assert_eq!(d.name, "a");
    assert!(!d.value.contains(&ComponentValue::Semicolon));
}

#[test]
fn rules_and_stylesheets() {
    let rules = parse_stylesheet_rules(tokenize("<!-- a { x: y } --> @media print { } @import url(z);"));
    assert_eq!(rules.len(), 3);
    assert!(rules.iter().all(|r| r.is_ok()));
    let rules = parse_stylesheet_rules(tokenize("a { } no-block"));
    assert_eq!(rules.len(), 2);
    assert!(rules[0].is_ok());
    assert!(rules[1].is_err());
    match parse_one_rule(tokenize(" a { } ")) {
        Ok(cssparser::Rule::QualifiedRule(q)) => assert_eq!(q.block.len(), 1),
        other => panic!("expected a qualified rule, got {:?}", other),
    }
    match parse_one_rule(tokenize("a{}b{}")) {
        Err(SyntaxError { reason: ErrorReason::ExtraInput }) => {}
        other => panic!("expected extra input, got {:?}", other),
    }
    match parse_one_rule(tokenize(" ")) {
        Err(SyntaxError { reason: ErrorReason::EmptyInput }) => {}
        other => panic!("expected empty input, got {:?}", other),
    }
}

#[test]
fn declaration_serialization() {
    let d = parse_one_declaration(tokenize("a: b !important")).unwrap();
    let text = d.to_css_string();
    assert_eq!(text, "a: b !important");
    let items = parse_declaration_list(tokenize("@media x; a: 1"));
    assert_eq!(items.len(), 2);
    match &items[0] {
        Ok(item @ DeclarationListItem::AtRule(a)) => {
            assert_eq!(a.name, "media");
            assert_eq!(item.to_css_string(), "@media x;");
        }
        other => panic!("expected an at-rule, got {:?}", other),
    }
}

#[test]
fn locations_and_newlines() {
    let toks = tokenize("a\r\nb\u{c}c");
    assert_eq!(toks.len(), 5);
    let (ref cv0, loc0) = toks[0];
    assert_eq!(*cv0, ComponentValue::Ident(String::from("a")));
    assert_eq!((loc0.line, loc0.column), (1, 1));
    let (ref cv2, loc2) = toks[2];
    assert_eq!(*cv2, ComponentValue::Ident(String::from("b")));
    assert_eq!((loc2.line, loc2.column), (2, 1));
    let (ref cv4, loc4) = toks[4];
    assert_eq!(*cv4, ComponentValue::Ident(String::from("c")));
    assert_eq!((loc4.line, loc4.column), (3, 1));
}

#[test]
fn comments_are_skipped() {
    let toks = strip_locations(tokenize("a/* comment */b /* unterminated"));
    assert_eq!(
        toks,
        vec![
            ComponentValue::Ident(String::from("a")),
            ComponentValue::Ident(String::from("b")),
            ComponentValue::WhiteSpace,
        ]
    );
}
