use memeroute::dsn::error::DsnError;
use memeroute::dsn::lexer::Lexer;
use memeroute::dsn::parser::Parser;
use memeroute::dsn::token::{classify, Tok, Token};
use memeroute::dsn::types::{
    DsnDimensionUnit, DsnLayerType, DsnLockType, DsnObjectType, DsnResolution, DsnSide,
};
use memeroute::text::{parse_i32, split_once};

fn lex(s: &str) -> Vec<Token> {
    let lx = Lexer::new(s).unwrap();
    assert!(lx.can_lex());
    lx.lex().unwrap()
}

fn texts(toks: &[Token]) -> Vec<String> {
    toks.iter().map(|t| t.s.clone()).collect()
}

#[test]
fn lexes_parens_and_words() {
    let toks = lex("(pcb board\n  (unit mm))");
    assert_eq!(texts(&toks), vec!["(", "pcb", "board", "(", "unit", "mm", ")", ")"]);
    let kinds: Vec<Tok> = toks.iter().map(|t| t.tok).collect();
    assert_eq!(
        kinds,
        vec![Tok::Lparen, Tok::Pcb, Tok::Literal, Tok::Lparen, Tok::Unit, Tok::Mm, Tok::Rparen, Tok::Rparen]
    );
}

#[test]
fn keywords_ignore_case() {
    assert_eq!(classify("PCB"), Tok::Pcb);
    assert_eq!(classify("Via_Keepout"), Tok::ViaKeepout);
    assert_eq!(classify("use_via"), Tok::UseVia);
    assert_eq!(classify("("), Tok::Lparen);
    assert_eq!(classify("literal"), Tok::Literal);
    assert_eq!(classify("pcbx"), Tok::Literal);
}

#[test]
fn quoted_tokens_with_spaces() {
    let toks = lex("(parser (string_quote \") (space_in_quoted_tokens on)) (x \"a b\" c)");
    assert_eq!(texts(&toks), vec!["(", "parser", ")", "(", "x", "a b", "c", ")"]);
}

#[test]
fn quoted_tokens_end_at_a_space() {
    let toks = lex("(string_quote $) ($ab c$ d)");
    assert_eq!(texts(&toks), vec!["(", "ab", "c", "d", ")"]);
}

#[test]
fn unclosed_quote_cannot_be_lexed() {
    let lx = Lexer::new("(string_quote ') (a 'bc").unwrap();
    assert!(!lx.can_lex());
}

#[test]
fn unknown_quote_character_is_refused() {
    match Lexer::new("(string_quote #)") {
        Err(DsnError::UnknownQuoteCharacter(s)) => assert_eq!(s, "#"),
        _ => panic!("expected an unknown quote character"),
    }
}

#[test]
fn integers_parse_like_from_str() {
    assert_eq!(parse_i32("42"), Some(42));
    assert_eq!(parse_i32("+7"), Some(7));
    assert_eq!(parse_i32("-2147483648"), Some(i32::MIN));
    assert_eq!(parse_i32("2147483647"), Some(i32::MAX));
    assert_eq!(parse_i32("2147483648"), None);
    assert_eq!(parse_i32("-"), None);
    assert_eq!(parse_i32(""), None);
    assert_eq!(parse_i32("1x"), None);
    assert_eq!(parse_i32("99999999999999999999"), None);
}

#[test]
fn split_once_at_first_dash() {
    assert_eq!(split_once("U1-2-3", '-'), Some(("U1".to_string(), "2-3".to_string())));
    assert_eq!(split_once("U1", '-'), None);
}

#[test]
fn parses_a_net() {
    let toks = lex("(net GND (pins U1-1 U2-7) (pins R3-2)) rest");
    let mut p = Parser::new(&toks);
    let net = p.net().unwrap();
    assert_eq!(net.net_id, "GND");
    let pins: Vec<(String, String)> =
        net.pins.iter().map(|r| (r.component_id.clone(), r.pin_id.clone())).collect();
    assert_eq!(
        pins,
        vec![
            ("U1".to_string(), "1".to_string()),
            ("U2".to_string(), "7".to_string()),
            ("R3".to_string(), "2".to_string())
        ]
    );
    assert_eq!(p.literal().unwrap(), "rest");
}

#[test]
fn net_errors() {
    let toks = lex("(net GND (pins U1))");
    match Parser::new(&toks).net() {
        Err(DsnError::InvalidPinRef(s)) => assert_eq!(s, "U1"),
        _ => panic!("expected an invalid pin reference"),
    }
    let toks = lex("(net GND (order U1-1))");
    match Parser::new(&toks).net() {
        Err(DsnError::UnrecognisedToken(t)) => assert_eq!(t.s, "order"),
        _ => panic!("expected an unrecognised token"),
    }
    let toks = lex("(net GND (pins U1-1)");
    assert!(matches!(Parser::new(&toks).net(), Err(DsnError::UnexpectedEof)));
}

#[test]
fn parses_a_layer() {
    let toks = lex("(layer F.Cu (type power) (property (index 0)))");
    let mut p = Parser::new(&toks);
    let l = p.layer().unwrap();
    assert_eq!(l.layer_name, "F.Cu");
    assert_eq!(l.layer_type, DsnLayerType::Power);
    assert!(matches!(p.next(), Err(DsnError::UnexpectedEof)));
    let toks = lex("(layer B.Cu)");
    assert_eq!(Parser::new(&toks).layer().unwrap().layer_type, DsnLayerType::Signal);
    let toks = lex("(layer B.Cu (type weird))");
    assert!(matches!(Parser::new(&toks).layer(), Err(DsnError::UnrecognisedLayerType)));
}

#[test]
fn parses_a_resolution() {
    let toks = lex("(resolution um 10)");
    let r = Parser::new(&toks).resolution().unwrap();
    assert_eq!(r, DsnResolution { amount: 10, dimension: DsnDimensionUnit::Um });
    let toks = lex("(resolution furlong 10)");
    assert!(matches!(Parser::new(&toks).resolution(), Err(DsnError::UnknownDimensionUnit)));
    let toks = lex("(resolution mm ten)");
    match Parser::new(&toks).resolution() {
        Err(DsnError::InvalidInteger(s)) => assert_eq!(s, "ten"),
        _ => panic!("expected an invalid integer"),
    }
}

#[test]
fn ignore_skips_a_group() {
    let toks = lex("(a (b c) d) e");
    let mut p = Parser::new(&toks);
    p.ignore().unwrap();
    assert_eq!(p.literal().unwrap(), "e");
    // Called inside an expression, it skips to the end of that expression.
    let toks = lex("x (y) z) w");
    let mut p = Parser::new(&toks);
    p.ignore().unwrap();
    assert_eq!(p.literal().unwrap(), "w");
    let toks = lex("(a (b");
    assert!(matches!(Parser::new(&toks).ignore(), Err(DsnError::UnexpectedEof)));
}

#[test]
fn small_descriptors() {
    let toks = lex("(unit) (wiring) (via) (wire) (via x)");
    let mut p = Parser::new(&toks);
    assert_eq!(p.unit().unwrap(), DsnDimensionUnit::Inch);
    let w = p.wiring().unwrap();
    assert!(w.wires.is_empty() && w.vias.is_empty());
    p.via().unwrap();
    p.wire().unwrap();
    // The token reported is the one after the first token of the clause.
    match p.via() {
        Err(DsnError::UnrecognisedToken(t)) => assert_eq!(t.s, ")"),
        _ => panic!("expected an unrecognised token"),
    }
}

#[test]
fn switches_and_sides() {
    let toks = lex("on off front back both maybe");
    let mut p = Parser::new(&toks);
    assert_eq!(p.onoff().unwrap(), true);
    assert_eq!(p.onoff().unwrap(), false);
    assert_eq!(p.side().unwrap(), DsnSide::Front);
    assert_eq!(p.side().unwrap(), DsnSide::Back);
    assert_eq!(p.side().unwrap(), DsnSide::Both);
    assert!(matches!(p.side(), Err(DsnError::UnrecognisedSide)));
    let toks = lex("pcb");
    let mut p = Parser::new(&toks);
    assert!(matches!(p.peek(1), Err(DsnError::UnexpectedEof)));
    assert_eq!(p.peek(0).unwrap().s, "pcb");
    match p.expect(Tok::Lparen) {
        Err(DsnError::UnexpectedToken(t)) => assert_eq!(t.s, "pcb"),
        _ => panic!("expected an unexpected token"),
    }
}

#[test]
fn enum_names() {
    assert_eq!(DsnDimensionUnit::Mm.to_string(), "mm");
    assert_eq!(DsnObjectType::TestPoint.to_string(), "testpoint");
    assert_eq!(DsnLockType::Unlocked.to_string(), "none");
    assert_eq!(DsnSide::default(), DsnSide::Front);
    assert_eq!(DsnResolution::default(), DsnResolution { amount: 2540000, dimension: DsnDimensionUnit::Inch });
}
