use my_enum_dispatch::attrs::{
    AttrFault, ContainerAttribute, FnArgModifier, FunctionAttribute, FunctionParam, TypeText,
    VariantAttribute, is_self_param,
};
use my_enum_dispatch::token::Token;

fn id(s: &str) -> Token {
    Token::Ident(s.to_string())
}

fn tt(tokens: Vec<Token>) -> TypeText {
    TypeText { tokens }
}

#[test]
fn test_function_attribute() {
    // fn test(self, param1: u8, param2: u8) -> u8
    let input: Vec<Token> = vec![
        id("fn"),
        id("test"),
        Token::LParen,
        id("self"),
        Token::Comma,
        id("param1"),
        Token::Colon,
        id("u8"),
        Token::Comma,
        id("param2"),
        Token::Colon,
        id("u8"),
        Token::RParen,
        Token::Arrow,
        id("u8"),
    ];
    println!("{:#?}", input);
    let attribute = FunctionAttribute::parse(&input).expect("Failed to parse attribute");
    assert_eq!(attribute.name.to_string(), "test");
    assert_eq!(attribute.params.len(), 2);
    assert!(attribute.return_type.is_some());
    println!("{:#?}", attribute);
}

#[test]
fn test_function_attribute_no_return() {
    // fn test(&self, param: u8,param2: u8)
    let input: Vec<Token> = vec![
        id("fn"),
        id("test"),
        Token::LParen,
        Token::Amp,
        id("self"),
        Token::Comma,
        id("param"),
        Token::Colon,
        id("u8"),
        Token::Comma,
        id("param2"),
        Token::Colon,
        id("u8"),
        Token::RParen,
    ];
    let attribute = FunctionAttribute::parse(&input).expect("Failed to parse attribute");
    assert_eq!(attribute.name.to_string(), "test");
    assert_eq!(attribute.params.len(), 2);
    assert!(attribute.return_type.is_none());
    println!("{:#?}", attribute);
}

#[test]
fn container_plain_type_round_trips() {
    let ca = ContainerAttribute::parse(&vec![id("TestTrait")]).unwrap();
    assert_eq!(ca.trait_type, tt(vec![id("TestTrait")]));
}

#[test]
fn container_dotted_path_round_trips() {
    let toks = vec![id("core"), Token::PathSep, id("fmt"), Token::PathSep, id("Write")];
    let ca = ContainerAttribute::parse(&toks).unwrap();
    assert_eq!(ca.trait_type.tokens, toks);
}

#[test]
fn container_generic_type_round_trips() {
    let toks = vec![id("AsRef"), Token::Lt, Token::LBracket, id("u8"), Token::RBracket, Token::Gt];
    let ca = ContainerAttribute::parse(&toks).unwrap();
    assert_eq!(ca.trait_type.tokens, toks);
}

#[test]
fn container_reference_type_round_trips() {
    let ca = ContainerAttribute::parse(&vec![Token::Amp, id("mut"), id("T")]).unwrap();
    assert_eq!(ca.trait_type, tt(vec![Token::Amp, id("mut"), id("T")]));
}

#[test]
fn container_top_level_comma_rejected() {
    let e = ContainerAttribute::parse(&vec![id("A"), Token::Comma, id("B")]).unwrap_err();
    assert!(matches!(e.fault, AttrFault::Grammar));
    assert_eq!(e.pos, 1);
}

#[test]
fn container_empty_rejected() {
    assert!(ContainerAttribute::parse(&vec![]).is_err());
}

#[test]
fn container_unbalanced_nesting_rejected() {
    let e = ContainerAttribute::parse(&vec![id("Vec"), Token::Lt, id("u8")]).unwrap_err();
    assert!(matches!(e.fault, AttrFault::Grammar));
    assert_eq!(e.pos, 3);
    let e = ContainerAttribute::parse(&vec![Token::Gt]).unwrap_err();
    assert_eq!(e.pos, 0);
}

#[test]
fn variant_attribute_empty_gives_defaults() {
    let va = VariantAttribute::parse(&vec![]).unwrap();
    assert_eq!(va.from, false);
    assert_eq!(va.modifier, None);
}

#[test]
fn variant_attribute_from() {
    let va = VariantAttribute::parse(&vec![id("from")]).unwrap();
    assert!(va.from);
    assert_eq!(va.modifier, None);
}

#[test]
fn variant_attribute_modifier_as_ref() {
    let va = VariantAttribute::parse(&vec![id("modifier"), Token::Eq, id("as_ref")]).unwrap();
    assert!(!va.from);
    assert_eq!(va.modifier, Some(FnArgModifier::AsRef));
}

#[test]
fn variant_attribute_modifier_deref() {
    let va = VariantAttribute::parse(&vec![id("modifier"), Token::Eq, id("deref")]).unwrap();
    assert_eq!(va.modifier, Some(FnArgModifier::Deref));
}

#[test]
fn variant_attribute_from_and_modifier() {
    let toks = vec![id("from"), Token::Comma, id("modifier"), Token::Eq, id("deref")];
    let va = VariantAttribute::parse(&toks).unwrap();
    assert!(va.from);
    assert_eq!(va.modifier, Some(FnArgModifier::Deref));
}

#[test]
fn variant_attribute_trailing_comma_accepted() {
    let va = VariantAttribute::parse(&vec![id("from"), Token::Comma]).unwrap();
    assert!(va.from);
}

#[test]
fn variant_attribute_unknown_keyword_rejected() {
    let e = VariantAttribute::parse(&vec![id("into")]).unwrap_err();
    assert_eq!(e.pos, 0);
}

#[test]
fn variant_attribute_missing_separator_rejected() {
    let e = VariantAttribute::parse(&vec![id("from"), id("from")]).unwrap_err();
    assert_eq!(e.pos, 1);
}

#[test]
fn variant_attribute_bad_modifier_value_rejected() {
    let e = VariantAttribute::parse(&vec![id("modifier"), Token::Eq, id("weird")]).unwrap_err();
    assert_eq!(e.pos, 2);
}

#[test]
fn modifier_parse_rejects_unknown_value() {
    let e = FnArgModifier::parse(&vec![id("borrow")], 0).unwrap_err();
    assert!(matches!(e.fault, AttrFault::Grammar));
    assert_eq!(e.pos, 0);
}

#[test]
fn param_receiver_forms() {
    let (p, end) = FunctionParam::parse(&vec![id("self")], 0).unwrap();
    assert_eq!(p.ident, None);
    assert_eq!(p.ty, tt(vec![id("self")]));
    assert_eq!(end, 1);

    let (p, end) = FunctionParam::parse(&vec![Token::Amp, id("self")], 0).unwrap();
    assert_eq!(p.ident, None);
    assert_eq!(p.ty, tt(vec![Token::Amp, id("self")]));
    assert_eq!(end, 2);

    let (p, end) = FunctionParam::parse(&vec![Token::Amp, id("mut"), id("self")], 0).unwrap();
    assert_eq!(p.ident, None);
    assert_eq!(p.ty, tt(vec![Token::Amp, id("mut"), id("self")]));
    assert_eq!(end, 3);
}

#[test]
fn param_named_and_unnamed() {
    let (p, _) = FunctionParam::parse(&vec![id("x"), Token::Colon, id("u8")], 0).unwrap();
    assert_eq!(p.ident, Some("x".to_string()));
    assert_eq!(p.ty, tt(vec![id("u8")]));

    let (p, _) = FunctionParam::parse(&vec![Token::Underscore, Token::Colon, id("u8")], 0)
        .unwrap();
    assert_eq!(p.ident, None);
    assert_eq!(p.ty, tt(vec![id("u8")]));
}

#[test]
fn param_generic_type_spans_inner_commas() {
    // x: HashMap<K, V>
    let toks = vec![
        id("x"),
        Token::Colon,
        id("HashMap"),
        Token::Lt,
        id("K"),
        Token::Comma,
        id("V"),
        Token::Gt,
    ];
    let (p, end) = FunctionParam::parse(&toks, 0).unwrap();
    assert_eq!(p.ident, Some("x".to_string()));
    assert_eq!(
        p.ty,
        tt(vec![id("HashMap"), Token::Lt, id("K"), Token::Comma, id("V"), Token::Gt]),
    );
    assert_eq!(end, 8);
}

#[test]
fn param_slice_type_kept_verbatim() {
    // x: &[u8]
    let toks = vec![
        id("x"),
        Token::Colon,
        Token::Amp,
        Token::LBracket,
        id("u8"),
        Token::RBracket,
    ];
    let (p, _) = FunctionParam::parse(&toks, 0).unwrap();
    assert_eq!(
        p.ty,
        tt(vec![Token::Amp, Token::LBracket, id("u8"), Token::RBracket]),
    );
}

#[test]
fn param_tuple_type_spans_inner_comma() {
    // x: (u8, u8)
    let toks = vec![
        id("x"),
        Token::Colon,
        Token::LParen,
        id("u8"),
        Token::Comma,
        id("u8"),
        Token::RParen,
    ];
    let (p, end) = FunctionParam::parse(&toks, 0).unwrap();
    assert_eq!(
        p.ty,
        tt(vec![Token::LParen, id("u8"), Token::Comma, id("u8"), Token::RParen]),
    );
    assert_eq!(end, 7);
}

#[test]
fn is_self_param_recognizes_receiver_forms() {
    assert!(is_self_param(&tt(vec![id("self")])));
    assert!(is_self_param(&tt(vec![id("Self")])));
    assert!(is_self_param(&tt(vec![Token::Amp, id("self")])));
    assert!(is_self_param(&tt(vec![Token::Amp, id("mut"), id("Self")])));
    assert!(!is_self_param(&tt(vec![id("u8")])));
    assert!(!is_self_param(&tt(vec![id("std"), Token::PathSep, id("self")])));
}

#[test]
fn function_attribute_receiver_removed_and_kept() {
    // fn test(&mut self, x: u8)
    let toks = vec![
        id("fn"),
        id("test"),
        Token::LParen,
        Token::Amp,
        id("mut"),
        id("self"),
        Token::Comma,
        id("x"),
        Token::Colon,
        id("u8"),
        Token::RParen,
    ];
    let fa = FunctionAttribute::parse(&toks).unwrap();
    assert_eq!(fa.self_param, tt(vec![Token::Amp, id("mut"), id("self")]));
    assert_eq!(fa.params.len(), 1);
    assert_eq!(fa.params[0].ident, Some("x".to_string()));
}

#[test]
fn function_attribute_generic_return_type() {
    // fn get(&self) -> Option<u8>
    let toks = vec![
        id("fn"),
        id("get"),
        Token::LParen,
        Token::Amp,
        id("self"),
        Token::RParen,
        Token::Arrow,
        id("Option"),
        Token::Lt,
        id("u8"),
        Token::Gt,
    ];
    let fa = FunctionAttribute::parse(&toks).unwrap();
    assert_eq!(fa.self_param, tt(vec![Token::Amp, id("self")]));
    assert_eq!(
        fa.return_type,
        Some(tt(vec![id("Option"), Token::Lt, id("u8"), Token::Gt])),
    );
}

#[test]
fn function_attribute_generic_parameter() {
    // fn set(&mut self, v: Vec<Item>)
    let toks = vec![
        id("fn"),
        id("set"),
        Token::LParen,
        Token::Amp,
        id("mut"),
        id("self"),
        Token::Comma,
        id("v"),
        Token::Colon,
        id("Vec"),
        Token::Lt,
        id("Item"),
        Token::Gt,
        Token::RParen,
    ];
    let fa = FunctionAttribute::parse(&toks).unwrap();
    assert_eq!(fa.params.len(), 1);
    assert_eq!(fa.params[0].ident, Some("v".to_string()));
    assert_eq!(
        fa.params[0].ty,
        tt(vec![id("Vec"), Token::Lt, id("Item"), Token::Gt]),
    );
    assert!(fa.return_type.is_none());
}

#[test]
fn function_attribute_no_receiver_rejected() {
    // fn test(param: u8)
    let toks = vec![
        id("fn"),
        id("test"),
        Token::LParen,
        id("param"),
        Token::Colon,
        id("u8"),
        Token::RParen,
    ];
    let e = FunctionAttribute::parse(&toks).unwrap_err();
    assert!(matches!(e.fault, AttrFault::Receiver));
}

#[test]
fn function_attribute_zero_parameters_rejected() {
    let e = FunctionAttribute::parse(&vec![id("fn"), id("test"), Token::LParen, Token::RParen])
        .unwrap_err();
    assert!(matches!(e.fault, AttrFault::Receiver));
    let e = FunctionAttribute::parse(&vec![id("fn"), id("test")]).unwrap_err();
    assert!(matches!(e.fault, AttrFault::Receiver));
}

#[test]
fn function_attribute_return_type_top_level_comma_rejected() {
    let toks = vec![
        id("fn"),
        id("test"),
        Token::LParen,
        id("self"),
        Token::RParen,
        Token::Arrow,
        id("u8"),
        Token::Comma,
        id("extra"),
    ];
    let e = FunctionAttribute::parse(&toks).unwrap_err();
    assert!(matches!(e.fault, AttrFault::Grammar));
    assert_eq!(e.pos, 7);
}

#[test]
fn named_params_drop_unnamed() {
    // fn test(&self, _: u8, y: u16)
    let toks = vec![
        id("fn"),
        id("test"),
        Token::LParen,
        Token::Amp,
        id("self"),
        Token::Comma,
        Token::Underscore,
        Token::Colon,
        id("u8"),
        Token::Comma,
        id("y"),
        Token::Colon,
        id("u16"),
        Token::RParen,
    ];
    let fa = FunctionAttribute::parse(&toks).unwrap();
    assert_eq!(fa.params.len(), 2);
    let named = fa.named_params();
    assert_eq!(named.len(), 1);
    assert_eq!(named[0].ident, Some("y".to_string()));
    assert_eq!(fa.arg_names(), vec!["y".to_string()]);
}
