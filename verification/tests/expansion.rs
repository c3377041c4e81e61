use my_enum_dispatch::attrs::{FnArgModifier, FunctionAttribute, TypeText, VariantAttribute};
use my_enum_dispatch::enum_dispatch::{
    ArmReceiver, AttrSource, DeclData, ExpandError, FieldsShape, ParsedVariants, RawAttribute,
    SumTypeDeclaration, VariantDeclaration, VariantFault, expand,
};
use my_enum_dispatch::token::Token;

fn id(s: &str) -> Token {
    Token::Ident(s.to_string())
}

fn tt(tokens: Vec<Token>) -> TypeText {
    TypeText { tokens }
}

fn attr(path: &str, tokens: Vec<Token>) -> RawAttribute {
    RawAttribute { path: path.to_string(), tokens }
}

fn variant(name: &str, payloads: &[&str], attrs: Vec<RawAttribute>) -> VariantDeclaration {
    VariantDeclaration {
        name: name.to_string(),
        fields: FieldsShape::Unnamed(payloads.iter().map(|s| s.to_string()).collect()),
        attrs,
    }
}

/// The sum type of scenario A: variants `A(i32)` [from], `B(f32)` [from],
/// `Any(Box<Capability>)` [modifier = as_ref], container `TestTrait`, one
/// function `fn test(&self)`.
fn scenario_a() -> SumTypeDeclaration {
    SumTypeDeclaration {
        name: "TestEnum".to_string(),
        attrs: vec![
            attr("enum_dispatch", vec![id("TestTrait")]),
            attr(
                "function",
                vec![id("fn"), id("test"), Token::LParen, Token::Amp, id("self"), Token::RParen],
            ),
        ],
        data: DeclData::Enum(vec![
            variant("A", &["i32"], vec![attr("enum_dispatch", vec![id("from")])]),
            variant("B", &["f32"], vec![attr("enum_dispatch", vec![id("from")])]),
            variant(
                "Any",
                &["Box<Capability>"],
                vec![attr("enum_dispatch", vec![id("modifier"), Token::Eq, id("as_ref")])],
            ),
        ]),
    }
}

#[test]
fn scenario_full_expansion() {
    let exp = expand(&scenario_a()).unwrap();
    assert_eq!(exp.sum_type, "TestEnum");
    assert_eq!(exp.trait_type, tt(vec![id("TestTrait")]));

    assert_eq!(exp.functions.len(), 1);
    let f = &exp.functions[0];
    assert_eq!(f.name, "test");
    assert_eq!(f.self_param, tt(vec![Token::Amp, id("self")]));
    assert!(f.params.is_empty());
    assert!(f.return_type.is_none());

    assert_eq!(f.arms.len(), 3);
    let names: Vec<&str> = f.arms.iter().map(|a| a.variant_name.as_str()).collect();
    assert_eq!(names, vec!["A", "B", "Any"]);
    assert_eq!(f.arms[0].receiver, ArmReceiver::Payload);
    assert_eq!(f.arms[1].receiver, ArmReceiver::Payload);
    assert_eq!(f.arms[2].receiver, ArmReceiver::PayloadAsRef);
    for arm in &f.arms {
        assert_eq!(arm.trait_type, tt(vec![id("TestTrait")]));
        assert_eq!(arm.function_name, "test");
        assert!(arm.args.is_empty());
    }

    assert_eq!(exp.conversions.len(), 2);
    assert_eq!(exp.conversions[0].variant_name, "A");
    assert_eq!(exp.conversions[0].payload_type, "i32");
    assert_eq!(exp.conversions[1].variant_name, "B");
    assert_eq!(exp.conversions[1].payload_type, "f32");
}

#[test]
fn scenario_two_unnamed_fields_is_shape_error() {
    let mut d = scenario_a();
    if let DeclData::Enum(vs) = &mut d.data {
        vs[1] = variant("B", &["f32", "u8"], vec![]);
    }
    let e = expand(&d).unwrap_err();
    assert_eq!(e, ExpandError::ShapeError { variant: Some(1) });
}

#[test]
fn scenario_zero_fields_is_shape_error() {
    let mut d = scenario_a();
    if let DeclData::Enum(vs) = &mut d.data {
        vs[0] = VariantDeclaration {
            name: "A".to_string(),
            fields: FieldsShape::Unit,
            attrs: vec![],
        };
    }
    let e = expand(&d).unwrap_err();
    assert_eq!(e, ExpandError::ShapeError { variant: Some(0) });
}

#[test]
fn scenario_named_fields_is_shape_error() {
    let mut d = scenario_a();
    if let DeclData::Enum(vs) = &mut d.data {
        vs[2] = VariantDeclaration {
            name: "Any".to_string(),
            fields: FieldsShape::Named,
            attrs: vec![],
        };
    }
    let e = expand(&d).unwrap_err();
    assert_eq!(e, ExpandError::ShapeError { variant: Some(2) });
}

#[test]
fn scenario_missing_receiver_is_receiver_error() {
    // function attribute `fn test(param: u8)` — no receiver.
    let mut d = scenario_a();
    d.attrs[1] = attr(
        "function",
        vec![
            id("fn"),
            id("test"),
            Token::LParen,
            id("param"),
            Token::Colon,
            id("u8"),
            Token::RParen,
        ],
    );
    let e = expand(&d).unwrap_err();
    assert_eq!(e, ExpandError::ReceiverError { attr: 1 });
}

#[test]
fn scenario_missing_container_attribute() {
    let mut d = scenario_a();
    d.attrs.remove(0);
    let e = expand(&d).unwrap_err();
    assert_eq!(e, ExpandError::MissingAttributeError);
}

#[test]
fn scenario_not_an_enum() {
    let mut d = scenario_a();
    d.data = DeclData::Struct;
    let e = expand(&d).unwrap_err();
    assert_eq!(e, ExpandError::ShapeError { variant: None });
}

#[test]
fn malformed_container_attribute_is_grammar_error() {
    let mut d = scenario_a();
    d.attrs[0] = attr("enum_dispatch", vec![id("TestTrait"), Token::Comma, id("extra")]);
    let e = expand(&d).unwrap_err();
    assert_eq!(
        e,
        ExpandError::GrammarError { source: AttrSource::Container, pos: 1 },
    );
}

#[test]
fn malformed_variant_attribute_is_grammar_error() {
    let mut d = scenario_a();
    if let DeclData::Enum(vs) = &mut d.data {
        vs[2].attrs = vec![attr("enum_dispatch", vec![id("bogus")])];
    }
    let e = expand(&d).unwrap_err();
    assert!(matches!(e, ExpandError::GrammarError { source: AttrSource::Variant(2), .. }));
}

#[test]
fn variant_without_attribute_gets_defaults() {
    let v = variant("Plain", &["u32"], vec![]);
    let pv = ParsedVariants::try_from(&v).unwrap();
    assert_eq!(pv.name, "Plain");
    assert_eq!(pv.variant_type, "u32");
    assert_eq!(pv.attributes, VariantAttribute { from: false, modifier: None });
}

#[test]
fn variant_with_two_fields_is_shape_fault() {
    let v = variant("Bad", &["u32", "u8"], vec![]);
    assert_eq!(ParsedVariants::try_from(&v).unwrap_err(), VariantFault::Shape);
}

#[test]
fn match_arm_applies_modifier() {
    let fa = FunctionAttribute::parse(&vec![
        id("fn"),
        id("go"),
        Token::LParen,
        Token::Amp,
        id("self"),
        Token::Comma,
        id("x"),
        Token::Colon,
        id("u8"),
        Token::RParen,
    ])
    .unwrap();
    let cap = tt(vec![id("Cap")]);
    let pv = ParsedVariants {
        name: "V".to_string(),
        variant_type: "Box<Cap>".to_string(),
        attributes: VariantAttribute { from: false, modifier: Some(FnArgModifier::Deref) },
    };
    let arm = pv.match_arm(&fa, &cap);
    assert_eq!(arm.variant_name, "V");
    assert_eq!(arm.receiver, ArmReceiver::PayloadDeref);
    assert_eq!(arm.trait_type, cap);
    assert_eq!(arm.function_name, "go");
    assert_eq!(arm.args, vec!["x".to_string()]);
}

#[test]
fn generic_signature_expands_end_to_end() {
    // fn get(&self) -> Option<u8>
    let mut d = scenario_a();
    d.attrs[1] = attr(
        "function",
        vec![
            id("fn"),
            id("get"),
            Token::LParen,
            Token::Amp,
            id("self"),
            Token::RParen,
            Token::Arrow,
            id("Option"),
            Token::Lt,
            id("u8"),
            Token::Gt,
        ],
    );
    let exp = expand(&d).unwrap();
    assert_eq!(exp.functions.len(), 1);
    let f = &exp.functions[0];
    assert_eq!(f.name, "get");
    assert_eq!(f.self_param, tt(vec![Token::Amp, id("self")]));
    assert_eq!(
        f.return_type,
        Some(tt(vec![id("Option"), Token::Lt, id("u8"), Token::Gt])),
    );
    assert_eq!(f.arms.len(), 3);
}

#[test]
fn shape_error_wins_over_missing_attribute() {
    let mut d = scenario_a();
    d.attrs.remove(0);
    if let DeclData::Enum(vs) = &mut d.data {
        vs[0] = variant("A", &["i32", "u8"], vec![]);
    }
    let e = expand(&d).unwrap_err();
    assert_eq!(e, ExpandError::ShapeError { variant: Some(0) });
}

#[test]
fn container_grammar_error_wins_over_function_error() {
    let mut d = scenario_a();
    d.attrs[0] = attr("enum_dispatch", vec![id("TestTrait"), Token::Comma, id("extra")]);
    d.attrs[1] = attr("function", vec![id("fn")]);
    let e = expand(&d).unwrap_err();
    assert!(matches!(e, ExpandError::GrammarError { source: AttrSource::Container, .. }));
}

#[test]
fn error_messages() {
    assert_eq!(
        ExpandError::MissingAttributeError.message(),
        "EnumDispatch requires a container attribute"
    );
    assert_eq!(
        ExpandError::ShapeError { variant: None }.message(),
        "EnumDispatch only works with enums"
    );
}
