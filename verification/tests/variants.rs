use classlist_core::classnames::parsers::{
    CheckVariantIdents, CheckVariantIndexes, CnItem, CnParser, CnTypes,
};
use classlist_core::classnames::units::{CnIdent, CnTupleExp, CnUnit};
use classlist_core::error::{get_valid_values_message_by_count, Error, ErrorKind};
use classlist_core::tokens::{Delimiter, Span, Token};
use classlist_core::variants::input::{
    Data, DeriveInput, Fields, FieldsNamed, FieldsUnnamed, Generics, Meta, Variant,
};
use classlist_core::variants::parsers::{assert_with_generics, VariantDeriveParser};
use classlist_core::variants::units::{
    get_valid_values_message_by_hashset, NamedParam, ParamsPattern, UnnamedParam, VariantFields,
    VariantParams,
};

const SITE: Span = Span { index: 0 };

fn place(index: usize) -> Span {
    Span { index }
}

fn lit(value: &str) -> Token {
    Token::Str { value: value.to_string(), span: place(1) }
}

fn index(number: u64) -> Token {
    Token::Int { number, span: place(2) }
}

fn truth(flag: bool) -> Token {
    Token::Bool { flag, span: place(3) }
}

fn var(name: &str) -> Token {
    Token::Ident { name: name.to_string(), span: place(4) }
}

fn sep() -> Token {
    Token::Punct { ch: ',', joint: false, span: place(5) }
}

fn cond(stream: Vec<Token>) -> Token {
    Token::Group { delimiter: Delimiter::Parenthesis, stream, span: place(6) }
}

fn class(tokens: Vec<Token>) -> Meta {
    Meta::List { path: "class".to_string(), tokens }
}

fn named(names: &[&str]) -> Fields {
    Fields::Named(FieldsNamed {
        named: names.iter().map(|n| n.to_string()).collect(),
        span: place(7),
    })
}

fn unnamed(len: usize) -> Fields {
    Fields::Unnamed(FieldsUnnamed { len, span: place(8) })
}

fn case(ident: &str, fields: Fields, attrs: Vec<Meta>) -> Variant {
    Variant { ident: ident.to_string(), fields, attrs }
}

fn plain() -> Generics {
    Generics { lt_token: false, gt_token: false, params: 0, where_clause: false, span: place(9) }
}

fn reference(sym: &str) -> CnIdent {
    CnIdent {
        sym: sym.to_string(),
        stream: vec![var(sym)],
        is_fn: false,
        is_composite: false,
        span: place(4),
    }
}

fn bound(name: &str) -> (String, bool) {
    (name.to_string(), true)
}

fn ignored(name: &str) -> (String, bool) {
    (name.to_string(), false)
}

#[test]
fn named_case_binds_what_it_uses() {
    let derived = VariantFields::try_from(
        case("Both", named(&["a", "b"]), vec![class(vec![lit("base"), sep(), var("a")])]),
        SITE,
    )
    .unwrap();
    let arm = derived.to_tokens();
    assert_eq!(arm.name, "Both");
    assert_eq!(arm.pattern, ParamsPattern::Struct(vec![bound("a"), ignored("b")]));
    assert_eq!(
        arm.classes,
        CnTypes::Full(vec![CnItem::Str("base".to_string()), CnItem::Ident(vec![var("a")])])
    );
}

#[test]
fn a_method_on_a_field_uses_the_field() {
    let dot = Token::Punct { ch: '.', joint: false, span: place(5) };
    let call = Token::Group { delimiter: Delimiter::Parenthesis, stream: vec![], span: place(6) };
    let reference = vec![var("a"), dot, var("as_class"), call];
    let derived = VariantFields::try_from(
        case("Both", named(&["a", "b"]), vec![class(reference.clone())]),
        SITE,
    )
    .unwrap();
    let arm = derived.to_tokens();
    assert_eq!(arm.pattern, ParamsPattern::Struct(vec![bound("a"), ignored("b")]));
    assert_eq!(arm.classes, CnTypes::Full(vec![CnItem::Ident(reference)]));
}

#[test]
fn positional_case_binds_what_it_uses() {
    let derived = VariantFields::try_from(
        case(
            "Pair",
            unnamed(3),
            vec![class(vec![index(2), sep(), cond(vec![index(0), sep(), lit("on")])])],
        ),
        SITE,
    )
    .unwrap();
    let arm = derived.to_tokens();
    assert_eq!(
        arm.pattern,
        ParamsPattern::Tuple(vec![Some("var_0".to_string()), None, Some("var_2".to_string())])
    );
    let var_2 = Token::Ident { name: "var_2".to_string(), span: place(2) };
    match arm.classes {
        CnTypes::Full(items) => {
            assert_eq!(items.len(), 2);
            assert_eq!(items[0], CnItem::Ident(vec![var_2]));
            assert!(matches!(&items[1], CnItem::Tuple(tuple) if tuple.if_cond == "on"));
        }
        other => panic!("unexpected {:?}", other),
    }
}

#[test]
fn case_without_fields_or_attributes() {
    let derived = VariantFields::try_from(case("Plain", Fields::Unit, vec![]), SITE).unwrap();
    let arm = derived.to_tokens();
    assert_eq!(arm.pattern, ParamsPattern::Unit);
    assert_eq!(arm.classes, CnTypes::Empty);
}

#[test]
fn class_attributes_are_joined_and_others_skipped() {
    let attrs = vec![
        Meta::Path,
        class(vec![lit("one")]),
        Meta::List { path: "other".to_string(), tokens: vec![lit("skipped")] },
        class(vec![]),
        Meta::NameValue,
        class(vec![lit("two one")]),
    ];
    let derived = VariantFields::try_from(case("Many", Fields::Unit, attrs), SITE).unwrap();
    assert_eq!(derived.to_tokens().classes, CnTypes::Once("two one".to_string()));
}

#[test]
fn unknown_name_is_refused() {
    let error = VariantFields::try_from(
        case("Both", named(&["a", "b"]), vec![class(vec![var("c")])]),
        SITE,
    )
    .unwrap_err();
    assert_eq!(error, Error { span: place(4), kind: ErrorKind::UnknownField });
}

#[test]
fn index_beyond_the_fields_is_refused() {
    let error =
        VariantFields::try_from(case("Pair", unnamed(2), vec![class(vec![index(2)])]), SITE)
            .unwrap_err();
    assert_eq!(error, Error { span: place(2), kind: ErrorKind::IndexOutOfRange { max: 1 } });
    let none =
        VariantFields::try_from(case("Zero", unnamed(0), vec![class(vec![index(0)])]), SITE)
            .unwrap_err();
    assert_eq!(none, Error { span: place(2), kind: ErrorKind::NoFields });
    let large =
        VariantFields::try_from(case("Pair", unnamed(2), vec![class(vec![index(256)])]), SITE)
            .unwrap_err();
    assert_eq!(large, Error { span: place(2), kind: ErrorKind::IndexTooLarge });
}

#[test]
fn index_on_named_fields_is_refused() {
    let error =
        VariantFields::try_from(case("Both", named(&["a"]), vec![class(vec![index(0)])]), SITE)
            .unwrap_err();
    assert_eq!(error, Error { span: place(2), kind: ErrorKind::NamedOnly });
    assert_eq!(error.message(), "Only named parameters specified in the enum option are supported");
    let unit =
        VariantFields::try_from(case("Plain", Fields::Unit, vec![class(vec![index(0)])]), SITE)
            .unwrap_err();
    assert_eq!(unit.kind, ErrorKind::IndicesOnly);
}

#[test]
fn name_on_positional_fields_is_refused() {
    let error =
        VariantFields::try_from(case("Pair", unnamed(2), vec![class(vec![var("a")])]), SITE)
            .unwrap_err();
    assert_eq!(error, Error { span: place(4), kind: ErrorKind::IndicesOnly });
    assert_eq!(
        error.message(),
        "Only indices of non-named parameters specified in the enum variant are supported "
    );
    let in_condition = VariantFields::try_from(
        case("Plain", Fields::Unit, vec![class(vec![cond(vec![var("a"), sep(), lit("x")])])]),
        SITE,
    )
    .unwrap_err();
    assert_eq!(in_condition.kind, ErrorKind::NamedOnly);
}

#[test]
fn too_many_positional_fields_are_refused() {
    let error = VariantFields::try_from(case("Wide", unnamed(256), vec![]), SITE).unwrap_err();
    assert_eq!(error, Error { span: place(8), kind: ErrorKind::TooManyFields });
    assert!(UnnamedParam::try_from(FieldsUnnamed { len: 255, span: place(8) }).is_ok());
}

#[test]
fn parse_errors_refuse_the_case() {
    let error = VariantFields::try_from(
        case("Bad", Fields::Unit, vec![class(vec![lit("a"), lit("b")])]),
        SITE,
    )
    .unwrap_err();
    assert_eq!(error.kind, ErrorKind::ExpectedComma);
}

#[test]
fn check_idents_turns_numbers_into_variables() {
    let tokens = vec![
        lit("text"),
        sep(),
        index(1),
        sep(),
        cond(vec![index(0), sep(), lit("a")]),
        sep(),
        cond(vec![truth(true), sep(), lit("b")]),
    ];
    let mut params = VariantParams::try_from(unnamed(2)).unwrap();
    let checked = CnParser::parse(&tokens, SITE).unwrap().check_idents(&mut params).unwrap();
    assert!(matches!(&checked.0[0], CnUnit::Str { value, .. } if value == "text"));
    assert!(matches!(&checked.0[1], CnUnit::Ident(ident) if ident.sym == "var_1"));
    assert!(matches!(
        &checked.0[2],
        CnUnit::Tuple(tuple) if matches!(&tuple.exp, CnTupleExp::Ident(ident) if ident.sym == "var_0")
    ));
    assert!(matches!(&checked.0[3], CnUnit::Tuple(tuple) if matches!(tuple.exp, CnTupleExp::Bool(true))));
    assert_eq!(
        params.to_tokens(),
        ParamsPattern::Tuple(vec![Some("var_0".to_string()), Some("var_1".to_string())])
    );
}

#[test]
fn named_fields_count_each_name_once() {
    let mut params = NamedParam::from(FieldsNamed {
        named: vec!["a".to_string(), "b".to_string(), "a".to_string()],
        span: place(7),
    });
    assert_eq!(params.to_tokens(), vec![ignored("a"), ignored("b")]);
    assert_eq!(params.check_ident(&reference("b")), Ok(()));
    assert_eq!(
        params.check_ident(&reference("z")),
        Err(Error { span: place(4), kind: ErrorKind::UnknownField })
    );
    assert_eq!(
        params.check_index(0, place(2)),
        Err(Error { span: place(2), kind: ErrorKind::NamedOnly })
    );
    assert_eq!(params.to_tokens(), vec![ignored("a"), bound("b")]);
    assert_eq!(params.valid_values_message(), "Alloved variant values: \"a, b\"");
}

#[test]
fn valid_names_message_quotes_the_list() {
    let names = vec!["first".to_string(), "second".to_string()];
    assert_eq!(
        get_valid_values_message_by_hashset(&names),
        "Alloved variant values: \"first, second\""
    );
    assert_eq!(get_valid_values_message_by_hashset(&vec![]), "Alloved variant values: \"\"");
    assert_eq!(
        get_valid_values_message_by_hashset(&vec!["a\"b".to_string()]),
        "Alloved variant values: \"a\\\"b\""
    );
}

#[test]
fn valid_index_message_by_count() {
    assert_eq!(get_valid_values_message_by_count(0), "Valid value only 0");
    assert_eq!(get_valid_values_message_by_count(1), "Valid values are 0 and 1");
    assert_eq!(get_valid_values_message_by_count(2), "Valid values from 0 to 2");
    assert_eq!(get_valid_values_message_by_count(255), "Valid values from 0 to 255");
}

#[test]
fn enum_is_derived_case_by_case() {
    let input = DeriveInput {
        ident: "Kind".to_string(),
        generics: plain(),
        data: Data::Enum(vec![
            case("Plain", Fields::Unit, vec![class(vec![lit("plain")])]),
            case("Both", named(&["a", "b"]), vec![class(vec![var("a")])]),
        ]),
        span: place(10),
    };
    let derived = VariantDeriveParser::parse(input, SITE).unwrap();
    assert_eq!(derived.name, "Kind");
    let arms = derived.to_tokens();
    assert_eq!(arms.len(), 2);
    assert_eq!(arms[0].name, "Plain");
    assert_eq!(arms[0].classes, CnTypes::Once("plain".to_string()));
    assert_eq!(arms[1].pattern, ParamsPattern::Struct(vec![bound("a"), ignored("b")]));
}

#[test]
fn one_bad_case_refuses_the_enum() {
    let input = DeriveInput {
        ident: "Kind".to_string(),
        generics: plain(),
        data: Data::Enum(vec![
            case("Plain", Fields::Unit, vec![class(vec![lit("plain")])]),
            case("Both", named(&["a"]), vec![class(vec![var("zz")])]),
        ]),
        span: place(10),
    };
    assert_eq!(
        VariantDeriveParser::parse(input, SITE).unwrap_err(),
        Error { span: place(4), kind: ErrorKind::UnknownField }
    );
}

#[test]
fn only_plain_enums_are_derived() {
    let of_struct =
        DeriveInput { ident: "S".to_string(), generics: plain(), data: Data::Struct, span: place(10) };
    assert_eq!(
        VariantDeriveParser::parse(of_struct, SITE).unwrap_err(),
        Error { span: place(10), kind: ErrorKind::OnlyEnums }
    );
    let of_union =
        DeriveInput { ident: "U".to_string(), generics: plain(), data: Data::Union, span: place(10) };
    assert_eq!(VariantDeriveParser::parse(of_union, SITE).unwrap_err().kind, ErrorKind::OnlyEnums);
    let generic = DeriveInput {
        ident: "G".to_string(),
        generics: Generics { lt_token: true, gt_token: true, params: 1, where_clause: false, span: place(9) },
        data: Data::Enum(vec![]),
        span: place(10),
    };
    assert_eq!(
        VariantDeriveParser::parse(generic, SITE).unwrap_err(),
        Error { span: place(9), kind: ErrorKind::GenericsNotSupported }
    );
    assert_eq!(assert_with_generics(&plain()), Ok(()));
    let with_where = Generics { where_clause: true, ..plain() };
    assert_eq!(assert_with_generics(&with_where).unwrap_err().kind, ErrorKind::GenericsNotSupported);
}
