use classlist_core::classnames::parsers::CnParser;
use classlist_core::classnames::units::{CnGroup, CnIdent, CnTuple, CnTupleExp, CnUnit};
use classlist_core::error::{Error, ErrorKind};
use classlist_core::tokens::{Delimiter, Span, Token};

const SCOPE: Span = Span { index: 0 };

fn at(index: usize) -> Span {
    Span { index }
}

fn string(value: &str) -> Token {
    Token::Str { value: value.to_string(), span: at(1) }
}

fn num(number: u64) -> Token {
    Token::Int { number, span: at(2) }
}

fn boolean(flag: bool) -> Token {
    Token::Bool { flag, span: at(3) }
}

fn ident(name: &str) -> Token {
    Token::Ident { name: name.to_string(), span: at(4) }
}

fn punct(ch: char) -> Token {
    Token::Punct { ch, joint: false, span: at(5) }
}

fn joint(ch: char) -> Token {
    Token::Punct { ch, joint: true, span: at(5) }
}

fn group(delimiter: Delimiter, stream: Vec<Token>) -> Token {
    Token::Group { delimiter, stream, span: at(6) }
}

fn paren(stream: Vec<Token>) -> Token {
    group(Delimiter::Parenthesis, stream)
}

fn whole<T>(parsed: Result<(T, usize), Error>, len: usize) -> Result<T, Error> {
    match parsed {
        Ok((value, next)) if next == len => Ok(value),
        Ok(_) => Err(Error { span: SCOPE, kind: ErrorKind::UnexpectedEnd }),
        Err(error) => Err(error),
    }
}

fn group_of(tokens: Vec<Token>) -> Result<CnGroup, Error> {
    whole(CnGroup::parse(&tokens, 0, SCOPE), tokens.len())
}

fn ident_of(tokens: Vec<Token>) -> Result<CnIdent, Error> {
    whole(CnIdent::parse(&tokens, 0, SCOPE), tokens.len())
}

fn tuple_of(tokens: Vec<Token>) -> Result<CnTuple, Error> {
    whole(CnTuple::parse(&tokens, 0, SCOPE), tokens.len())
}

fn list_of(tokens: Vec<Token>) -> Result<CnParser, Error> {
    CnParser::parse(&tokens, SCOPE)
}

#[test]
fn successfully_parse_group() {
    let list = vec![
        vec![paren(vec![])],
        vec![paren(vec![string("some"), punct(','), string("group")])],
    ];
    for stream in list {
        assert!(group_of(stream).is_ok());
    }
}

#[test]
fn failed_parse_group() {
    let list = vec![
        vec![string("some"), punct(','), string("group")],
        vec![group(Delimiter::Bracket, vec![string("some"), punct(','), string("group")])],
        vec![group(Delimiter::Brace, vec![string("some"), punct(','), string("group")])],
    ];
    for stream in list {
        assert!(group_of(stream).is_err());
    }
}

#[test]
fn successfully_parse_ident() {
    let list = vec![
        vec![ident("first")],
        vec![ident("first"), punct('.'), ident("second")],
        vec![ident("first"), punct('.'), ident("second"), paren(vec![])],
    ];
    for stream in list {
        assert!(ident_of(stream).is_ok());
    }
}

#[test]
fn failed_parse_ident() {
    let list = vec![
        vec![string("some")],
        vec![ident("first"), punct('.')],
        vec![paren(vec![string("some"), punct(','), string("group")])],
    ];
    for stream in list {
        assert!(ident_of(stream).is_err());
    }
}

#[test]
fn check_ident_is_function() {
    let ident = ident_of(vec![ident("variable"), paren(vec![])]).unwrap();

    assert_eq!(ident.sym, "variable");
    assert_eq!(ident.is_fn, true);
    assert_eq!(ident.is_composite, false);
}

#[test]
fn check_ident_is_composite() {
    let ident = ident_of(vec![ident("variable"), punct('.'), ident("some")]).unwrap();

    assert_eq!(ident.sym, "variable.some");
    assert_eq!(ident.is_fn, false);
    assert_eq!(ident.is_composite, true);
}

#[test]
fn successfully_parse_tuple() {
    let list = vec![
        vec![paren(vec![boolean(true), punct(','), string("first")])],
        vec![paren(vec![ident("first"), punct('.'), ident("second"), punct(','), string("first")])],
        vec![paren(vec![
            ident("first"),
            punct('.'),
            ident("second"),
            paren(vec![]),
            punct(','),
            string("first"),
            punct(','),
            string("second"),
        ])],
        vec![paren(vec![boolean(false), punct(','), string("first"), punct(','), string("second")])],
    ];
    for stream in list {
        assert!(tuple_of(stream).is_ok());
    }
}

#[test]
fn failed_parse_tuple() {
    let list = vec![
        vec![string("some")],
        vec![ident("first"), punct('.')],
        vec![paren(vec![string("some"), punct(','), string("group")])],
        vec![paren(vec![boolean(true)])],
        vec![paren(vec![ident("some"), punct('.'), ident("var")])],
    ];
    for stream in list {
        assert!(tuple_of(stream).is_err());
    }
}

#[test]
fn successfully_parse_list() {
    let list = vec![
        vec![string("once"), punct(','), string("string")],
        vec![
            paren(vec![boolean(true), punct(','), string("first"), punct(','), string("second")]),
            punct(','),
            ident("variable"),
            punct('.'),
            ident("var"),
            paren(vec![]),
        ],
        vec![
            ident("var"),
            punct('.'),
            ident("some"),
            paren(vec![]),
            punct(','),
            string("123"),
            punct(','),
            paren(vec![boolean(false), punct(','), string("oo"), punct(','), string("pp")]),
        ],
    ];
    for stream in list {
        assert!(list_of(stream).is_ok());
    }
}

#[test]
fn tuple_has_else_cond() {
    let tuple = tuple_of(vec![paren(vec![
        boolean(true),
        punct(','),
        string("first"),
        punct(','),
        string("second"),
    ])])
    .unwrap();
    assert_eq!(tuple.else_cond, Some("second".to_string()));
}

#[test]
fn tuple_exp_is_bool() {
    let tuple = tuple_of(vec![paren(vec![
        boolean(true),
        punct(','),
        string("first"),
        punct(','),
        string("second"),
    ])])
    .unwrap();
    assert!(matches!(tuple.exp, CnTupleExp::Bool(_)));
}

#[test]
fn failed_parse_list() {
    let list = vec![
        vec![string("some"), string("string")],
        vec![string("some"), punct(';'), string("string")],
        vec![ident("first"), punct('.')],
        vec![paren(vec![string("some"), punct(','), string("group")])],
        vec![paren(vec![boolean(true)])],
        vec![paren(vec![ident("some"), punct('.'), ident("var")])],
    ];
    for stream in list {
        assert!(list_of(stream).is_err());
    }
}

#[test]
fn empty_list_is_valid() {
    let parsed = list_of(vec![]).unwrap();
    assert!(parsed.0.is_empty());
}

#[test]
fn trailing_comma_is_refused() {
    let error = list_of(vec![string("a"), punct(',')]).unwrap_err();
    assert_eq!(error, Error { span: SCOPE, kind: ErrorKind::UnexpectedEnd });
}

#[test]
fn missing_comma_is_reported_at_the_token() {
    let error = list_of(vec![string("a"), string("b")]).unwrap_err();
    assert_eq!(error, Error { span: at(1), kind: ErrorKind::ExpectedComma });
}

#[test]
fn group_errors_name_their_cause() {
    let brackets = group_of(vec![group(Delimiter::Bracket, vec![])]).unwrap_err();
    assert_eq!(brackets, Error { span: at(6), kind: ErrorKind::IncorrectGroupDelimiter });
    let invisible = group_of(vec![group(Delimiter::Invisible, vec![])]).unwrap_err();
    assert_eq!(invisible.kind, ErrorKind::IncorrectGroupDelimiter);
    let token = group_of(vec![num(3)]).unwrap_err();
    assert_eq!(token, Error { span: at(2), kind: ErrorKind::IncorrectTokenGroup });
    let nothing = group_of(vec![]).unwrap_err();
    assert_eq!(nothing, Error { span: SCOPE, kind: ErrorKind::UnexpectedEnd });
}

#[test]
fn group_keeps_its_tokens() {
    let parsed = group_of(vec![paren(vec![string("some"), punct(','), string("group")])]).unwrap();
    assert_eq!(parsed.stream, vec![string("some"), punct(','), string("group")]);
    assert_eq!(parsed.span, at(6));
}

#[test]
fn markers_are_kept_but_not_named() {
    let tokens = vec![
        joint('&'),
        punct('&'),
        ident("some"),
        punct('.'),
        ident("test"),
        punct('.'),
        ident("my"),
        paren(vec![num(1), punct(','), punct('&'), ident("h")]),
    ];
    let parsed = ident_of(tokens.clone()).unwrap();
    assert_eq!(parsed.sym, "some.test");
    assert_eq!(parsed.is_fn, true);
    assert_eq!(parsed.is_composite, true);
    assert_eq!(parsed.stream, tokens);
    assert_eq!(parsed.span, at(4));
}

#[test]
fn what_is_called_is_not_named() {
    let method = ident_of(vec![ident("first"), punct('.'), ident("second"), paren(vec![])]).unwrap();
    assert_eq!(method.sym, "first");
    assert_eq!((method.is_fn, method.is_composite), (true, true));
    let behind = ident_of(vec![
        ident("a"),
        punct('.'),
        ident("b"),
        paren(vec![]),
        punct('.'),
        ident("c"),
    ])
    .unwrap();
    assert_eq!(behind.sym, "a");
    assert_eq!(behind.stream.len(), 6);
    let function = ident_of(vec![ident("f"), paren(vec![num(1)]), punct('.'), ident("y")]).unwrap();
    assert_eq!(function.sym, "f");
    let path = ident_of(vec![ident("a"), punct('.'), ident("b"), punct('.'), ident("c")]).unwrap();
    assert_eq!(path.sym, "a.b.c");
    assert_eq!((path.is_fn, path.is_composite), (false, true));
}

#[test]
fn every_marker_form_is_read() {
    for markers in [vec![], vec![punct('&')], vec![punct('*')], vec![joint('&'), punct('&')], vec![punct('*'), punct('&')]] {
        let mut tokens = markers.clone();
        tokens.push(ident("x"));
        let parsed = ident_of(tokens.clone()).unwrap();
        assert_eq!(parsed.sym, "x");
        assert_eq!(parsed.stream, tokens);
    }
    assert!(ident_of(vec![punct('&'), punct('*'), ident("x")]).is_err());
    assert!(ident_of(vec![punct('&'), punct('&'), punct('&'), ident("x")]).is_err());
}

#[test]
fn ident_stops_before_a_comma() {
    let tokens = vec![ident("a"), punct('.'), ident("b"), punct(','), string("rest")];
    let (parsed, next) = CnIdent::parse(&tokens, 0, SCOPE).unwrap();
    assert_eq!(parsed.sym, "a.b");
    assert_eq!(next, 3);
    assert_eq!(parsed.stream.len(), 3);
}

#[test]
fn ident_errors_name_their_place() {
    let dot = ident_of(vec![ident("first"), punct('.')]).unwrap_err();
    assert_eq!(dot, Error { span: SCOPE, kind: ErrorKind::ExpectedIdent });
    let dot_string = ident_of(vec![ident("first"), punct('.'), string("x")]).unwrap_err();
    assert_eq!(dot_string, Error { span: at(1), kind: ErrorKind::ExpectedIdent });
    let stray = ident_of(vec![ident("first"), string("x")]).unwrap_err();
    assert_eq!(stray, Error { span: at(1), kind: ErrorKind::IncorrectTokenGroup });
    let braces = ident_of(vec![ident("first"), group(Delimiter::Brace, vec![])]).unwrap_err();
    assert_eq!(braces.kind, ErrorKind::IncorrectGroupDelimiter);
    assert!(!CnIdent::peek(&vec![string("x")], 0));
    assert!(CnIdent::peek(&vec![punct('*')], 0));
    assert!(!CnIdent::peek(&vec![], 0));
}

#[test]
fn conditional_texts_are_trimmed() {
    let tuple = tuple_of(vec![paren(vec![
        ident("flag"),
        punct(','),
        string("  first "),
        punct(','),
        string("\tsecond\n"),
    ])])
    .unwrap();
    assert_eq!(tuple.if_cond, "first");
    assert_eq!(tuple.else_cond, Some("second".to_string()));
    assert_eq!(tuple.span, at(6));
}

#[test]
fn conditional_without_second_text() {
    let tuple = tuple_of(vec![paren(vec![boolean(false), punct(','), string("first")])]).unwrap();
    assert_eq!(tuple.else_cond, None);
    assert!(matches!(tuple.exp, CnTupleExp::Bool(false)));
}

#[test]
fn conditional_on_a_number_is_read() {
    let tuple = tuple_of(vec![paren(vec![num(7), punct(','), string("first")])]).unwrap();
    assert!(matches!(tuple.exp, CnTupleExp::Int { number: 7, .. }));
}

#[test]
fn conditional_errors_name_their_cause() {
    let four = tuple_of(vec![paren(vec![
        boolean(true),
        punct(','),
        string("a"),
        punct(','),
        string("b"),
        punct(','),
        string("c"),
    ])])
    .unwrap_err();
    assert_eq!(four, Error { span: at(5), kind: ErrorKind::OnlyThreeElements });
    let one = tuple_of(vec![paren(vec![boolean(true)])]).unwrap_err();
    assert_eq!(one, Error { span: SCOPE, kind: ErrorKind::ExpectedComma });
    let no_text = tuple_of(vec![paren(vec![boolean(true), punct(','), ident("x")])]).unwrap_err();
    assert_eq!(no_text, Error { span: at(4), kind: ErrorKind::ExpectedString });
    let no_condition = tuple_of(vec![paren(vec![string("a"), punct(','), string("b")])]).unwrap_err();
    assert_eq!(no_condition, Error { span: at(1), kind: ErrorKind::IncorrectExpression });
    let empty = tuple_of(vec![paren(vec![])]).unwrap_err();
    assert_eq!(empty, Error { span: SCOPE, kind: ErrorKind::IncorrectExpression });
    let dangling = tuple_of(vec![paren(vec![boolean(true), punct(','), string("a"), punct(',')])]).unwrap_err();
    assert_eq!(dangling, Error { span: SCOPE, kind: ErrorKind::ExpectedString });
}

#[test]
fn list_holds_each_kind_of_element() {
    let parsed = list_of(vec![
        string("text"),
        punct(','),
        num(12),
        punct(','),
        ident("name"),
        punct(','),
        paren(vec![boolean(true), punct(','), string("yes")]),
    ])
    .unwrap();
    assert_eq!(parsed.0.len(), 4);
    assert!(matches!(&parsed.0[0], CnUnit::Str { value, .. } if value == "text"));
    assert!(matches!(&parsed.0[1], CnUnit::Int { number: 12, .. }));
    assert!(matches!(&parsed.0[2], CnUnit::Ident(ident) if ident.sym == "name"));
    assert!(matches!(&parsed.0[3], CnUnit::Tuple(tuple) if tuple.if_cond == "yes"));
}

#[test]
fn every_message_is_worded() {
    let kinds = [
        (ErrorKind::UnexpectedEnd, "unexpected end of input, expected token tree"),
        (ErrorKind::IncorrectGroupDelimiter, "Incorrect group delimiter. Allowed only parenthesis (..)"),
        (ErrorKind::IncorrectTokenGroup, "Incorrect token group. allowed (..)"),
        (ErrorKind::ExpectedIdent, "Expected ident"),
        (ErrorKind::ExpectedComma, "expected `,`"),
        (ErrorKind::ExpectedString, "expected string literal"),
        (
            ErrorKind::IncorrectExpression,
            "Incorrect expression token. Allowed only bool or variable (bool, Option<bool>",
        ),
        (ErrorKind::OnlyThreeElements, "Incorrect syntax. Only 3 elements allowed"),
        (ErrorKind::NumericIdentifier, "Numeric identifier is not supported"),
        (ErrorKind::IndexTooLarge, "number too large to fit in target type"),
        (ErrorKind::UnknownField, "Alloved variant values"),
        (ErrorKind::IndexOutOfRange { max: 0 }, "Valid value only 0"),
        (ErrorKind::IndexOutOfRange { max: 1 }, "Valid values are 0 and 1"),
        (ErrorKind::IndexOutOfRange { max: 17 }, "Valid values from 0 to 17"),
        (ErrorKind::IndexOutOfRange { max: 254 }, "Valid values from 0 to 254"),
        (ErrorKind::NoFields, "The enum variant has no fields"),
        (ErrorKind::NamedOnly, "Only named parameters specified in the enum option are supported"),
        (
            ErrorKind::IndicesOnly,
            "Only indices of non-named parameters specified in the enum variant are supported ",
        ),
        (ErrorKind::TooManyFields, "out of range integral type conversion attempted"),
        (ErrorKind::GenericsNotSupported, "Support for enum with generics not yet implemented"),
        (ErrorKind::OnlyEnums, "Only enums are supported for the variant"),
    ];
    for (kind, text) in kinds {
        assert_eq!(Error::new(at(9), kind).message(), text);
    }
}
