use classlist_core::classnames::parsers::{
    ident_by_num, merge_string, CnIdentTupple, CnItem, CnParser, CnTokens, CnTypes,
};
use classlist_core::cn_builder::CnBuilder;
use classlist_core::error::{Error, ErrorKind};
use classlist_core::tokens::{Delimiter, Span, Token};

const HERE: Span = Span { index: 0 };

fn text(value: &str) -> Token {
    Token::Str { value: value.to_string(), span: Span { index: 1 } }
}

fn number(number: u64) -> Token {
    Token::Int { number, span: Span { index: 2 } }
}

fn flag(flag: bool) -> Token {
    Token::Bool { flag, span: Span { index: 3 } }
}

fn name(name: &str) -> Token {
    Token::Ident { name: name.to_string(), span: Span { index: 4 } }
}

fn comma() -> Token {
    Token::Punct { ch: ',', joint: false, span: Span { index: 5 } }
}

fn tuple(stream: Vec<Token>) -> Token {
    Token::Group { delimiter: Delimiter::Parenthesis, stream, span: Span { index: 6 } }
}

fn compile(tokens: Vec<Token>) -> Result<CnTypes, Error> {
    Ok(CnParser::parse(&tokens, HERE)?.to_cn_tokens()?.to_tokens())
}

#[test]
fn nothing_compiles_to_nothing() {
    assert_eq!(compile(vec![]), Ok(CnTypes::Empty));
}

#[test]
fn literals_fold_into_one_deduplicated_text() {
    let tokens = vec![
        text("aaa"),
        comma(),
        text("bbb ccc"),
        comma(),
        tuple(vec![flag(true), comma(), text("bbb")]),
    ];
    assert_eq!(compile(tokens), Ok(CnTypes::Once("aaa ccc bbb".to_string())));
}

#[test]
fn false_condition_gives_its_second_text() {
    let tokens = vec![tuple(vec![flag(false), comma(), text(""), comma(), text("test")])];
    assert_eq!(compile(tokens), Ok(CnTypes::Once("test".to_string())));
}

#[test]
fn false_condition_without_second_text_gives_nothing() {
    let tokens = vec![tuple(vec![flag(false), comma(), text("gone")])];
    assert_eq!(compile(tokens), Ok(CnTypes::Empty));
}

#[test]
fn blank_texts_give_nothing() {
    let tokens = vec![text("   "), comma(), text(""), comma(), tuple(vec![flag(true), comma(), text(" ")])];
    assert_eq!(compile(tokens), Ok(CnTypes::Empty));
}

#[test]
fn numbers_count_as_their_decimal_text() {
    let tokens = vec![number(12), comma(), text("x 12"), comma(), number(0)];
    assert_eq!(compile(tokens), Ok(CnTypes::Once("x 12 0".to_string())));
}

#[test]
fn a_variable_alone_is_a_part() {
    let tokens = vec![name("classes")];
    assert_eq!(compile(tokens), Ok(CnTypes::Full(vec![CnItem::Ident(vec![name("classes")])])));
}

#[test]
fn text_before_a_variable_is_folded_and_text_behind_is_joined() {
    let tokens = vec![
        text("b a"),
        comma(),
        text("b"),
        comma(),
        name("x"),
        comma(),
        text(" c "),
        comma(),
        text("c"),
        comma(),
        tuple(vec![name("on"), comma(), text("yes"), comma(), text("no")]),
        comma(),
        number(5),
    ];
    let expected = CnTypes::Full(vec![
        CnItem::Str("a b".to_string()),
        CnItem::Ident(vec![name("x")]),
        CnItem::Str("c c".to_string()),
        CnItem::Tuple(CnIdentTupple {
            exp: vec![name("on")],
            if_cond: "yes".to_string(),
            else_cond: Some("no".to_string()),
        }),
        CnItem::Str("5".to_string()),
    ]);
    assert_eq!(compile(tokens), Ok(expected));
}

#[test]
fn numeric_condition_cannot_be_compiled() {
    let tokens = vec![text("a"), comma(), tuple(vec![number(1), comma(), text("x")])];
    assert_eq!(
        compile(tokens),
        Err(Error { span: Span { index: 6 }, kind: ErrorKind::NumericIdentifier })
    );
}

#[test]
fn folded_items_are_read_in_order() {
    let tokens = vec![text("a"), comma(), name("x")];
    let folded = CnTokens::try_from(CnParser::parse(&tokens, HERE).unwrap()).unwrap();
    assert_eq!(folded.items().len(), 2);
    assert_eq!(folded.items()[0], CnItem::Str("a".to_string()));
}

#[test]
fn merge_string_follows_its_three_ways() {
    let mut prefix = String::new();
    let mut items: Vec<CnItem> = Vec::new();
    merge_string("  one ".to_string(), &mut prefix, &mut items);
    merge_string("   ".to_string(), &mut prefix, &mut items);
    merge_string("two".to_string(), &mut prefix, &mut items);
    assert_eq!(prefix, " one two");
    assert!(items.is_empty());
    items.push(CnItem::Ident(vec![name("x")]));
    merge_string(" three".to_string(), &mut prefix, &mut items);
    assert_eq!(items.len(), 2);
    merge_string("four ".to_string(), &mut prefix, &mut items);
    assert_eq!(prefix, " one two");
    assert_eq!(items.len(), 2);
    assert_eq!(items[1], CnItem::Str("three four".to_string()));
}

#[test]
fn builder_gives_what_the_fold_gives() {
    let tokens = vec![
        text("aaa"),
        comma(),
        text("bbb ccc"),
        comma(),
        tuple(vec![flag(true), comma(), text("bbb")]),
        comma(),
        tuple(vec![flag(false), comma(), text("zzz"), comma(), text("aaa")]),
        comma(),
        tuple(vec![flag(false), comma(), text("never")]),
        comma(),
        number(7),
    ];
    let built = CnBuilder::new()
        .add("aaa")
        .add("bbb ccc")
        .add((true, "bbb"))
        .add((false, "zzz", "aaa"))
        .add((false, "never"))
        .add("7")
        .to_classlist();
    assert_eq!(compile(tokens), Ok(CnTypes::Once(built.clone())));
    assert_eq!(built, "ccc bbb aaa 7");
}

#[test]
fn positional_variable_has_its_name() {
    assert_eq!(
        ident_by_num(&0, HERE),
        Token::Ident { name: "var_0".to_string(), span: HERE }
    );
    assert_eq!(
        ident_by_num(&255, HERE),
        Token::Ident { name: "var_255".to_string(), span: HERE }
    );
}

#[test]
fn from_items_folds_the_leading_texts() {
    let items = vec![
        CnItem::Str("b".to_string()),
        CnItem::Str("a b".to_string()),
        CnItem::Ident(vec![name("x")]),
        CnItem::Str("kept  as is".to_string()),
    ];
    let expected = CnTypes::Full(vec![
        CnItem::Str("a b".to_string()),
        CnItem::Ident(vec![name("x")]),
        CnItem::Str("kept  as is".to_string()),
    ]);
    assert_eq!(CnTypes::from_items(items), expected);
}

#[test]
fn from_items_of_texts_alone_is_one_text() {
    let items = vec![CnItem::Str("one".to_string()), CnItem::Str("two one".to_string())];
    assert_eq!(CnTypes::from_items(items), CnTypes::Once("two one".to_string()));
    assert_eq!(CnTypes::from_items(vec![]), CnTypes::Empty);
    assert_eq!(CnTypes::from_items(vec![CnItem::Str("  ".to_string())]), CnTypes::Empty);
}

#[test]
fn from_items_agrees_with_the_fold() {
    let lists = vec![
        vec![],
        vec![text("a b a")],
        vec![text("a"), comma(), name("x"), comma(), text("b")],
        vec![name("x")],
        vec![tuple(vec![name("on"), comma(), text("yes")]), comma(), text("t")],
    ];
    for tokens in lists {
        let folded = CnParser::parse(&tokens, HERE).unwrap().to_cn_tokens().unwrap();
        let again: Vec<CnItem> = folded.items().iter().map(|item| item.clone()).collect();
        assert_eq!(CnTypes::from_items(again), folded.to_tokens());
    }
}
