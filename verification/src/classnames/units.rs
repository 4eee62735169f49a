//! The grammar of one element of a class list.
//!
//! ```text
//! item        := string-literal | integer-literal | var-ref | conditional
//! var-ref     := ["&" | "&&" | "*" | "*&"] identifier ( "." identifier | "(" .. ")" )*
//! conditional := "(" cond-expr "," string-literal ["," string-literal] ")"
//! cond-expr   := boolean-literal | integer-literal | var-ref
//! ```
//!
//! Each `parse` reads the tokens from a position on and gives what it read
//! with the position behind it. What it gives is stated by the specification
//! function of the same rule, on every input: the value on success, and the
//! place and cause on failure. `scope` is the place reported where the tokens
//! end too early.

use vstd::prelude::*;
use vstd::string::StringExecFns;
use crate::error::{Error, ErrorKind};
use crate::text::{trim, trim_spec};
use crate::tokens::{
    clone_tokens, is_ident, is_punct, lemma_group_view, span_at, span_of, views, Delimiter, Span,
    Token, TokenView,
};

verus! {

/// A parenthesized group: its tokens and its place.
#[derive(Debug, PartialEq, Eq)]
pub struct CnGroup {
    pub stream: Vec<Token>,
    pub span: Span,
}

pub ghost struct CnGroupView {
    pub stream: Seq<TokenView>,
    pub span: Span,
}

impl View for CnGroup {
    type V = CnGroupView;

    open spec fn view(&self) -> CnGroupView {
        CnGroupView { stream: views(self.stream@), span: self.span }
    }
}

/// A reference to a variable. `sym` is its symbolic name: the path that
/// leads to the variable, which is the first identifier and the
/// `.identifier`s behind it up to the first call; markers and call arguments
/// are no part of it, nor is an identifier behind a dot that is called.
/// `stream` holds the tokens of the reference as they were written. `is_fn`
/// says that something is called in it, `is_composite` that it has a dot.
/// `span` is the place of its first identifier.
#[derive(Debug, PartialEq, Eq)]
pub struct CnIdent {
    pub sym: String,
    pub stream: Vec<Token>,
    pub is_fn: bool,
    pub is_composite: bool,
    pub span: Span,
}

pub ghost struct CnIdentView {
    pub sym: Seq<char>,
    pub stream: Seq<TokenView>,
    pub is_fn: bool,
    pub is_composite: bool,
    pub span: Span,
}

impl View for CnIdent {
    type V = CnIdentView;

    open spec fn view(&self) -> CnIdentView {
        CnIdentView {
            sym: self.sym@,
            stream: views(self.stream@),
            is_fn: self.is_fn,
            is_composite: self.is_composite,
            span: self.span,
        }
    }
}

/// The condition of a conditional.
#[derive(Debug, PartialEq, Eq)]
pub enum CnTupleExp {
    Int { number: u64, span: Span },
    Bool(bool),
    Ident(CnIdent),
}

pub ghost enum CnTupleExpView {
    Int { number: u64, span: Span },
    Bool(bool),
    Ident(CnIdentView),
}

impl View for CnTupleExp {
    type V = CnTupleExpView;

    open spec fn view(&self) -> CnTupleExpView {
        match self {
            CnTupleExp::Int { number, span } => CnTupleExpView::Int { number: *number, span: *span },
            CnTupleExp::Bool(flag) => CnTupleExpView::Bool(*flag),
            CnTupleExp::Ident(ident) => CnTupleExpView::Ident(ident@),
        }
    }
}

/// The view of an optional text.
pub open spec fn opt_view(text: Option<String>) -> Option<Seq<char>> {
    match text {
        Some(s) => Some(s@),
        None => None,
    }
}

/// What stands between the parentheses of a conditional.
#[derive(Debug, PartialEq, Eq)]
pub struct CnTupleInner {
    pub exp: CnTupleExp,
    pub if_cond: String,
    pub else_cond: Option<String>,
}

pub ghost struct CnTupleInnerView {
    pub exp: CnTupleExpView,
    pub if_cond: Seq<char>,
    pub else_cond: Option<Seq<char>>,
}

impl View for CnTupleInner {
    type V = CnTupleInnerView;

    open spec fn view(&self) -> CnTupleInnerView {
        CnTupleInnerView {
            exp: self.exp@,
            if_cond: self.if_cond@,
            else_cond: opt_view(self.else_cond),
        }
    }
}

/// A conditional: a condition, the text for true, and the text for false if
/// one was given. `span` is the place of its group.
#[derive(Debug, PartialEq, Eq)]
pub struct CnTuple {
    pub exp: CnTupleExp,
    pub if_cond: String,
    pub else_cond: Option<String>,
    pub span: Span,
}

pub ghost struct CnTupleView {
    pub exp: CnTupleExpView,
    pub if_cond: Seq<char>,
    pub else_cond: Option<Seq<char>>,
    pub span: Span,
}

impl View for CnTuple {
    type V = CnTupleView;

    open spec fn view(&self) -> CnTupleView {
        CnTupleView {
            exp: self.exp@,
            if_cond: self.if_cond@,
            else_cond: opt_view(self.else_cond),
            span: self.span,
        }
    }
}

/// One element of a class list.
#[derive(Debug, PartialEq, Eq)]
pub enum CnUnit {
    Str { value: String, span: Span },
    Int { number: u64, span: Span },
    Ident(CnIdent),
    Tuple(CnTuple),
}

pub ghost enum CnUnitView {
    Str { value: Seq<char>, span: Span },
    Int { number: u64, span: Span },
    Ident(CnIdentView),
    Tuple(CnTupleView),
}

impl View for CnUnit {
    type V = CnUnitView;

    open spec fn view(&self) -> CnUnitView {
        match self {
            CnUnit::Str { value, span } => CnUnitView::Str { value: value@, span: *span },
            CnUnit::Int { number, span } => CnUnitView::Int { number: *number, span: *span },
            CnUnit::Ident(ident) => CnUnitView::Ident(ident@),
            CnUnit::Tuple(tuple) => CnUnitView::Tuple(tuple@),
        }
    }
}

/// The views of a sequence of elements.
pub open spec fn unit_views(units: Seq<CnUnit>) -> Seq<CnUnitView> {
    units.map_values(|u: CnUnit| u@)
}

/// A result that carries a position is the one the grammar states.
pub open spec fn agrees<T: View>(
    got: Result<(T, usize), Error>,
    stated: Result<(T::V, int), Error>,
) -> bool {
    match stated {
        Ok((value, next)) => got is Ok && got->Ok_0.0@ == value && got->Ok_0.1 == next,
        Err(error) => got is Err && got->Err_0 == error,
    }
}

/// A result is the one the grammar states.
pub open spec fn agrees_whole<T: View>(got: Result<T, Error>, stated: Result<T::V, Error>) -> bool {
    match stated {
        Ok(value) => got is Ok && got->Ok_0@ == value,
        Err(error) => got is Err && got->Err_0 == error,
    }
}

/// The token at `pos` is a string literal.
pub open spec fn is_str(ts: Seq<TokenView>, pos: int) -> bool {
    0 <= pos < ts.len() && ts[pos] is Str
}

/// A group is one token: a group in parentheses.
pub open spec fn group_spec(ts: Seq<TokenView>, pos: int, scope: Span) -> Result<
    (CnGroupView, int),
    Error,
> {
    if !(0 <= pos < ts.len()) {
        Err(Error { span: scope, kind: ErrorKind::UnexpectedEnd })
    } else {
        match ts[pos] {
            TokenView::Group { delimiter, stream, span } => if delimiter == Delimiter::Parenthesis {
                Ok((CnGroupView { stream, span }, pos + 1))
            } else {
                Err(Error { span, kind: ErrorKind::IncorrectGroupDelimiter })
            },
            other => Err(Error { span: span_of(other), kind: ErrorKind::IncorrectTokenGroup }),
        }
    }
}

/// A variable reference can start at `pos`.
pub open spec fn peek_spec(ts: Seq<TokenView>, pos: int) -> bool {
    is_ident(ts, pos) || is_punct(ts, pos, '&') || is_punct(ts, pos, '*')
}

/// How many markers stand before the first identifier: `&` or `*`, and then
/// perhaps one more `&`.
pub open spec fn marker_len(ts: Seq<TokenView>, pos: int) -> int {
    if is_punct(ts, pos, '&') || is_punct(ts, pos, '*') {
        if is_punct(ts, pos + 1, '&') {
            2
        } else {
            1
        }
    } else {
        0
    }
}

/// The `.identifier` whose dot stands at `pos` is called: a group follows
/// the identifier.
pub open spec fn is_called(ts: Seq<TokenView>, pos: int) -> bool {
    0 <= pos + 2 < ts.len() && ts[pos + 2] is Group
}

/// What follows the first identifier of a variable reference, read from
/// `pos` on with the name and shape gathered so far: any number of
/// `.identifier` and parenthesized groups, up to a comma or the end. An
/// identifier joins the name while nothing was called yet and it is not
/// called itself.
pub open spec fn ident_tail(
    ts: Seq<TokenView>,
    pos: int,
    scope: Span,
    sym: Seq<char>,
    is_fn: bool,
    is_composite: bool,
) -> Result<(Seq<char>, bool, bool, int), Error>
    decreases ts.len() - pos,
{
    if !(0 <= pos < ts.len()) || is_punct(ts, pos, ',') {
        Ok((sym, is_fn, is_composite, pos))
    } else if is_punct(ts, pos, '.') {
        if is_ident(ts, pos + 1) {
            let named = if is_fn || is_called(ts, pos) {
                sym
            } else {
                sym + seq!['.'] + ts[pos + 1]->name
            };
            ident_tail(ts, pos + 2, scope, named, is_fn, true)
        } else {
            Err(Error { span: span_at(ts, pos + 1, scope), kind: ErrorKind::ExpectedIdent })
        }
    } else {
        match group_spec(ts, pos, scope) {
            Err(error) => Err(error),
            Ok(_) => ident_tail(ts, pos + 1, scope, sym, true, is_composite),
        }
    }
}

/// A variable reference.
pub open spec fn ident_spec(ts: Seq<TokenView>, pos: int, scope: Span) -> Result<
    (CnIdentView, int),
    Error,
> {
    let first = pos + marker_len(ts, pos);
    if !is_ident(ts, first) {
        Err(Error { span: span_at(ts, first, scope), kind: ErrorKind::ExpectedIdent })
    } else {
        match ident_tail(ts, first + 1, scope, ts[first]->name, false, false) {
            Err(error) => Err(error),
            Ok((sym, is_fn, is_composite, end)) => Ok(
                (
                    CnIdentView {
                        sym,
                        stream: ts.subrange(pos, end),
                        is_fn,
                        is_composite,
                        span: span_of(ts[first]),
                    },
                    end,
                ),
            ),
        }
    }
}

/// The condition of a conditional: a boolean, a number, or a variable
/// reference.
pub open spec fn exp_spec(ts: Seq<TokenView>, pos: int, scope: Span) -> Result<
    (CnTupleExpView, int),
    Error,
> {
    if 0 <= pos < ts.len() && ts[pos] is Bool {
        Ok((CnTupleExpView::Bool(ts[pos]->flag), pos + 1))
    } else if 0 <= pos < ts.len() && ts[pos] is Int {
        Ok((CnTupleExpView::Int { number: ts[pos]->number, span: span_of(ts[pos]) }, pos + 1))
    } else if peek_spec(ts, pos) {
        match ident_spec(ts, pos, scope) {
            Err(error) => Err(error),
            Ok((ident, next)) => Ok((CnTupleExpView::Ident(ident), next)),
        }
    } else {
        Err(Error { span: span_at(ts, pos, scope), kind: ErrorKind::IncorrectExpression })
    }
}

/// The whole of `ts` as the inside of a conditional: a condition, a comma,
/// a text, and perhaps a comma and a second text; nothing more. Both texts are
/// trimmed.
pub open spec fn inner_spec(ts: Seq<TokenView>, scope: Span) -> Result<CnTupleInnerView, Error> {
    match exp_spec(ts, 0, scope) {
        Err(error) => Err(error),
        Ok((exp, at)) => if !is_punct(ts, at, ',') {
            Err(Error { span: span_at(ts, at, scope), kind: ErrorKind::ExpectedComma })
        } else if !is_str(ts, at + 1) {
            Err(Error { span: span_at(ts, at + 1, scope), kind: ErrorKind::ExpectedString })
        } else if at + 2 >= ts.len() {
            Ok(CnTupleInnerView { exp, if_cond: trim_spec(ts[at + 1]->value), else_cond: None })
        } else if !is_punct(ts, at + 2, ',') {
            Err(Error { span: span_at(ts, at + 2, scope), kind: ErrorKind::ExpectedComma })
        } else if !is_str(ts, at + 3) {
            Err(Error { span: span_at(ts, at + 3, scope), kind: ErrorKind::ExpectedString })
        } else if at + 4 < ts.len() {
            Err(Error { span: span_at(ts, at + 4, scope), kind: ErrorKind::OnlyThreeElements })
        } else {
            Ok(
                CnTupleInnerView {
                    exp,
                    if_cond: trim_spec(ts[at + 1]->value),
                    else_cond: Some(trim_spec(ts[at + 3]->value)),
                },
            )
        },
    }
}

/// A conditional: a group, whose tokens are the inside of a conditional.
pub open spec fn tuple_spec(ts: Seq<TokenView>, pos: int, scope: Span) -> Result<
    (CnTupleView, int),
    Error,
> {
    match group_spec(ts, pos, scope) {
        Err(error) => Err(error),
        Ok((group, next)) => match inner_spec(group.stream, scope) {
            Err(error) => Err(error),
            Ok(inner) => Ok(
                (
                    CnTupleView {
                        exp: inner.exp,
                        if_cond: inner.if_cond,
                        else_cond: inner.else_cond,
                        span: group.span,
                    },
                    next,
                ),
            ),
        },
    }
}

/// One element: a string, a number, a variable reference, or else a
/// conditional.
pub open spec fn unit_spec(ts: Seq<TokenView>, pos: int, scope: Span) -> Result<
    (CnUnitView, int),
    Error,
> {
    if is_str(ts, pos) {
        Ok((CnUnitView::Str { value: ts[pos]->value, span: span_of(ts[pos]) }, pos + 1))
    } else if 0 <= pos < ts.len() && ts[pos] is Int {
        Ok((CnUnitView::Int { number: ts[pos]->number, span: span_of(ts[pos]) }, pos + 1))
    } else if peek_spec(ts, pos) {
        match ident_spec(ts, pos, scope) {
            Err(error) => Err(error),
            Ok((ident, next)) => Ok((CnUnitView::Ident(ident), next)),
        }
    } else {
        match tuple_spec(ts, pos, scope) {
            Err(error) => Err(error),
            Ok((tuple, next)) => Ok((CnUnitView::Tuple(tuple), next)),
        }
    }
}

/// The tail of a variable reference ends within the tokens, at or behind
/// where it started.
pub proof fn lemma_ident_tail_bounds(
    ts: Seq<TokenView>,
    pos: int,
    scope: Span,
    sym: Seq<char>,
    is_fn: bool,
    is_composite: bool,
)
    requires
        0 <= pos <= ts.len(),
    ensures
        ident_tail(ts, pos, scope, sym, is_fn, is_composite) matches Ok(r) ==> pos <= r.3
            <= ts.len(),
    decreases ts.len() - pos,
{
    if !(0 <= pos < ts.len()) || is_punct(ts, pos, ',') {
    } else if is_punct(ts, pos, '.') {
        if is_ident(ts, pos + 1) {
            let named = if is_fn || is_called(ts, pos) {
                sym
            } else {
                sym + seq!['.'] + ts[pos + 1]->name
            };
            lemma_ident_tail_bounds(ts, pos + 2, scope, named, is_fn, true);
        }
    } else {
        if group_spec(ts, pos, scope) is Ok {
            lemma_ident_tail_bounds(ts, pos + 1, scope, sym, true, is_composite);
        }
    }
}

/// An element that is read takes at least one token, and none beyond the end.
pub proof fn lemma_unit_advances(ts: Seq<TokenView>, pos: int, scope: Span)
    requires
        0 <= pos <= ts.len(),
    ensures
        unit_spec(ts, pos, scope) matches Ok(r) ==> pos < r.1 <= ts.len(),
        exp_spec(ts, pos, scope) matches Ok(r) ==> pos < r.1 <= ts.len(),
        ident_spec(ts, pos, scope) matches Ok(r) ==> pos < r.1 <= ts.len(),
{
    let first = pos + marker_len(ts, pos);
    if is_ident(ts, first) {
        lemma_ident_tail_bounds(ts, first + 1, scope, ts[first]->name, false, false);
    }
}

impl CnGroup {
    /// Tests what [`CnGroup::parse`] would say, without copying the group.
    pub fn expect(tokens: &Vec<Token>, start: usize, scope: Span) -> (checked: Result<(), Error>)
        ensures
            match group_spec(views(tokens@), start as int, scope) {
                Ok(_) => checked is Ok,
                Err(error) => checked == Err::<(), Error>(error),
            },
    {
        if start >= tokens.len() {
            return Err(Error::new(scope, ErrorKind::UnexpectedEnd));
        }
        let token = &tokens[start];
        match token {
            Token::Group { delimiter, stream, span } => {
                proof {
                    lemma_group_view(*token);
                }
                match delimiter {
                    Delimiter::Parenthesis => Ok(()),
                    _ => Err(Error::new(*span, ErrorKind::IncorrectGroupDelimiter)),
                }
            },
            _ => Err(Error::new(token.span(), ErrorKind::IncorrectTokenGroup)),
        }
    }

    /// Reads a parenthesized group at `start`.
    pub fn parse(tokens: &Vec<Token>, start: usize, scope: Span) -> (parsed: Result<
        (Self, usize),
        Error,
    >)
        ensures
            agrees(parsed, group_spec(views(tokens@), start as int, scope)),
    {
        if start >= tokens.len() {
            return Err(Error::new(scope, ErrorKind::UnexpectedEnd));
        }
        let token = &tokens[start];
        match token {
            Token::Group { delimiter, stream, span } => {
                proof {
                    lemma_group_view(*token);
                }
                match delimiter {
                    Delimiter::Parenthesis => Ok(
                        (CnGroup { stream: clone_tokens(stream), span: *span }, start + 1),
                    ),
                    _ => Err(Error::new(*span, ErrorKind::IncorrectGroupDelimiter)),
                }
            },
            _ => Err(Error::new(token.span(), ErrorKind::IncorrectTokenGroup)),
        }
    }
}

impl CnIdent {
    /// Whether a variable reference can start at `start`: with an
    /// identifier, `&` or `*`.
    pub fn peek(tokens: &Vec<Token>, start: usize) -> (yes: bool)
        ensures
            yes == peek_spec(views(tokens@), start as int),
    {
        if start >= tokens.len() {
            return false;
        }
        match &tokens[start] {
            Token::Ident { .. } => true,
            Token::Punct { ch, .. } => *ch == '&' || *ch == '*',
            _ => false,
        }
    }

    /// Reads a variable reference at `start`.
    pub fn parse(tokens: &Vec<Token>, start: usize, scope: Span) -> (parsed: Result<
        (Self, usize),
        Error,
    >)
        ensures
            agrees(parsed, ident_spec(views(tokens@), start as int, scope)),
    {
        let ghost ts = views(tokens@);
        let ghost stated = ident_spec(ts, start as int, scope);
        let n = tokens.len();
        if start >= n {
            return Err(Error::new(scope, ErrorKind::ExpectedIdent));
        }
        let mut stream: Vec<Token> = Vec::new();
        let mut pos = start;
        assert(views(stream@) == ts.subrange(start as int, pos as int));
        if pos < n && (tokens[pos].is_punct('&') || tokens[pos].is_punct('*')) {
            let ghost before = stream@;
            stream.push(tokens[pos].clone());
            assert(views(stream@) == views(before).push(ts[pos as int]));
            pos += 1;
            assert(views(stream@) == ts.subrange(start as int, pos as int));
            if pos < n && tokens[pos].is_punct('&') {
                let ghost before = stream@;
                stream.push(tokens[pos].clone());
                assert(views(stream@) == views(before).push(ts[pos as int]));
                pos += 1;
                assert(views(stream@) == ts.subrange(start as int, pos as int));
            }
        }
        assert(pos == start + marker_len(ts, start as int));
        if pos >= n {
            return Err(Error::new(scope, ErrorKind::ExpectedIdent));
        }
        let first = &tokens[pos];
        let (mut sym, span) = match first {
            Token::Ident { name, span } => (name.clone(), *span),
            _ => {
                return Err(Error::new(first.span(), ErrorKind::ExpectedIdent));
            },
        };
        let ghost before = stream@;
        stream.push(first.clone());
        assert(views(stream@) == views(before).push(ts[pos as int]));
        pos += 1;
        assert(views(stream@) == ts.subrange(start as int, pos as int));
        let mut is_fn = false;
        let mut is_composite = false;
        let mut at_comma = false;
        let ghost whole = ident_tail(ts, pos as int, scope, sym@, false, false);
        while pos < n && !at_comma
            invariant
                start <= pos <= n == tokens.len(),
                ts == views(tokens@),
                views(stream@) == ts.subrange(start as int, pos as int),
                at_comma ==> is_punct(ts, pos as int, ','),
                whole == ident_tail(ts, pos as int, scope, sym@, is_fn, is_composite),
                stated == ident_spec(ts, start as int, scope),
                stated == match whole {
                    Err(error) => Err::<(CnIdentView, int), Error>(error),
                    Ok((s, f, c, end)) => Ok(
                        (
                            CnIdentView {
                                sym: s,
                                stream: ts.subrange(start as int, end),
                                is_fn: f,
                                is_composite: c,
                                span,
                            },
                            end,
                        ),
                    ),
                },
            decreases n - pos + if at_comma { 0int } else { 1int },
        {
            let token = &tokens[pos];
            if token.is_punct(',') {
                at_comma = true;
            } else if token.is_punct('.') {
                if pos + 1 >= n {
                    return Err(Error::new(scope, ErrorKind::ExpectedIdent));
                }
                let next = &tokens[pos + 1];
                match next {
                    Token::Ident { name, .. } => {
                        let ghost old_sym = sym@;
                        let called = pos + 2 < n && tokens[pos + 2].is_group();
                        if !is_fn && !called {
                            sym.push('.');
                            sym.append(name.as_str());
                            assert(sym@ == old_sym + seq!['.'] + ts[pos + 1]->name);
                        }
                        is_composite = true;
                    },
                    _ => {
                        return Err(Error::new(next.span(), ErrorKind::ExpectedIdent));
                    },
                }
                let ghost before = stream@;
                stream.push(token.clone());
                stream.push(next.clone());
                assert(views(stream@) == views(before).push(ts[pos as int]).push(ts[pos + 1]));
                pos += 2;
                assert(views(stream@) == ts.subrange(start as int, pos as int));
            } else {
                match CnGroup::expect(tokens, pos, scope) {
                    Err(error) => {
                        return Err(error);
                    },
                    Ok(()) => {},
                }
                is_fn = true;
                let ghost before = stream@;
                stream.push(token.clone());
                assert(views(stream@) == views(before).push(ts[pos as int]));
                pos += 1;
                assert(views(stream@) == ts.subrange(start as int, pos as int));
            }
        }
        Ok((CnIdent { sym, stream, is_fn, is_composite, span }, pos))
    }
}

impl CnTupleExp {
    /// Reads the condition of a conditional at `start`.
    pub fn parse(tokens: &Vec<Token>, start: usize, scope: Span) -> (parsed: Result<
        (Self, usize),
        Error,
    >)
        ensures
            agrees(parsed, exp_spec(views(tokens@), start as int, scope)),
    {
        if start < tokens.len() {
            match &tokens[start] {
                Token::Bool { flag, .. } => {
                    return Ok((CnTupleExp::Bool(*flag), start + 1));
                },
                Token::Int { number, span } => {
                    return Ok((CnTupleExp::Int { number: *number, span: *span }, start + 1));
                },
                _ => {},
            }
        }
        if CnIdent::peek(tokens, start) {
            match CnIdent::parse(tokens, start, scope) {
                Err(error) => Err(error),
                Ok((ident, next)) => Ok((CnTupleExp::Ident(ident), next)),
            }
        } else if start < tokens.len() {
            Err(Error::new(tokens[start].span(), ErrorKind::IncorrectExpression))
        } else {
            Err(Error::new(scope, ErrorKind::IncorrectExpression))
        }
    }
}

/// Reads a comma at `at`.
fn expect_comma(tokens: &Vec<Token>, at: usize, scope: Span) -> (checked: Result<(), Error>)
    ensures
        checked == if is_punct(views(tokens@), at as int, ',') {
            Ok::<(), Error>(())
        } else {
            Err::<(), Error>(
                Error { span: span_at(views(tokens@), at as int, scope), kind: ErrorKind::ExpectedComma },
            )
        },
{
    if at >= tokens.len() {
        Err(Error::new(scope, ErrorKind::ExpectedComma))
    } else if tokens[at].is_punct(',') {
        Ok(())
    } else {
        Err(Error::new(tokens[at].span(), ErrorKind::ExpectedComma))
    }
}

/// Reads a string literal at `at` and trims it.
fn expect_trimmed(tokens: &Vec<Token>, at: usize, scope: Span) -> (read: Result<String, Error>)
    ensures
        match read {
            Ok(text) => is_str(views(tokens@), at as int) && text@ == trim_spec(
                views(tokens@)[at as int]->value,
            ),
            Err(error) => !is_str(views(tokens@), at as int) && error == (Error {
                span: span_at(views(tokens@), at as int, scope),
                kind: ErrorKind::ExpectedString,
            }),
        },
{
    if at >= tokens.len() {
        return Err(Error::new(scope, ErrorKind::ExpectedString));
    }
    match &tokens[at] {
        Token::Str { value, .. } => Ok(trim(value.as_str())),
        other => Err(Error::new(other.span(), ErrorKind::ExpectedString)),
    }
}

impl CnTupleInner {
    /// Reads all of `tokens` as the inside of a conditional.
    pub fn parse(tokens: &Vec<Token>, scope: Span) -> (parsed: Result<Self, Error>)
        ensures
            agrees_whole(parsed, inner_spec(views(tokens@), scope)),
    {
        let ghost ts = views(tokens@);
        let n = tokens.len();
        let (exp, at) = match CnTupleExp::parse(tokens, 0, scope) {
            Err(error) => {
                return Err(error);
            },
            Ok(read) => read,
        };
        proof {
            lemma_unit_advances(ts, 0, scope);
        }
        match expect_comma(tokens, at, scope) {
            Err(error) => {
                return Err(error);
            },
            Ok(()) => {},
        }
        let if_cond = match expect_trimmed(tokens, at + 1, scope) {
            Err(error) => {
                return Err(error);
            },
            Ok(text) => text,
        };
        if at + 2 >= n {
            return Ok(CnTupleInner { exp, if_cond, else_cond: None });
        }
        match expect_comma(tokens, at + 2, scope) {
            Err(error) => {
                return Err(error);
            },
            Ok(()) => {},
        }
        let else_cond = match expect_trimmed(tokens, at + 3, scope) {
            Err(error) => {
                return Err(error);
            },
            Ok(text) => text,
        };
        if at + 4 < n {
            return Err(Error::new(tokens[at + 4].span(), ErrorKind::OnlyThreeElements));
        }
        Ok(CnTupleInner { exp, if_cond, else_cond: Some(else_cond) })
    }
}

impl CnTuple {
    /// Reads a conditional at `start`.
    pub fn parse(tokens: &Vec<Token>, start: usize, scope: Span) -> (parsed: Result<
        (Self, usize),
        Error,
    >)
        ensures
            agrees(parsed, tuple_spec(views(tokens@), start as int, scope)),
    {
        if start >= tokens.len() {
            return Err(Error::new(scope, ErrorKind::UnexpectedEnd));
        }
        let token = &tokens[start];
        match token {
            Token::Group { delimiter, stream, span } => {
                proof {
                    lemma_group_view(*token);
                }
                match delimiter {
                    Delimiter::Parenthesis => match CnTupleInner::parse(stream, scope) {
                        Err(error) => Err(error),
                        Ok(inner) => Ok(
                            (
                                CnTuple {
                                    exp: inner.exp,
                                    if_cond: inner.if_cond,
                                    else_cond: inner.else_cond,
                                    span: *span,
                                },
                                start + 1,
                            ),
                        ),
                    },
                    _ => Err(Error::new(*span, ErrorKind::IncorrectGroupDelimiter)),
                }
            },
            _ => Err(Error::new(token.span(), ErrorKind::IncorrectTokenGroup)),
        }
    }
}

impl CnUnit {
    /// Reads one element at `start`.
    pub fn parse(tokens: &Vec<Token>, start: usize, scope: Span) -> (parsed: Result<
        (Self, usize),
        Error,
    >)
        ensures
            agrees(parsed, unit_spec(views(tokens@), start as int, scope)),
    {
        if start < tokens.len() {
            match &tokens[start] {
                Token::Str { value, span } => {
                    return Ok((CnUnit::Str { value: value.clone(), span: *span }, start + 1));
                },
                Token::Int { number, span } => {
                    return Ok((CnUnit::Int { number: *number, span: *span }, start + 1));
                },
                _ => {},
            }
        }
        if CnIdent::peek(tokens, start) {
            match CnIdent::parse(tokens, start, scope) {
                Err(error) => Err(error),
                Ok((ident, next)) => Ok((CnUnit::Ident(ident), next)),
            }
        } else {
            match CnTuple::parse(tokens, start, scope) {
                Err(error) => Err(error),
                Ok((tuple, next)) => Ok((CnUnit::Tuple(tuple), next)),
            }
        }
    }
}

} // verus!
