//! The input of the compiler: a token tree.
//!
//! Whoever reads the source hands the compiler its tokens in this shape:
//! literals already decoded, `true` and `false` told apart from identifiers,
//! and each bracketed group holding its own tokens. A [`Span`] names a place
//! in that source; the compiler only carries it into its errors.

use vstd::prelude::*;

verus! {

/// A place in the source, as an index into the caller's table of places.
#[derive(Clone, Copy, Debug, PartialEq, Eq, Structural)]
pub struct Span {
    pub index: usize,
}

/// The brackets of a group.
#[derive(Clone, Copy, Debug, PartialEq, Eq, Structural)]
pub enum Delimiter {
    Parenthesis,
    Brace,
    Bracket,
    Invisible,
}

/// One token, or one bracketed group of tokens.
#[derive(Debug, PartialEq, Eq)]
pub enum Token {
    /// A string literal, by the text it denotes.
    Str { value: String, span: Span },
    /// An integer literal, by its value.
    Int { number: u64, span: Span },
    /// `true` or `false`.
    Bool { flag: bool, span: Span },
    /// An identifier that is no keyword.
    Ident { name: String, span: Span },
    /// One character of punctuation; `joint` when the next token follows
    /// without space.
    Punct { ch: char, joint: bool, span: Span },
    /// A bracketed group.
    Group { delimiter: Delimiter, stream: Vec<Token>, span: Span },
    /// Any other token.
    Other { span: Span },
}

/// The mathematical value of a [`Token`].
pub ghost enum TokenView {
    Str { value: Seq<char>, span: Span },
    Int { number: u64, span: Span },
    Bool { flag: bool, span: Span },
    Ident { name: Seq<char>, span: Span },
    Punct { ch: char, joint: bool, span: Span },
    Group { delimiter: Delimiter, stream: Seq<TokenView>, span: Span },
    Other { span: Span },
}

/// The value of a token; a group holds the values of its tokens.
pub open spec fn token_view(t: Token) -> TokenView
    decreases t,
{
    match t {
        Token::Str { value, span } => TokenView::Str { value: value@, span },
        Token::Int { number, span } => TokenView::Int { number, span },
        Token::Bool { flag, span } => TokenView::Bool { flag, span },
        Token::Ident { name, span } => TokenView::Ident { name: name@, span },
        Token::Punct { ch, joint, span } => TokenView::Punct { ch, joint, span },
        Token::Group { delimiter, stream, span } => TokenView::Group {
            delimiter,
            stream: Seq::new(
                stream@.len(),
                |i: int|
                    if 0 <= i < stream@.len() {
                        token_view(stream@[i])
                    } else {
                        TokenView::Other { span }
                    },
            ),
            span,
        },
        Token::Other { span } => TokenView::Other { span },
    }
}

impl View for Token {
    type V = TokenView;

    open spec fn view(&self) -> TokenView {
        token_view(*self)
    }
}

/// The values of a sequence of tokens.
pub open spec fn views(ts: Seq<Token>) -> Seq<TokenView> {
    ts.map_values(|t: Token| t@)
}

/// The place of a token.
pub open spec fn span_of(t: TokenView) -> Span {
    match t {
        TokenView::Str { span, .. } => span,
        TokenView::Int { span, .. } => span,
        TokenView::Bool { span, .. } => span,
        TokenView::Ident { span, .. } => span,
        TokenView::Punct { span, .. } => span,
        TokenView::Group { span, .. } => span,
        TokenView::Other { span } => span,
    }
}

/// The place of the token at `pos`, or `scope` where the tokens have ended.
pub open spec fn span_at(ts: Seq<TokenView>, pos: int, scope: Span) -> Span {
    if 0 <= pos < ts.len() {
        span_of(ts[pos])
    } else {
        scope
    }
}

/// The token at `pos` is the punctuation `ch`.
pub open spec fn is_punct(ts: Seq<TokenView>, pos: int, ch: char) -> bool {
    0 <= pos < ts.len() && ts[pos] is Punct && ts[pos]->ch == ch
}

/// The token at `pos` is an identifier.
pub open spec fn is_ident(ts: Seq<TokenView>, pos: int) -> bool {
    0 <= pos < ts.len() && ts[pos] is Ident
}

/// The tokens of a group are the values of the tokens it holds.
pub proof fn lemma_group_view(t: Token)
    requires
        t is Group,
    ensures
        t@ is Group,
        t@->stream == views(t->Group_stream@),
        t@->delimiter == t->delimiter,
        span_of(t@) == t->Group_span,
{
    match t {
        Token::Group { delimiter, stream, span } => {
            assert(t@->stream =~= views(stream@));
        },
        _ => {},
    }
}

impl Token {
    /// The place of this token.
    pub fn span(&self) -> (span: Span)
        ensures
            span == span_of(self@),
    {
        match self {
            Token::Str { span, .. } => *span,
            Token::Int { span, .. } => *span,
            Token::Bool { span, .. } => *span,
            Token::Ident { span, .. } => *span,
            Token::Punct { span, .. } => *span,
            Token::Group { span, .. } => *span,
            Token::Other { span } => *span,
        }
    }

    /// Whether this token is a group.
    pub fn is_group(&self) -> (yes: bool)
        ensures
            yes == (self@ is Group),
    {
        match self {
            Token::Group { .. } => true,
            _ => false,
        }
    }

    /// Whether this token is the punctuation `wanted`.
    pub fn is_punct(&self, wanted: char) -> (yes: bool)
        ensures
            yes == (self@ is Punct && self@->ch == wanted),
    {
        match self {
            Token::Punct { ch, .. } => *ch == wanted,
            _ => false,
        }
    }
}

impl Clone for Token {
    fn clone(&self) -> (copy: Self)
        ensures
            copy@ == self@,
        decreases self,
    {
        match self {
            Token::Str { value, span } => Token::Str { value: value.clone(), span: *span },
            Token::Int { number, span } => Token::Int { number: *number, span: *span },
            Token::Bool { flag, span } => Token::Bool { flag: *flag, span: *span },
            Token::Ident { name, span } => Token::Ident { name: name.clone(), span: *span },
            Token::Punct { ch, joint, span } => Token::Punct {
                ch: *ch,
                joint: *joint,
                span: *span,
            },
            Token::Group { delimiter, stream, span } => {
                let mut inner: Vec<Token> = Vec::new();
                let mut i: usize = 0;
                while i < stream.len()
                    invariant
                        i <= stream.len(),
                        inner.len() == i,
                        *self is Group,
                        self->Group_stream == *stream,
                        forall|j: int| 0 <= j < i ==> inner@[j]@ == stream@[j]@,
                    decreases stream.len() - i,
                {
                    inner.push(stream[i].clone());
                    i += 1;
                }
                let copy = Token::Group { delimiter: *delimiter, stream: inner, span: *span };
                assert(copy@->stream =~= self@->stream);
                copy
            },
            Token::Other { span } => Token::Other { span: *span },
        }
    }
}

/// A copy of the tokens of `tokens`.
pub fn clone_tokens(tokens: &Vec<Token>) -> (copy: Vec<Token>)
    ensures
        views(copy@) == views(tokens@),
{
    let mut copy: Vec<Token> = Vec::new();
    let mut i: usize = 0;
    while i < tokens.len()
        invariant
            i <= tokens.len(),
            views(copy@) == views(tokens@).take(i as int),
        decreases tokens.len() - i,
    {
        let ghost before = copy@;
        copy.push(tokens[i].clone());
        assert(views(copy@) == views(before).push(tokens@[i as int]@));
        i += 1;
    }
    assert(views(tokens@).take(tokens@.len() as int) == views(tokens@));
    copy
}

/// Appends a copy of the tokens of `more` to `tokens`.
pub fn append_tokens(tokens: &mut Vec<Token>, more: &Vec<Token>)
    ensures
        views(final(tokens)@) == views(old(tokens)@) + views(more@),
{
    let mut i: usize = 0;
    assert(views(more@).take(0) == Seq::<TokenView>::empty());
    assert(views(tokens@) + Seq::<TokenView>::empty() == views(tokens@));
    while i < more.len()
        invariant
            i <= more.len(),
            views(tokens@) == views(old(tokens)@) + views(more@).take(i as int),
        decreases more.len() - i,
    {
        let ghost before = tokens@;
        tokens.push(more[i].clone());
        assert(views(tokens@) == views(before).push(more@[i as int]@));
        assert(views(more@).take(i + 1) == views(more@).take(i as int).push(more@[i as int]@));
        i += 1;
    }
    assert(views(more@).take(more@.len() as int) == views(more@));
}

} // verus!
