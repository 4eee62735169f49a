//! One case of an enum: its fields, which of them its class list uses, and
//! its class list.
//!
//! The fields of a case either have names or have positions. A class list
//! refers to a named field by its name and to a positional field by its
//! index; the index `3` becomes the variable `var_3`. Every reference is
//! checked against the fields, and the field is marked as used: the pattern
//! that matches the case binds the used fields and ignores the others.

use vstd::prelude::*;
use vstd::std_specs::convert::FromSpecImpl;
use vstd::string::StringExecFns;
use crate::classnames::parsers::{
    checked_units, classify_spec, compile_spec, parse_spec, var_name, CheckVariantIdents,
    CheckVariantIndexes, CnItemView, CnParser, CnTokens, CnTypes, CnTypesView,
};
use crate::classnames::units::{CnIdent, CnIdentView};
use crate::dedup::{find_in, first_index};
use crate::error::{Error, ErrorKind};
use crate::text::{push_decimal, strs};
use crate::tokens::{append_tokens, views, Span, Token, TokenView};
use crate::variants::input::{
    meta_views, Fields, FieldsNamed, FieldsUnnamed, FieldsView, Meta, MetaView, Variant,
    VariantView,
};

verus! {

/// What `{:?}` prints for a text: the text between quotes, with its
/// quotes, backslashes and unprintable characters escaped.
pub uninterp spec fn debug_text(text: Seq<char>) -> Seq<char>;

/// The standard library's `{:?}` of a string slice: the result is a function
/// of the characters alone, named [`debug_text`].
#[verifier::external_body]
fn debug_quoted(text: &str) -> (quoted: String)
    ensures
        quoted@ == debug_text(text@),
{
    format!("{:?}", text)
}

/// The names with `", "` between neighbours.
pub open spec fn comma_list(names: Seq<Seq<char>>) -> Seq<char>
    decreases names.len(),
{
    if names.len() == 0 {
        Seq::empty()
    } else if names.len() == 1 {
        names[0]
    } else {
        comma_list(names.drop_last()) + ", "@ + names.last()
    }
}

/// The message that lists the names a case accepts.
pub open spec fn valid_names_text(names: Seq<Seq<char>>) -> Seq<char> {
    "Alloved variant values: "@ + debug_text(comma_list(names))
}

/// The message that lists the names a case accepts.
pub fn get_valid_values_message_by_hashset(names: &Vec<String>) -> (message: String)
    ensures
        message@ == valid_names_text(strs(names@)),
{
    let mut list = String::new();
    let mut i: usize = 0;
    while i < names.len()
        invariant
            i <= names.len(),
            list@ == comma_list(strs(names@).take(i as int)),
        decreases names.len() - i,
    {
        assert(strs(names@).take(i + 1).drop_last() == strs(names@).take(i as int));
        if i > 0 {
            list.append(", ");
        }
        list.append(names[i].as_str());
        i += 1;
    }
    assert(strs(names@).take(names@.len() as int) == strs(names@));
    let mut message = String::from_str("Alloved variant values: ");
    let quoted = debug_quoted(list.as_str());
    message.append(quoted.as_str());
    message
}

/// The elements of `s`, each once, in the order of their first occurrence.
pub open spec fn distinct<A>(s: Seq<A>) -> Seq<A>
    decreases s.len(),
{
    if s.len() == 0 {
        s
    } else if distinct(s.drop_last()).contains(s.last()) {
        distinct(s.drop_last())
    } else {
        distinct(s.drop_last()).push(s.last())
    }
}

/// The flags `used` with the flag at `at` set, if there is one.
pub open spec fn mark(used: Seq<bool>, at: int) -> Seq<bool> {
    if 0 <= at < used.len() {
        used.update(at, true)
    } else {
        used
    }
}

/// `len` fields, none of them used.
pub open spec fn unused(len: nat) -> Seq<bool> {
    Seq::new(len, |i: int| false)
}

/// The named fields of a case, and which of them are used.
#[derive(Debug, PartialEq, Eq)]
pub struct NamedParam {
    names: Vec<String>,
    used: Vec<bool>,
}

/// What a [`NamedParam`] knows: the names of the fields, and for each
/// whether it is used.
pub ghost struct NamedState {
    pub names: Seq<Seq<char>>,
    pub used: Seq<bool>,
}

/// A reference checked against named fields: its symbolic name must be one of
/// the names, and that field is then used.
pub open spec fn named_ident_spec(state: NamedState, value: CnIdentView) -> Result<
    NamedState,
    Error,
> {
    if state.names.contains(value.sym) {
        Ok(
            NamedState {
                names: state.names,
                used: mark(state.used, first_index(state.names, value.sym)),
            },
        )
    } else {
        Err(Error { span: value.span, kind: ErrorKind::UnknownField })
    }
}

/// How the named fields are bound: each name, and whether it is bound or
/// ignored.
pub open spec fn named_pattern(state: NamedState) -> Seq<(Seq<char>, bool)> {
    Seq::new(state.names.len(), |i: int| (state.names[i], i < state.used.len() && state.used[i]))
}

/// The views of the bindings of named fields.
pub open spec fn binding_views(bindings: Seq<(String, bool)>) -> Seq<(Seq<char>, bool)> {
    bindings.map_values(|b: (String, bool)| (b.0@, b.1))
}

impl NamedParam {
    /// The message that lists the names of the fields.
    pub fn valid_values_message(&self) -> (message: String)
        ensures
            message@ == valid_names_text(self.state().names),
    {
        get_valid_values_message_by_hashset(&self.names)
    }

    /// The bindings of the pattern that matches the case: every field by
    /// its name, bound if it is used, ignored if not.
    pub fn to_tokens(&self) -> (bindings: Vec<(String, bool)>)
        ensures
            binding_views(bindings@) == named_pattern(self.state()),
    {
        let mut bindings: Vec<(String, bool)> = Vec::new();
        let mut i: usize = 0;
        while i < self.names.len()
            invariant
                i <= self.names.len(),
                bindings.len() == i,
                forall|j: int|
                    0 <= j < i ==> (#[trigger] bindings@[j]).0@ == self.names@[j]@ && bindings@[j].1
                        == (j < self.used@.len() && self.used@[j]),
            decreases self.names.len() - i,
        {
            let bound = i < self.used.len() && self.used[i];
            bindings.push((self.names[i].clone(), bound));
            i += 1;
        }
        assert(binding_views(bindings@) =~= named_pattern(self.state()));
        bindings
    }
}

impl From<FieldsNamed> for NamedParam {
    /// The fields of a declaration, none of them used; a name that is
    /// declared twice counts once.
    fn from(value: FieldsNamed) -> (params: Self)
        ensures
            params.state() == (NamedState {
                names: distinct(strs(value.named@)),
                used: unused(distinct(strs(value.named@)).len()),
            }),
    {
        let mut names: Vec<String> = Vec::new();
        let mut used: Vec<bool> = Vec::new();
        let mut i: usize = 0;
        while i < value.named.len()
            invariant
                i <= value.named.len(),
                strs(names@) == distinct(strs(value.named@).take(i as int)),
                used@ == unused(names@.len()),
            decreases value.named.len() - i,
        {
            let ghost before = names@;
            assert(strs(value.named@).take(i + 1).drop_last() == strs(value.named@).take(i as int));
            if find_in(&names, value.named[i].as_str()).is_none() {
                names.push(value.named[i].clone());
                used.push(false);
                assert(strs(names@) == strs(before).push(value.named@[i as int]@));
                assert(used@ == unused(names@.len()));
            }
            i += 1;
        }
        assert(strs(value.named@).take(value.named@.len() as int) == strs(value.named@));
        NamedParam { names, used }
    }
}

impl FromSpecImpl<FieldsNamed> for NamedParam {
    open spec fn obeys_from_spec() -> bool {
        false
    }

    open spec fn from_spec(v: FieldsNamed) -> Self {
        arbitrary()
    }
}

impl CheckVariantIndexes for NamedParam {
    type State = NamedState;

    closed spec fn state(&self) -> NamedState {
        NamedState { names: strs(self.names@), used: self.used@ }
    }

    open spec fn index_spec(state: NamedState, value: u8, span: Span) -> Result<NamedState, Error> {
        Err(Error { span, kind: ErrorKind::NamedOnly })
    }

    /// Named fields have no index: only names are accepted.
    fn check_index(&mut self, value: u8, span: Span) -> (checked: Result<(), Error>) {
        Err(Error::new(span, ErrorKind::NamedOnly))
    }
}

impl CheckVariantIdents for NamedParam {
    open spec fn ident_spec(state: NamedState, value: CnIdentView) -> Result<NamedState, Error> {
        named_ident_spec(state, value)
    }

    fn check_ident(&mut self, value: &CnIdent) -> (checked: Result<(), Error>) {
        let ghost before = self.state();
        let found = find_in(&self.names, value.sym.as_str());
        let checked = match found {
            None => Err(Error::new(value.span, ErrorKind::UnknownField)),
            Some(at) => {
                if at < self.used.len() {
                    self.used.set(at, true);
                }
                Ok(())
            },
        };
        proof {
            if found is Some {
                assert(before.names.contains(value@.sym));
                assert(self.used@ == mark(before.used, found->Some_0 as int));
                assert(self.state() == (NamedState {
                    names: before.names,
                    used: mark(before.used, first_index(before.names, value@.sym)),
                }));
            } else {
                assert(!before.names.contains(value@.sym));
                assert(self.state() == before);
            }
            assert(match Self::ident_spec(before, value@) {
                Ok(next) => checked is Ok && self.state() == next,
                Err(error) => checked == Err::<(), Error>(error) && self.state() == before,
            });
        }
        checked
    }
}

/// The positional fields of a case, and which of them are used.
#[derive(Debug, PartialEq, Eq)]
pub struct UnnamedParam {
    count: u8,
    used: Vec<bool>,
}

/// What an [`UnnamedParam`] knows: how many fields there are, and for each
/// whether it is used.
pub ghost struct UnnamedState {
    pub count: u8,
    pub used: Seq<bool>,
}

/// An index checked against positional fields: it must be one of
/// `0 ..= count - 1`, and that field is then used.
pub open spec fn unnamed_index_spec(state: UnnamedState, value: u8, span: Span) -> Result<
    UnnamedState,
    Error,
> {
    if state.count == 0 {
        Err(Error { span, kind: ErrorKind::NoFields })
    } else if value > state.count - 1 {
        Err(Error { span, kind: ErrorKind::IndexOutOfRange { max: (state.count - 1) as u8 } })
    } else {
        Ok(UnnamedState { count: state.count, used: mark(state.used, value as int) })
    }
}

/// How the positional fields are bound: a used field by the variable of its
/// index, the others not at all.
pub open spec fn unnamed_pattern(state: UnnamedState) -> Seq<Option<Seq<char>>> {
    Seq::new(
        state.count as nat,
        |i: int|
            if i < state.used.len() && state.used[i] {
                Some(var_name(i as u8))
            } else {
                None
            },
    )
}

/// The views of the bindings of positional fields.
pub open spec fn slot_views(slots: Seq<Option<String>>) -> Seq<Option<Seq<char>>> {
    slots.map_values(
        |s: Option<String>|
            match s {
                Some(name) => Some(name@),
                None => None,
            },
    )
}

impl UnnamedParam {
    /// The positional fields of a declaration, none of them used. More than
    /// 255 fields are refused.
    pub fn try_from(value: FieldsUnnamed) -> (made: Result<Self, Error>)
        ensures
            match made {
                Ok(params) => value.len <= 255 && params.state() == (UnnamedState {
                    count: value.len as u8,
                    used: unused(value.len as nat),
                }),
                Err(error) => value.len > 255 && error == (Error {
                    span: value.span,
                    kind: ErrorKind::TooManyFields,
                }),
            },
    {
        if value.len > 255 {
            return Err(Error::new(value.span, ErrorKind::TooManyFields));
        }
        let count: u8 = value.len as u8;
        let mut used: Vec<bool> = Vec::new();
        let mut i: u8 = 0;
        while i < count
            invariant
                i <= count,
                used@ == unused(i as nat),
            decreases count - i,
        {
            used.push(false);
            assert(used@ == unused((i + 1) as nat));
            i += 1;
        }
        Ok(UnnamedParam { count, used })
    }

    /// The slots of the pattern that matches the case: for every field in
    /// order the variable that binds it, or nothing if it is not used.
    pub fn to_tokens(&self) -> (slots: Vec<Option<String>>)
        ensures
            slot_views(slots@) == unnamed_pattern(self.state()),
    {
        let mut slots: Vec<Option<String>> = Vec::new();
        let mut num: u8 = 0;
        while num < self.count
            invariant
                num <= self.count,
                slots.len() == num,
                forall|j: int|
                    0 <= j < num ==> slot_views(slots@)[j] == if j < self.used@.len()
                        && self.used@[j] {
                        Some(var_name(j as u8))
                    } else {
                        None::<Seq<char>>
                    },
            decreases self.count - num,
        {
            let ghost before = slots@;
            if (num as usize) < self.used.len() && self.used[num as usize] {
                let mut name = String::from_str("var_");
                push_decimal(&mut name, num as u64);
                slots.push(Some(name));
            } else {
                slots.push(None);
            }
            assert forall|j: int| 0 <= j < num + 1 implies slot_views(slots@)[j] == if j
                < self.used@.len() && self.used@[j] {
                Some(var_name(j as u8))
            } else {
                None::<Seq<char>>
            } by {
                if j < num {
                    assert(slot_views(slots@)[j] == slot_views(before)[j]);
                }
            }
            num += 1;
        }
        assert(slot_views(slots@) =~= unnamed_pattern(self.state()));
        slots
    }
}

impl CheckVariantIndexes for UnnamedParam {
    type State = UnnamedState;

    closed spec fn state(&self) -> UnnamedState {
        UnnamedState { count: self.count, used: self.used@ }
    }

    open spec fn index_spec(state: UnnamedState, value: u8, span: Span) -> Result<
        UnnamedState,
        Error,
    > {
        unnamed_index_spec(state, value, span)
    }

    fn check_index(&mut self, value: u8, span: Span) -> (checked: Result<(), Error>) {
        if self.count == 0 {
            return Err(Error::new(span, ErrorKind::NoFields));
        }
        let max_value = self.count - 1;
        if value > max_value {
            return Err(Error::new(span, ErrorKind::IndexOutOfRange { max: max_value }));
        }
        if (value as usize) < self.used.len() {
            self.used.set(value as usize, true);
        }
        Ok(())
    }
}

/// The fields of a case.
#[derive(Debug, PartialEq, Eq)]
pub enum VariantParams {
    Unit,
    Unnamed(UnnamedParam),
    Named(NamedParam),
}

/// What a [`VariantParams`] knows.
pub ghost enum ParamsState {
    Unit,
    Unnamed(UnnamedState),
    Named(NamedState),
}

/// The fields of a declaration, none of them used.
pub open spec fn params_spec(fields: FieldsView) -> Result<ParamsState, Error> {
    match fields {
        FieldsView::Named { names, span } => Ok(
            ParamsState::Named(
                NamedState { names: distinct(names), used: unused(distinct(names).len()) },
            ),
        ),
        FieldsView::Unnamed { len, span } => if len > 255 {
            Err(Error { span, kind: ErrorKind::TooManyFields })
        } else {
            Ok(ParamsState::Unnamed(UnnamedState { count: len as u8, used: unused(len as nat) }))
        },
        FieldsView::Unit => Ok(ParamsState::Unit),
    }
}

/// How a case is matched.
#[derive(Debug, PartialEq, Eq)]
pub enum ParamsPattern {
    /// The case has no fields.
    Unit,
    /// Positional fields: for each the variable that binds it, or nothing.
    Tuple(Vec<Option<String>>),
    /// Named fields: each name, and whether it is bound.
    Struct(Vec<(String, bool)>),
}

pub ghost enum ParamsPatternView {
    Unit,
    Tuple(Seq<Option<Seq<char>>>),
    Struct(Seq<(Seq<char>, bool)>),
}

impl View for ParamsPattern {
    type V = ParamsPatternView;

    open spec fn view(&self) -> ParamsPatternView {
        match self {
            ParamsPattern::Unit => ParamsPatternView::Unit,
            ParamsPattern::Tuple(slots) => ParamsPatternView::Tuple(slot_views(slots@)),
            ParamsPattern::Struct(bindings) => ParamsPatternView::Struct(binding_views(bindings@)),
        }
    }
}

/// The pattern that matches a case and binds the fields that are used.
pub open spec fn pattern_spec(state: ParamsState) -> ParamsPatternView {
    match state {
        ParamsState::Unit => ParamsPatternView::Unit,
        ParamsState::Unnamed(unnamed) => ParamsPatternView::Tuple(unnamed_pattern(unnamed)),
        ParamsState::Named(named) => ParamsPatternView::Struct(named_pattern(named)),
    }
}

impl VariantParams {
    /// The fields of a declaration, none of them used.
    pub fn try_from(value: Fields) -> (made: Result<Self, Error>)
        ensures
            match params_spec(value@) {
                Ok(state) => made is Ok && made->Ok_0.state() == state,
                Err(error) => made is Err && made->Err_0 == error,
            },
    {
        match value {
            Fields::Named(fields) => Ok(VariantParams::Named(NamedParam::from(fields))),
            Fields::Unnamed(fields) => match UnnamedParam::try_from(fields) {
                Err(error) => Err(error),
                Ok(params) => Ok(VariantParams::Unnamed(params)),
            },
            Fields::Unit => Ok(VariantParams::Unit),
        }
    }

    /// The pattern that matches the case and binds the fields that are used.
    pub fn to_tokens(&self) -> (pattern: ParamsPattern)
        ensures
            pattern@ == pattern_spec(self.state()),
    {
        match self {
            VariantParams::Unit => ParamsPattern::Unit,
            VariantParams::Unnamed(unnamed) => ParamsPattern::Tuple(unnamed.to_tokens()),
            VariantParams::Named(named) => ParamsPattern::Struct(named.to_tokens()),
        }
    }
}

impl CheckVariantIndexes for VariantParams {
    type State = ParamsState;

    open spec fn state(&self) -> ParamsState {
        match self {
            VariantParams::Unit => ParamsState::Unit,
            VariantParams::Unnamed(unnamed) => ParamsState::Unnamed(unnamed.state()),
            VariantParams::Named(named) => ParamsState::Named(named.state()),
        }
    }

    open spec fn index_spec(state: ParamsState, value: u8, span: Span) -> Result<ParamsState, Error> {
        match state {
            ParamsState::Unnamed(unnamed) => match unnamed_index_spec(unnamed, value, span) {
                Ok(next) => Ok(ParamsState::Unnamed(next)),
                Err(error) => Err(error),
            },
            ParamsState::Named(_) => Err(Error { span, kind: ErrorKind::NamedOnly }),
            ParamsState::Unit => Err(Error { span, kind: ErrorKind::IndicesOnly }),
        }
    }

    /// An index is accepted only by positional fields: named fields answer
    /// that they take names only, a case without fields that indices are for
    /// positional fields only.
    fn check_index(&mut self, value: u8, span: Span) -> (checked: Result<(), Error>) {
        match self {
            VariantParams::Unnamed(unnamed) => unnamed.check_index(value, span),
            VariantParams::Named(named) => named.check_index(value, span),
            VariantParams::Unit => Err(Error::new(span, ErrorKind::IndicesOnly)),
        }
    }
}

impl CheckVariantIdents for VariantParams {
    open spec fn ident_spec(state: ParamsState, value: CnIdentView) -> Result<ParamsState, Error> {
        match state {
            ParamsState::Named(named) => match named_ident_spec(named, value) {
                Ok(next) => Ok(ParamsState::Named(next)),
                Err(error) => Err(error),
            },
            ParamsState::Unnamed(_) => Err(Error { span: value.span, kind: ErrorKind::IndicesOnly }),
            ParamsState::Unit => Err(Error { span: value.span, kind: ErrorKind::NamedOnly }),
        }
    }

    /// A name is accepted only by named fields: positional fields answer
    /// that they take indices only, a case without fields that names are for
    /// named fields only.
    fn check_ident(&mut self, value: &CnIdent) -> (checked: Result<(), Error>) {
        match self {
            VariantParams::Named(named) => named.check_ident(value),
            VariantParams::Unnamed(_) => Err(Error::new(value.span, ErrorKind::IndicesOnly)),
            VariantParams::Unit => Err(Error::new(value.span, ErrorKind::NamedOnly)),
        }
    }
}

/// The comma that joins the class lists of several attributes.
pub open spec fn comma(scope: Span) -> TokenView {
    TokenView::Punct { ch: ',', joint: false, span: scope }
}

/// An attribute `class(..)` with something between its parentheses.
pub open spec fn is_class(meta: MetaView) -> bool {
    meta is List && meta->path == "class"@ && meta->tokens.len() > 0
}

/// The tokens of the class list of a case: those of its `class` attributes in
/// order, with a comma between one attribute and the next.
pub open spec fn class_tokens(attrs: Seq<MetaView>, scope: Span) -> Seq<TokenView>
    decreases attrs.len(),
{
    if attrs.len() == 0 {
        Seq::empty()
    } else {
        let before = class_tokens(attrs.drop_last(), scope);
        if !is_class(attrs.last()) {
            before
        } else if before.len() == 0 {
            attrs.last()->tokens
        } else {
            before.push(comma(scope)) + attrs.last()->tokens
        }
    }
}

/// One case: its name, its fields with the used ones marked, and its folded
/// class list.
#[derive(Debug, PartialEq, Eq)]
pub struct VariantFields {
    pub name: String,
    pub params: VariantParams,
    pub classes: CnTokens,
}

pub ghost struct VariantFieldsView {
    pub name: Seq<char>,
    pub params: ParamsState,
    pub classes: Seq<CnItemView>,
}

impl View for VariantFields {
    type V = VariantFieldsView;

    open spec fn view(&self) -> VariantFieldsView {
        VariantFieldsView { name: self.name@, params: self.params.state(), classes: self.classes@ }
    }
}

/// The case derived from a declared case: its class list is read from its
/// `class` attributes, checked against its fields, and folded. Whatever is
/// refused on the way refuses the case.
pub open spec fn fields_spec(variant: VariantView, scope: Span) -> Result<VariantFieldsView, Error> {
    match params_spec(variant.fields) {
        Err(error) => Err(error),
        Ok(start) => match parse_spec(class_tokens(variant.attrs, scope), scope) {
            Err(error) => Err(error),
            Ok(units) => {
                let checked = checked_units::<VariantParams>(units, start, Seq::empty());
                match checked.0 {
                    Err(error) => Err(error),
                    Ok(list) => match compile_spec(list) {
                        Err(error) => Err(error),
                        Ok(items) => Ok(
                            VariantFieldsView {
                                name: variant.ident,
                                params: checked.1,
                                classes: items,
                            },
                        ),
                    },
                }
            },
        },
    }
}

/// One arm of the match over the cases: the name of the case, the pattern
/// that binds its used fields, and what its class list comes to.
#[derive(Debug, PartialEq, Eq)]
pub struct VariantArm {
    pub name: String,
    pub pattern: ParamsPattern,
    pub classes: CnTypes,
}

pub ghost struct VariantArmView {
    pub name: Seq<char>,
    pub pattern: ParamsPatternView,
    pub classes: CnTypesView,
}

impl View for VariantArm {
    type V = VariantArmView;

    open spec fn view(&self) -> VariantArmView {
        VariantArmView { name: self.name@, pattern: self.pattern@, classes: self.classes@ }
    }
}

/// The arm of a case.
pub open spec fn arm_spec(fields: VariantFieldsView) -> VariantArmView {
    VariantArmView {
        name: fields.name,
        pattern: pattern_spec(fields.params),
        classes: classify_spec(fields.classes),
    }
}

impl VariantFields {
    /// Derives a case from its declaration.
    pub fn try_from(value: Variant, scope: Span) -> (made: Result<Self, Error>)
        ensures
            match fields_spec(value@, scope) {
                Ok(fields) => made is Ok && made->Ok_0@ == fields,
                Err(error) => made is Err && made->Err_0 == error,
            },
    {
        let Variant { ident, fields, attrs } = value;
        let mut params = match VariantParams::try_from(fields) {
            Err(error) => {
                return Err(error);
            },
            Ok(params) => params,
        };
        let mut tokens: Vec<Token> = Vec::new();
        let mut i: usize = 0;
        assert(views(tokens@) == Seq::<TokenView>::empty());
        while i < attrs.len()
            invariant
                i <= attrs.len(),
                views(tokens@) == class_tokens(meta_views(attrs@).take(i as int), scope),
            decreases attrs.len() - i,
        {
            assert(meta_views(attrs@).take(i + 1).drop_last() == meta_views(attrs@).take(i as int));
            match &attrs[i] {
                Meta::List { path, tokens: inner } => {
                    if path.as_str().eq("class") && inner.len() > 0 {
                        if tokens.len() > 0 {
                            let ghost before = tokens@;
                            tokens.push(Token::Punct { ch: ',', joint: false, span: scope });
                            assert(views(tokens@) == views(before).push(comma(scope)));
                        }
                        append_tokens(&mut tokens, inner);
                    }
                },
                _ => {},
            }
            i += 1;
        }
        assert(meta_views(attrs@).take(attrs@.len() as int) == meta_views(attrs@));
        let parsed = match CnParser::parse(&tokens, scope) {
            Err(error) => {
                return Err(error);
            },
            Ok(parsed) => parsed,
        };
        let checked = match parsed.check_idents(&mut params) {
            Err(error) => {
                return Err(error);
            },
            Ok(checked) => checked,
        };
        let classes = match checked.to_cn_tokens() {
            Err(error) => {
                return Err(error);
            },
            Ok(classes) => classes,
        };
        Ok(VariantFields { name: ident, params, classes })
    }

    /// The arm of the match for this case.
    pub fn to_tokens(&self) -> (arm: VariantArm)
        ensures
            arm@ == arm_spec(self@),
    {
        VariantArm {
            name: self.name.clone(),
            pattern: self.params.to_tokens(),
            classes: self.classes.to_tokens(),
        }
    }
}

} // verus!
