//! The class list as a whole: reading it, checking its variables against the
//! fields of an enum case, and folding what is known at once.
//!
//! The fold walks the elements in order with two things in hand: the literal
//! text gathered before any variable was met (the prefix), and the items put
//! out so far. Text that is known joins the prefix while no item is out yet,
//! joins the last item if that is text, and becomes a new item otherwise.
//! Variables and conditionals on a variable go out as they are. At the end the
//! prefix is deduplicated and put in front.

use vstd::prelude::*;
use vstd::string::StringExecFns;
use crate::classnames::units::{
    agrees_whole, lemma_unit_advances, opt_view, unit_spec, unit_views, CnIdent, CnIdentView,
    CnTuple, CnTupleExp, CnTupleExpView, CnTupleView, CnUnit, CnUnitView,
};
use crate::dedup::{cleanup_cnl, dedup_text};
use crate::error::{Error, ErrorKind};
use crate::text::{decimal, push_decimal, to_decimal, trim, trim_spec};
use crate::tokens::{clone_tokens, is_punct, span_of, views, Span, Token, TokenView};

verus! {

/// A class list as it was read: its elements in order.
#[derive(Debug, PartialEq, Eq)]
pub struct CnParser(pub Vec<CnUnit>);

impl View for CnParser {
    type V = Seq<CnUnitView>;

    open spec fn view(&self) -> Seq<CnUnitView> {
        unit_views(self.0@)
    }
}

/// The elements from `pos` on, behind the elements `acc` already read:
/// elements separated by single commas, with no comma at the end.
pub open spec fn list_spec(
    ts: Seq<TokenView>,
    pos: int,
    scope: Span,
    acc: Seq<CnUnitView>,
) -> Result<Seq<CnUnitView>, Error>
    decreases ts.len() - pos,
{
    if !(0 <= pos < ts.len()) {
        Ok(acc)
    } else if acc.len() > 0 && !is_punct(ts, pos, ',') {
        Err(Error { span: span_of(ts[pos]), kind: ErrorKind::ExpectedComma })
    } else {
        let at = if acc.len() > 0 {
            pos + 1
        } else {
            pos
        };
        match unit_spec(ts, at, scope) {
            Err(error) => Err(error),
            Ok((unit, next)) => if pos < next <= ts.len() {
                list_spec(ts, next, scope, acc.push(unit))
            } else {
                Ok(acc)
            },
        }
    }
}

/// The class list that the tokens `ts` spell.
pub open spec fn parse_spec(ts: Seq<TokenView>, scope: Span) -> Result<Seq<CnUnitView>, Error> {
    list_spec(ts, 0, scope, Seq::empty())
}

/// The name that stands for the positional field `num`.
pub open spec fn var_name(num: u8) -> Seq<char> {
    "var_"@ + decimal(num as nat)
}

/// The variable reference that stands for the positional field `num`.
pub open spec fn var_ident(num: u8, span: Span) -> CnIdentView {
    CnIdentView {
        sym: var_name(num),
        stream: seq![TokenView::Ident { name: var_name(num), span }],
        is_fn: false,
        is_composite: false,
        span,
    }
}

/// The identifier that stands for the positional field `num`.
pub fn ident_by_num(num: &u8, span: Span) -> (ident: Token)
    ensures
        ident@ == (TokenView::Ident { name: var_name(*num), span }),
{
    let mut name = String::from_str("var_");
    push_decimal(&mut name, *num as u64);
    Token::Ident { name, span }
}

/// Checks positional indices against the fields of a case, and notes the
/// ones that are used.
///
/// `State` is what the checker knows, as a mathematical value; `index_spec`
/// says for each state and index whether the index is accepted, and the state
/// afterwards.
pub trait CheckVariantIndexes {
    type State;

    spec fn state(&self) -> Self::State;

    spec fn index_spec(state: Self::State, value: u8, span: Span) -> Result<Self::State, Error>;

    fn check_index(&mut self, value: u8, span: Span) -> (checked: Result<(), Error>)
        ensures
            match Self::index_spec(old(self).state(), value, span) {
                Ok(next) => checked is Ok && final(self).state() == next,
                Err(error) => checked == Err::<(), Error>(error) && final(self).state() == old(
                    self,
                ).state(),
            },
    ;
}

/// Checks variable references against the fields of a case, and notes the
/// ones that are used.
pub trait CheckVariantIdents: CheckVariantIndexes {
    spec fn ident_spec(state: Self::State, value: CnIdentView) -> Result<Self::State, Error>;

    fn check_ident(&mut self, value: &CnIdent) -> (checked: Result<(), Error>)
        ensures
            match Self::ident_spec(old(self).state(), value@) {
                Ok(next) => checked is Ok && final(self).state() == next,
                Err(error) => checked == Err::<(), Error>(error) && final(self).state() == old(
                    self,
                ).state(),
            },
    ;
}

/// A number that stands for a positional field: it must fit eight bits and
/// be accepted as an index; it becomes the variable of that field.
pub open spec fn int_ident_spec<T: CheckVariantIdents>(
    number: u64,
    span: Span,
    state: T::State,
) -> Result<(CnIdentView, T::State), Error> {
    if number > 255 {
        Err(Error { span, kind: ErrorKind::IndexTooLarge })
    } else {
        match T::index_spec(state, number as u8, span) {
            Err(error) => Err(error),
            Ok(next) => Ok((var_ident(number as u8, span), next)),
        }
    }
}

/// One element checked: numbers become variables of positional fields,
/// variables are checked as names, also where they are the condition of a
/// conditional; texts and boolean conditions pass.
pub open spec fn checked_unit<T: CheckVariantIdents>(unit: CnUnitView, state: T::State) -> Result<
    (CnUnitView, T::State),
    Error,
> {
    match unit {
        CnUnitView::Str { .. } => Ok((unit, state)),
        CnUnitView::Int { number, span } => match int_ident_spec::<T>(number, span, state) {
            Err(error) => Err(error),
            Ok((ident, next)) => Ok((CnUnitView::Ident(ident), next)),
        },
        CnUnitView::Ident(ident) => match T::ident_spec(state, ident) {
            Err(error) => Err(error),
            Ok(next) => Ok((unit, next)),
        },
        CnUnitView::Tuple(tuple) => match tuple.exp {
            CnTupleExpView::Int { number, span } => match int_ident_spec::<T>(number, span, state) {
                Err(error) => Err(error),
                Ok((ident, next)) => Ok(
                    (
                        CnUnitView::Tuple(
                            CnTupleView {
                                exp: CnTupleExpView::Ident(ident),
                                if_cond: tuple.if_cond,
                                else_cond: tuple.else_cond,
                                span: tuple.span,
                            },
                        ),
                        next,
                    ),
                ),
            },
            CnTupleExpView::Bool(_) => Ok((unit, state)),
            CnTupleExpView::Ident(ident) => match T::ident_spec(state, ident) {
                Err(error) => Err(error),
                Ok(next) => Ok((unit, next)),
            },
        },
    }
}

/// The elements checked in order, behind the checked elements `acc`. The
/// first element that is refused ends the check; the state is then the one
/// before that element.
pub open spec fn checked_units<T: CheckVariantIdents>(
    units: Seq<CnUnitView>,
    state: T::State,
    acc: Seq<CnUnitView>,
) -> (Result<Seq<CnUnitView>, Error>, T::State)
    decreases units.len(),
{
    if units.len() == 0 {
        (Ok(acc), state)
    } else {
        match checked_unit::<T>(units[0], state) {
            Err(error) => (Err(error), state),
            Ok((unit, next)) => checked_units::<T>(units.drop_first(), next, acc.push(unit)),
        }
    }
}

/// Turns a number into the variable of a positional field.
fn modify_int_ident<T: CheckVariantIndexes + CheckVariantIdents>(
    number: u64,
    span: Span,
    checker: &mut T,
) -> (made: Result<CnIdent, Error>)
    ensures
        match int_ident_spec::<T>(number, span, old(checker).state()) {
            Ok((ident, next)) => made is Ok && made->Ok_0@ == ident && final(checker).state()
                == next,
            Err(error) => made is Err && made->Err_0 == error && final(checker).state() == old(
                checker,
            ).state(),
        },
{
    if number > 255 {
        return Err(Error::new(span, ErrorKind::IndexTooLarge));
    }
    let value: u8 = number as u8;
    match checker.check_index(value, span) {
        Err(error) => {
            return Err(error);
        },
        Ok(()) => {},
    }
    let ident = ident_by_num(&value, span);
    let mut sym = String::from_str("var_");
    push_decimal(&mut sym, value as u64);
    let mut stream: Vec<Token> = Vec::new();
    stream.push(ident);
    assert(views(stream@) == seq![TokenView::Ident { name: var_name(value), span }]);
    Ok(CnIdent { sym, stream, is_fn: false, is_composite: false, span })
}

/// Checks one element.
fn check_unit<T: CheckVariantIndexes + CheckVariantIdents>(unit: CnUnit, checker: &mut T) -> (made:
    Result<CnUnit, Error>)
    ensures
        match checked_unit::<T>(unit@, old(checker).state()) {
            Ok((checked, next)) => made is Ok && made->Ok_0@ == checked && final(checker).state()
                == next,
            Err(error) => made is Err && made->Err_0 == error && final(checker).state() == old(
                checker,
            ).state(),
        },
{
    match unit {
        CnUnit::Str { value, span } => Ok(CnUnit::Str { value, span }),
        CnUnit::Int { number, span } => match modify_int_ident(number, span, checker) {
            Err(error) => Err(error),
            Ok(ident) => Ok(CnUnit::Ident(ident)),
        },
        CnUnit::Ident(ident) => match checker.check_ident(&ident) {
            Err(error) => Err(error),
            Ok(()) => Ok(CnUnit::Ident(ident)),
        },
        CnUnit::Tuple(tuple) => {
            let CnTuple { exp, if_cond, else_cond, span } = tuple;
            let exp = match exp {
                CnTupleExp::Int { number, span } => match modify_int_ident(number, span, checker) {
                    Err(error) => {
                        return Err(error);
                    },
                    Ok(ident) => CnTupleExp::Ident(ident),
                },
                CnTupleExp::Bool(flag) => CnTupleExp::Bool(flag),
                CnTupleExp::Ident(ident) => match checker.check_ident(&ident) {
                    Err(error) => {
                        return Err(error);
                    },
                    Ok(()) => CnTupleExp::Ident(ident),
                },
            };
            Ok(CnUnit::Tuple(CnTuple { exp, if_cond, else_cond, span }))
        },
    }
}

impl CnParser {
    /// Reads all of `tokens` as a class list.
    pub fn parse(tokens: &Vec<Token>, scope: Span) -> (parsed: Result<Self, Error>)
        ensures
            agrees_whole(parsed, parse_spec(views(tokens@), scope)),
    {
        let ghost ts = views(tokens@);
        let mut items: Vec<CnUnit> = Vec::new();
        let n = tokens.len();
        let mut pos: usize = 0;
        assert(unit_views(items@) == Seq::<CnUnitView>::empty());
        while pos < n
            invariant
                pos <= n == tokens.len(),
                ts == views(tokens@),
                parse_spec(ts, scope) == list_spec(ts, pos as int, scope, unit_views(items@)),
            decreases n - pos,
        {
            let mut at = pos;
            if items.len() > 0 {
                if !tokens[pos].is_punct(',') {
                    return Err(Error::new(tokens[pos].span(), ErrorKind::ExpectedComma));
                }
                at = pos + 1;
            }
            proof {
                lemma_unit_advances(ts, at as int, scope);
            }
            let (unit, next) = match CnUnit::parse(tokens, at, scope) {
                Err(error) => {
                    return Err(error);
                },
                Ok(read) => read,
            };
            let ghost before = items@;
            items.push(unit);
            assert(unit_views(items@) == unit_views(before).push(unit@));
            pos = next;
        }
        Ok(CnParser(items))
    }

    /// Checks every variable of the list against `checker`, and replaces
    /// every number by the variable of the positional field it names.
    pub fn check_idents<T: CheckVariantIndexes + CheckVariantIdents>(self, checker: &mut T) -> (made:
        Result<Self, Error>)
        ensures
            agrees_whole(made, checked_units::<T>(self@, old(checker).state(), Seq::empty()).0),
            final(checker).state() == checked_units::<T>(
                self@,
                old(checker).state(),
                Seq::empty(),
            ).1,
    {
        let ghost all = self@;
        let ghost whole = checked_units::<T>(all, checker.state(), Seq::empty());
        let mut units: Vec<CnUnit> = Vec::new();
        let list = self.0;
        assert(unit_views(units@) == Seq::<CnUnitView>::empty());
        assert(all.skip(0) == all);
        for unit in it: list
            invariant
                unit_views(it.seq()) == all,
                all == self@,
                whole == checked_units::<T>(self@, old(checker).state(), Seq::empty()),
                whole == checked_units::<T>(
                    all.skip(it.index() as int),
                    checker.state(),
                    unit_views(units@),
                ),
        {
            let ghost rest = all.skip(it.index() as int);
            assert(rest[0] == unit@);
            assert(rest.drop_first() == all.skip(it.index() + 1));
            match check_unit(unit, checker) {
                Err(error) => {
                    return Err(error);
                },
                Ok(checked) => {
                    let ghost before = units@;
                    units.push(checked);
                    assert(unit_views(units@) == unit_views(before).push(checked@));
                },
            }
        }
        Ok(CnParser(units))
    }

    /// Folds the list.
    pub fn to_cn_tokens(self) -> (folded: Result<CnTokens, Error>)
        ensures
            agrees_whole(folded, compile_spec(self@)),
    {
        CnTokens::try_from(self)
    }
}

/// A conditional on a variable: the tokens of the variable, the text for
/// true, and the text for false if one was given.
#[derive(Debug, PartialEq, Eq)]
pub struct CnIdentTupple {
    pub exp: Vec<Token>,
    pub if_cond: String,
    pub else_cond: Option<String>,
}

/// One item of a folded class list: a text, a variable by its tokens, or a
/// conditional on a variable.
#[derive(Debug, PartialEq, Eq)]
pub enum CnItem {
    Str(String),
    Ident(Vec<Token>),
    Tuple(CnIdentTupple),
}

pub ghost enum CnItemView {
    Str(Seq<char>),
    Ident(Seq<TokenView>),
    Tuple { exp: Seq<TokenView>, if_cond: Seq<char>, else_cond: Option<Seq<char>> },
}

impl View for CnItem {
    type V = CnItemView;

    open spec fn view(&self) -> CnItemView {
        match self {
            CnItem::Str(text) => CnItemView::Str(text@),
            CnItem::Ident(stream) => CnItemView::Ident(views(stream@)),
            CnItem::Tuple(tuple) => CnItemView::Tuple {
                exp: views(tuple.exp@),
                if_cond: tuple.if_cond@,
                else_cond: opt_view(tuple.else_cond),
            },
        }
    }
}

impl Clone for CnItem {
    fn clone(&self) -> (copy: Self)
        ensures
            copy@ == self@,
    {
        match self {
            CnItem::Str(text) => CnItem::Str(text.clone()),
            CnItem::Ident(stream) => CnItem::Ident(clone_tokens(stream)),
            CnItem::Tuple(tuple) => CnItem::Tuple(
                CnIdentTupple {
                    exp: clone_tokens(&tuple.exp),
                    if_cond: tuple.if_cond.clone(),
                    else_cond: match &tuple.else_cond {
                        Some(text) => Some(text.clone()),
                        None => None,
                    },
                },
            ),
        }
    }
}

/// The views of a sequence of items.
pub open spec fn item_views(items: Seq<CnItem>) -> Seq<CnItemView> {
    items.map_values(|i: CnItem| i@)
}

/// A folded class list.
#[derive(Debug, PartialEq, Eq)]
pub struct CnTokens(Vec<CnItem>);

impl View for CnTokens {
    type V = Seq<CnItemView>;

    closed spec fn view(&self) -> Seq<CnItemView> {
        item_views(self.0@)
    }
}

/// What a folded class list comes to: nothing, one text, or parts that are
/// fed to a builder when the program runs.
#[derive(Debug, PartialEq, Eq)]
pub enum CnTypes {
    Empty,
    Once(String),
    Full(Vec<CnItem>),
}

pub ghost enum CnTypesView {
    Empty,
    Once(Seq<char>),
    Full(Seq<CnItemView>),
}

impl View for CnTypes {
    type V = CnTypesView;

    open spec fn view(&self) -> CnTypesView {
        match self {
            CnTypes::Empty => CnTypesView::Empty,
            CnTypes::Once(text) => CnTypesView::Once(text@),
            CnTypes::Full(items) => CnTypesView::Full(item_views(items@)),
        }
    }
}

/// Text that is known joins what was gathered: nothing happens if it is
/// blank; it joins the prefix while no item is out; it joins the last item
/// if that is text; else it is a new item. The text is trimmed, and joins
/// behind one space.
pub open spec fn merge_spec(value: Seq<char>, prefix: Seq<char>, items: Seq<CnItemView>) -> (
    Seq<char>,
    Seq<CnItemView>,
) {
    let prepared = trim_spec(value);
    if prepared.len() == 0 {
        (prefix, items)
    } else if items.len() == 0 {
        (prefix + seq![' '] + prepared, items)
    } else {
        match items.last() {
            CnItemView::Str(last) => (
                prefix,
                items.drop_last().push(CnItemView::Str(last + seq![' '] + prepared)),
            ),
            _ => (prefix, items.push(CnItemView::Str(prepared))),
        }
    }
}

/// One element folded into what was gathered.
pub open spec fn fold_unit(unit: CnUnitView, prefix: Seq<char>, items: Seq<CnItemView>) -> Result<
    (Seq<char>, Seq<CnItemView>),
    Error,
> {
    match unit {
        CnUnitView::Str { value, .. } => Ok(merge_spec(value, prefix, items)),
        CnUnitView::Int { number, .. } => Ok(merge_spec(decimal(number as nat), prefix, items)),
        CnUnitView::Ident(ident) => Ok((prefix, items.push(CnItemView::Ident(ident.stream)))),
        CnUnitView::Tuple(tuple) => match tuple.exp {
            CnTupleExpView::Ident(ident) => Ok(
                (
                    prefix,
                    items.push(
                        CnItemView::Tuple {
                            exp: ident.stream,
                            if_cond: tuple.if_cond,
                            else_cond: tuple.else_cond,
                        },
                    ),
                ),
            ),
            CnTupleExpView::Int { .. } => Err(
                Error { span: tuple.span, kind: ErrorKind::NumericIdentifier },
            ),
            CnTupleExpView::Bool(flag) => if flag {
                Ok(merge_spec(tuple.if_cond, prefix, items))
            } else {
                match tuple.else_cond {
                    Some(text) => Ok(merge_spec(text, prefix, items)),
                    None => Ok((prefix, items)),
                }
            },
        },
    }
}

/// The elements folded in order into what was gathered.
pub open spec fn fold_units(units: Seq<CnUnitView>, prefix: Seq<char>, items: Seq<CnItemView>) -> Result<
    (Seq<char>, Seq<CnItemView>),
    Error,
>
    decreases units.len(),
{
    if units.len() == 0 {
        Ok((prefix, items))
    } else {
        match fold_unit(units[0], prefix, items) {
            Err(error) => Err(error),
            Ok((next_prefix, next_items)) => fold_units(units.drop_first(), next_prefix, next_items),
        }
    }
}

/// The end of the fold: a prefix that is not blank goes in front, trimmed and
/// deduplicated.
pub open spec fn finish_spec(prefix: Seq<char>, items: Seq<CnItemView>) -> Seq<CnItemView> {
    if trim_spec(prefix).len() > 0 {
        seq![CnItemView::Str(dedup_text(trim_spec(prefix)))] + items
    } else {
        items
    }
}

/// The folded class list of the elements `units`.
pub open spec fn compile_spec(units: Seq<CnUnitView>) -> Result<Seq<CnItemView>, Error> {
    match fold_units(units, Seq::empty(), Seq::empty()) {
        Err(error) => Err(error),
        Ok((prefix, items)) => Ok(finish_spec(prefix, items)),
    }
}

/// What a folded list comes to.
pub open spec fn classify_spec(items: Seq<CnItemView>) -> CnTypesView {
    if items.len() == 0 {
        CnTypesView::Empty
    } else if items.len() == 1 && items[0] is Str {
        CnTypesView::Once(items[0]->Str_0)
    } else {
        CnTypesView::Full(items)
    }
}

/// Items gathered in order: a text joins the prefix, behind one space, while
/// no item is out; everything else goes out as it is.
pub open spec fn gather_items(
    items_list: Seq<CnItemView>,
    prefix: Seq<char>,
    items: Seq<CnItemView>,
) -> (Seq<char>, Seq<CnItemView>)
    decreases items_list.len(),
{
    if items_list.len() == 0 {
        (prefix, items)
    } else if items_list[0] is Str && items.len() == 0 {
        gather_items(items_list.drop_first(), prefix + seq![' '] + items_list[0]->Str_0, items)
    } else {
        gather_items(items_list.drop_first(), prefix, items.push(items_list[0]))
    }
}

/// What a list of items comes to when its leading texts are folded into
/// one: nothing, that one text, or the folded text followed by the rest.
pub open spec fn from_items_spec(items_list: Seq<CnItemView>) -> CnTypesView {
    let (prefix, items) = gather_items(items_list, Seq::empty(), Seq::empty());
    let trimmed = trim_spec(prefix);
    if items.len() == 0 {
        if trimmed.len() == 0 {
            CnTypesView::Empty
        } else {
            CnTypesView::Once(dedup_text(trimmed))
        }
    } else if trimmed.len() > 0 {
        CnTypesView::Full(seq![CnItemView::Str(dedup_text(trimmed))] + items)
    } else {
        CnTypesView::Full(items)
    }
}

impl CnTypes {
    /// Folds the leading texts of a list of items into one deduplicated
    /// text, and says what the list comes to.
    pub fn from_items(items_list: Vec<CnItem>) -> (plan: Self)
        ensures
            plan@ == from_items_spec(item_views(items_list@)),
    {
        let ghost all = item_views(items_list@);
        let mut prefix_string = String::new();
        let mut items: Vec<CnItem> = Vec::new();
        assert(item_views(items@) == Seq::<CnItemView>::empty());
        assert(all.skip(0) == all);
        for item in it: items_list
            invariant
                item_views(it.seq()) == all,
                gather_items(all, Seq::empty(), Seq::empty()) == gather_items(
                    all.skip(it.index() as int),
                    prefix_string@,
                    item_views(items@),
                ),
        {
            let ghost rest = all.skip(it.index() as int);
            let ghost before = items@;
            let ghost old_prefix = prefix_string@;
            assert(rest[0] == item@);
            assert(rest.drop_first() == all.skip(it.index() + 1));
            match item {
                CnItem::Str(string) => {
                    if items.len() > 0 {
                        items.push(CnItem::Str(string));
                        assert(item_views(items@) == item_views(before).push(rest[0]));
                    } else {
                        prefix_string.push(' ');
                        prefix_string.append(string.as_str());
                        assert(prefix_string@ == old_prefix + seq![' '] + string@);
                    }
                },
                other => {
                    items.push(other);
                    assert(item_views(items@) == item_views(before).push(rest[0]));
                },
            }
        }
        let trimmed_prefix_string = trim(prefix_string.as_str());
        if items.len() == 0 {
            if trimmed_prefix_string.as_str().is_empty() {
                return CnTypes::Empty;
            } else {
                return CnTypes::Once(cleanup_cnl(trimmed_prefix_string.as_str()));
            }
        }
        if !trimmed_prefix_string.as_str().is_empty() {
            let ghost before = items@;
            let head = CnItem::Str(cleanup_cnl(trimmed_prefix_string.as_str()));
            items.insert(0, head);
            assert(item_views(items@) == seq![head@] + item_views(before));
        }
        CnTypes::Full(items)
    }
}

/// Joins text that is known to what was gathered.
pub fn merge_string(value: String, prefix_string: &mut String, items: &mut Vec<CnItem>)
    ensures
        (final(prefix_string)@, item_views(final(items)@)) == merge_spec(
            value@,
            old(prefix_string)@,
            item_views(old(items)@),
        ),
{
    let prepared_string = trim(value.as_str());
    if prepared_string.as_str().is_empty() {
        return ;
    }
    if items.len() == 0 {
        prefix_string.push(' ');
        prefix_string.append(prepared_string.as_str());
        assert(prefix_string@ == old(prefix_string)@ + seq![' '] + prepared_string@);
        return ;
    }
    let ghost before = items@;
    let last_item = items.pop();
    let ghost rest = items@;
    assert(item_views(rest) == item_views(before).drop_last());
    match last_item {
        Some(CnItem::Str(last_string)) => {
            let mut joined = last_string;
            joined.push(' ');
            joined.append(prepared_string.as_str());
            assert(joined@ == last_string@ + seq![' '] + prepared_string@);
            items.push(CnItem::Str(joined));
            assert(item_views(items@) == item_views(rest).push(CnItemView::Str(joined@)));
        },
        Some(other) => {
            items.push(other);
            assert(items@ == before);
            let ghost mid = items@;
            items.push(CnItem::Str(prepared_string));
            assert(item_views(items@) == item_views(mid).push(CnItemView::Str(prepared_string@)));
        },
        None => {},
    }
}

/// Folds one element into what was gathered.
fn fold_one(unit: CnUnit, prefix_string: &mut String, items: &mut Vec<CnItem>) -> (done: Result<
    (),
    Error,
>)
    ensures
        match fold_unit(unit@, old(prefix_string)@, item_views(old(items)@)) {
            Ok(next) => done is Ok && (final(prefix_string)@, item_views(final(items)@)) == next,
            Err(error) => done == Err::<(), Error>(error),
        },
{
    let ghost before = items@;
    match unit {
        CnUnit::Str { value, .. } => {
            merge_string(value, prefix_string, items);
        },
        CnUnit::Int { number, .. } => {
            merge_string(to_decimal(number), prefix_string, items);
        },
        CnUnit::Ident(ident) => {
            let item = CnItem::Ident(ident.stream);
            items.push(item);
            assert(item_views(items@) == item_views(before).push(item@));
        },
        CnUnit::Tuple(tuple) => match tuple.exp {
            CnTupleExp::Ident(ident) => {
                let item = CnItem::Tuple(
                    CnIdentTupple {
                        exp: ident.stream,
                        if_cond: tuple.if_cond,
                        else_cond: tuple.else_cond,
                    },
                );
                items.push(item);
                assert(item_views(items@) == item_views(before).push(item@));
            },
            CnTupleExp::Int { .. } => {
                return Err(Error::new(tuple.span, ErrorKind::NumericIdentifier));
            },
            CnTupleExp::Bool(flag) => {
                let value = match flag {
                    true => Some(tuple.if_cond),
                    false => tuple.else_cond,
                };
                if let Some(tuple_string) = value {
                    merge_string(tuple_string, prefix_string, items);
                }
            },
        },
    }
    Ok(())
}

impl CnTokens {
    /// Folds a class list: see the head of this file.
    pub fn try_from(value: CnParser) -> (folded: Result<Self, Error>)
        ensures
            agrees_whole(folded, compile_spec(value@)),
    {
        let ghost all = value@;
        let mut items: Vec<CnItem> = Vec::new();
        let mut prefix_string = String::new();
        let list = value.0;
        assert(item_views(items@) == Seq::<CnItemView>::empty());
        assert(all.skip(0) == all);
        for unit in it: list
            invariant
                unit_views(it.seq()) == all,
                all == value@,
                fold_units(all, Seq::empty(), Seq::empty()) == fold_units(
                    all.skip(it.index() as int),
                    prefix_string@,
                    item_views(items@),
                ),
        {
            let ghost rest = all.skip(it.index() as int);
            assert(rest[0] == unit@);
            assert(rest.drop_first() == all.skip(it.index() + 1));
            match fold_one(unit, &mut prefix_string, &mut items) {
                Err(error) => {
                    return Err(error);
                },
                Ok(()) => {},
            }
        }
        let trimmed_prefix_string = trim(prefix_string.as_str());
        if !trimmed_prefix_string.as_str().is_empty() {
            let ghost before = items@;
            let head = CnItem::Str(cleanup_cnl(trimmed_prefix_string.as_str()));
            items.insert(0, head);
            assert(item_views(items@) == seq![head@] + item_views(before));
        }
        Ok(CnTokens(items))
    }

    /// The items of the folded list, in order.
    pub fn items(&self) -> (items: &Vec<CnItem>)
        ensures
            item_views(items@) == self@,
    {
        &self.0
    }

    /// What the folded list comes to: nothing where it has no item, its text
    /// where it is one text, else its items as parts for a builder.
    pub fn to_tokens(&self) -> (plan: CnTypes)
        ensures
            plan@ == classify_spec(self@),
    {
        if self.0.len() == 0 {
            return CnTypes::Empty;
        }
        if self.0.len() == 1 {
            if let CnItem::Str(first_string) = &self.0[0] {
                return CnTypes::Once(first_string.clone());
            }
        }
        let mut parts: Vec<CnItem> = Vec::new();
        let mut i: usize = 0;
        while i < self.0.len()
            invariant
                i <= self.0.len(),
                item_views(parts@) == item_views(self.0@).take(i as int),
            decreases self.0.len() - i,
        {
            let ghost before = parts@;
            parts.push(self.0[i].clone());
            assert(item_views(parts@) == item_views(before).push(self.0@[i as int]@));
            i += 1;
        }
        assert(item_views(self.0@).take(self.0@.len() as int) == item_views(self.0@));
        CnTypes::Full(parts)
    }
}

} // verus!
