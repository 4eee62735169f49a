//! What holds of the fold when nothing in the list waits for the program to
//! run: the list folds to nothing or to one text, and that text is the one a
//! builder gives when it is fed the same texts.

use vstd::prelude::*;
use crate::classnames::parsers::{
    classify_spec, compile_spec, finish_spec, fold_unit, fold_units, from_items_spec,
    gather_items, merge_spec, CnItemView, CnTypesView,
};
use crate::classnames::units::{CnTupleExpView, CnUnitView};
use crate::dedup::{dedup_text, law_idempotent, lemma_dedup_text_ends};
use crate::error::Error;
use crate::text::{
    decimal, is_space, lemma_trim_empty, lemma_words_concat, lemma_words_trim, trim_end, trim_spec,
    trim_start, words,
};

verus! {

/// An element whose text is known at once: a string, a number, or a
/// conditional on `true` or `false`.
pub open spec fn is_literal(unit: CnUnitView) -> bool {
    unit is Str || unit is Int || (unit is Tuple && unit->Tuple_0.exp is Bool)
}

/// Every element is known at once.
pub open spec fn all_literal(units: Seq<CnUnitView>) -> bool {
    forall|i: int| 0 <= i < units.len() ==> is_literal(#[trigger] units[i])
}

/// The text that an element resolves to, where it is known at once: a
/// conditional gives the text its condition selects, and nothing where that
/// text was not given.
pub open spec fn resolved_text(unit: CnUnitView) -> Seq<char> {
    match unit {
        CnUnitView::Str { value, .. } => value,
        CnUnitView::Int { number, .. } => decimal(number as nat),
        CnUnitView::Tuple(tuple) => match tuple.exp {
            CnTupleExpView::Bool(flag) => if flag {
                tuple.if_cond
            } else {
                match tuple.else_cond {
                    Some(text) => text,
                    None => Seq::empty(),
                }
            },
            _ => Seq::empty(),
        },
        CnUnitView::Ident(_) => Seq::empty(),
    }
}

/// What a builder holds that held `buffer` and was then fed the resolved
/// text of each element in order: each feeding appends a space and the text.
pub open spec fn fed(buffer: Seq<char>, units: Seq<CnUnitView>) -> Seq<char>
    decreases units.len(),
{
    if units.len() == 0 {
        buffer
    } else {
        fed(buffer + seq![' '] + resolved_text(units[0]), units.drop_first())
    }
}

/// The fold of elements known at once puts no item out, and gathers in its
/// prefix the words that the builder gathers in its buffer.
proof fn lemma_fold_literals(units: Seq<CnUnitView>, prefix: Seq<char>, buffer: Seq<char>)
    requires
        all_literal(units),
        words(prefix) == words(buffer),
    ensures
        fold_units(units, prefix, Seq::empty()) is Ok,
        fold_units(units, prefix, Seq::empty())->Ok_0.1.len() == 0,
        words(fold_units(units, prefix, Seq::empty())->Ok_0.0) == words(fed(buffer, units)),
    decreases units.len(),
{
    if units.len() > 0 {
        let unit = units[0];
        let text = resolved_text(unit);
        let none = Seq::<CnItemView>::empty();
        assert(is_literal(unit));
        assert(trim_spec(Seq::<char>::empty()) == Seq::<char>::empty());
        assert(fold_unit(unit, prefix, none) == Ok::<_, Error>(merge_spec(text, prefix, none)));
        let next = merge_spec(text, prefix, none).0;
        let more = buffer + seq![' '] + text;
        lemma_words_concat(buffer, ' ', text);
        lemma_words_trim(text);
        lemma_trim_empty(text);
        if trim_spec(text).len() == 0 {
            assert(words(buffer) + words(text) == words(buffer));
        } else {
            lemma_words_concat(prefix, ' ', trim_spec(text));
        }
        assert(words(next) == words(more));
        assert forall|i: int| 0 <= i < units.drop_first().len() implies is_literal(
            #[trigger] units.drop_first()[i],
        ) by {
            assert(units.drop_first()[i] == units[i + 1]);
        }
        lemma_fold_literals(units.drop_first(), next, more);
    }
}

/// A list in which every element is known at once folds to nothing or to one
/// text: never to parts for a builder.
pub proof fn law_literals_fold(units: Seq<CnUnitView>)
    requires
        all_literal(units),
    ensures
        compile_spec(units) is Ok,
        !(classify_spec(compile_spec(units)->Ok_0) is Full),
{
    lemma_fold_literals(units, Seq::empty(), Seq::empty());
}

/// A builder that is fed the resolved texts of a list in which every element
/// is known at once gives the class list that the fold gives: the empty text
/// where the list folds to nothing, and the very text where it folds to one.
pub proof fn law_builder_agrees(units: Seq<CnUnitView>)
    requires
        all_literal(units),
    ensures
        match classify_spec(compile_spec(units)->Ok_0) {
            CnTypesView::Empty => dedup_text(fed(Seq::empty(), units)) == Seq::<char>::empty(),
            CnTypesView::Once(text) => dedup_text(fed(Seq::empty(), units)) == text,
            CnTypesView::Full(_) => false,
        },
{
    lemma_fold_literals(units, Seq::empty(), Seq::empty());
    let folded = fold_units(units, Seq::empty(), Seq::empty())->Ok_0;
    let prefix = folded.0;
    assert(folded.1 == Seq::<CnItemView>::empty());
    lemma_words_trim(prefix);
    lemma_trim_empty(prefix);
    if trim_spec(prefix).len() > 0 {
        let items = finish_spec(prefix, folded.1);
        assert(items.len() == 1);
        assert(items[0] == CnItemView::Str(dedup_text(trim_spec(prefix))));
    } else {
        assert(words(fed(Seq::empty(), units)) == Seq::<Seq<char>>::empty());
    }
}

/// No text leads the items that a fold has put out.
pub open spec fn led_by_variable(items: Seq<CnItemView>) -> bool {
    items.len() == 0 || !(items[0] is Str)
}

/// The fold never puts a text out first: text that comes first stays in the
/// prefix.
proof fn lemma_fold_head(units: Seq<CnUnitView>, prefix: Seq<char>, items: Seq<CnItemView>)
    requires
        led_by_variable(items),
    ensures
        fold_units(units, prefix, items) matches Ok(folded) ==> led_by_variable(folded.1),
    decreases units.len(),
{
    if units.len() > 0 {
        match fold_unit(units[0], prefix, items) {
            Err(_) => {},
            Ok((next_prefix, next_items)) => {
                if items.len() > 0 {
                    assert(next_items.len() > 0 && next_items[0] == items[0]);
                }
                lemma_fold_head(units.drop_first(), next_prefix, next_items);
            },
        }
    }
}

/// Where something is out already, or no text leads the list, gathering
/// puts every item out and leaves the prefix as it is.
proof fn lemma_gather_rest(list: Seq<CnItemView>, prefix: Seq<char>, items: Seq<CnItemView>)
    requires
        items.len() > 0 || led_by_variable(list),
    ensures
        gather_items(list, prefix, items) == (prefix, items + list),
    decreases list.len(),
{
    if list.len() == 0 {
        assert(items + list == items);
    } else {
        lemma_gather_rest(list.drop_first(), prefix, items.push(list[0]));
        assert(items.push(list[0]) + list.drop_first() == items + list);
    }
}

/// A folded list comes to the same whether it is classified as it stands or
/// gathered once more: its leading text is deduplicated already, and no other
/// text leads it.
pub proof fn law_from_items_agrees(units: Seq<CnUnitView>)
    requires
        compile_spec(units) is Ok,
    ensures
        from_items_spec(compile_spec(units)->Ok_0) == classify_spec(compile_spec(units)->Ok_0),
{
    let none = Seq::<CnItemView>::empty();
    let folded = fold_units(units, Seq::empty(), none)->Ok_0;
    let prefix = folded.0;
    let items = folded.1;
    let out = finish_spec(prefix, items);
    let trimmed = trim_spec(prefix);
    lemma_fold_head(units, Seq::empty(), none);
    assert(trim_spec(Seq::<char>::empty()) == Seq::<char>::empty());
    if trimmed.len() == 0 {
        lemma_gather_rest(out, Seq::empty(), none);
        assert(none + out == out);
    } else {
        let text = dedup_text(trimmed);
        let led = Seq::<char>::empty() + seq![' '] + text;
        lemma_trim_empty(prefix);
        lemma_words_trim(prefix);
        lemma_dedup_text_ends(trimmed);
        assert(is_space(led[0]));
        assert(trim_start(text) == text);
        law_idempotent(trimmed);
        assert(out.drop_first() == items);
        lemma_gather_rest(items, led, none);
        assert(none + items == items);
        assert(gather_items(out, Seq::empty(), none) == (led, items));
        assert(led.drop_first() == text);
        assert(trim_start(led) == text);
        assert(trim_end(text) == text);
        assert(trim_spec(led) == text);
    }
}

} // verus!
