//! The derivation for a whole declaration: one case after the other, all or
//! nothing.

use vstd::prelude::*;
use crate::error::{Error, ErrorKind};
use crate::tokens::Span;
use crate::variants::input::{
    variant_views, Data, DataView, DeriveInput, DeriveInputView, Generics, VariantView,
};
use crate::variants::units::{
    arm_spec, fields_spec, VariantArm, VariantArmView, VariantFields, VariantFieldsView,
};

verus! {

/// The cases derived from an enum, under the name of the enum.
#[derive(Debug, PartialEq, Eq)]
pub struct VariantDeriveParser {
    pub name: String,
    pub fields: Vec<VariantFields>,
}

pub ghost struct VariantDeriveView {
    pub name: Seq<char>,
    pub fields: Seq<VariantFieldsView>,
}

/// The views of a sequence of derived cases.
pub open spec fn fields_views(fields: Seq<VariantFields>) -> Seq<VariantFieldsView> {
    fields.map_values(|f: VariantFields| f@)
}

/// The views of a sequence of arms.
pub open spec fn arm_views(arms: Seq<VariantArm>) -> Seq<VariantArmView> {
    arms.map_values(|a: VariantArm| a@)
}

impl View for VariantDeriveParser {
    type V = VariantDeriveView;

    open spec fn view(&self) -> VariantDeriveView {
        VariantDeriveView { name: self.name@, fields: fields_views(self.fields@) }
    }
}

/// A declaration with anything generic about it is refused.
pub open spec fn generics_spec(generics: Generics) -> Result<(), Error> {
    if generics.lt_token || generics.gt_token || generics.params > 0 || generics.where_clause {
        Err(Error { span: generics.span, kind: ErrorKind::GenericsNotSupported })
    } else {
        Ok(())
    }
}

/// The cases derived in order, behind the derived cases `acc`; the first
/// case that is refused refuses them all.
pub open spec fn cases_spec(
    variants: Seq<VariantView>,
    scope: Span,
    acc: Seq<VariantFieldsView>,
) -> Result<Seq<VariantFieldsView>, Error>
    decreases variants.len(),
{
    if variants.len() == 0 {
        Ok(acc)
    } else {
        match fields_spec(variants[0], scope) {
            Err(error) => Err(error),
            Ok(fields) => cases_spec(variants.drop_first(), scope, acc.push(fields)),
        }
    }
}

/// The derivation of a declaration: it must not be generic, it must be an
/// enum, and every case must be accepted.
pub open spec fn derive_spec(input: DeriveInputView, scope: Span) -> Result<VariantDeriveView, Error> {
    match generics_spec(input.generics) {
        Err(error) => Err(error),
        Ok(_) => match input.data {
            DataView::Enum(variants) => match cases_spec(variants, scope, Seq::empty()) {
                Err(error) => Err(error),
                Ok(fields) => Ok(VariantDeriveView { name: input.ident, fields }),
            },
            _ => Err(Error { span: input.span, kind: ErrorKind::OnlyEnums }),
        },
    }
}

/// Refuses a declaration with anything generic about it.
pub fn assert_with_generics(generics: &Generics) -> (checked: Result<(), Error>)
    ensures
        checked == generics_spec(*generics),
{
    if generics.lt_token || generics.gt_token || generics.params > 0 || generics.where_clause {
        return Err(Error::new(generics.span, ErrorKind::GenericsNotSupported));
    }
    Ok(())
}

impl VariantDeriveParser {
    /// Derives the cases of a declaration.
    pub fn parse(input: DeriveInput, scope: Span) -> (parsed: Result<Self, Error>)
        ensures
            match derive_spec(input@, scope) {
                Ok(derived) => parsed is Ok && parsed->Ok_0@ == derived,
                Err(error) => parsed is Err && parsed->Err_0 == error,
            },
    {
        match assert_with_generics(&input.generics) {
            Err(error) => {
                return Err(error);
            },
            Ok(()) => {},
        }
        let DeriveInput { ident, generics, data, span } = input;
        match data {
            Data::Enum(variants) => {
                let ghost all = variant_views(variants@);
                let mut fields: Vec<VariantFields> = Vec::new();
                assert(fields_views(fields@) == Seq::<VariantFieldsView>::empty());
                assert(all.skip(0) == all);
                let ghost stated = derive_spec(input@, scope);
                for variant in it: variants
                    invariant
                        variant_views(it.seq()) == all,
                        stated == derive_spec(input@, scope),
                        stated == match cases_spec(all, scope, Seq::empty()) {
                            Err(error) => Err::<VariantDeriveView, Error>(error),
                            Ok(fields) => Ok(VariantDeriveView { name: ident@, fields }),
                        },
                        cases_spec(all, scope, Seq::empty()) == cases_spec(
                            all.skip(it.index() as int),
                            scope,
                            fields_views(fields@),
                        ),
                {
                    let ghost rest = all.skip(it.index() as int);
                    assert(rest[0] == variant@);
                    assert(rest.drop_first() == all.skip(it.index() + 1));
                    match VariantFields::try_from(variant, scope) {
                        Err(error) => {
                            return Err(error);
                        },
                        Ok(derived) => {
                            let ghost before = fields@;
                            fields.push(derived);
                            assert(fields_views(fields@) == fields_views(before).push(derived@));
                        },
                    }
                }
                Ok(VariantDeriveParser { name: ident, fields })
            },
            _ => Err(Error::new(span, ErrorKind::OnlyEnums)),
        }
    }

    /// The arms of the match over the cases, in the order of the cases.
    pub fn to_tokens(&self) -> (arms: Vec<VariantArm>)
        ensures
            arm_views(arms@) == self@.fields.map_values(|f: VariantFieldsView| arm_spec(f)),
    {
        let mut arms: Vec<VariantArm> = Vec::new();
        let mut i: usize = 0;
        while i < self.fields.len()
            invariant
                i <= self.fields.len(),
                arms.len() == i,
                forall|j: int| 0 <= j < i ==> (#[trigger] arms@[j])@ == arm_spec(self.fields@[j]@),
            decreases self.fields.len() - i,
        {
            arms.push(self.fields[i].to_tokens());
            i += 1;
        }
        assert(arm_views(arms@) =~= self@.fields.map_values(|f: VariantFieldsView| arm_spec(f)));
        arms
    }
}

} // verus!
