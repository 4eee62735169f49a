//! What the compiler reports when it rejects its input: a place and a cause.

use vstd::prelude::*;
use vstd::string::StringExecFns;
use crate::text::{decimal, push_decimal};
use crate::tokens::Span;

verus! {

/// Why an input was rejected.
#[derive(Clone, Copy, Debug, PartialEq, Eq, Structural)]
pub enum ErrorKind {
    /// The tokens ended where a group was expected.
    UnexpectedEnd,
    /// A group in other brackets than parentheses.
    IncorrectGroupDelimiter,
    /// A token where a parenthesized group was expected.
    IncorrectTokenGroup,
    /// No identifier where one was expected.
    ExpectedIdent,
    /// No comma between two elements.
    ExpectedComma,
    /// No string literal where one was expected.
    ExpectedString,
    /// A condition that is neither a boolean nor a variable.
    IncorrectExpression,
    /// More than three elements in a conditional.
    OnlyThreeElements,
    /// A number as the condition of a conditional that is to be compiled.
    NumericIdentifier,
    /// A positional index that does not fit eight bits.
    IndexTooLarge,
    /// A name that is no field of the case.
    UnknownField,
    /// A positional index beyond the fields of the case; `max` is the
    /// greatest index the case has.
    IndexOutOfRange { max: u8 },
    /// A positional index on a case that has no positional field at all.
    NoFields,
    /// The case takes names only: a positional index on a case with named
    /// fields. Also a name on a case without fields.
    NamedOnly,
    /// The case takes indices only: a name on a case with positional fields.
    /// Also a positional index on a case without fields.
    IndicesOnly,
    /// More positional fields than can be counted in eight bits.
    TooManyFields,
    /// A declaration with generic parameters.
    GenericsNotSupported,
    /// A declaration that is no enumeration.
    OnlyEnums,
}

/// A rejected input: where, and why.
#[derive(Clone, Copy, Debug, PartialEq, Eq, Structural)]
pub struct Error {
    pub span: Span,
    pub kind: ErrorKind,
}

/// The message that names the valid indices `0..=max`.
pub open spec fn valid_index_text(max: u8) -> Seq<char> {
    if max == 0 {
        "Valid value only 0"@
    } else if max == 1 {
        "Valid values are 0 and 1"@
    } else {
        "Valid values from 0 to "@ + decimal(max as nat)
    }
}

/// The message of each cause.
pub open spec fn message_text(kind: ErrorKind) -> Seq<char> {
    match kind {
        ErrorKind::UnexpectedEnd => "unexpected end of input, expected token tree"@,
        ErrorKind::IncorrectGroupDelimiter => "Incorrect group delimiter. Allowed only parenthesis (..)"@,
        ErrorKind::IncorrectTokenGroup => "Incorrect token group. allowed (..)"@,
        ErrorKind::ExpectedIdent => "Expected ident"@,
        ErrorKind::ExpectedComma => "expected `,`"@,
        ErrorKind::ExpectedString => "expected string literal"@,
        ErrorKind::IncorrectExpression => "Incorrect expression token. Allowed only bool or variable (bool, Option<bool>"@,
        ErrorKind::OnlyThreeElements => "Incorrect syntax. Only 3 elements allowed"@,
        ErrorKind::NumericIdentifier => "Numeric identifier is not supported"@,
        ErrorKind::IndexTooLarge => "number too large to fit in target type"@,
        ErrorKind::UnknownField => "Alloved variant values"@,
        ErrorKind::IndexOutOfRange { max } => valid_index_text(max),
        ErrorKind::NoFields => "The enum variant has no fields"@,
        ErrorKind::NamedOnly => "Only named parameters specified in the enum option are supported"@,
        ErrorKind::IndicesOnly => "Only indices of non-named parameters specified in the enum variant are supported "@,
        ErrorKind::TooManyFields => "out of range integral type conversion attempted"@,
        ErrorKind::GenericsNotSupported => "Support for enum with generics not yet implemented"@,
        ErrorKind::OnlyEnums => "Only enums are supported for the variant"@,
    }
}

/// The message that names the valid indices `0..=max`.
pub fn get_valid_values_message_by_count(max: u8) -> (message: String)
    ensures
        message@ == valid_index_text(max),
{
    if max == 0 {
        String::from_str("Valid value only 0")
    } else if max == 1 {
        String::from_str("Valid values are 0 and 1")
    } else {
        let mut message = String::from_str("Valid values from 0 to ");
        push_decimal(&mut message, max as u64);
        message
    }
}

impl Error {
    pub fn new(span: Span, kind: ErrorKind) -> (error: Self)
        ensures
            error == (Error { span, kind }),
    {
        Error { span, kind }
    }

    /// The cause in words. For [`ErrorKind::UnknownField`] the names that
    /// would have been accepted are not part of the error: the case's fields
    /// list them.
    pub fn message(&self) -> (message: String)
        ensures
            message@ == message_text(self.kind),
    {
        match self.kind {
            ErrorKind::UnexpectedEnd => String::from_str(
                "unexpected end of input, expected token tree",
            ),
            ErrorKind::IncorrectGroupDelimiter => String::from_str(
                "Incorrect group delimiter. Allowed only parenthesis (..)",
            ),
            ErrorKind::IncorrectTokenGroup => String::from_str("Incorrect token group. allowed (..)"),
            ErrorKind::ExpectedIdent => String::from_str("Expected ident"),
            ErrorKind::ExpectedComma => String::from_str("expected `,`"),
            ErrorKind::ExpectedString => String::from_str("expected string literal"),
            ErrorKind::IncorrectExpression => String::from_str(
                "Incorrect expression token. Allowed only bool or variable (bool, Option<bool>",
            ),
            ErrorKind::OnlyThreeElements => String::from_str(
                "Incorrect syntax. Only 3 elements allowed",
            ),
            ErrorKind::NumericIdentifier => String::from_str("Numeric identifier is not supported"),
            ErrorKind::IndexTooLarge => String::from_str("number too large to fit in target type"),
            ErrorKind::UnknownField => String::from_str("Alloved variant values"),
            ErrorKind::IndexOutOfRange { max } => get_valid_values_message_by_count(max),
            ErrorKind::NoFields => String::from_str("The enum variant has no fields"),
            ErrorKind::NamedOnly => String::from_str(
                "Only named parameters specified in the enum option are supported",
            ),
            ErrorKind::IndicesOnly => String::from_str(
                "Only indices of non-named parameters specified in the enum variant are supported ",
            ),
            ErrorKind::TooManyFields => String::from_str(
                "out of range integral type conversion attempted",
            ),
            ErrorKind::GenericsNotSupported => String::from_str(
                "Support for enum with generics not yet implemented",
            ),
            ErrorKind::OnlyEnums => String::from_str("Only enums are supported for the variant"),
        }
    }
}

} // verus!
