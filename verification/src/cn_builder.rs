//! The runtime builder: parts are fed in order, and the class list of all of
//! them is read at the end.
//!
//! A part is anything that converts into a [`CnPart`]: a text, an optional
//! text, or a condition with one or two texts. What each conversion gives is
//! stated on its `from`, over views: a `CnPart` holds a `String`, which no
//! specification can write down, so the conversions have no specification
//! function of their own (`obeys_from_spec` is `false` throughout).

use vstd::prelude::*;
use vstd::string::StringExecFns;
use vstd::std_specs::convert::FromSpecImpl;
use crate::dedup::{cleanup_cnl, dedup_text};

verus! {

/// One part fed to a [`CnBuilder`]: the text it resolved to.
pub struct CnPart(String);

impl View for CnPart {
    type V = Seq<char>;

    closed spec fn view(&self) -> Seq<char> {
        self.0@
    }
}

impl From<&str> for CnPart {
    fn from(value: &str) -> (part: Self)
        ensures
            part@ == value@,
    {
        Self(String::from_str(value))
    }
}

impl FromSpecImpl<&str> for CnPart {
    open spec fn obeys_from_spec() -> bool {
        false
    }

    open spec fn from_spec(v: &str) -> Self {
        arbitrary()
    }
}

impl From<String> for CnPart {
    fn from(value: String) -> (part: Self)
        ensures
            part@ == value@,
    {
        Self(value)
    }
}

impl FromSpecImpl<String> for CnPart {
    open spec fn obeys_from_spec() -> bool {
        false
    }

    open spec fn from_spec(v: String) -> Self {
        arbitrary()
    }
}

impl From<Option<&str>> for CnPart {
    fn from(value: Option<&str>) -> (part: Self)
        ensures
            part@ == match value {
                Some(v) => v@,
                None => Seq::<char>::empty(),
            },
    {
        match value {
            Some(value) => Self(String::from_str(value)),
            None => Self(String::new()),
        }
    }
}

impl FromSpecImpl<Option<&str>> for CnPart {
    open spec fn obeys_from_spec() -> bool {
        false
    }

    open spec fn from_spec(v: Option<&str>) -> Self {
        arbitrary()
    }
}

impl From<Option<String>> for CnPart {
    fn from(value: Option<String>) -> (part: Self)
        ensures
            part@ == match value {
                Some(v) => v@,
                None => Seq::<char>::empty(),
            },
    {
        match value {
            Some(value) => Self(value),
            None => Self(String::new()),
        }
    }
}

impl FromSpecImpl<Option<String>> for CnPart {
    open spec fn obeys_from_spec() -> bool {
        false
    }

    open spec fn from_spec(v: Option<String>) -> Self {
        arbitrary()
    }
}

impl From<(bool, &str, &str)> for CnPart {
    fn from(value: (bool, &str, &str)) -> (part: Self)
        ensures
            part@ == if value.0 {
                value.1@
            } else {
                value.2@
            },
    {
        match value.0 {
            true => Self(String::from_str(value.1)),
            false => Self(String::from_str(value.2)),
        }
    }
}

impl FromSpecImpl<(bool, &str, &str)> for CnPart {
    open spec fn obeys_from_spec() -> bool {
        false
    }

    open spec fn from_spec(v: (bool, &str, &str)) -> Self {
        arbitrary()
    }
}

impl From<(bool, &str)> for CnPart {
    fn from(value: (bool, &str)) -> (part: Self)
        ensures
            part@ == if value.0 {
                value.1@
            } else {
                Seq::<char>::empty()
            },
    {
        if value.0 {
            Self(String::from_str(value.1))
        } else {
            Self(String::new())
        }
    }
}

impl FromSpecImpl<(bool, &str)> for CnPart {
    open spec fn obeys_from_spec() -> bool {
        false
    }

    open spec fn from_spec(v: (bool, &str)) -> Self {
        arbitrary()
    }
}

/// Accumulates parts into one text.
pub struct CnBuilder(String);

impl View for CnBuilder {
    type V = Seq<char>;

    closed spec fn view(&self) -> Seq<char> {
        self.0@
    }
}

impl CnBuilder {
    /// A builder that holds nothing.
    pub fn new() -> (builder: Self)
        ensures
            builder@ == Seq::<char>::empty(),
    {
        Self(String::new())
    }

    /// Feeds one part: a space and the text of the part are appended, also
    /// where that text is empty. The text is the one that the conversion of
    /// `item` into a [`CnPart`] gives.
    pub fn add<T>(self, item: T) -> (builder: Self) where T: Into<CnPart>
        ensures
            exists|part: CnPart|
                call_ensures(T::into, (item,), part) && builder@ == self@ + seq![' '] + part@,
    {
        let mut builder = self;
        let ghost given = item;
        let part: CnPart = item.into();
        assert(call_ensures(T::into, (given,), part));
        builder.0.push(' ');
        builder.0.append(part.0.as_str());
        assert(builder@ == self@ + seq![' '] + part@);
        builder
    }

    /// The class list of all that was fed.
    pub fn to_classlist(&self) -> (line: String)
        ensures
            line@ == dedup_text(self@),
    {
        cleanup_cnl(self.0.as_str())
    }
}

} // verus!
