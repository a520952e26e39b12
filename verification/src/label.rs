//! The title of a work, by which the library finds its book.

use vstd::prelude::*;
use vstd::std_specs::cmp::PartialEqSpecImpl;
use vstd::std_specs::convert::FromSpecImpl;
use crate::text::str_eq;

verus! {

/// The title of a work. Two labels are the same where their texts are.
#[derive(Clone, Debug, Eq, Hash)]
pub struct Label(pub String);

impl PartialEqSpecImpl for Label {
    open spec fn obeys_eq_spec() -> bool {
        true
    }

    open spec fn eq_spec(&self, other: &Label) -> bool {
        self.0@ == other.0@
    }
}

impl PartialEq for Label {
    fn eq(&self, other: &Label) -> (r: bool) {
        str_eq(self.0.as_str(), other.0.as_str())
    }
}

impl FromSpecImpl<String> for Label {
    open spec fn obeys_from_spec() -> bool {
        true
    }

    open spec fn from_spec(s: String) -> Label {
        Label(s)
    }
}

impl From<String> for Label {
    fn from(s: String) -> (r: Label) {
        Label(s)
    }
}

impl View for Label {
    type V = Seq<char>;

    open spec fn view(&self) -> Seq<char> {
        self.0@
    }
}

impl Label {
    /// The label with the given text.
    pub fn new(title: String) -> (r: Label)
        ensures
            r@ == title@,
    {
        Label(title)
    }

    /// The label of a work whose title is not known.
    pub fn untitled() -> (r: Label)
        ensures
            r@ == Seq::<char>::empty(),
    {
        Label(String::new())
    }

    /// Whether the title is not known.
    pub fn is_untitled(&self) -> (r: bool)
        ensures
            r == (self@.len() == 0),
    {
        self.0.as_str().unicode_len() == 0
    }

    /// The text of the label.
    pub fn as_str(&self) -> (r: &str)
        ensures
            r@ == self@,
    {
        self.0.as_str()
    }

    /// Whether two labels are the same.
    pub fn same(&self, other: &Label) -> (r: bool)
        ensures
            r == (self@ == other@),
    {
        str_eq(self.0.as_str(), other.0.as_str())
    }

    /// A copy of the label.
    pub fn duplicate(&self) -> (r: Label)
        ensures
            r@ == self@,
    {
        Label(self.0.clone())
    }
}

} // verus!
