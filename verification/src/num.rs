//! The ordering key of a content item inside a book.

use vstd::prelude::*;
use vstd::std_specs::cmp::PartialOrdSpecImpl;
use std::cmp::Ordering;

verus! {

/// Position of a content item: a chapter number and an optional sub-page
/// number. Keys are ordered by chapter first; at equal chapter an absent
/// sub-page number comes before every present one.
#[derive(Clone, Copy, Debug, PartialEq, Eq, Structural, Ord, Hash, Default)]
pub struct Num(pub u16, pub Option<u8>);

impl Num {
    /// The place of the sub-page number among sub-page numbers: absent is 0,
    /// a present `s` is `s + 1`.
    pub open spec fn sub_rank(self) -> int {
        match self.1 {
            None => 0,
            Some(s) => s + 1,
        }
    }

    /// The strict order on keys.
    pub open spec fn precedes(self, other: Num) -> bool {
        self.0 < other.0 || (self.0 == other.0 && self.sub_rank() < other.sub_rank())
    }

    /// A key for a whole chapter, without sub-page number.
    pub fn whole(chapter: u16) -> (r: Num)
        ensures
            r == Num(chapter, None),
    {
        Num(chapter, None)
    }

    /// The key for an integer part and a fractional part that was scaled to
    /// two hundredths: a zero fraction gives no sub-page number.
    pub fn from_fraction(chapter: u16, scaled: u8) -> (r: Num)
        ensures
            r.0 == chapter,
            scaled == 0 ==> r.1 == None::<u8>,
            scaled != 0 ==> r.1 == Some(scaled),
    {
        if scaled == 0 {
            Num(chapter, None)
        } else {
            Num(chapter, Some(scaled))
        }
    }

    /// Whether `self` comes strictly before `other`.
    pub fn before(&self, other: &Num) -> (r: bool)
        ensures
            r == self.precedes(*other),
    {
        if self.0 != other.0 {
            self.0 < other.0
        } else {
            match (self.1, other.1) {
                (None, None) => false,
                (None, Some(_)) => true,
                (Some(_), None) => false,
                (Some(a), Some(b)) => a < b,
            }
        }
    }
}

impl PartialOrdSpecImpl for Num {
    open spec fn obeys_partial_cmp_spec() -> bool {
        true
    }

    open spec fn partial_cmp_spec(&self, other: &Num) -> Option<Ordering> {
        if self.precedes(*other) {
            Some(Ordering::Less)
        } else if other.precedes(*self) {
            Some(Ordering::Greater)
        } else {
            Some(Ordering::Equal)
        }
    }
}

impl PartialOrd for Num {
    fn partial_cmp(&self, other: &Num) -> (r: Option<Ordering>) {
        if self.before(other) {
            Some(Ordering::Less)
        } else if other.before(self) {
            Some(Ordering::Greater)
        } else {
            Some(Ordering::Equal)
        }
    }
}

/// At one chapter the key without sub-page number comes before every key
/// with one, and each of those before every key of a later chapter.
pub proof fn lemma_absent_before_present(chapter: u16, sub: u8, later: u16, other: Option<u8>)
    requires
        chapter < later,
    ensures
        Num(chapter, None).precedes(Num(chapter, Some(sub))),
        Num(chapter, Some(sub)).precedes(Num(later, other)),
        Num(chapter, None).precedes(Num(later, other)),
{
}

/// No key comes before itself.
pub proof fn lemma_precedes_irreflexive(a: Num)
    ensures
        !a.precedes(a),
{
}

/// What comes before a key comes before everything after that key.
pub proof fn lemma_precedes_transitive(a: Num, b: Num, c: Num)
    requires
        a.precedes(b),
        b.precedes(c),
    ensures
        a.precedes(c),
{
}

/// Of two keys exactly one holds: the first comes before the second, they
/// are the same, or the second comes before the first.
pub proof fn lemma_precedes_total(a: Num, b: Num)
    ensures
        a.precedes(b) || a == b || b.precedes(a),
        !(a.precedes(b) && b.precedes(a)),
        a == b ==> !a.precedes(b),
{
}

} // verus!
