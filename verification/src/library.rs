//! The store of books, found by their titles.

use vstd::prelude::*;
use crate::book::Book;
use crate::error::Error;
use crate::label::Label;

verus! {

/// Whether no two entries have the same label.
pub open spec fn distinct(entries: Seq<(Label, Book)>) -> bool {
    forall|i: int, j: int|
        0 <= i < j < entries.len() ==> (#[trigger] entries[i]).0@ != (#[trigger] entries[j]).0@
}

/// Whether some entry has the label `label`.
pub open spec fn holds(entries: Seq<(Label, Book)>, label: Seq<char>) -> bool {
    exists|i: int| 0 <= i < entries.len() && (#[trigger] entries[i]).0@ == label
}

/// The book of an entry with the label `label`.
pub open spec fn book_of(entries: Seq<(Label, Book)>, label: Seq<char>) -> Book {
    entries[choose|i: int| 0 <= i < entries.len() && (#[trigger] entries[i]).0@ == label].1
}

/// The mapping from labels to books that the entries stand for.
pub open spec fn shelf(entries: Seq<(Label, Book)>) -> Map<Seq<char>, Book> {
    Map::new(|l: Seq<char>| holds(entries, l), |l: Seq<char>| book_of(entries, l))
}

/// Among distinct entries a label stands at one place only, so the entry
/// found there is the one the mapping gives.
pub proof fn lemma_entry_is_shelved(entries: Seq<(Label, Book)>, i: int)
    requires
        distinct(entries),
        0 <= i < entries.len(),
    ensures
        holds(entries, entries[i].0@),
        book_of(entries, entries[i].0@) == entries[i].1,
{
    let label = entries[i].0@;
    let j = choose|j: int| 0 <= j < entries.len() && (#[trigger] entries[j]).0@ == label;
    if j < i {
        assert(entries[j].0@ != entries[i].0@);
    } else if i < j {
        assert(entries[i].0@ != entries[j].0@);
    }
}

/// Removing the entry at `i` from distinct entries removes its label from
/// the mapping and leaves the rest.
pub proof fn lemma_remove_entry(entries: Seq<(Label, Book)>, i: int)
    requires
        distinct(entries),
        0 <= i < entries.len(),
    ensures
        distinct(entries.remove(i)),
        shelf(entries.remove(i)) == shelf(entries).remove(entries[i].0@),
{
    let after = entries.remove(i);
    let gone = entries[i].0@;
    assert forall|a: int, b: int| 0 <= a < b < after.len() implies (#[trigger] after[a]).0@ != (
    #[trigger] after[b]).0@ by {
        let x = if a < i { a } else { a + 1 };
        let y = if b < i { b } else { b + 1 };
        assert(entries[x].0@ != entries[y].0@);
    }
    assert forall|l: Seq<char>| holds(after, l) == (l != gone && holds(entries, l)) by {
        if holds(after, l) {
            let j = choose|j: int| 0 <= j < after.len() && (#[trigger] after[j]).0@ == l;
            let x = if j < i { j } else { j + 1 };
            assert(entries[x].0@ == l);
            if x < i {
                assert(entries[x].0@ != entries[i].0@);
            } else {
                assert(entries[i].0@ != entries[x].0@);
            }
        }
        if l != gone && holds(entries, l) {
            let j = choose|j: int| 0 <= j < entries.len() && (#[trigger] entries[j]).0@ == l;
            if j < i {
                assert(after[j].0@ == l);
            } else {
                assert(after[j - 1].0@ == l);
            }
        }
    }
    assert forall|l: Seq<char>| holds(after, l) implies book_of(after, l) == book_of(
        entries,
        l,
    ) by {
        let j = choose|j: int| 0 <= j < after.len() && (#[trigger] after[j]).0@ == l;
        lemma_entry_is_shelved(after, j);
        let x = if j < i { j } else { j + 1 };
        assert(entries[x].0@ == l);
        lemma_entry_is_shelved(entries, x);
    }
    assert(shelf(after) =~= shelf(entries).remove(gone));
}

/// Adding an entry with a label that distinct entries do not hold adds it to
/// the mapping and leaves the rest.
pub proof fn lemma_push_entry(entries: Seq<(Label, Book)>, label: Label, book: Book)
    requires
        distinct(entries),
        !holds(entries, label@),
    ensures
        distinct(entries.push((label, book))),
        shelf(entries.push((label, book))) == shelf(entries).insert(label@, book),
{
    let after = entries.push((label, book));
    let n = entries.len() as int;
    assert forall|a: int, b: int| 0 <= a < b < after.len() implies (#[trigger] after[a]).0@ != (
    #[trigger] after[b]).0@ by {
        if b < n {
            assert(entries[a].0@ != entries[b].0@);
        } else {
            assert(entries[a].0@ != label@);
        }
    }
    assert forall|l: Seq<char>| holds(after, l) == (l == label@ || holds(entries, l)) by {
        if holds(after, l) {
            let j = choose|j: int| 0 <= j < after.len() && (#[trigger] after[j]).0@ == l;
            if j < n {
                assert(entries[j].0@ == l);
            }
        }
        if l == label@ {
            assert(after[n].0@ == l);
        } else if holds(entries, l) {
            let j = choose|j: int| 0 <= j < entries.len() && (#[trigger] entries[j]).0@ == l;
            assert(after[j].0@ == l);
        }
    }
    assert forall|l: Seq<char>| holds(after, l) implies book_of(after, l) == (if l == label@ {
        book
    } else {
        book_of(entries, l)
    }) by {
        let j = choose|j: int| 0 <= j < after.len() && (#[trigger] after[j]).0@ == l;
        lemma_entry_is_shelved(after, j);
        if j < n {
            assert(entries[j].0@ == l);
            lemma_entry_is_shelved(entries, j);
        }
    }
    assert(shelf(after) =~= shelf(entries).insert(label@, book));
}

/// Whether `after` is the book `before` under the title `title`: nothing
/// but the title differs.
pub open spec fn is_retitled(before: Book, after: Book, title: Seq<char>) -> bool {
    &&& after.title@ == title
    &&& after.index == before.index
    &&& after.visual == before.visual
    &&& after.content == before.content
    &&& after.pos == before.pos
}

/// Whether `after` is the mapping `before` with the book under `label` moved
/// under `title` and given that title. A book that stood under `title`
/// before is replaced.
pub open spec fn is_renamed(
    before: Map<Seq<char>, Book>,
    after: Map<Seq<char>, Book>,
    label: Seq<char>,
    title: Seq<char>,
) -> bool {
    &&& before.dom().contains(label)
    &&& after.dom() == before.dom().remove(label).insert(title)
    &&& is_retitled(before[label], after[title], title)
    &&& forall|l: Seq<char>| l != title && #[trigger] after.dom().contains(l) ==> after[l] == before[l]
}

/// After a book was moved from one label to a different title, it is found
/// under the title, the same but for its title, and nothing is found under
/// the label.
pub proof fn lemma_renamed_is_found(
    before: Map<Seq<char>, Book>,
    after: Map<Seq<char>, Book>,
    label: Seq<char>,
    title: Seq<char>,
)
    requires
        is_renamed(before, after, label, title),
        label != title,
    ensures
        after.dom().contains(title),
        is_retitled(before[label], after[title], title),
        !after.dom().contains(label),
{
}

/// The books of a reader, each under the label of its title.
#[derive(Debug)]
pub struct Library {
    pub books: Vec<(Label, Book)>,
}

impl View for Library {
    type V = Map<Seq<char>, Book>;

    /// The mapping from label texts to books.
    open spec fn view(&self) -> Map<Seq<char>, Book> {
        shelf(self.books@)
    }
}

impl Library {
    /// Whether no two books stand under the same label.
    pub open spec fn wf(&self) -> bool {
        distinct(self.books@)
    }

    /// A library without books.
    pub fn new() -> (r: Library)
        ensures
            r.wf(),
            r@ == Map::<Seq<char>, Book>::empty(),
    {
        let r = Library { books: Vec::new() };
        assert(r@ =~= Map::<Seq<char>, Book>::empty());
        r
    }

    /// The number of books.
    pub fn len(&self) -> (r: usize)
        ensures
            r == self.books@.len(),
    {
        self.books.len()
    }

    /// Whether no two books stand under the same label.
    pub fn check(&self) -> (r: bool)
        ensures
            r == self.wf(),
    {
        let n = self.books.len();
        let mut j: usize = 0;
        while j < n
            invariant
                n == self.books@.len(),
                j <= n,
                forall|a: int, b: int|
                    0 <= a < b < j ==> (#[trigger] self.books@[a]).0@ != (
                    #[trigger] self.books@[b]).0@,
            decreases n - j,
        {
            let mut i: usize = 0;
            while i < j
                invariant
                    n == self.books@.len(),
                    i <= j < n,
                    forall|a: int| 0 <= a < i ==> (#[trigger] self.books@[a]).0@ != self.books@[j as int].0@,
                decreases j - i,
            {
                if self.books[i].0.same(&self.books[j].0) {
                    return false;
                }
                i += 1;
            }
            j += 1;
        }
        true
    }

    /// The place of the entry with the label `label`.
    fn position(&self, label: &Label) -> (r: Option<usize>)
        ensures
            match r {
                Some(i) => i < self.books@.len() && self.books@[i as int].0@ == label@,
                None => !holds(self.books@, label@),
            },
    {
        let n = self.books.len();
        let mut i: usize = 0;
        while i < n
            invariant
                n == self.books@.len(),
                i <= n,
                forall|k: int| 0 <= k < i ==> (#[trigger] self.books@[k]).0@ != label@,
            decreases n - i,
        {
            if self.books[i].0.same(label) {
                return Some(i);
            }
            i += 1;
        }
        None
    }

    /// The book under `label`.
    pub fn get(&self, label: &Label) -> (r: Option<&Book>)
        requires
            self.wf(),
        ensures
            match r {
                Some(b) => self@.dom().contains(label@) && self@[label@] == *b,
                None => !self@.dom().contains(label@),
            },
    {
        match self.position(label) {
            Some(i) => {
                proof {
                    lemma_entry_is_shelved(self.books@, i as int);
                }
                Some(&self.books[i].1)
            },
            None => None,
        }
    }

    /// Takes the book under `label` out of the library.
    pub fn remove(&mut self, label: &Label) -> (r: Option<Book>)
        requires
            old(self).wf(),
        ensures
            final(self).wf(),
            final(self)@ == old(self)@.remove(label@),
            match r {
                Some(b) => old(self)@.dom().contains(label@) && old(self)@[label@] == b,
                None => !old(self)@.dom().contains(label@),
            },
    {
        match self.position(label) {
            Some(i) => {
                proof {
                    lemma_entry_is_shelved(self.books@, i as int);
                    lemma_remove_entry(self.books@, i as int);
                }
                let entry = self.books.remove(i);
                Some(entry.1)
            },
            None => {
                assert(self@ =~= self@.remove(label@));
                None
            },
        }
    }

    /// Puts `b` under the label `bn` and gives back the book that stood
    /// there before, which is replaced as a whole.
    pub fn add_book(&mut self, bn: Label, b: Book) -> (r: Option<Book>)
        requires
            old(self).wf(),
        ensures
            final(self).wf(),
            final(self)@ == old(self)@.insert(bn@, b),
            match r {
                Some(before) => old(self)@.dom().contains(bn@) && old(self)@[bn@] == before,
                None => !old(self)@.dom().contains(bn@),
            },
    {
        let before = self.remove(&bn);
        proof {
            assert(!self@.dom().contains(bn@));
            assert(!holds(self.books@, bn@));
            lemma_push_entry(self.books@, bn, b);
            assert(old(self)@.remove(bn@).insert(bn@, b) =~= old(self)@.insert(bn@, b));
        }
        self.books.push((bn, b));
        before
    }
    /// Moves the book under `idx` to the label of the title `name`, and
    /// gives the book that title. A book that stood under the new label is
    /// replaced. Where no book stands under `idx`, nothing changes.
    pub fn rename_novel(&mut self, idx: &Label, name: String) -> (r: Result<(), Error>)
        requires
            old(self).wf(),
        ensures
            final(self).wf(),
            match r {
                Ok(_) => is_renamed(old(self)@, final(self)@, idx@, name@),
                Err(e) => {
                    &&& e == Error::NotFound
                    &&& !old(self)@.dom().contains(idx@)
                    &&& final(self)@ == old(self)@
                },
            },
    {
        match self.remove(idx) {
            Some(book) => {
                let mut book = book;
                let label = Label::new(name.clone());
                book.title = Label::new(name);
                self.add_book(label, book);
                proof {
                    assert(final(self)@.dom() =~= old(self)@.dom().remove(idx@).insert(name@));
                }
                Ok(())
            },
            None => {
                assert(final(self)@ =~= old(self)@);
                Err(Error::NotFound)
            },
        }
    }
}

} // verus!
