//! Content items and the book that holds them in the order of their keys.

use vstd::prelude::*;
use crate::label::Label;
use crate::num::Num;
use crate::page::{segments_of, Page};
use crate::location::position_of;
use crate::text::{padded, zero_padded};

verus! {

/// What a content item holds: the text of a chapter, or the bytes of an
/// image.
#[derive(Debug)]
pub enum MediaData {
    Text(String),
    Picture(Vec<u8>),
}

/// One fetched payload, bound to the page it came from.
#[derive(Debug)]
pub struct Content {
    /// The identifier that the source's position gives.
    pub id: u64,
    /// The page that the payload came from.
    pub src: Option<Page>,
    /// The payload.
    pub data: MediaData,
}

/// The identifier of the content at a position: the first number, and the
/// second 256 times.
pub open spec fn id_of(place: (nat, nat, Seq<char>)) -> nat {
    place.0 + place.1 * 256
}

/// The ordering key of the content at a position: the second number is the
/// chapter, the first, cut to eight bits, the sub-page.
pub open spec fn key_of(place: (nat, nat, Seq<char>)) -> Num {
    Num(place.1 as u16, Some((place.0 % 256) as u8))
}

/// The name under which the payload with the identifier `id` is kept: `c`
/// and the chapter in at least four digits, `p` and the sub-page in at least
/// four digits, and `.jpg` for an image.
pub open spec fn payload_name(id: nat, visual: bool) -> Seq<char> {
    let stem = "c"@ + padded(id / 256, 4) + "p"@ + padded(id % 256, 4);
    if visual {
        stem + ".jpg"@
    } else {
        stem
    }
}

/// The name under which the payload with the identifier `id` is kept.
pub fn file_name(id: u64, visual: bool) -> (r: String)
    ensures
        r@ == payload_name(id as nat, visual),
{
    let mut out = String::from_str("c");
    out.append(zero_padded(id / 256, 4).as_str());
    out.append("p");
    out.append(zero_padded(id % 256, 4).as_str());
    if visual {
        out.append(".jpg");
    }
    out
}

impl Content {
    /// The name under which the payload is kept.
    pub fn name(&self) -> (r: String)
        ensures
            r@ == payload_name(self.id as nat, self.data is Picture),
    {
        file_name(self.id, self.visual())
    }

    /// A payload without a source.
    pub fn new(data: MediaData) -> (r: Content)
        ensures
            r.id == 0,
            r.src.is_none(),
            r.data == data,
    {
        Content { id: 0, src: None, data }
    }

    /// A payload bound to the page it came from; the page's position gives
    /// the identifier.
    pub fn from_page(page: Page, data: MediaData) -> (r: Content)
        ensures
            r.src == Some(page),
            r.data == data,
            r.id == id_of(position_of(segments_of(page.loc@))),
    {
        let place = page.get_place();
        let id: u64 = place.0 as u64 + place.1 as u64 * 256;
        Content { id, src: Some(page), data }
    }

    /// Whether the payload is an image.
    pub fn visual(&self) -> (r: bool)
        ensures
            r == (self.data is Picture),
    {
        match self.data {
            MediaData::Picture(_) => true,
            MediaData::Text(_) => false,
        }
    }

    /// The ordering key that the source's position gives; none without a
    /// source.
    pub fn key(&self) -> (r: Option<Num>)
        ensures
            r == match self.src {
                Some(p) => Some(key_of(position_of(segments_of(p.loc@)))),
                None => None,
            },
    {
        match &self.src {
            Some(p) => {
                let place = p.get_place();
                Some(Num(place.1, Some((place.0 % 256) as u8)))
            },
            None => None,
        }
    }

    /// Drops what the source page has cached, to release large payloads.
    pub fn lighten(&mut self)
        ensures
            final(self).id == old(self).id,
            final(self).data == old(self).data,
            match old(self).src {
                Some(before) => final(self).src.is_some() && {
                    let after = final(self).src.unwrap();
                    &&& after.html.is_none()
                    &&& after.doc.is_none()
                    &&& !after.full
                    &&& after.loc == before.loc
                    &&& after.last == before.last
                    &&& after.req == before.req
                },
                None => final(self).src.is_none(),
            },
    {
        match self.src.take() {
            Some(mut p) => {
                p.empty();
                self.src = Some(p);
            },
            None => {},
        }
    }
}

/// Whether the entries stand in the strict order of their keys.
pub open spec fn ascending(entries: Seq<(Num, Content)>) -> bool {
    forall|i: int, j: int|
        0 <= i < j < entries.len() ==> (#[trigger] entries[i]).0.precedes((#[trigger] entries[j]).0)
}

/// Whether some entry has the key `key`.
pub open spec fn has_key(entries: Seq<(Num, Content)>, key: Num) -> bool {
    exists|i: int| 0 <= i < entries.len() && (#[trigger] entries[i]).0 == key
}

/// The content of an entry with the key `key`.
pub open spec fn value_of(entries: Seq<(Num, Content)>, key: Num) -> Content {
    entries[choose|i: int| 0 <= i < entries.len() && (#[trigger] entries[i]).0 == key].1
}

/// The mapping from keys to contents that the entries stand for.
pub open spec fn mapping(entries: Seq<(Num, Content)>) -> Map<Num, Content> {
    Map::new(|k: Num| has_key(entries, k), |k: Num| value_of(entries, k))
}

/// In ascending entries a key stands at one place only, so the entry found
/// there is the one the mapping gives.
pub proof fn lemma_entry_is_mapped(entries: Seq<(Num, Content)>, i: int)
    requires
        ascending(entries),
        0 <= i < entries.len(),
    ensures
        has_key(entries, entries[i].0),
        value_of(entries, entries[i].0) == entries[i].1,
        mapping(entries).dom().contains(entries[i].0),
        mapping(entries)[entries[i].0] == entries[i].1,
{
    let key = entries[i].0;
    let j = choose|j: int| 0 <= j < entries.len() && (#[trigger] entries[j]).0 == key;
    if j < i {
        assert(entries[j].0.precedes(entries[i].0));
    } else if i < j {
        assert(entries[i].0.precedes(entries[j].0));
    }
}

/// A work: its title, its index page, whether it is one of images, its
/// content in the order of the keys, and the place the reader has reached.
#[derive(Debug)]
pub struct Book {
    pub title: Label,
    pub index: Page,
    pub visual: bool,
    pub content: Vec<(Num, Content)>,
    pub pos: u32,
}

impl View for Book {
    type V = Map<Num, Content>;

    /// The position-ordered mapping from keys to contents.
    open spec fn view(&self) -> Map<Num, Content> {
        mapping(self.content@)
    }
}

impl Book {
    /// Whether the content stands in the strict order of its keys.
    pub open spec fn wf(&self) -> bool {
        ascending(self.content@)
    }

    /// An empty book.
    pub fn new(title: Label, index: Page, visual: bool) -> (r: Book)
        ensures
            r.wf(),
            r@ == Map::<Num, Content>::empty(),
            r.content@.len() == 0,
            r.title == title,
            r.index == index,
            r.visual == visual,
            r.pos == 0,
    {
        let r = Book { title, index, visual, content: Vec::new(), pos: 0 };
        assert(r@ =~= Map::<Num, Content>::empty());
        r
    }

    /// The number of content items.
    pub fn len(&self) -> (r: usize)
        ensures
            r == self.content@.len(),
    {
        self.content.len()
    }

    /// Whether the content stands in the strict order of its keys.
    pub fn check(&self) -> (r: bool)
        ensures
            r == self.wf(),
    {
        let n = self.content.len();
        if n < 2 {
            return true;
        }
        let mut i: usize = 1;
        while i < n
            invariant
                n == self.content@.len(),
                1 <= i <= n,
                forall|a: int, b: int|
                    0 <= a < b < i ==> (#[trigger] self.content@[a]).0.precedes(
                        (#[trigger] self.content@[b]).0,
                    ),
            decreases n - i,
        {
            if !self.content[i - 1].0.before(&self.content[i].0) {
                return false;
            }
            proof {
                assert forall|a: int, b: int| 0 <= a < b < i + 1 implies (
                #[trigger] self.content@[a]).0.precedes((#[trigger] self.content@[b]).0) by {
                    if b == i && a < i - 1 {
                        assert(self.content@[a].0.precedes(self.content@[i - 1].0));
                    }
                }
            }
            i += 1;
        }
        true
    }

    /// The place of the first entry whose key does not come before `key`.
    fn lower_bound(&self, key: &Num) -> (r: usize)
        requires
            self.wf(),
        ensures
            r <= self.content@.len(),
            forall|i: int| 0 <= i < r ==> (#[trigger] self.content@[i]).0.precedes(*key),
            forall|i: int|
                r <= i < self.content@.len() ==> !(#[trigger] self.content@[i]).0.precedes(*key),
    {
        let n = self.content.len();
        let mut i: usize = 0;
        while i < n && self.content[i].0.before(key)
            invariant
                n == self.content@.len(),
                i <= n,
                forall|k: int| 0 <= k < i ==> (#[trigger] self.content@[k]).0.precedes(*key),
            decreases n - i,
        {
            i += 1;
        }
        proof {
            if i < n {
                assert forall|k: int| i <= k < n implies !(#[trigger] self.content@[k]).0.precedes(
                    *key,
                ) by {
                    if k > i {
                        assert(self.content@[i as int].0.precedes(self.content@[k].0));
                    }
                }
            }
        }
        i
    }

    /// The content under `key`.
    pub fn get(&self, key: &Num) -> (r: Option<&Content>)
        requires
            self.wf(),
        ensures
            match r {
                Some(c) => self@.dom().contains(*key) && self@[*key] == *c,
                None => !self@.dom().contains(*key),
            },
    {
        let i = self.lower_bound(key);
        if i < self.content.len() && self.content[i].0 == *key {
            proof {
                lemma_entry_is_mapped(self.content@, i as int);
            }
            Some(&self.content[i].1)
        } else {
            proof {
                if has_key(self.content@, *key) {
                    let j = choose|j: int|
                        0 <= j < self.content@.len() && (#[trigger] self.content@[j]).0 == *key;
                    if j < i {
                        assert(self.content@[j].0.precedes(*key));
                    } else if j > i {
                        assert(self.content@[i as int].0.precedes(self.content@[j].0));
                        assert(!self.content@[i as int].0.precedes(*key));
                    }
                }
            }
            None
        }
    }

    /// Puts `content` under `key`. Content that stood under the key before
    /// is replaced: the last one written stays.
    pub fn insert(&mut self, key: Num, content: Content)
        requires
            old(self).wf(),
        ensures
            final(self).wf(),
            final(self)@ == old(self)@.insert(key, content),
            final(self).title == old(self).title,
            final(self).index == old(self).index,
            final(self).visual == old(self).visual,
            final(self).pos == old(self).pos,
    {
        let i = self.lower_bound(&key);
        let ghost before = self.content@;
        if i < self.content.len() && self.content[i].0 == key {
            self.content.set(i, (key, content));
            proof {
                let after = self.content@;
                assert(after == before.update(i as int, (key, content)));
                assert(ascending(after)) by {
                    assert forall|a: int, b: int| 0 <= a < b < after.len() implies (
                    #[trigger] after[a]).0.precedes((#[trigger] after[b]).0) by {
                        assert(before[a].0.precedes(before[b].0));
                    }
                }
                assert forall|k: Num| has_key(after, k) == (k == key || has_key(before, k)) by {
                    if has_key(after, k) {
                        let j = choose|j: int| 0 <= j < after.len() && (#[trigger] after[j]).0 == k;
                        assert(before[j].0 == k);
                    }
                    if k == key {
                        assert(after[i as int].0 == k);
                    } else if has_key(before, k) {
                        let j = choose|j: int|
                            0 <= j < before.len() && (#[trigger] before[j]).0 == k;
                        assert(after[j].0 == k);
                    }
                }
                assert forall|k: Num| has_key(after, k) implies value_of(after, k) == (if k
                    == key {
                    content
                } else {
                    value_of(before, k)
                }) by {
                    let j = choose|j: int| 0 <= j < after.len() && (#[trigger] after[j]).0 == k;
                    lemma_entry_is_mapped(after, j);
                    if k != key {
                        assert(before[j].0 == k);
                        lemma_entry_is_mapped(before, j);
                    } else {
                        lemma_entry_is_mapped(after, i as int);
                    }
                }
                assert(mapping(after) =~= mapping(before).insert(key, content));
            }
        } else {
            self.content.insert(i, (key, content));
            proof {
                let after = self.content@;
                assert(after == before.insert(i as int, (key, content)));
                assert forall|j: int| i <= j < before.len() implies key.precedes(
                    (#[trigger] before[j]).0,
                ) by {
                    assert(!before[j].0.precedes(key));
                    if j > i {
                        assert(before[i as int].0.precedes(before[j].0));
                    }
                    assert(before[i as int].0 != key);
                    assert(!before[i as int].0.precedes(key));
                }
                assert(ascending(after)) by {
                    assert forall|a: int, b: int| 0 <= a < b < after.len() implies (
                    #[trigger] after[a]).0.precedes((#[trigger] after[b]).0) by {
                        if b < i {
                            assert(before[a].0.precedes(before[b].0));
                        } else if b == i {
                            assert(before[a].0.precedes(key));
                        } else if a == i {
                            assert(key.precedes(before[b - 1].0));
                        } else if a < i {
                            assert(before[a].0.precedes(before[b - 1].0));
                        } else {
                            assert(before[a - 1].0.precedes(before[b - 1].0));
                        }
                    }
                }
                assert forall|k: Num| has_key(after, k) == (k == key || has_key(before, k)) by {
                    if has_key(after, k) {
                        let j = choose|j: int| 0 <= j < after.len() && (#[trigger] after[j]).0 == k;
                        if j < i {
                            assert(before[j].0 == k);
                        } else if j > i {
                            assert(before[j - 1].0 == k);
                        }
                    }
                    if k == key {
                        assert(after[i as int].0 == k);
                    } else if has_key(before, k) {
                        let j = choose|j: int|
                            0 <= j < before.len() && (#[trigger] before[j]).0 == k;
                        if j < i {
                            assert(after[j].0 == k);
                        } else {
                            assert(after[j + 1].0 == k);
                        }
                    }
                }
                assert forall|k: Num| has_key(after, k) implies value_of(after, k) == (if k
                    == key {
                    content
                } else {
                    value_of(before, k)
                }) by {
                    let j = choose|j: int| 0 <= j < after.len() && (#[trigger] after[j]).0 == k;
                    lemma_entry_is_mapped(after, j);
                    if j < i {
                        assert(before[j].0 == k);
                        lemma_entry_is_mapped(before, j);
                    } else if j > i {
                        assert(before[j - 1].0 == k);
                        lemma_entry_is_mapped(before, j - 1);
                    }
                }
                assert(mapping(after) =~= mapping(before).insert(key, content));
            }
        }
    }
}

} // verus!
