//! Packed identifiers: a chapter identifier holds its book's, a content
//! identifier its chapter's.

use vstd::prelude::*;

verus! {

/// Identifies a book.
#[derive(Debug, Clone, Copy, PartialEq, Eq, Structural, PartialOrd, Ord)]
pub struct BookId(pub u8);

/// Identifies a chapter: the book's identifier in the upper eight bits, the
/// chapter's number within the book in the lower eight.
#[derive(Debug, Clone, Copy, PartialEq, Eq, Structural, PartialOrd, Ord)]
pub struct ChapterId(pub u16);

/// Identifies a content item: the chapter's identifier in the upper sixteen
/// bits, the item's number within the chapter in the lower sixteen.
#[derive(Debug, Clone, Copy, PartialEq, Eq, Structural, PartialOrd, Ord)]
pub struct ContentId(pub u32);

impl BookId {
    /// The identifier with the given value.
    pub fn new(id_value: u8) -> (r: BookId)
        ensures
            r.0 == id_value,
    {
        BookId(id_value)
    }
}

impl ChapterId {
    /// The identifier of chapter `id2` of book `id1`.
    pub fn new(id1: BookId, id2: u8) -> (r: ChapterId)
        ensures
            r.0 == id1.0 * 256 + id2,
    {
        let hi: u16 = id1.0 as u16;
        let lo: u16 = id2 as u16;
        ChapterId(hi * 256 + lo)
    }

    /// The book's identifier.
    pub fn get_first(&self) -> (r: BookId)
        ensures
            r.0 == self.0 / 256,
    {
        BookId((self.0 / 256) as u8)
    }

    /// The chapter's number within its book.
    pub fn get_second(&self) -> (r: u8)
        ensures
            r == self.0 % 256,
    {
        (self.0 % 256) as u8
    }

    /// The identifier of the book that the chapter belongs to.
    pub fn get_book_id(&self) -> (r: BookId)
        ensures
            r.0 == self.0 / 256,
    {
        self.get_first()
    }
}

impl ContentId {
    /// The identifier of item `id2` of chapter `id1`.
    pub fn new(id1: ChapterId, id2: u16) -> (r: ContentId)
        ensures
            r.0 == id1.0 * 65536 + id2,
    {
        let hi: u32 = id1.0 as u32;
        let lo: u32 = id2 as u32;
        ContentId(hi * 65536 + lo)
    }

    /// The chapter's identifier.
    pub fn get_first(&self) -> (r: ChapterId)
        ensures
            r.0 == self.0 / 65536,
    {
        ChapterId((self.0 / 65536) as u16)
    }

    /// The item's number within its chapter.
    pub fn get_second(&self) -> (r: u16)
        ensures
            r == self.0 % 65536,
    {
        (self.0 % 65536) as u16
    }

    /// The identifier of the chapter that the item belongs to.
    pub fn get_chapter_id(&self) -> (r: ChapterId)
        ensures
            r.0 == self.0 / 65536,
    {
        self.get_first()
    }

    /// The identifier of the book that the item belongs to.
    pub fn get_book_id(&self) -> (r: BookId)
        ensures
            r.0 == self.0 / 16777216,
    {
        self.get_chapter_id().get_book_id()
    }
}

/// A chapter identifier gives back the book and the number it was made of.
pub proof fn lemma_chapter_id_parts(book: BookId, number: u8)
    ensures
        (book.0 * 256 + number) / 256 == book.0,
        (book.0 * 256 + number) % 256 == number,
{
}

/// A content identifier gives back the chapter and the number it was made
/// of, and through the chapter the book.
pub proof fn lemma_content_id_parts(chapter: ChapterId, number: u16)
    ensures
        (chapter.0 * 65536 + number) / 65536 == chapter.0,
        (chapter.0 * 65536 + number) % 65536 == number,
        (chapter.0 * 65536 + number) / 16777216 == chapter.0 / 256,
{
}

} // verus!
