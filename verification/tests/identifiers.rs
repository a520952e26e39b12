use pagepal::ids::{BookId, ChapterId, ContentId};

#[test]
fn test_id_properties() {
    let book: BookId = BookId::new(3);
    let chapter: ChapterId = ChapterId::new(book.clone(), 7);
    let content: ContentId = ContentId::new(chapter.clone(), 12);

    assert_eq!(content.get_book_id(), book);
    assert_eq!(content.get_chapter_id(), chapter.clone());
    assert_eq!(chapter.get_book_id(), book);
}

#[test]
fn chapter_id_packs_book_and_number() {
    let chapter = ChapterId::new(BookId::new(3), 7);
    assert_eq!(chapter, ChapterId(3 * 256 + 7));
    assert_eq!(chapter.get_first(), BookId(3));
    assert_eq!(chapter.get_second(), 7);
}

#[test]
fn content_id_packs_chapter_and_number() {
    let content = ContentId::new(ChapterId(775), 12);
    assert_eq!(content, ContentId(775 * 65536 + 12));
    assert_eq!(content.get_first(), ChapterId(775));
    assert_eq!(content.get_second(), 12);
}

#[test]
fn identifiers_at_the_limits() {
    let chapter = ChapterId::new(BookId::new(255), 255);
    assert_eq!(chapter, ChapterId(u16::MAX));
    let content = ContentId::new(chapter, u16::MAX);
    assert_eq!(content, ContentId(u32::MAX));
    assert_eq!(content.get_book_id(), BookId(255));
    let zero = ContentId::new(ChapterId::new(BookId::new(0), 0), 0);
    assert_eq!(zero, ContentId(0));
}
