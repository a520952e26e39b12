use pagepal::book::{file_name, Book, Content, MediaData};
use pagepal::label::Label;
use pagepal::num::Num;
use pagepal::page::{Page, Request};

fn page(url: &str) -> Page {
    Page::from_str(url).unwrap()
}

fn text(url: &str, body: &str) -> Content {
    Content::from_page(page(url), MediaData::Text(body.to_string()))
}

fn body_of(content: &Content) -> String {
    match &content.data {
        MediaData::Text(t) => t.clone(),
        MediaData::Picture(_) => panic!("not a text"),
    }
}

fn empty_book() -> Book {
    Book::new(Label::new("Series".to_string()), page("https://example.com/series"), false)
}

#[test]
fn payload_names() {
    assert_eq!(file_name(5 * 256 + 2, false), "c0005p0002");
    assert_eq!(file_name(5 * 256 + 2, true), "c0005p0002.jpg");
    assert_eq!(file_name(0, false), "c0000p0000");
    assert_eq!(file_name(255, true), "c0000p0255.jpg");
    assert_eq!(file_name(9000 * 256 + 9000, false), "c9035p0040");
    assert_eq!(file_name(12345 * 256, false), "c12345p0000");
}

#[test]
fn content_without_source() {
    let content = Content::new(MediaData::Text("hello".to_string()));
    assert_eq!(content.id, 0);
    assert!(content.src.is_none());
    assert_eq!(content.key(), None);
    assert!(!content.visual());
    assert_eq!(content.name(), "c0000p0000");
}

#[test]
fn content_takes_identifier_and_key_from_its_source() {
    let content = text("https://example.com/series/chapter-5/page-2", "x");
    assert_eq!(content.id, 2 + 5 * 256);
    assert_eq!(content.key(), Some(Num(5, Some(2))));
    assert_eq!(content.name(), "c0005p0002");
    assert_eq!(content.src.as_ref().unwrap().loc.href, "https://example.com/series/chapter-5/page-2");
    let image = Content::from_page(
        page("https://example.com/chapter-1"),
        MediaData::Picture(vec![1, 2, 3]),
    );
    assert!(image.visual());
    assert_eq!(image.id, 256);
    assert_eq!(image.key(), Some(Num(1, Some(0))));
    assert_eq!(image.name(), "c0001p0000.jpg");
}

#[test]
fn sub_number_of_the_key_is_cut_to_eight_bits() {
    let content = text("https://example.com/series/chapter-5/page-300", "x");
    assert_eq!(content.id, 300 + 5 * 256);
    assert_eq!(content.key(), Some(Num(5, Some(44))));
}

#[test]
fn identifier_is_the_same_for_the_same_address() {
    let a = text("https://example.com/series/chapter-5/page-2", "x");
    let b = text("https://example.com/series/chapter-5/page-2", "y");
    assert_eq!(a.id, b.id);
    assert_eq!(a.key(), b.key());
}

#[test]
fn lighten_drops_the_cache_of_the_source() {
    let mut source = page("https://example.com/chapter-1");
    source.request(Request { url: "https://example.com/chapter-1".to_string(), headers: vec![] });
    source.refresh("<div><p>a</p></div>".to_string(), 9).unwrap();
    let mut content = Content::from_page(source, MediaData::Text("a".to_string()));
    content.lighten();
    let src = content.src.as_ref().unwrap();
    assert!(src.html.is_none());
    assert!(src.doc.is_none());
    assert!(!src.full);
    assert_eq!(src.last, 9);
    assert_eq!(content.id, 256);
    assert_eq!(body_of(&content), "a");
    let mut bare = Content::new(MediaData::Picture(vec![]));
    bare.lighten();
    assert!(bare.src.is_none());
}

#[test]
fn new_book_is_empty() {
    let book = empty_book();
    assert_eq!(book.len(), 0);
    assert_eq!(book.pos, 0);
    assert!(!book.visual);
    assert_eq!(book.title.as_str(), "Series");
    assert!(book.get(&Num(1, None)).is_none());
}

#[test]
fn content_is_kept_in_the_order_of_the_keys() {
    let mut book = empty_book();
    book.insert(Num(3, None), text("https://example.com/c", "three"));
    book.insert(Num(1, Some(2)), text("https://example.com/a", "one-two"));
    book.insert(Num(4, None), text("https://example.com/d", "four"));
    book.insert(Num(1, None), text("https://example.com/a", "one"));
    book.insert(Num(3, Some(5)), text("https://example.com/c", "three-five"));
    let keys: Vec<Num> = book.content.iter().map(|e| e.0).collect();
    assert_eq!(keys, vec![Num(1, None), Num(1, Some(2)), Num(3, None), Num(3, Some(5)), Num(4, None)]);
    let bodies: Vec<String> = book.content.iter().map(|e| body_of(&e.1)).collect();
    assert_eq!(bodies, vec!["one", "one-two", "three", "three-five", "four"]);
    assert_eq!(book.len(), 5);
    assert_eq!(body_of(book.get(&Num(3, Some(5))).unwrap()), "three-five");
    assert!(book.get(&Num(2, None)).is_none());
    assert!(book.get(&Num(3, Some(4))).is_none());
}

#[test]
fn last_content_written_under_a_key_stays() {
    let mut book = empty_book();
    book.insert(Num(1, None), text("https://example.com/a", "first"));
    book.insert(Num(2, None), text("https://example.com/b", "other"));
    book.insert(Num(1, None), text("https://example.com/a", "second"));
    assert_eq!(book.len(), 2);
    assert_eq!(body_of(book.get(&Num(1, None)).unwrap()), "second");
    assert_eq!(body_of(book.get(&Num(2, None)).unwrap()), "other");
    assert_eq!(book.title.as_str(), "Series");
    assert_eq!(book.index.loc.href, "https://example.com/series");
}

#[test]
fn book_is_checked_for_the_order_of_its_keys() {
    let mut book = empty_book();
    assert!(book.check());
    book.insert(Num(2, None), text("https://example.com/b", "two"));
    assert!(book.check());
    book.insert(Num(1, None), text("https://example.com/a", "one"));
    book.insert(Num(2, Some(0)), text("https://example.com/b", "two-zero"));
    assert!(book.check());
    book.content.push((Num(2, Some(0)), text("https://example.com/b", "again")));
    assert!(!book.check());
    book.content.pop();
    book.content.push((Num(1, Some(9)), text("https://example.com/a", "late")));
    assert!(!book.check());
}
