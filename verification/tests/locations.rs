use pagepal::error::Error;
use pagepal::location::{index_guess, position_triple, UrlParts};

fn segments(parts: &[&str]) -> Vec<String> {
    parts.iter().map(|p| p.to_string()).collect()
}

#[test]
fn url_is_split_into_its_parts() {
    let parts = UrlParts::parse("https://Example.com:443/series/chapter-5/page-2?x=1").unwrap();
    assert_eq!(parts.href, "https://example.com/series/chapter-5/page-2?x=1");
    assert_eq!(parts.origin, "https://example.com");
    assert_eq!(parts.host, Some("example.com".to_string()));
    assert_eq!(parts.segments, Some(segments(&["series", "chapter-5", "page-2"])));
}

#[test]
fn origin_names_a_port_that_is_not_the_default() {
    let parts = UrlParts::parse("http://localhost:8080/").unwrap();
    assert_eq!(parts.origin, "http://localhost:8080");
    assert_eq!(parts.host, Some("localhost".to_string()));
    assert_eq!(parts.segments, Some(segments(&[""])));
}

#[test]
fn text_that_is_no_url_is_refused() {
    assert_eq!(UrlParts::parse("chapter-1").err(), Some(Error::UrlParse));
    assert_eq!(UrlParts::parse("").err(), Some(Error::UrlParse));
    assert_eq!(UrlParts::parse("http://").err(), Some(Error::UrlParse));
}

#[test]
fn url_without_host_has_no_domain() {
    let parts = UrlParts::parse("data:text/plain,hello").unwrap();
    assert_eq!(parts.host, None);
    assert_eq!(parts.segments, None);
    assert_eq!(parts.domain().err(), Some(Error::NoHost));
    let with_host = UrlParts::parse("https://example.com/a").unwrap();
    assert_eq!(with_host.domain().ok(), Some(&"example.com".to_string()));
}

#[test]
fn link_is_read_relative_to_the_page() {
    let base = UrlParts::parse("https://example.com/series").unwrap();
    assert_eq!(base.resolve("chapter-1").unwrap().href, "https://example.com/chapter-1");
    assert_eq!(base.resolve("/a/b").unwrap().href, "https://example.com/a/b");
    assert_eq!(base.resolve("https://other.org/x").unwrap().href, "https://other.org/x");
    let dir = UrlParts::parse("https://example.com/series/").unwrap();
    assert_eq!(dir.resolve("chapter-1").unwrap().href, "https://example.com/series/chapter-1");
    assert_eq!(base.resolve("http://[bad").err(), Some(Error::UrlParse));
}

#[test]
fn index_guess_strips_the_chapter_and_what_follows() {
    let guess = index_guess("https://example.com", &segments(&["series", "chapter-5", "page-2"]));
    assert_eq!(guess, "https://example.com/series");
}

#[test]
fn index_guess_of_the_manga_page() {
    let guess = index_guess("https://readmanganato.com", &segments(&["manga-lt989154", "chapter-21"]));
    assert_eq!(guess, "https://readmanganato.com/manga-lt989154");
}

#[test]
fn index_guess_without_marker_drops_the_last_two_segments() {
    assert_eq!(index_guess("https://e.com", &segments(&["a", "b", "c", "d"])), "https://e.com/a/b");
    assert_eq!(index_guess("https://e.com", &segments(&["a", "b"])), "https://e.com");
    assert_eq!(index_guess("https://e.com", &segments(&["a", "b", ""])), "https://e.com/a");
    assert_eq!(index_guess("https://e.com", &segments(&[])), "https://e.com");
}

#[test]
fn index_guess_ignores_case_and_keeps_what_stands_before_a_marker() {
    assert_eq!(
        index_guess("https://e.com", &segments(&["x", "CHAPTER-1", "y", "Chapter-2"])),
        "https://e.com/x/y"
    );
    assert_eq!(index_guess("https://e.com", &segments(&["chapter-1"])), "https://e.com");
    assert_eq!(index_guess("https://e.com", &segments(&["chapter-1", "a"])), "https://e.com");
}

#[test]
fn position_of_two_numbers() {
    assert_eq!(
        position_triple(&segments(&["series", "chapter-5", "page-2"])),
        (2, 5, "chapter-5".to_string())
    );
}

#[test]
fn position_is_the_same_on_every_call() {
    let path = segments(&["series", "chapter-5", "page-2"]);
    let first = position_triple(&path);
    assert_eq!(position_triple(&path), first);
    assert_eq!(position_triple(&path.clone()), first);
}

#[test]
fn position_of_the_manga_page() {
    assert_eq!(
        position_triple(&segments(&["manga-lt989154", "chapter-21"])),
        (21, 0, "manga-lt989154".to_string())
    );
}

#[test]
fn position_of_one_segment() {
    assert_eq!(position_triple(&segments(&["chapter-3"])), (0, 3, "chapter-3".to_string()));
}

#[test]
fn position_without_segments() {
    assert_eq!(position_triple(&segments(&[])), (0, 0, String::new()));
    assert_eq!(position_triple(&segments(&["", ""])), (0, 0, String::new()));
}

#[test]
fn position_leaves_out_numbers_above_nine_thousand() {
    assert_eq!(position_triple(&segments(&["a9500", "b3"])), (0, 3, "a9500".to_string()));
    assert_eq!(position_triple(&segments(&["a9001"])), (0, 0, "a9001".to_string()));
    assert_eq!(position_triple(&segments(&["a9000"])), (0, 9000, "a9000".to_string()));
    assert_eq!(
        position_triple(&segments(&["n1", "n9999", "n2", "n20000"])),
        (2, 1, "n9999".to_string())
    );
}

#[test]
fn position_skips_empty_segments() {
    assert_eq!(position_triple(&segments(&["a1", "b2", ""])), (2, 1, "a1".to_string()));
    assert_eq!(position_triple(&segments(&["", "a1", "", "b2", "c3"])), (3, 2, "b2".to_string()));
}
