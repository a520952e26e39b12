use pagepal::error::Error;
use pagepal::page::{classify, Page, Request};

fn request(url: &str) -> Request {
    Request { url: url.to_string(), headers: vec![] }
}

fn fetched(url: &str, html: &str, now: u64) -> Page {
    let mut page = Page::from_str(url).unwrap();
    page.request(request(url));
    page.refresh(html.to_string(), now).unwrap();
    page
}

#[test]
fn new_page_has_nothing_requested_or_cached() {
    let page = Page::from_str("https://example.com/series/chapter-5/page-2").unwrap();
    assert_eq!(page.loc.href, "https://example.com/series/chapter-5/page-2");
    assert!(page.req.is_none());
    assert!(page.html.is_none());
    assert!(page.doc.is_none());
    assert!(!page.full);
    assert_eq!(page.last, 0);
}

#[test]
fn page_of_a_text_that_is_no_url() {
    assert_eq!(Page::from_str("not a url").err(), Some(Error::UrlParse));
}

#[test]
fn refresh_without_request_is_refused() {
    let mut page = Page::from_str("https://example.com/").unwrap();
    assert_eq!(page.refresh("<p>x</p>".to_string(), 5), Err(Error::RequestNotPrepared));
    assert!(page.html.is_none());
    assert!(page.doc.is_none());
    assert!(!page.full);
    assert_eq!(page.last, 0);
}

#[test]
fn request_is_bound_without_a_fetch() {
    let mut page = fetched("https://example.com/", "<p>x</p>", 5);
    assert!(page.full);
    page.request(request("https://example.com/"));
    assert!(!page.full);
    assert_eq!(page.req.as_ref().unwrap().url, "https://example.com/");
    assert_eq!(page.html, Some("<p>x</p>".to_string()));
    assert_eq!(page.last, 5);
}

#[test]
fn refresh_stores_and_parses_the_body() {
    let page = fetched("https://example.com/", "<title>T</title>", 1234);
    assert!(page.full);
    assert_eq!(page.last, 1234);
    assert_eq!(page.html, Some("<title>T</title>".to_string()));
    assert_eq!(page.title().unwrap().as_str(), "T");
}

#[test]
fn fetched_page_is_fresh_then_old() {
    let page = fetched("https://example.com/", "", 1000);
    assert!(!page.is_old(1000, None));
    assert!(!page.is_old(1000, Some(0)));
    assert!(!page.is_old(11_000, None));
    assert!(page.is_old(11_001, None));
    assert!(!page.is_old(1500, Some(500)));
    assert!(page.is_old(1501, Some(500)));
    assert!(!page.is_old(0, None));
    assert!(!page.is_old(u64::MAX, Some(u64::MAX)));
}

#[test]
fn page_that_is_not_full_is_old() {
    let mut page = Page::from_str("https://example.com/").unwrap();
    assert!(page.is_old(0, None));
    page.request(request("https://example.com/"));
    assert!(page.is_old(0, Some(u64::MAX)));
    page.refresh(String::new(), 10).unwrap();
    assert!(!page.is_old(10, None));
    page.empty();
    assert!(page.is_old(10, None));
}

#[test]
fn empty_drops_the_cache_and_keeps_the_rest() {
    let mut page = fetched("https://example.com/a", "<div><p>x</p></div>", 7);
    page.empty();
    assert!(page.html.is_none());
    assert!(page.doc.is_none());
    assert!(!page.full);
    assert_eq!(page.last, 7);
    assert!(page.req.is_some());
    assert_eq!(page.loc.href, "https://example.com/a");
    assert_eq!(page.text(), None);
}

#[test]
fn domain_is_the_host() {
    let page = Page::from_str("https://readmanganato.com/manga-lt989154/chapter-21").unwrap();
    assert_eq!(page.domain(), Ok("readmanganato.com".to_string()));
    let hostless = Page::from_str("data:text/plain,hi").unwrap();
    assert_eq!(hostless.domain(), Err(Error::NoHost));
}

#[test]
fn index_of_a_chapter_page() {
    let page = Page::from_str("https://example.com/series/chapter-5/page-2").unwrap();
    let index = page.index().unwrap();
    assert_eq!(index.loc.href, "https://example.com/series");
    assert!(!index.full);
    assert!(index.req.is_none());
}

#[test]
fn index_of_a_page_without_origin_is_no_url() {
    let page = Page::from_str("data:text/plain,hi").unwrap();
    assert_eq!(page.index().err(), Some(Error::UrlParse));
}

#[test]
fn place_of_a_page() {
    let page = Page::from_str("https://example.com/series/chapter-5/page-2").unwrap();
    assert_eq!(page.get_place(), (2, 5, "chapter-5".to_string()));
    assert_eq!(page.get_place(), page.get_place());
    let again = Page::from_str("https://example.com/series/chapter-5/page-2").unwrap();
    assert_eq!(again.get_place(), page.get_place());
    let hostless = Page::from_str("data:text/plain,hi").unwrap();
    assert_eq!(hostless.get_place(), (0, 0, String::new()));
}

#[test]
fn heuristics_without_cache_give_nothing() {
    let page = Page::from_str("https://example.com/").unwrap();
    assert_eq!(page.text(), None);
    assert_eq!(page.chaps(), None);
    assert_eq!(page.images(), None);
    assert_eq!(page.get_content(true), None);
    assert_eq!(page.get_content(false), None);
    assert!(page.title().is_none());
    assert_eq!(page.check_visual(), None);
}

#[test]
fn heuristics_on_the_cached_document() {
    let page = fetched(
        "https://example.com/series",
        "<html><head><title>Series Chapter 1</title></head><body>\
         <div><p>a</p><p>b</p></div>\
         <div><ul><li><a href=\"c1\">1</a></li><li><a href=\"c2\">2</a></li></ul></div>\
         <div><img src=\"i1.jpg\"></div></body></html>",
        0,
    );
    assert_eq!(page.text(), Some(vec!["a".to_string(), "b".to_string()]));
    assert_eq!(page.chaps(), Some(vec!["c1".to_string(), "c2".to_string()]));
    assert_eq!(page.images(), Some(vec!["i1.jpg".to_string()]));
    assert_eq!(page.get_content(true), page.images());
    assert_eq!(page.get_content(false), page.text());
    assert_eq!(page.title().unwrap().as_str(), "Series");
    let bare = fetched("https://example.com/", "<span>x</span>", 0);
    assert_eq!(bare.text(), Some(vec![]));
    assert!(bare.title().is_none());
}

#[test]
fn site_known_for_one_kind_decides() {
    assert_eq!(classify("https://www.royalroad.com", None), Some(false));
    assert_eq!(classify("https://novelfull.com", Some(0)), Some(false));
    assert_eq!(classify("https://comrademao.com", Some(3)), Some(false));
    assert_eq!(classify("https://readmanganato.com", None), Some(true));
    assert_eq!(classify("https://asurascans.com", Some(500)), Some(true));
    assert_eq!(classify("https://pururin.to", None), Some(true));
    assert_eq!(classify("https://luscious.net", None), Some(true));
}

#[test]
fn unknown_or_ambiguous_site_goes_by_the_paragraphs() {
    assert_eq!(classify("https://example.com", Some(19)), Some(true));
    assert_eq!(classify("https://example.com", Some(20)), Some(false));
    assert_eq!(classify("https://example.com", Some(0)), Some(true));
    assert_eq!(classify("https://example.com", None), None);
    assert_eq!(classify("https://manganov.com", Some(19)), Some(true));
    assert_eq!(classify("https://manganov.com", Some(20)), Some(false));
    assert_eq!(classify("https://novelmanga.com", None), None);
}

#[test]
fn page_kind_from_origin_and_document() {
    let manga = Page::from_str("https://readmanganato.com/manga-lt989154/chapter-21").unwrap();
    assert_eq!(manga.check_visual(), Some(true));
    let unknown = fetched("https://example.com/x", "<div><p>a</p></div>", 0);
    assert_eq!(unknown.check_visual(), Some(true));
    let mut many = String::from("<div>");
    for i in 0..20 {
        many.push_str(&format!("<p>{}</p>", i));
    }
    many.push_str("</div>");
    let text = fetched("https://example.com/x", &many, 0);
    assert_eq!(text.check_visual(), Some(false));
}
