use pagepal::error::Error;
use pagepal::page::Page;
use pagepal::retriever::{Headers, Retriever};

fn line(name: &str, value: &str) -> (String, String) {
    (name.to_string(), value.to_string())
}

#[test]
fn default_headers_hold_the_referer() {
    assert_eq!(Headers::default().headers, vec![line("referer", "https://manganato.com/")]);
}

#[test]
fn headers_of_a_host_or_the_default() {
    let mut retriever = Retriever::new();
    retriever.headers.push((
        "example.com".to_string(),
        Headers { headers: vec![line("referer", "https://example.com/"), line("accept", "*/*")] },
    ));
    retriever.headers.push(("example.com".to_string(), Headers { headers: vec![] }));
    assert_eq!(
        retriever.headers_for("example.com").headers,
        vec![line("referer", "https://example.com/"), line("accept", "*/*")]
    );
    assert_eq!(
        retriever.headers_for("other.org").headers,
        vec![line("referer", "https://manganato.com/")]
    );
}

#[test]
fn request_is_bound_with_the_headers_of_the_host() {
    let retriever = Retriever::new();
    let mut page = Page::from_str("https://example.com/series").unwrap();
    assert_eq!(retriever.dl(&mut page), Ok(()));
    let request = page.req.as_ref().unwrap();
    assert_eq!(request.url, "https://example.com/series");
    assert_eq!(request.headers, vec![line("referer", "https://manganato.com/")]);
    assert!(!page.full);
}

#[test]
fn page_without_host_gets_no_request() {
    let mut retriever = Retriever::new();
    let mut page = Page::from_str("data:text/plain,hi").unwrap();
    assert_eq!(retriever.dl(&mut page), Err(Error::NoHost));
    assert!(page.req.is_none());
    assert_eq!(retriever.access(&page, 5), Err(Error::NoHost));
    assert_eq!(retriever.refresh(&mut page, 5), Err(Error::NoHost));
    assert!(retriever.sites.entries.is_empty());
}

#[test]
fn access_paces_by_the_host_of_the_page() {
    let mut retriever = Retriever::new();
    let a = Page::from_str("https://example.com/a").unwrap();
    let b = Page::from_str("https://example.com/b").unwrap();
    let c = Page::from_str("https://other.org/c").unwrap();
    assert_eq!(retriever.access(&a, 1000), Ok(0));
    assert_eq!(retriever.access(&b, 1000), Ok(2000));
    assert_eq!(retriever.access(&c, 1000), Ok(0));
    assert_eq!(retriever.access(&a, 6000), Ok(0));
}

#[test]
fn refresh_binds_a_request_to_a_page_that_is_not_full() {
    let mut retriever = Retriever::new();
    let mut page = Page::from_str("https://example.com/a").unwrap();
    assert_eq!(retriever.refresh(&mut page, 100), Ok(0));
    assert!(page.req.is_some());
    page.refresh("<p>x</p>".to_string(), 100).unwrap();
    assert!(page.full);
    assert_eq!(retriever.refresh(&mut page, 200), Ok(1900));
    assert!(page.full);
    assert_eq!(page.html, Some("<p>x</p>".to_string()));
}
