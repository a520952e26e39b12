use pagepal::dom::Dom;
use pagepal::heuristics::{best_container, cluster, collect, title_guess, Cluster};

fn texts(items: &[&str]) -> Vec<String> {
    items.iter().map(|p| p.to_string()).collect()
}

#[test]
fn parser_gives_nodes_in_document_order() {
    let dom = Dom::parse("<html><head><title>T</title></head><body><div id=\"x\"><p>a</p></div></body></html>");
    let tags: Vec<Option<String>> = dom.nodes.iter().map(|n| n.tag.clone()).collect();
    assert_eq!(
        tags,
        vec![
            Some("html".to_string()),
            Some("head".to_string()),
            Some("title".to_string()),
            None,
            Some("body".to_string()),
            Some("div".to_string()),
            Some("p".to_string()),
            None,
        ]
    );
    assert_eq!(dom.len(), 8);
    assert_eq!(dom.nodes[0].parent, None);
    assert_eq!(dom.nodes[2].parent, Some(1));
    assert_eq!(dom.nodes[6].parent, Some(5));
    assert_eq!(dom.nodes[7].parent, Some(6));
    assert_eq!(dom.nodes[5].attrs, vec![("id".to_string(), "x".to_string())]);
    assert_eq!(dom.nodes[5].text, "a");
    assert_eq!(dom.nodes[0].text, "Ta");
    assert_eq!(dom.nodes[3].text, "T");
}

#[test]
fn paragraphs_of_the_container_with_the_most_children() {
    let dom = Dom::parse(
        "<body><div><p>a</p><p>b</p></div><div><p>c</p><p>d</p><p>e</p></div></body>",
    );
    assert_eq!(cluster(&dom, Cluster::Paragraphs), texts(&["c", "d", "e"]));
}

#[test]
fn paragraphs_count_every_child_of_the_container() {
    let dom = Dom::parse(
        "<body><div><p>a</p><p>b</p><p>c</p></div><div><p>x</p><span>y</span><b>z</b><i>w</i></div></body>",
    );
    assert_eq!(cluster(&dom, Cluster::Paragraphs), texts(&["x", "y", "z", "w"]));
}

#[test]
fn first_of_equally_large_paragraph_containers_is_chosen() {
    let dom = Dom::parse("<body><div><p>a</p><p>b</p></div><div><p>c</p><p>d</p></div></body>");
    assert_eq!(cluster(&dom, Cluster::Paragraphs), texts(&["a", "b"]));
}

#[test]
fn paragraph_text_holds_what_stands_below_the_paragraph() {
    let dom = Dom::parse("<body><div><p>one <b>two</b> three</p><p></p></div></body>");
    assert_eq!(cluster(&dom, Cluster::Paragraphs), texts(&["one two three", ""]));
}

#[test]
fn paragraphs_need_a_container() {
    let dom = Dom::parse("<body><p>a</p><p>b</p><section><p>c</p></section></body>");
    assert_eq!(cluster(&dom, Cluster::Paragraphs), Vec::<String>::new());
    assert_eq!(best_container(&dom, Cluster::Paragraphs), None);
}

#[test]
fn links_of_the_container_with_the_most_links() {
    let dom = Dom::parse(
        "<body><div><p><a href=\"/about\">about</a></p></div>\
         <div><ul><li><a href=\"chapter-1\">1</a></li><li><a href=\"chapter-2\">2</a></li>\
         <li><a href=\"chapter-3\">3</a></li></ul></div></body>",
    );
    assert_eq!(cluster(&dom, Cluster::Links), texts(&["chapter-1", "chapter-2", "chapter-3"]));
}

#[test]
fn links_without_address_count_but_are_left_out() {
    let dom = Dom::parse(
        "<body><div><ul><li><a href=\"x\">x</a></li><li><a href=\"y\">y</a></li></ul></div>\
         <div><table><tr><td><a>n</a><a name=\"m\">m</a><a href=\"z\">z</a></td></tr></table></div></body>",
    );
    assert_eq!(cluster(&dom, Cluster::Links), texts(&["z"]));
}

#[test]
fn last_of_equally_large_link_containers_is_chosen() {
    let dom = Dom::parse(
        "<body><div><p><a href=\"a\">a</a></p></div><div><p><a href=\"b\">b</a></p></div></body>",
    );
    assert_eq!(cluster(&dom, Cluster::Links), texts(&["b"]));
    let nested = Dom::parse(
        "<body><div id=\"outer\"><a href=\"head\">h</a><div id=\"inner\"><ul><li><a href=\"c1\">1</a></li></ul></div></div></body>",
    );
    assert_eq!(cluster(&nested, Cluster::Links), texts(&["head", "c1"]));
}

#[test]
fn links_need_a_container_with_paragraph_table_or_list() {
    let dom = Dom::parse("<body><div><a href=\"a\">a</a><span><a href=\"b\">b</a></span></div></body>");
    assert_eq!(cluster(&dom, Cluster::Links), Vec::<String>::new());
}

#[test]
fn images_of_the_container_with_the_most_images() {
    let dom = Dom::parse(
        "<body><div><img src=\"logo.png\"></div>\
         <div><img src=\"first.jpg\"><img src=\"second.jpg\"><img alt=\"none\"><span><img src=\"deep.jpg\"></span></div></body>",
    );
    assert_eq!(cluster(&dom, Cluster::Images), texts(&["first.jpg", "second.jpg"]));
}

#[test]
fn last_of_equally_large_image_containers_is_chosen() {
    let dom = Dom::parse(
        "<body><div><img src=\"a.jpg\"></div><div><img src=\"b.jpg\"></div></body>",
    );
    assert_eq!(cluster(&dom, Cluster::Images), texts(&["b.jpg"]));
}

#[test]
fn document_without_candidates_gives_nothing() {
    let dom = Dom::parse("<html><body><span>nothing here</span></body></html>");
    assert_eq!(cluster(&dom, Cluster::Paragraphs), Vec::<String>::new());
    assert_eq!(cluster(&dom, Cluster::Links), Vec::<String>::new());
    assert_eq!(cluster(&dom, Cluster::Images), Vec::<String>::new());
    let empty = Dom::parse("");
    assert_eq!(cluster(&empty, Cluster::Links), Vec::<String>::new());
}

#[test]
fn chosen_container_and_its_members() {
    let dom = Dom::parse("<body><div><p>a</p></div><div><p>b</p><p>c</p></div></body>");
    let best = best_container(&dom, Cluster::Paragraphs).unwrap();
    assert_eq!(dom.nodes[best].tag, Some("div".to_string()));
    assert_eq!(dom.nodes[best].text, "bc");
    assert_eq!(collect(&dom, Cluster::Paragraphs, best), texts(&["b", "c"]));
}

#[test]
fn title_is_cut_before_the_chapter() {
    let dom = Dom::parse("<html><head><title>Solo Leveling Chapter 21 - Read</title></head><body></body></html>");
    assert_eq!(title_guess(&dom), Some("Solo Leveling".to_string()));
}

#[test]
fn title_without_marker_is_kept_whole() {
    let dom = Dom::parse("<html><head><title>The Wandering Inn</title></head><body></body></html>");
    assert_eq!(title_guess(&dom), Some("The Wandering Inn".to_string()));
}

#[test]
fn document_without_title_has_none() {
    let dom = Dom::parse("<html><head></head><body><p>text</p></body></html>");
    assert_eq!(title_guess(&dom), None);
}

#[test]
fn first_title_element_counts() {
    let dom = Dom::parse(
        "<html><head><title>First</title></head><body><svg><title>Second</title></svg></body></html>",
    );
    assert_eq!(title_guess(&dom), Some("First".to_string()));
}
