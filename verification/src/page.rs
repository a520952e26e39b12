//! One web resource: its location, the request bound to it, and the cache of
//! what was last fetched from it, with the document heuristics on that cache.

use vstd::prelude::*;
use crate::dom::{html_nodes, Dom, NodeView};
use crate::error::Error;
use crate::heuristics::{cluster, cluster_of, title_guess, title_of, Cluster};
use crate::label::Label;
use crate::location::{
    index_guess, index_url, position_of, position_triple, url_parts, UrlParts, UrlPartsView,
    MAX_POSITION,
};
use crate::text::{contains, contains_text, views};

verus! {

/// A prepared HTTP GET request: the address and the header lines to send.
#[derive(Debug)]
pub struct Request {
    pub url: String,
    pub headers: Vec<(String, String)>,
}

/// The age in milliseconds beyond which a fetched page counts as old, where
/// the caller names none.
pub const DEFAULT_MAX_AGE: u64 = 10_000;

/// Below this number of paragraph fragments a page of an unknown site is
/// taken for a page of images.
pub const VISUAL_BELOW: usize = 20;

/// A web resource and the cache of its last fetch.
#[derive(Debug)]
pub struct Page {
    /// Where the resource is.
    pub loc: UrlParts,
    /// When the resource was last fetched, in milliseconds.
    pub last: u64,
    /// The body of the last fetch.
    pub html: Option<String>,
    /// The body of the last fetch, parsed.
    pub doc: Option<Dom>,
    /// The request that a refresh executes.
    pub req: Option<Request>,
    /// Whether the cache holds the result of a fetch.
    pub full: bool,
}

/// The path segments of a URL; none where the URL cannot be a base.
pub open spec fn segments_of(loc: UrlPartsView) -> Seq<Seq<char>> {
    match loc.segments {
        Some(s) => s,
        None => Seq::empty(),
    }
}

/// Whether the origin names a site known for text.
pub open spec fn is_text_site(origin: Seq<char>) -> bool {
    contains_text(origin, "novel"@) || contains_text(origin, "royalroad"@) || contains_text(
        origin,
        "manganov"@,
    ) || contains_text(origin, "comrademao"@)
}

/// Whether the origin names a site known for images.
pub open spec fn is_image_site(origin: Seq<char>) -> bool {
    contains_text(origin, "manga"@) || contains_text(origin, "scans"@) || contains_text(
        origin,
        "hentai"@,
    ) || contains_text(origin, "pururin"@) || contains_text(origin, "luscious"@)
}

/// Whether a site shows images rather than text: what its origin says where
/// it is known for one of the two only, else whether the page holds fewer
/// than twenty paragraph fragments; undecided where the fragments are needed
/// and not known.
pub open spec fn visual_of(origin: Seq<char>, fragments: Option<nat>) -> Option<bool> {
    if is_text_site(origin) && !is_image_site(origin) {
        Some(false)
    } else if is_image_site(origin) && !is_text_site(origin) {
        Some(true)
    } else {
        match fragments {
            Some(n) => Some(n < VISUAL_BELOW),
            None => None,
        }
    }
}

/// Decides whether a site shows images rather than text, from its origin and
/// the number of paragraph fragments of one of its pages.
pub fn classify(origin: &str, fragments: Option<usize>) -> (r: Option<bool>)
    ensures
        r == visual_of(
            origin@,
            match fragments {
                Some(n) => Some(n as nat),
                None => None,
            },
        ),
{
    let text = contains(origin, "novel") || contains(origin, "royalroad") || contains(
        origin,
        "manganov",
    ) || contains(origin, "comrademao");
    let image = contains(origin, "manga") || contains(origin, "scans") || contains(
        origin,
        "hentai",
    ) || contains(origin, "pururin") || contains(origin, "luscious");
    if text && !image {
        Some(false)
    } else if image && !text {
        Some(true)
    } else {
        match fragments {
            Some(n) => Some(n < VISUAL_BELOW),
            None => None,
        }
    }
}

impl Page {
    /// The parsed document of the cache; none where nothing is cached.
    pub open spec fn nodes(&self) -> Option<Seq<NodeView>> {
        match self.doc {
            Some(d) => Some(d@),
            None => None,
        }
    }

    /// Whether the cache is consistent: a parsed document stands beside the
    /// body it was parsed from, and a full cache holds both.
    pub open spec fn wf(&self) -> bool {
        &&& self.html.is_some() == self.doc.is_some()
        &&& self.full ==> self.html.is_some()
        &&& self.html.is_some() ==> self.doc.unwrap()@ == html_nodes(self.html.unwrap()@)
    }

    /// Whether the page is as `from_str` makes it: nothing requested, nothing
    /// cached.
    pub open spec fn is_unrequested(&self) -> bool {
        &&& self.html.is_none()
        &&& self.doc.is_none()
        &&& self.req.is_none()
        &&& !self.full
        &&& self.last == 0
    }

    /// The page at the URL that `text` stands for, with nothing requested and
    /// nothing cached.
    pub fn from_str(text: &str) -> (r: Result<Page, Error>)
        ensures
            match r {
                Ok(p) => url_parts(text@) == Some(p.loc@) && p.is_unrequested() && p.wf(),
                Err(e) => e == Error::UrlParse && url_parts(text@).is_none(),
            },
    {
        match UrlParts::parse(text) {
            Ok(loc) => Ok(Page::at(loc)),
            Err(e) => Err(e),
        }
    }

    /// The page at a parsed URL, with nothing requested and nothing cached.
    pub fn at(loc: UrlParts) -> (r: Page)
        ensures
            r.loc == loc,
            r.is_unrequested(),
            r.wf(),
    {
        Page { loc, last: 0, html: None, doc: None, req: None, full: false }
    }

    /// Binds a prepared request to the page. What is cached stays, but no
    /// longer counts as the result of a fetch.
    pub fn request(&mut self, re: Request)
        ensures
            final(self).req == Some(re),
            !final(self).full,
            final(self).loc == old(self).loc,
            final(self).last == old(self).last,
            final(self).html == old(self).html,
            final(self).doc == old(self).doc,
    {
        self.req = Some(re);
        self.full = false;
    }

    /// Stores the body that executing the bound request at the time `now`
    /// gave, and parses it. Without a bound request nothing is stored.
    pub fn refresh(&mut self, body: String, now: u64) -> (r: Result<(), Error>)
        ensures
            match r {
                Ok(_) => {
                    &&& old(self).req.is_some()
                    &&& is_refreshed(*old(self), *final(self), body, now as int)
                    &&& forall|max_age: int|
                        max_age >= 0 ==> !final(self).stale_at(now as int, max_age)
                },
                Err(e) => {
                    &&& e == Error::RequestNotPrepared
                    &&& old(self).req.is_none()
                    &&& *final(self) == *old(self)
                },
            },
    {
        if self.req.is_none() {
            return Err(Error::RequestNotPrepared);
        }
        let doc = Dom::parse(body.as_str());
        self.doc = Some(doc);
        self.html = Some(body);
        self.last = now;
        self.full = true;
        Ok(())
    }

    /// Whether at the time `now` the cache is older than `max_age` or does
    /// not hold the result of a fetch.
    pub open spec fn stale_at(&self, now: int, max_age: int) -> bool {
        !self.full || self.last + max_age < now
    }

    /// Whether at the time `now` the cache is older than `max_age`, ten
    /// seconds where none is given, or does not hold the result of a fetch.
    /// Times are in milliseconds.
    pub fn is_old(&self, now: u64, max_age: Option<u64>) -> (r: bool)
        ensures
            r == self.stale_at(
                now as int,
                match max_age {
                    Some(d) => d as int,
                    None => DEFAULT_MAX_AGE as int,
                },
            ),
    {
        let age = match max_age {
            Some(d) => d,
            None => DEFAULT_MAX_AGE,
        };
        !self.full || (now > self.last && now - self.last > age)
    }

    /// Drops what is cached.
    pub fn empty(&mut self)
        ensures
            final(self).html.is_none(),
            final(self).doc.is_none(),
            !final(self).full,
            final(self).wf(),
            final(self).loc == old(self).loc,
            final(self).last == old(self).last,
            final(self).req == old(self).req,
    {
        self.html = None;
        self.doc = None;
        self.full = false;
    }

    /// The host of the page, by which its requests are paced.
    pub fn domain(&self) -> (r: Result<String, Error>)
        ensures
            match r {
                Ok(h) => self.loc@.host == Some(h@),
                Err(e) => e == Error::NoHost && self.loc@.host.is_none(),
            },
    {
        match self.loc.domain() {
            Ok(h) => Ok(h.clone()),
            Err(e) => Err(e),
        }
    }

    /// The text of the guess at the index page's URL.
    pub open spec fn index_text(&self) -> Seq<char> {
        index_url(self.loc@.origin, segments_of(self.loc@))
    }

    /// The page that is guessed to list the chapters of the work, with
    /// nothing requested and nothing cached. The guess is not validated.
    pub fn index(&self) -> (r: Result<Page, Error>)
        ensures
            match r {
                Ok(p) => url_parts(self.index_text()) == Some(p.loc@) && p.is_unrequested()
                    && p.wf(),
                Err(e) => e == Error::UrlParse && url_parts(self.index_text()).is_none(),
            },
    {
        let text = match &self.loc.segments {
            Some(s) => index_guess(self.loc.origin.as_str(), s),
            None => {
                let none: Vec<String> = Vec::new();
                assert(views(none@) =~= Seq::<Seq<char>>::empty());
                index_guess(self.loc.origin.as_str(), &none)
            },
        };
        Page::from_str(text.as_str())
    }

    /// The position that the page's URL stands for.
    pub fn get_place(&self) -> (r: (u16, u16, String))
        ensures
            (r.0 as nat, r.1 as nat, r.2@) == position_of(segments_of(self.loc@)),
            r.0 <= MAX_POSITION,
            r.1 <= MAX_POSITION,
    {
        match &self.loc.segments {
            Some(s) => position_triple(s),
            None => {
                let none: Vec<String> = Vec::new();
                assert(views(none@) =~= Seq::<Seq<char>>::empty());
                position_triple(&none)
            },
        }
    }

    /// What a cluster heuristic finds in the cached document; none where
    /// nothing is cached.
    pub open spec fn found(&self, kind: Cluster) -> Option<Seq<Seq<char>>> {
        match self.nodes() {
            Some(nodes) => Some(cluster_of(nodes, kind)),
            None => None,
        }
    }

    /// Runs a cluster heuristic on the cached document.
    fn find(&self, kind: Cluster) -> (r: Option<Vec<String>>)
        ensures
            match r {
                Some(v) => self.found(kind) == Some(views(v@)),
                None => self.found(kind).is_none(),
            },
    {
        match &self.doc {
            Some(d) => Some(cluster(d, kind)),
            None => None,
        }
    }

    /// The text of each child of the container that holds the most nodes
    /// among those with paragraphs directly inside.
    pub fn text(&self) -> (r: Option<Vec<String>>)
        ensures
            match r {
                Some(v) => self.found(Cluster::Paragraphs) == Some(views(v@)),
                None => self.found(Cluster::Paragraphs).is_none(),
            },
    {
        self.find(Cluster::Paragraphs)
    }

    /// The addresses of the links below the container that holds the most
    /// links: the chapters, on an index page.
    pub fn chaps(&self) -> (r: Option<Vec<String>>)
        ensures
            match r {
                Some(v) => self.found(Cluster::Links) == Some(views(v@)),
                None => self.found(Cluster::Links).is_none(),
            },
    {
        self.find(Cluster::Links)
    }

    /// The addresses of the images of the container that holds the most
    /// images directly inside.
    pub fn images(&self) -> (r: Option<Vec<String>>)
        ensures
            match r {
                Some(v) => self.found(Cluster::Images) == Some(views(v@)),
                None => self.found(Cluster::Images).is_none(),
            },
    {
        self.find(Cluster::Images)
    }

    /// The content that the page lists: the addresses of its images where the
    /// work is visual, else its paragraphs.
    pub fn get_content(&self, visual: bool) -> (r: Option<Vec<String>>)
        ensures
            match r {
                Some(v) => self.found(
                    if visual {
                        Cluster::Images
                    } else {
                        Cluster::Paragraphs
                    },
                ) == Some(views(v@)),
                None => self.nodes().is_none(),
            },
    {
        if visual {
            self.images()
        } else {
            self.text()
        }
    }

    /// The title that the cached document suggests; none where nothing is
    /// cached or the document has no title.
    pub open spec fn title_text(&self) -> Option<Seq<char>> {
        match self.nodes() {
            Some(nodes) => title_of(nodes),
            None => None,
        }
    }

    /// The title of the work, as the cached document suggests it.
    pub fn title(&self) -> (r: Option<Label>)
        ensures
            match r {
                Some(l) => self.title_text() == Some(l@),
                None => self.title_text().is_none(),
            },
    {
        match &self.doc {
            Some(d) => match title_guess(d) {
                Some(t) => Some(Label::new(t)),
                None => None,
            },
            None => None,
        }
    }

    /// Whether the work is visual, by the page's origin and cached document.
    pub open spec fn visual(&self) -> Option<bool> {
        visual_of(
            self.loc@.origin,
            match self.found(Cluster::Paragraphs) {
                Some(v) => Some(v.len()),
                None => None,
            },
        )
    }

    /// Decides whether the work is one of images rather than of text; none
    /// where the origin does not decide and nothing is cached.
    pub fn check_visual(&self) -> (r: Option<bool>)
        ensures
            r == self.visual(),
    {
        let fragments = match self.text() {
            Some(v) => {
                assert(views(v@).len() == v@.len());
                Some(v.len())
            },
            None => None,
        };
        classify(self.loc.origin.as_str(), fragments)
    }
}

/// Whether `after` is the page `before` with the body `body`, fetched at the
/// time `now`, stored and parsed in its cache.
pub open spec fn is_refreshed(before: Page, after: Page, body: String, now: int) -> bool {
    &&& after.loc == before.loc
    &&& after.req == before.req
    &&& after.html == Some(body)
    &&& after.nodes() == Some(html_nodes(body@))
    &&& after.full
    &&& after.last == now
    &&& after.wf()
}

/// A cache that holds the result of a fetch is not old at the time of the
/// fetch, whatever the age allowed, and is old at every time later than the
/// fetch by more than that age.
pub proof fn lemma_fresh_then_stale(page: Page, max_age: int, later: int)
    requires
        page.full,
        max_age >= 0,
        later > page.last + max_age,
    ensures
        !page.stale_at(page.last as int, max_age),
        page.stale_at(later, max_age),
{
}

} // verus!
