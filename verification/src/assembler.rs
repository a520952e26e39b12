//! Assembling a book from a seed address. The library decides what to fetch
//! next and what to make of each answer; the caller fetches.

use vstd::prelude::*;
use crate::book::{id_of, key_of, Book, Content, MediaData};
use crate::delay::{grant_of, granted, MIN_INTERVAL};
use crate::error::Error;
use crate::dom::{html_nodes, NodeView};
use crate::heuristics::{cluster_of, title_of, Cluster};
use crate::label::Label;
use crate::location::{position_of, resolved, url_parts, UrlParts, UrlPartsView};
use crate::num::Num;
use crate::page::{is_refreshed, segments_of, visual_of, Page};
use crate::retriever::{lines, request_lines, Headers, Retriever};
use crate::text::{join, joined, str_eq, views};

verus! {

/// What a page is fetched for.
#[derive(Clone, Copy, Debug, PartialEq, Eq, Structural)]
pub enum Target {
    /// The page at the seed address.
    Seed,
    /// The page that lists the chapters.
    Index,
    /// The page of one chapter.
    Chapter,
    /// One image of a chapter.
    Image,
}

/// What a fetch gave.
#[derive(Debug)]
pub enum Outcome {
    /// The body of a page, as text.
    Body(String),
    /// The bytes of an image.
    Bytes(Vec<u8>),
    /// Nothing: the transport failed or timed out.
    Failed,
}

/// A fetch to perform: after `wait` milliseconds, execute the request that
/// is bound to `page`.
#[derive(Debug)]
pub struct Fetch {
    pub target: Target,
    pub page: Page,
    pub wait: u64,
}

/// The answer to a fetch: the page it was for, what it gave, and when.
#[derive(Debug)]
pub struct Event {
    pub target: Target,
    pub page: Page,
    pub outcome: Outcome,
    pub now: u64,
}

/// The parts of the page that a link found at `base` is fetched from; none
/// where the link stands for no URL or for one without a host.
pub open spec fn target_of(base: Seq<char>, link: Seq<char>) -> Option<UrlPartsView> {
    match resolved(base, link) {
        Some(parts) => if parts.host.is_some() {
            Some(parts)
        } else {
            None
        },
        None => None,
    }
}

/// The pages to fetch for the first `n` links, in the order of the links.
pub open spec fn targets_upto(base: Seq<char>, links: Seq<Seq<char>>, n: int) -> Seq<
    UrlPartsView,
>
    decreases n,
{
    if n <= 0 {
        Seq::empty()
    } else if target_of(base, links[n - 1]).is_some() {
        targets_upto(base, links, n - 1).push(target_of(base, links[n - 1]).unwrap())
    } else {
        targets_upto(base, links, n - 1)
    }
}

/// Those of the first `n` links for which no page can be fetched.
pub open spec fn untargeted_upto(base: Seq<char>, links: Seq<Seq<char>>, n: int) -> Seq<
    Seq<char>,
>
    decreases n,
{
    if n <= 0 {
        Seq::empty()
    } else if target_of(base, links[n - 1]).is_none() {
        untargeted_upto(base, links, n - 1).push(links[n - 1])
    } else {
        untargeted_upto(base, links, n - 1)
    }
}

/// The addresses of pages.
pub open spec fn hrefs(targets: Seq<UrlPartsView>) -> Seq<Seq<char>> {
    targets.map_values(|t: UrlPartsView| t.href)
}

/// The hosts of pages that have one.
pub open spec fn hosts(targets: Seq<UrlPartsView>) -> Seq<Seq<char>> {
    targets.map_values(|t: UrlPartsView| t.host.unwrap())
}

/// The record of the hosts after a request to each of `hosts`, in their
/// order, was granted at the time `now`.
pub open spec fn sites_after(state: Map<Seq<char>, u64>, hosts: Seq<Seq<char>>, now: int) -> Map<
    Seq<char>,
    u64,
>
    decreases hosts.len(),
{
    if hosts.len() == 0 {
        state
    } else {
        granted(sites_after(state, hosts.drop_last(), now), hosts.last(), now, MIN_INTERVAL as int)
    }
}

/// Whether `fetch` is the fetch of the page with the parts `parts` for
/// `target`: a request for its address, with the header lines that `headers`
/// gives its host, is bound to it, and nothing is cached.
pub open spec fn is_fetch_of(
    fetch: Fetch,
    target: Target,
    parts: UrlPartsView,
    headers: Seq<(String, Headers)>,
) -> bool {
    &&& fetch.target == target
    &&& fetch.page.loc@ == parts
    &&& parts.host.is_some()
    &&& fetch.page.req.is_some()
    &&& fetch.page.req.unwrap().url@ == parts.href
    &&& lines(fetch.page.req.unwrap().headers@) == request_lines(headers, parts.host.unwrap())
    &&& fetch.page.last == 0
    &&& fetch.page.html.is_none()
    &&& fetch.page.doc.is_none()
    &&& !fetch.page.full
}

/// Whether `fetches` are the fetches of `targets` for `target`, in their
/// order, each with the wait that the record `state` of the hosts asks for
/// after the fetches before it were granted at `now`.
pub open spec fn are_fetches_of(
    fetches: Seq<Fetch>,
    target: Target,
    targets: Seq<UrlPartsView>,
    state: Map<Seq<char>, u64>,
    now: int,
    headers: Seq<(String, Headers)>,
) -> bool {
    &&& fetches.len() == targets.len()
    &&& forall|k: int|
        0 <= k < fetches.len() ==> {
            &&& is_fetch_of(#[trigger] fetches[k], target, targets[k], headers)
            &&& now + fetches[k].wait == grant_of(
                sites_after(state, hosts(targets).take(k), now),
                hosts(targets)[k],
                now,
                MIN_INTERVAL as int,
            )
        }
}

impl Retriever {
    /// Prepares the fetches of the pages that `links`, found in the page at
    /// `base`, stand for, asked for at `now`. A link that stands for no URL,
    /// or for one without a host, is skipped and recorded in `skipped`; the
    /// address of every page to fetch is recorded in `pending`.
    pub fn plan(
        &mut self,
        base: &UrlParts,
        links: &Vec<String>,
        target: Target,
        now: u64,
        pending: &mut Vec<String>,
        skipped: &mut Vec<String>,
    ) -> (r: Vec<Fetch>)
        requires
            old(self).wf(),
        ensures
            final(self).wf(),
            final(self).headers == old(self).headers,
            are_fetches_of(
                r@,
                target,
                targets_upto(base@.href, views(links@), links@.len() as int),
                old(self).sites@,
                now as int,
                old(self).headers@,
            ),
            final(self).sites@ == sites_after(
                old(self).sites@,
                hosts(targets_upto(base@.href, views(links@), links@.len() as int)),
                now as int,
            ),
            views(final(pending)@) == views(old(pending)@) + hrefs(
                targets_upto(base@.href, views(links@), links@.len() as int),
            ),
            views(final(skipped)@) == views(old(skipped)@) + untargeted_upto(
                base@.href,
                views(links@),
                links@.len() as int,
            ),
    {
        let n = links.len();
        let mut out: Vec<Fetch> = Vec::new();
        let mut i: usize = 0;
        proof {
            assert(views(pending@) =~= views(old(pending)@) + hrefs(
                targets_upto(base@.href, views(links@), 0),
            ));
            assert(views(skipped@) =~= views(old(skipped)@) + untargeted_upto(
                base@.href,
                views(links@),
                0,
            ));
            assert(hosts(targets_upto(base@.href, views(links@), 0)) =~= Seq::<
                Seq<char>,
            >::empty());
        }
        while i < n
            invariant
                n == links@.len(),
                i <= n,
                self.wf(),
                self.headers == old(self).headers,
                are_fetches_of(
                    out@,
                    target,
                    targets_upto(base@.href, views(links@), i as int),
                    old(self).sites@,
                    now as int,
                    old(self).headers@,
                ),
                self.sites@ == sites_after(
                    old(self).sites@,
                    hosts(targets_upto(base@.href, views(links@), i as int)),
                    now as int,
                ),
                views(pending@) == views(old(pending)@) + hrefs(
                    targets_upto(base@.href, views(links@), i as int),
                ),
                views(skipped@) == views(old(skipped)@) + untargeted_upto(
                    base@.href,
                    views(links@),
                    i as int,
                ),
            decreases n - i,
        {
            let ghost done = targets_upto(base@.href, views(links@), i as int);
            let ghost missed = untargeted_upto(base@.href, views(links@), i as int);
            let ghost link = views(links@)[i as int];
            let ghost before_out = out@;
            let ghost before_pending = pending@;
            let ghost before_skipped = skipped@;
            assert(link == links@[i as int]@);
            let prepared: Option<(Page, u64)> = match base.resolve(links[i].as_str()) {
                Ok(parts) => {
                    let mut page = Page::at(parts);
                    match self.refresh(&mut page, now) {
                        Ok(wait) => Some((page, wait)),
                        Err(_) => None,
                    }
                },
                Err(_) => None,
            };
            match prepared {
                Some((page, wait)) => {
                    let ghost parts = page.loc@;
                    assert(target_of(base@.href, link) == Some(parts));
                    let ghost next = done.push(parts);
                    assert(targets_upto(base@.href, views(links@), i + 1) == next);
                    pending.push(page.loc.href.clone());
                    let fetch = Fetch { target, page, wait };
                    out.push(fetch);
                    proof {
                        assert(hosts(next) =~= hosts(done).push(parts.host.unwrap()));
                        assert(hosts(next).drop_last() =~= hosts(done));
                        assert(hosts(next).take(done.len() as int) =~= hosts(done));
                        assert(hrefs(next) =~= hrefs(done).push(parts.href));
                        assert(views(pending@) =~= views(before_pending).push(parts.href));
                        assert(views(pending@) =~= views(old(pending)@) + hrefs(next));
                        assert(untargeted_upto(base@.href, views(links@), i + 1) == missed);
                        assert forall|k: int| 0 <= k < out@.len() implies {
                            &&& is_fetch_of(#[trigger] out@[k], target, next[k], old(self).headers@)
                            &&& now + out@[k].wait == grant_of(
                                sites_after(old(self).sites@, hosts(next).take(k), now as int),
                                hosts(next)[k],
                                now as int,
                                MIN_INTERVAL as int,
                            )
                        } by {
                            if k < done.len() {
                                assert(out@[k] == before_out[k]);
                                assert(hosts(next).take(k) =~= hosts(done).take(k));
                            }
                        }
                    }
                },
                None => {
                    assert(target_of(base@.href, link).is_none());
                    skipped.push(links[i].clone());
                    proof {
                        assert(targets_upto(base@.href, views(links@), i + 1) == done);
                        assert(untargeted_upto(base@.href, views(links@), i + 1) == missed.push(
                            link,
                        ));
                        assert(views(skipped@) =~= views(before_skipped).push(link));
                        assert(views(skipped@) =~= views(old(skipped)@) + missed.push(link));
                    }
                },
            }
            i += 1;
        }
        out
    }
}

/// How far an assembly has come.
#[derive(Clone, Copy, Debug, PartialEq, Eq, Structural)]
pub enum Stage {
    /// The page at the seed address is being fetched.
    Seed,
    /// The index page is being fetched.
    Index,
    /// Chapters and images are being fetched.
    Content,
    /// Every fetch was answered: the book is complete.
    Done,
    /// The seed or the index page could not be had.
    Failed(Error),
}

/// A book in the making.
#[derive(Debug)]
pub struct Assembly {
    pub stage: Stage,
    /// The book, from the time the index page was read.
    pub book: Option<Book>,
    /// The addresses of the fetches that were not answered yet.
    pub pending: Vec<String>,
    /// The links and addresses of the items that were given up.
    pub skipped: Vec<String>,
}

impl Assembly {
    /// Whether the assembly is consistent: the book is in order, it is
    /// there once the index page was read, and nothing is pending once the
    /// assembly is done.
    pub open spec fn wf(&self) -> bool {
        &&& self.book.is_some() ==> self.book.unwrap().wf()
        &&& (self.stage == Stage::Content || self.stage == Stage::Done) ==> self.book.is_some()
        &&& (self.stage == Stage::Seed || self.stage == Stage::Index) ==> self.book.is_none()
        &&& self.stage == Stage::Done ==> self.pending@.len() == 0
    }

    /// Whether the assembly is consistent.
    pub fn check(&self) -> (r: bool)
        ensures
            r == self.wf(),
    {
        let ordered = match &self.book {
            Some(b) => b.check(),
            None => true,
        };
        let staged = match self.stage {
            Stage::Seed => self.book.is_none(),
            Stage::Index => self.book.is_none(),
            Stage::Content => self.book.is_some(),
            Stage::Done => self.book.is_some() && self.pending.len() == 0,
            Stage::Failed(_) => true,
        };
        ordered && staged
    }

    /// The number of items that were given up.
    pub fn skipped_count(&self) -> (r: usize)
        ensures
            r == self.skipped@.len(),
    {
        self.skipped.len()
    }

    /// Whether nothing is left to do: the book is complete, or the assembly
    /// failed.
    pub fn is_over(&self) -> (r: bool)
        ensures
            r == (self.stage == Stage::Done || self.stage is Failed),
    {
        match self.stage {
            Stage::Done => true,
            Stage::Failed(_) => true,
            _ => false,
        }
    }

    /// The book of an assembly that is done; none of one that failed or is
    /// still going on.
    pub fn finish(self) -> (r: Option<Book>)
        requires
            self.wf(),
        ensures
            match r {
                Some(book) => self.stage == Stage::Done && self.book == Some(book) && book.wf(),
                None => self.stage != Stage::Done,
            },
    {
        match self.stage {
            Stage::Done => self.book,
            _ => None,
        }
    }
}

/// `list` without the first occurrence of `item`.
pub open spec fn without_first(list: Seq<Seq<char>>, item: Seq<char>) -> Seq<Seq<char>>
    decreases list.len(),
{
    if list.len() == 0 {
        list
    } else if list[0] == item {
        list.drop_first()
    } else {
        seq![list[0]] + without_first(list.drop_first(), item)
    }
}

/// Taking out the entry at the place of the first occurrence takes out the
/// first occurrence.
pub proof fn lemma_without_first(list: Seq<Seq<char>>, item: Seq<char>, i: int)
    requires
        0 <= i < list.len(),
        list[i] == item,
        forall|k: int| 0 <= k < i ==> list[k] != item,
    ensures
        without_first(list, item) == list.remove(i),
    decreases i,
{
    if i == 0 {
        assert(list.remove(0) =~= list.drop_first());
    } else {
        let rest = list.drop_first();
        assert forall|k: int| 0 <= k < i - 1 implies rest[k] != item by {
            assert(rest[k] == list[k + 1]);
        }
        lemma_without_first(rest, item, i - 1);
        assert(list.remove(i) =~= seq![list[0]] + rest.remove(i - 1));
    }
}

/// A list that does not hold an item is the same without it.
pub proof fn lemma_without_absent(list: Seq<Seq<char>>, item: Seq<char>)
    requires
        !list.contains(item),
    ensures
        without_first(list, item) == list,
    decreases list.len(),
{
    if list.len() > 0 {
        assert(list[0] != item);
        let rest = list.drop_first();
        assert forall|k: int| 0 <= k < rest.len() implies rest[k] != item by {
            assert(rest[k] == list[k + 1]);
        }
        lemma_without_absent(rest, item);
        assert(seq![list[0]] + rest =~= list);
    }
}

/// Takes the first occurrence of `item` out of `list`, and says whether
/// there was one.
pub fn take_out(list: &mut Vec<String>, item: &str) -> (r: bool)
    ensures
        r == views(old(list)@).contains(item@),
        views(final(list)@) == without_first(views(old(list)@), item@),
        !r ==> *final(list) == *old(list),
{
    let n = list.len();
    let mut i: usize = 0;
    while i < n
        invariant
            n == list@.len(),
            i <= n,
            *list == *old(list),
            forall|k: int| 0 <= k < i ==> views(list@)[k] != item@,
        decreases n - i,
    {
        if str_eq(list[i].as_str(), item) {
            proof {
                assert(views(list@)[i as int] == item@);
                lemma_without_first(views(list@), item@, i as int);
            }
            list.remove(i);
            assert(views(list@) =~= views(old(list)@).remove(i as int));
            return true;
        }
        i += 1;
    }
    proof {
        lemma_without_absent(views(list@), item@);
    }
    false
}

/// Whether `fetch` is the one fetch of the page with the parts `parts` for
/// `target`, granted by the record `state` of the hosts at `now`.
pub open spec fn is_single_fetch(
    fetch: Fetch,
    target: Target,
    parts: UrlPartsView,
    state: Map<Seq<char>, u64>,
    now: int,
    headers: Seq<(String, Headers)>,
) -> bool {
    &&& is_fetch_of(fetch, target, parts, headers)
    &&& now + fetch.wait == grant_of(state, parts.host.unwrap(), now, MIN_INTERVAL as int)
}

/// Whether an assembly failed with `e` and nothing else was done: no fetch
/// is asked for and the record of the hosts is as before.
pub open spec fn has_failed(
    before: Retriever,
    after: Retriever,
    job: Assembly,
    fetches: Seq<Fetch>,
    e: Error,
) -> bool {
    &&& job.stage == Stage::Failed(e)
    &&& job.book.is_none()
    &&& fetches.len() == 0
    &&& after.sites == before.sites
}

/// What the answer for the seed page leads to. A body leads to the fetch of
/// the index page that the seed's address lets guess; anything else is a
/// failure of the network. An index address that is no URL, or has no host,
/// ends the assembly, and so does a seed page that no request was bound to.
pub open spec fn is_seed_step(
    before: Retriever,
    after: Retriever,
    page: Page,
    outcome: Outcome,
    now: int,
    job: Assembly,
    fetches: Seq<Fetch>,
) -> bool {
    match outcome {
        Outcome::Body(_) => if page.req.is_none() {
            has_failed(before, after, job, fetches, Error::RequestNotPrepared)
        } else {
            match url_parts(page.index_text()) {
                None => has_failed(before, after, job, fetches, Error::UrlParse),
                Some(parts) => if parts.host.is_none() {
                    has_failed(before, after, job, fetches, Error::NoHost)
                } else {
                    &&& job.stage == Stage::Index
                    &&& job.book.is_none()
                    &&& fetches.len() == 1
                    &&& is_single_fetch(
                        fetches[0],
                        Target::Index,
                        parts,
                        before.sites@,
                        now,
                        before.headers@,
                    )
                    &&& views(job.pending@) == seq![parts.href]
                    &&& after.sites@ == granted(
                        before.sites@,
                        parts.host.unwrap(),
                        now,
                        MIN_INTERVAL as int,
                    )
                },
            }
        },
        _ => has_failed(before, after, job, fetches, Error::Network),
    }
}

impl Retriever {
    /// Begins the assembly of the book that the page at `seed` belongs to,
    /// at the time `now`: the first fetch is that of the seed page. A seed
    /// that is no URL, or has no host, begins nothing.
    pub fn book(&mut self, seed: &str, now: u64) -> (r: Result<(Assembly, Fetch), Error>)
        requires
            old(self).wf(),
        ensures
            final(self).wf(),
            final(self).headers == old(self).headers,
            match r {
                Ok((job, fetch)) => {
                    &&& url_parts(seed@).is_some()
                    &&& is_single_fetch(
                        fetch,
                        Target::Seed,
                        url_parts(seed@).unwrap(),
                        old(self).sites@,
                        now as int,
                        old(self).headers@,
                    )
                    &&& final(self).sites@ == granted(
                        old(self).sites@,
                        url_parts(seed@).unwrap().host.unwrap(),
                        now as int,
                        MIN_INTERVAL as int,
                    )
                    &&& job.stage == Stage::Seed
                    &&& job.wf()
                    &&& views(job.pending@) == seq![url_parts(seed@).unwrap().href]
                    &&& job.skipped@.len() == 0
                },
                Err(e) => {
                    &&& final(self).sites == old(self).sites
                    &&& match url_parts(seed@) {
                        None => e == Error::UrlParse,
                        Some(parts) => e == Error::NoHost && parts.host.is_none(),
                    }
                },
            },
    {
        let mut page = match Page::from_str(seed) {
            Ok(p) => p,
            Err(e) => {
                return Err(e);
            },
        };
        let wait = match self.refresh(&mut page, now) {
            Ok(w) => w,
            Err(e) => {
                return Err(e);
            },
        };
        let mut pending: Vec<String> = Vec::new();
        pending.push(page.loc.href.clone());
        assert(views(pending@) =~= seq![page.loc@.href]);
        let job = Assembly { stage: Stage::Seed, book: None, pending, skipped: Vec::new() };
        Ok((job, Fetch { target: Target::Seed, page, wait }))
    }

    /// Takes the answer for the seed page and asks for the index page of the
    /// work: the page that the seed's address lets guess.
    pub fn index(&mut self, page: Page, outcome: Outcome, now: u64) -> (r: (Assembly, Vec<Fetch>))
        requires
            old(self).wf(),
        ensures
            final(self).wf(),
            final(self).headers == old(self).headers,
            r.0.wf(),
            r.0.skipped@.len() == 0,
            is_seed_step(*old(self), *final(self), page, outcome, now as int, r.0, r.1@),
    {
        let mut job = Assembly {
            stage: Stage::Failed(Error::Network),
            book: None,
            pending: Vec::new(),
            skipped: Vec::new(),
        };
        let mut page = page;
        let body = match outcome {
            Outcome::Body(b) => b,
            _ => {
                return (job, Vec::new());
            },
        };
        if let Err(e) = page.refresh(body, now) {
            job.stage = Stage::Failed(e);
            return (job, Vec::new());
        }
        let mut index = match page.index() {
            Ok(p) => p,
            Err(e) => {
                job.stage = Stage::Failed(e);
                return (job, Vec::new());
            },
        };
        let wait = match self.refresh(&mut index, now) {
            Ok(w) => w,
            Err(e) => {
                job.stage = Stage::Failed(e);
                return (job, Vec::new());
            },
        };
        job.stage = Stage::Index;
        job.pending.push(index.loc.href.clone());
        assert(views(job.pending@) =~= seq![index.loc@.href]);
        let mut fetches: Vec<Fetch> = Vec::new();
        fetches.push(Fetch { target: Target::Index, page: index, wait });
        (job, fetches)
    }
}

/// The title that a document gives a book: the one it suggests, or none.
pub open spec fn book_title(nodes: Seq<NodeView>) -> Seq<char> {
    match title_of(nodes) {
        Some(t) => t,
        None => Seq::empty(),
    }
}

/// What the answer for the index page leads to. A body gives the empty
/// book, with the title and the kind that the page suggests, and the
/// fetches of the chapters that its largest cluster of links names; a link
/// for which no page can be fetched is given up. Anything else than a body
/// is a failure of the network and ends the assembly, as does an index page
/// that no request was bound to.
pub open spec fn is_index_step(
    before: Retriever,
    after: Retriever,
    old_job: Assembly,
    page: Page,
    outcome: Outcome,
    now: int,
    job: Assembly,
    fetches: Seq<Fetch>,
) -> bool {
    match outcome {
        Outcome::Body(body) => if page.req.is_none() {
            &&& has_failed(before, after, job, fetches, Error::RequestNotPrepared)
            &&& job.skipped == old_job.skipped
        } else {
            let nodes = html_nodes(body@);
            let links = cluster_of(nodes, Cluster::Links);
            let targets = targets_upto(page.loc@.href, links, links.len() as int);
            &&& job.book.is_some()
            &&& job.book.unwrap().wf()
            &&& job.book.unwrap()@ == Map::<Num, Content>::empty()
            &&& job.book.unwrap().title@ == book_title(nodes)
            &&& Some(job.book.unwrap().visual) == visual_of(
                page.loc@.origin,
                Some(cluster_of(nodes, Cluster::Paragraphs).len()),
            )
            &&& job.book.unwrap().pos == 0
            &&& is_refreshed(page, job.book.unwrap().index, body, now)
            &&& are_fetches_of(
                fetches,
                Target::Chapter,
                targets,
                before.sites@,
                now,
                before.headers@,
            )
            &&& after.sites@ == sites_after(before.sites@, hosts(targets), now)
            &&& views(job.pending@) == hrefs(targets)
            &&& views(job.skipped@) == views(old_job.skipped@) + untargeted_upto(
                page.loc@.href,
                links,
                links.len() as int,
            )
            &&& job.stage == if targets.len() == 0 {
                Stage::Done
            } else {
                Stage::Content
            }
        },
        _ => {
            &&& has_failed(before, after, job, fetches, Error::Network)
            &&& job.skipped == old_job.skipped
        },
    }
}

impl Retriever {
    /// Takes the answer for the index page, begins the book and asks for
    /// its chapters.
    pub fn chapters(&mut self, job: &mut Assembly, page: Page, outcome: Outcome, now: u64) -> (r:
        Vec<Fetch>)
        requires
            old(self).wf(),
        ensures
            final(self).wf(),
            final(self).headers == old(self).headers,
            final(job).wf(),
            is_index_step(
                *old(self),
                *final(self),
                *old(job),
                page,
                outcome,
                now as int,
                *final(job),
                r@,
            ),
    {
        let mut page = page;
        job.book = None;
        job.pending = Vec::new();
        job.stage = Stage::Failed(Error::Network);
        let body = match outcome {
            Outcome::Body(b) => b,
            _ => {
                return Vec::new();
            },
        };
        if let Err(e) = page.refresh(body, now) {
            job.stage = Stage::Failed(e);
            return Vec::new();
        }
        let title = match page.title() {
            Some(l) => l,
            None => Label::untitled(),
        };
        let visual = match page.check_visual() {
            Some(v) => v,
            None => false,
        };
        let links = match page.chaps() {
            Some(l) => l,
            None => Vec::new(),
        };
        assert(views(job.pending@) =~= Seq::<Seq<char>>::empty());
        let fetches = self.plan(
            &page.loc,
            &links,
            Target::Chapter,
            now,
            &mut job.pending,
            &mut job.skipped,
        );
        proof {
            let targets = targets_upto(page.loc@.href, views(links@), links@.len() as int);
            assert(views(job.pending@) =~= hrefs(targets));
            assert(views(links@).len() == links@.len());
        }
        job.stage = if fetches.len() == 0 {
            Stage::Done
        } else {
            Stage::Content
        };
        job.book = Some(Book::new(title, page, visual));
        fetches
    }
}

/// The stage of an assembly of content with the given pending fetches.
pub open spec fn stage_for(pending: Seq<String>) -> Stage {
    if pending.len() == 0 {
        Stage::Done
    } else {
        Stage::Content
    }
}

/// Whether `job` is `old_job` with the item at `href` given up: it is
/// pending no longer and recorded as skipped, and the book is as before.
pub open spec fn is_given_up(old_job: Assembly, job: Assembly, href: Seq<char>) -> bool {
    &&& job.book == old_job.book
    &&& views(job.pending@) == without_first(views(old_job.pending@), href)
    &&& views(job.skipped@) == views(old_job.skipped@).push(href)
    &&& job.stage == stage_for(job.pending@)
}

/// Whether `after` is the book `before` with `content`, which came from the
/// page `source`, put under the key that the position of `source` gives,
/// whatever stood there.
pub open spec fn is_added(before: Book, after: Book, source: Page, content: Content) -> bool {
    &&& after.wf()
    &&& after@ == before@.insert(key_of(position_of(segments_of(source.loc@))), content)
    &&& after.title == before.title
    &&& after.index == before.index
    &&& after.visual == before.visual
    &&& after.pos == before.pos
    &&& content.id == id_of(position_of(segments_of(source.loc@)))
    &&& content.src == Some(source)
}

/// The text of a chapter: its paragraphs with an empty line between each
/// two.
pub open spec fn chapter_text(paragraphs: Seq<Seq<char>>) -> Seq<char> {
    joined(paragraphs, "\n\n"@)
}

/// What the answer for a chapter page leads to. An answer for a page that
/// is not pending changes nothing. Of a work of text, a body with
/// paragraphs gives the chapter's content, put into the book; of a work of
/// images, a body with images gives the fetches of those images. A body
/// without them, a page that no request was bound to, and anything else than
/// a body give the chapter up.
pub open spec fn is_chapter_step(
    before: Retriever,
    after: Retriever,
    old_job: Assembly,
    page: Page,
    outcome: Outcome,
    now: int,
    job: Assembly,
    fetches: Seq<Fetch>,
) -> bool {
    let href = page.loc@.href;
    if !views(old_job.pending@).contains(href) {
        &&& job == old_job
        &&& fetches.len() == 0
        &&& after.sites == before.sites
    } else {
        match outcome {
            Outcome::Body(body) => {
                let nodes = html_nodes(body@);
                if page.req.is_none() {
                    &&& is_given_up(old_job, job, href)
                    &&& fetches.len() == 0
                    &&& after.sites == before.sites
                } else if old_job.book.unwrap().visual {
                    let images = cluster_of(nodes, Cluster::Images);
                    let targets = targets_upto(href, images, images.len() as int);
                    if images.len() == 0 {
                        &&& is_given_up(old_job, job, href)
                        &&& fetches.len() == 0
                        &&& after.sites == before.sites
                    } else {
                        &&& job.book == old_job.book
                        &&& are_fetches_of(
                            fetches,
                            Target::Image,
                            targets,
                            before.sites@,
                            now,
                            before.headers@,
                        )
                        &&& after.sites@ == sites_after(before.sites@, hosts(targets), now)
                        &&& views(job.pending@) == without_first(views(old_job.pending@), href)
                            + hrefs(targets)
                        &&& views(job.skipped@) == views(old_job.skipped@) + untargeted_upto(
                            href,
                            images,
                            images.len() as int,
                        )
                        &&& job.stage == stage_for(job.pending@)
                    }
                } else {
                    let paragraphs = cluster_of(nodes, Cluster::Paragraphs);
                    if paragraphs.len() == 0 {
                        &&& is_given_up(old_job, job, href)
                        &&& fetches.len() == 0
                        &&& after.sites == before.sites
                    } else {
                        &&& fetches.len() == 0
                        &&& after.sites == before.sites
                        &&& job.book.is_some()
                        &&& exists|content: Content, source: Page|
                            {
                                &&& #[trigger] is_added(
                                    old_job.book.unwrap(),
                                    job.book.unwrap(),
                                    source,
                                    content,
                                )
                                &&& is_refreshed(page, source, body, now)
                                &&& content.data matches MediaData::Text(t) && t@ == chapter_text(
                                    paragraphs,
                                )
                            }
                        &&& views(job.pending@) == without_first(views(old_job.pending@), href)
                        &&& job.skipped == old_job.skipped
                        &&& job.stage == stage_for(job.pending@)
                    }
                }
            },
            _ => {
                &&& is_given_up(old_job, job, href)
                &&& fetches.len() == 0
                &&& after.sites == before.sites
            },
        }
    }
}

impl Assembly {
    /// Gives up the item at `href`, which is pending no longer.
    fn give_up(&mut self, href: String)
        requires
            old(self).stage == Stage::Content,
            old(self).wf(),
        ensures
            final(self).wf(),
            final(self).book == old(self).book,
            final(self).pending == old(self).pending,
            views(final(self).skipped@) == views(old(self).skipped@).push(href@),
            final(self).stage == stage_for(old(self).pending@),
    {
        let ghost before = self.skipped@;
        self.skipped.push(href);
        assert(views(self.skipped@) =~= views(before).push(href@));
        self.settle();
    }

    /// Ends the assembly where no fetch is pending.
    fn settle(&mut self)
        requires
            old(self).wf(),
            old(self).book.is_some(),
            old(self).stage == Stage::Content,
        ensures
            final(self).wf(),
            final(self).book == old(self).book,
            final(self).pending == old(self).pending,
            final(self).skipped == old(self).skipped,
            final(self).stage == stage_for(old(self).pending@),
    {
        if self.pending.len() == 0 {
            self.stage = Stage::Done;
        }
    }

    /// Puts the payload `data` that came from `page` into the book.
    fn add(&mut self, page: Page, data: MediaData)
        requires
            old(self).wf(),
            old(self).book.is_some(),
            old(self).stage == Stage::Content,
        ensures
            final(self).wf(),
            final(self).book.is_some(),
            exists|content: Content|
                {
                    &&& #[trigger] is_added(
                        old(self).book.unwrap(),
                        final(self).book.unwrap(),
                        page,
                        content,
                    )
                    &&& content.data == data
                },
            final(self).pending == old(self).pending,
            final(self).skipped == old(self).skipped,
            final(self).stage == stage_for(old(self).pending@),
    {
        let ghost source = page;
        let content = Content::from_page(page, data);
        let key = match content.key() {
            Some(k) => k,
            None => Num(0, None),
        };
        let ghost before = self.book.unwrap();
        match self.book.take() {
            Some(mut book) => {
                book.insert(key, content);
                assert(is_added(before, book, source, content));
                self.book = Some(book);
            },
            None => {},
        }
        self.settle();
    }
}

impl Retriever {
    /// Takes the answer for a chapter page: puts the chapter's text into the
    /// book, or asks for the chapter's images.
    pub fn contents(&mut self, job: &mut Assembly, page: Page, outcome: Outcome, now: u64) -> (r:
        Vec<Fetch>)
        requires
            old(self).wf(),
            old(job).wf(),
            old(job).stage == Stage::Content,
        ensures
            final(self).wf(),
            final(self).headers == old(self).headers,
            final(job).wf(),
            is_chapter_step(
                *old(self),
                *final(self),
                *old(job),
                page,
                outcome,
                now as int,
                *final(job),
                r@,
            ),
    {
        let mut page = page;
        let href = page.loc.href.clone();
        if !take_out(&mut job.pending, href.as_str()) {
            return Vec::new();
        }
        let body = match outcome {
            Outcome::Body(b) => b,
            _ => {
                job.give_up(href);
                return Vec::new();
            },
        };
        if page.refresh(body, now).is_err() {
            job.give_up(href);
            return Vec::new();
        }
        let visual = match &job.book {
            Some(b) => b.visual,
            None => false,
        };
        if visual {
            let images = match page.images() {
                Some(l) => l,
                None => Vec::new(),
            };
            if images.len() == 0 {
                job.give_up(href);
                return Vec::new();
            }
            let fetches = self.plan(
                &page.loc,
                &images,
                Target::Image,
                now,
                &mut job.pending,
                &mut job.skipped,
            );
            assert(views(images@).len() == images@.len());
            job.settle();
            fetches
        } else {
            let paragraphs = match page.text() {
                Some(l) => l,
                None => Vec::new(),
            };
            if paragraphs.len() == 0 {
                job.give_up(href);
                return Vec::new();
            }
            assert(views(paragraphs@).len() == paragraphs@.len());
            let text = join(&paragraphs, "\n\n");
            job.add(page, MediaData::Text(text));
            Vec::new()
        }
    }
}

/// What the answer for an image leads to. An answer for an image that is
/// not pending changes nothing. Bytes give the image's content, put into the
/// book; anything else gives the image up.
pub open spec fn is_image_step(old_job: Assembly, page: Page, outcome: Outcome, job: Assembly)
    -> bool {
    let href = page.loc@.href;
    if !views(old_job.pending@).contains(href) {
        job == old_job
    } else {
        match outcome {
            Outcome::Bytes(bytes) => {
                &&& job.book.is_some()
                &&& exists|content: Content|
                    {
                        &&& #[trigger] is_added(
                            old_job.book.unwrap(),
                            job.book.unwrap(),
                            page,
                            content,
                        )
                        &&& content.data == MediaData::Picture(bytes)
                    }
                &&& views(job.pending@) == without_first(views(old_job.pending@), href)
                &&& job.skipped == old_job.skipped
                &&& job.stage == stage_for(job.pending@)
            },
            _ => is_given_up(old_job, job, href),
        }
    }
}

impl Assembly {
    /// Takes the answer for an image and puts the image into the book.
    pub fn image(&mut self, page: Page, outcome: Outcome)
        requires
            old(self).wf(),
            old(self).stage == Stage::Content,
        ensures
            final(self).wf(),
            is_image_step(*old(self), page, outcome, *final(self)),
    {
        let href = page.loc.href.clone();
        if !take_out(&mut self.pending, href.as_str()) {
            return ;
        }
        match outcome {
            Outcome::Bytes(bytes) => {
                self.add(page, MediaData::Picture(bytes));
            },
            _ => {
                self.give_up(href);
            },
        }
    }
}

/// What an answer leads to: the step of the stage that the assembly is in,
/// where the answer is one for that stage; else nothing.
pub open spec fn is_step(
    before: Retriever,
    after: Retriever,
    old_job: Assembly,
    event: Event,
    job: Assembly,
    fetches: Seq<Fetch>,
) -> bool {
    match (old_job.stage, event.target) {
        (Stage::Seed, Target::Seed) => {
            &&& is_seed_step(
                before,
                after,
                event.page,
                event.outcome,
                event.now as int,
                job,
                fetches,
            )
            &&& job.skipped == old_job.skipped
        },
        (Stage::Index, Target::Index) => is_index_step(
            before,
            after,
            old_job,
            event.page,
            event.outcome,
            event.now as int,
            job,
            fetches,
        ),
        (Stage::Content, Target::Chapter) => is_chapter_step(
            before,
            after,
            old_job,
            event.page,
            event.outcome,
            event.now as int,
            job,
            fetches,
        ),
        (Stage::Content, Target::Image) => {
            &&& is_image_step(old_job, event.page, event.outcome, job)
            &&& fetches.len() == 0
            &&& after.sites == before.sites
        },
        _ => {
            &&& job == old_job
            &&& fetches.len() == 0
            &&& after.sites == before.sites
        },
    }
}

impl Retriever {
    /// Takes the answer to a fetch and says what to fetch next. The assembly
    /// is over once its stage is done or failed.
    pub fn advance(&mut self, job: &mut Assembly, event: Event) -> (r: Vec<Fetch>)
        requires
            old(self).wf(),
            old(job).wf(),
        ensures
            final(self).wf(),
            final(self).headers == old(self).headers,
            final(job).wf(),
            is_step(*old(self), *final(self), *old(job), event, *final(job), r@),
    {
        let Event { target, page, outcome, now } = event;
        match (job.stage, target) {
            (Stage::Seed, Target::Seed) => {
                let (next, fetches) = self.index(page, outcome, now);
                job.stage = next.stage;
                job.book = next.book;
                job.pending = next.pending;
                fetches
            },
            (Stage::Index, Target::Index) => self.chapters(job, page, outcome, now),
            (Stage::Content, Target::Chapter) => self.contents(job, page, outcome, now),
            (Stage::Content, Target::Image) => {
                job.image(page, outcome);
                Vec::new()
            },
            _ => Vec::new(),
        }
    }
}

} // verus!
