//! Preparing the requests for pages: the headers that a host is sent, and
//! the pacing of the requests to it.

use vstd::prelude::*;
use crate::delay::{grant_of, Sites, MIN_INTERVAL};
use crate::error::Error;
use crate::page::{Page, Request};
use crate::text::str_eq;

verus! {

/// The header lines that the requests to a host carry.
#[derive(Debug)]
pub struct Headers {
    pub headers: Vec<(String, String)>,
}

/// The lines of a set of headers as mathematical values.
pub open spec fn lines(headers: Seq<(String, String)>) -> Seq<(Seq<char>, Seq<char>)> {
    headers.map_values(|h: (String, String)| (h.0@, h.1@))
}

impl Headers {
    /// The headers for a host that has none of its own: a referer.
    pub fn default() -> (r: Headers)
        ensures
            lines(r.headers@) == seq![("referer"@, "https://manganato.com/"@)],
    {
        let mut headers: Vec<(String, String)> = Vec::new();
        headers.push((String::from_str("referer"), String::from_str("https://manganato.com/")));
        assert(lines(headers@) =~= seq![("referer"@, "https://manganato.com/"@)]);
        Headers { headers }
    }

    /// A copy of the headers.
    pub fn duplicate(&self) -> (r: Headers)
        ensures
            lines(r.headers@) == lines(self.headers@),
    {
        let mut out: Vec<(String, String)> = Vec::new();
        let mut i: usize = 0;
        while i < self.headers.len()
            invariant
                i <= self.headers@.len(),
                lines(out@) == lines(self.headers@).take(i as int),
            decreases self.headers@.len() - i,
        {
            let ghost before = out@;
            out.push((self.headers[i].0.clone(), self.headers[i].1.clone()));
            assert(lines(out@) =~= lines(before).push(
                (self.headers@[i as int].0@, self.headers@[i as int].1@),
            ));
            assert(lines(out@) =~= lines(self.headers@).take(i + 1));
            i += 1;
        }
        assert(lines(self.headers@).take(self.headers@.len() as int) =~= lines(self.headers@));
        Headers { headers: out }
    }
}

/// The lines of the first entry for `host`; none where no entry names it.
pub open spec fn headers_of(entries: Seq<(String, Headers)>, host: Seq<char>) -> Option<
    Seq<(Seq<char>, Seq<char>)>,
>
    decreases entries.len(),
{
    if entries.len() == 0 {
        None
    } else if entries[0].0@ == host {
        Some(lines(entries[0].1.headers@))
    } else {
        headers_of(entries.drop_first(), host)
    }
}

/// The lines that a request to `host` carries: those of its entry, or the
/// default referer.
pub open spec fn request_lines(entries: Seq<(String, Headers)>, host: Seq<char>) -> Seq<
    (Seq<char>, Seq<char>),
> {
    match headers_of(entries, host) {
        Some(l) => l,
        None => seq![("referer"@, "https://manganato.com/"@)],
    }
}

/// What prepares and paces the requests of a download.
#[derive(Debug)]
pub struct Retriever {
    /// The headers of the hosts that have their own.
    pub headers: Vec<(String, Headers)>,
    /// The hosts that requests were granted for.
    pub sites: Sites,
}

impl Retriever {
    /// Whether the record of the hosts is well formed.
    pub open spec fn wf(&self) -> bool {
        self.sites.wf()
    }

    /// Whether the record of the hosts is well formed.
    pub fn check(&self) -> (r: bool)
        ensures
            r == self.wf(),
    {
        self.sites.check()
    }

    /// A retriever that knows no host.
    pub fn new() -> (r: Retriever)
        ensures
            r.wf(),
            r.headers@.len() == 0,
            r.sites@ == Map::<Seq<char>, u64>::empty(),
    {
        Retriever { headers: Vec::new(), sites: Sites::new() }
    }

    /// The headers that a request to `host` carries.
    pub fn headers_for(&self, host: &str) -> (r: Headers)
        ensures
            lines(r.headers@) == request_lines(self.headers@, host@),
    {
        let n = self.headers.len();
        let mut i: usize = 0;
        assert(self.headers@.skip(0) =~= self.headers@);
        while i < n
            invariant
                n == self.headers@.len(),
                i <= n,
                headers_of(self.headers@, host@) == headers_of(
                    self.headers@.skip(i as int),
                    host@,
                ),
            decreases n - i,
        {
            proof {
                let rest = self.headers@.skip(i as int);
                assert(rest.drop_first() =~= self.headers@.skip(i + 1));
                assert(rest[0] == self.headers@[i as int]);
            }
            if str_eq(self.headers[i].0.as_str(), host) {
                return self.headers[i].1.duplicate();
            }
            i += 1;
        }
        Headers::default()
    }

    /// Binds to `page` the request for it: a GET of its address with the
    /// headers of its host. A page without a host is left as it is.
    pub fn dl(&self, page: &mut Page) -> (r: Result<(), Error>)
        ensures
            match r {
                Ok(_) => {
                    &&& old(page).loc@.host.is_some()
                    &&& final(page).req.is_some()
                    &&& final(page).req.unwrap().url@ == old(page).loc@.href
                    &&& lines(final(page).req.unwrap().headers@) == request_lines(
                        self.headers@,
                        old(page).loc@.host.unwrap(),
                    )
                    &&& !final(page).full
                    &&& final(page).loc == old(page).loc
                    &&& final(page).last == old(page).last
                    &&& final(page).html == old(page).html
                    &&& final(page).doc == old(page).doc
                },
                Err(e) => {
                    &&& e == Error::NoHost
                    &&& old(page).loc@.host.is_none()
                    &&& *final(page) == *old(page)
                },
            },
    {
        let host = match page.domain() {
            Ok(h) => h,
            Err(e) => {
                return Err(e);
            },
        };
        let headers = self.headers_for(host.as_str());
        let re = Request { url: page.loc.href.clone(), headers: headers.headers };
        page.request(re);
        Ok(())
    }

    /// Grants a request for `p` asked for at `now`, and says how long the
    /// caller has to wait before issuing it. A page without a host is
    /// granted nothing.
    pub fn access(&mut self, p: &Page, now: u64) -> (r: Result<u64, Error>)
        requires
            old(self).wf(),
        ensures
            final(self).wf(),
            final(self).headers == old(self).headers,
            match r {
                Ok(wait) => {
                    &&& p.loc@.host.is_some()
                    &&& now + wait == grant_of(
                        old(self).sites@,
                        p.loc@.host.unwrap(),
                        now as int,
                        MIN_INTERVAL as int,
                    )
                    &&& final(self).sites@ == old(self).sites@.insert(
                        p.loc@.host.unwrap(),
                        (now + wait) as u64,
                    )
                },
                Err(e) => {
                    &&& e == Error::NoHost
                    &&& p.loc@.host.is_none()
                    &&& final(self).sites == old(self).sites
                },
            },
    {
        match p.domain() {
            Ok(host) => Ok(self.sites.access(host.as_str(), now, MIN_INTERVAL)),
            Err(e) => Err(e),
        }
    }

    /// Prepares the fetch of `page` asked for at `now`: grants the request,
    /// binds one to the page where its cache is not full, and says how long
    /// the caller has to wait before executing it.
    pub fn refresh(&mut self, page: &mut Page, now: u64) -> (r: Result<u64, Error>)
        requires
            old(self).wf(),
        ensures
            final(self).wf(),
            final(self).headers == old(self).headers,
            final(page).loc == old(page).loc,
            final(page).last == old(page).last,
            final(page).html == old(page).html,
            final(page).doc == old(page).doc,
            match r {
                Ok(wait) => {
                    &&& old(page).loc@.host.is_some()
                    &&& now + wait == grant_of(
                        old(self).sites@,
                        old(page).loc@.host.unwrap(),
                        now as int,
                        MIN_INTERVAL as int,
                    )
                    &&& final(self).sites@ == old(self).sites@.insert(
                        old(page).loc@.host.unwrap(),
                        (now + wait) as u64,
                    )
                    &&& if old(page).full {
                        *final(page) == *old(page)
                    } else {
                        &&& final(page).req.is_some()
                        &&& final(page).req.unwrap().url@ == old(page).loc@.href
                        &&& lines(final(page).req.unwrap().headers@) == request_lines(
                            old(self).headers@,
                            old(page).loc@.host.unwrap(),
                        )
                        &&& !final(page).full
                    }
                },
                Err(e) => {
                    &&& e == Error::NoHost
                    &&& old(page).loc@.host.is_none()
                    &&& final(self).sites == old(self).sites
                    &&& *final(page) == *old(page)
                },
            },
    {
        let wait = match self.access(page, now) {
            Ok(w) => w,
            Err(e) => {
                return Err(e);
            },
        };
        if !page.full {
            let bound = self.dl(page);
            assert(bound.is_ok());
        }
        Ok(wait)
    }
}

} // verus!
