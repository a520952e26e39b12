//! URLs as the library reads them: the parts of a parsed URL, the guess at
//! the index page of a work, and the position that a URL's path stands for.

use vstd::prelude::*;
use crate::error::Error;
use crate::text::{contains_folded, contains_ignore_case, join, joined, read_number, short_number, views};

verus! {

/// The parts of a parsed URL that the library reads.
#[derive(Debug)]
pub struct UrlParts {
    /// The URL in its normal form.
    pub href: String,
    /// The origin: scheme and authority, written as text.
    pub origin: String,
    /// The host, where the URL has one.
    pub host: Option<String>,
    /// The segments of the path; none where the URL cannot be a base.
    pub segments: Option<Vec<String>>,
}

/// The parts of a URL as mathematical values.
pub struct UrlPartsView {
    pub href: Seq<char>,
    pub origin: Seq<char>,
    pub host: Option<Seq<char>>,
    pub segments: Option<Seq<Seq<char>>>,
}

impl View for UrlParts {
    type V = UrlPartsView;

    open spec fn view(&self) -> UrlPartsView {
        UrlPartsView {
            href: self.href@,
            origin: self.origin@,
            host: match self.host {
                Some(h) => Some(h@),
                None => None,
            },
            segments: match self.segments {
                Some(s) => Some(views(s@)),
                None => None,
            },
        }
    }
}

#[verifier::external_type_specification]
#[verifier::external_body]
pub struct ExParseError(url::ParseError);

/// The parts of the URL that a text parses to; none where the text is no URL.
pub uninterp spec fn url_parts(text: Seq<char>) -> Option<UrlPartsView>;

/// The normal form of the URL that `href` stands for when it is read
/// relative to the URL `base`; none where either does not parse.
pub uninterp spec fn url_joined(base: Seq<char>, href: Seq<char>) -> Option<Seq<char>>;

/// Parses `text` with `url::Url::parse` and copies out of the parsed URL its
/// normal form (`Url::as_str`), its origin
/// (`Url::origin`, `Origin::ascii_serialization`), its host (`Url::host_str`)
/// and its path segments (`Url::path_segments`). The contract claims only
/// that success and the parts are functions of the text alone.
#[verifier::external_body]
fn split_url(text: &str) -> (r: Result<UrlParts, url::ParseError>)
    ensures
        match r {
            Ok(parts) => url_parts(text@) == Some(parts@),
            Err(_) => url_parts(text@).is_none(),
        },
{
    let url = url::Url::parse(text)?;
    Ok(UrlParts {
        href: url.as_str().to_string(),
        origin: url.origin().ascii_serialization(),
        host: url.host_str().map(|h| h.to_string()),
        segments: url.path_segments().map(|s| s.map(|p| p.to_string()).collect()),
    })
}

/// Reads `href` relative to `base` with `url::Url::join`, after parsing
/// `base` with `url::Url::parse`, and gives the result's normal form. The
/// contract claims only that success and the result are functions of the two
/// texts alone.
#[verifier::external_body]
fn join_url(base: &str, href: &str) -> (r: Result<String, url::ParseError>)
    ensures
        match r {
            Ok(joined) => url_joined(base@, href@) == Some(joined@),
            Err(_) => url_joined(base@, href@).is_none(),
        },
{
    Ok(url::Url::parse(base)?.join(href)?.into())
}

/// The parts of the URL that the link `href` stands for in a page at the URL
/// `base`; none where it stands for no URL.
pub open spec fn resolved(base: Seq<char>, href: Seq<char>) -> Option<UrlPartsView> {
    match url_joined(base, href) {
        Some(joined) => url_parts(joined),
        None => None,
    }
}

impl UrlParts {
    /// Parses a text as a URL.
    pub fn parse(text: &str) -> (r: Result<UrlParts, Error>)
        ensures
            match r {
                Ok(parts) => url_parts(text@) == Some(parts@),
                Err(e) => e == Error::UrlParse && url_parts(text@).is_none(),
            },
    {
        match split_url(text) {
            Ok(parts) => Ok(parts),
            Err(_) => Err(Error::UrlParse),
        }
    }

    /// Reads `href` as a link found in the page at this URL.
    pub fn resolve(&self, href: &str) -> (r: Result<UrlParts, Error>)
        ensures
            match r {
                Ok(parts) => resolved(self@.href, href@) == Some(parts@),
                Err(e) => e == Error::UrlParse && resolved(self@.href, href@).is_none(),
            },
    {
        match join_url(self.href.as_str(), href) {
            Ok(joined) => UrlParts::parse(joined.as_str()),
            Err(_) => Err(Error::UrlParse),
        }
    }

    /// The host, by which requests are paced.
    pub fn domain(&self) -> (r: Result<&String, Error>)
        ensures
            match r {
                Ok(h) => self@.host == Some(h@),
                Err(e) => e == Error::NoHost && self@.host.is_none(),
            },
    {
        match &self.host {
            Some(h) => Ok(h),
            None => Err(Error::NoHost),
        }
    }
}

/// Whether a path segment looks like a chapter marker.
pub open spec fn is_marker(segment: Seq<char>) -> bool {
    contains_folded(segment, "chapter"@)
}

/// Whether segment `i` belongs to the path of the index page: it is no
/// chapter marker, and either a chapter marker follows it or at least two
/// segments do.
pub open spec fn is_retained(segments: Seq<Seq<char>>, i: int) -> bool {
    &&& 0 <= i < segments.len()
    &&& !is_marker(segments[i])
    &&& (i + 2 < segments.len() || exists|j: int|
        i < j < segments.len() && is_marker(segments[j]))
}

/// The retained segments among the first `n`, in their order.
pub open spec fn retained_upto(segments: Seq<Seq<char>>, n: int) -> Seq<Seq<char>>
    decreases n,
{
    if n <= 0 {
        Seq::empty()
    } else if is_retained(segments, n - 1) {
        retained_upto(segments, n - 1).push(segments[n - 1])
    } else {
        retained_upto(segments, n - 1)
    }
}

/// The guess at the URL of the index page: the origin and the retained
/// segments, joined by `/`.
pub open spec fn index_url(origin: Seq<char>, segments: Seq<Seq<char>>) -> Seq<char> {
    joined(seq![origin] + retained_upto(segments, segments.len() as int), "/"@)
}

/// The guess at the URL of the index page of the work that a page with the
/// given origin and path segments belongs to.
pub fn index_guess(origin: &str, segments: &Vec<String>) -> (r: String)
    ensures
        r@ == index_url(origin@, views(segments@)),
{
    let n = segments.len();
    // One past the last chapter marker; 0 where there is none.
    let mut after: usize = 0;
    let mut k: usize = 0;
    while k < n
        invariant
            n == segments@.len(),
            k <= n,
            after <= k,
            after > 0 ==> is_marker(views(segments@)[after - 1]),
            forall|j: int| after <= j < k ==> !is_marker(#[trigger] views(segments@)[j]),
        decreases n - k,
    {
        if contains_ignore_case(segments[k].as_str(), "chapter") {
            after = k + 1;
        }
        k += 1;
    }
    let mut parts: Vec<String> = Vec::new();
    parts.push(String::from_str(origin));
    let mut i: usize = 0;
    assert(views(parts@) =~= seq![origin@] + retained_upto(views(segments@), 0));
    while i < n
        invariant
            n == segments@.len(),
            i <= n,
            after <= n,
            after > 0 ==> is_marker(views(segments@)[after - 1]),
            forall|j: int| after <= j < n ==> !is_marker(#[trigger] views(segments@)[j]),
            views(parts@) == seq![origin@] + retained_upto(views(segments@), i as int),
        decreases n - i,
    {
        let marker = contains_ignore_case(segments[i].as_str(), "chapter");
        let keep = !marker && (i + 1 < after || n - i > 2);
        proof {
            let segs = views(segments@);
            if i + 1 < after {
                assert(i < after - 1 < segs.len() && is_marker(segs[after - 1]));
            }
            assert(keep == is_retained(segs, i as int));
        }
        if keep {
            let ghost before = parts@;
            parts.push(segments[i].clone());
            assert(views(parts@) =~= views(before).push(segments@[i as int]@));
            assert(views(parts@) =~= seq![origin@] + retained_upto(views(segments@), i + 1));
        }
        i += 1;
    }
    join(&parts, "/")
}

/// The segments among the first `n` that are not empty, in their order.
pub open spec fn filled_upto(segments: Seq<Seq<char>>, n: int) -> Seq<Seq<char>>
    decreases n,
{
    if n <= 0 {
        Seq::empty()
    } else if segments[n - 1].len() > 0 {
        filled_upto(segments, n - 1).push(segments[n - 1])
    } else {
        filled_upto(segments, n - 1)
    }
}

/// The greatest number that a segment may stand for; a greater one is taken
/// for a false positive.
pub const MAX_POSITION: u16 = 9000;

/// The usable numbers of the segments, the last segment's first: each
/// segment's digits read as one number, those above 9000 left out.
pub open spec fn usable_numbers(segments: Seq<Seq<char>>) -> Seq<nat>
    decreases segments.len(),
{
    if segments.len() == 0 {
        Seq::empty()
    } else if short_number(segments.last()) <= MAX_POSITION {
        seq![short_number(segments.last())] + usable_numbers(segments.drop_last())
    } else {
        usable_numbers(segments.drop_last())
    }
}

/// The name component of a position: of fewer than three segments the first,
/// else the second; empty where there is no segment.
pub open spec fn position_name(segments: Seq<Seq<char>>) -> Seq<char> {
    if segments.len() == 0 {
        Seq::empty()
    } else if segments.len() < 3 {
        segments[0]
    } else {
        segments[1]
    }
}

/// The position that a path stands for, read from its end: of two or more
/// usable numbers the first two, of one that number after a zero, of none two
/// zeros; and the name component.
pub open spec fn position_of(segments: Seq<Seq<char>>) -> (nat, nat, Seq<char>) {
    let filled = filled_upto(segments, segments.len() as int);
    let numbers = usable_numbers(filled);
    let name = position_name(filled);
    if numbers.len() >= 2 {
        (numbers[0], numbers[1], name)
    } else if numbers.len() == 1 {
        (0, numbers[0], name)
    } else {
        (0, 0, name)
    }
}

/// The position that the path segments of a URL stand for.
pub fn position_triple(segments: &Vec<String>) -> (r: (u16, u16, String))
    ensures
        (r.0 as nat, r.1 as nat, r.2@) == position_of(views(segments@)),
        r.0 <= MAX_POSITION,
        r.1 <= MAX_POSITION,
{
    let n = segments.len();
    let mut filled: Vec<String> = Vec::new();
    let mut i: usize = 0;
    while i < n
        invariant
            n == segments@.len(),
            i <= n,
            views(filled@) == filled_upto(views(segments@), i as int),
        decreases n - i,
    {
        if segments[i].as_str().unicode_len() > 0 {
            let ghost before = filled@;
            filled.push(segments[i].clone());
            assert(views(filled@) =~= views(before).push(segments@[i as int]@));
        }
        i += 1;
    }
    let m = filled.len();
    let mut first: Option<u16> = None;
    let mut second: Option<u16> = None;
    let mut k: usize = m;
    assert(views(filled@).take(m as int) =~= views(filled@));
    while k > 0 && second.is_none()
        invariant
            m == filled@.len(),
            k <= m,
            second.is_some() ==> first.is_some(),
            first.is_none() ==> usable_numbers(views(filled@)) == usable_numbers(
                views(filled@).take(k as int),
            ),
            first.is_some() && second.is_none() ==> first.unwrap() <= MAX_POSITION
                && usable_numbers(views(filled@)) == seq![first.unwrap() as nat]
                + usable_numbers(views(filled@).take(k as int)),
            second.is_some() ==> first.unwrap() <= MAX_POSITION && second.unwrap()
                <= MAX_POSITION && usable_numbers(views(filled@)).len() >= 2
                && usable_numbers(views(filled@))[0] == first.unwrap()
                && usable_numbers(views(filled@))[1] == second.unwrap(),
        decreases k,
    {
        k -= 1;
        let v = read_number(filled[k].as_str());
        proof {
            let now = views(filled@).take(k + 1);
            assert(now.drop_last() =~= views(filled@).take(k as int));
            assert(now.last() == filled@[k as int]@);
        }
        if v <= MAX_POSITION {
            if first.is_none() {
                first = Some(v);
            } else {
                second = Some(v);
            }
        }
    }
    let name = if m == 0 {
        String::new()
    } else if m < 3 {
        filled[0].clone()
    } else {
        filled[1].clone()
    };
    proof {
        if second.is_none() {
            assert(k == 0);
            assert(usable_numbers(views(filled@).take(0)) =~= Seq::<nat>::empty());
        }
    }
    match (first, second) {
        (Some(a), Some(b)) => (a, b, name),
        (Some(a), None) => (0, a, name),
        _ => (0, 0, name),
    }
}

} // verus!
