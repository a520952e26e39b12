//! Largest-cluster heuristics over a parsed document: the container with the
//! most paragraphs, links or images is taken for the one that holds the
//! content.

use vstd::prelude::*;
use crate::dom::{Dom, DomNode, NodeView};
use crate::text::{cut_before, str_eq, text_before, views};

verus! {

/// The three clusters that the heuristics look for.
#[derive(Clone, Copy, Debug, PartialEq, Eq, Structural)]
pub enum Cluster {
    /// The children of the container with paragraph children that has the
    /// most child nodes.
    Paragraphs,
    /// The links below the container that holds some paragraph, table or list
    /// and has the most links below it.
    Links,
    /// The images directly inside the container that has the most of them.
    Images,
}

/// Whether node `i` is an element with the tag `tag`.
pub open spec fn has_tag(nodes: Seq<NodeView>, i: int, tag: Seq<char>) -> bool {
    0 <= i < nodes.len() && nodes[i].tag == Some(tag)
}

/// Whether node `c` stands directly inside node `p`.
pub open spec fn is_child(nodes: Seq<NodeView>, c: int, p: int) -> bool {
    0 <= c < nodes.len() && nodes[c].parent == Some(p)
}

/// Whether node `d` stands somewhere inside node `a`. Parent links are
/// followed only while they lead to an earlier node.
pub open spec fn is_below(nodes: Seq<NodeView>, d: int, a: int) -> bool
    decreases d,
{
    if 0 <= d < nodes.len() {
        match nodes[d].parent {
            Some(p) => 0 <= p < d && (p == a || is_below(nodes, p, a)),
            None => false,
        }
    } else {
        false
    }
}

/// Whether node `j` is one that makes `d` a container of the kind `kind`.
pub open spec fn is_witness(nodes: Seq<NodeView>, kind: Cluster, d: int, j: int) -> bool {
    match kind {
        Cluster::Paragraphs => is_child(nodes, j, d) && has_tag(nodes, j, "p"@),
        Cluster::Links => is_below(nodes, j, d) && (has_tag(nodes, j, "p"@) || has_tag(
            nodes,
            j,
            "table"@,
        ) || has_tag(nodes, j, "ul"@)),
        Cluster::Images => is_child(nodes, j, d) && has_tag(nodes, j, "img"@),
    }
}

/// Whether node `j` belongs to the cluster of container `d`.
pub open spec fn is_member(nodes: Seq<NodeView>, kind: Cluster, d: int, j: int) -> bool {
    match kind {
        Cluster::Paragraphs => is_child(nodes, j, d),
        Cluster::Links => is_below(nodes, j, d) && has_tag(nodes, j, "a"@),
        Cluster::Images => is_child(nodes, j, d) && has_tag(nodes, j, "img"@),
    }
}

/// Whether node `d` is a container of the kind `kind`: a `div` element with
/// at least one witness.
pub open spec fn is_candidate(nodes: Seq<NodeView>, kind: Cluster, d: int) -> bool {
    has_tag(nodes, d, "div"@) && exists|j: int|
        0 <= j < nodes.len() && is_witness(nodes, kind, d, j)
}

/// The members of container `d` among the first `n` nodes, in document order.
pub open spec fn members_upto(nodes: Seq<NodeView>, kind: Cluster, d: int, n: int) -> Seq<int>
    decreases n,
{
    if n <= 0 {
        Seq::empty()
    } else if is_member(nodes, kind, d, n - 1) {
        members_upto(nodes, kind, d, n - 1).push(n - 1)
    } else {
        members_upto(nodes, kind, d, n - 1)
    }
}

/// The members of container `d`, in document order.
pub open spec fn members(nodes: Seq<NodeView>, kind: Cluster, d: int) -> Seq<int> {
    members_upto(nodes, kind, d, nodes.len() as int)
}

/// The size of the cluster of container `d`.
pub open spec fn score(nodes: Seq<NodeView>, kind: Cluster, d: int) -> nat {
    members(nodes, kind, d).len()
}

/// Whether `b` is the chosen container: a candidate whose cluster no other
/// candidate's exceeds. Among equally large clusters of paragraphs the first
/// in document order is chosen, among links and images the last.
pub open spec fn is_best(nodes: Seq<NodeView>, kind: Cluster, b: int) -> bool {
    &&& is_candidate(nodes, kind, b)
    &&& forall|d: int| #[trigger]
        is_candidate(nodes, kind, d) ==> {
            &&& score(nodes, kind, d) <= score(nodes, kind, b)
            &&& score(nodes, kind, d) == score(nodes, kind, b) ==> if kind
                == Cluster::Paragraphs {
                b <= d
            } else {
                d <= b
            }
        }
}

/// Whether node `i` of `dom` is an element with the tag `tag`.
fn tag_is(dom: &Dom, i: usize, tag: &str) -> (r: bool)
    requires
        i < dom@.len(),
    ensures
        r == has_tag(dom@, i as int, tag@),
{
    match &dom.nodes[i].tag {
        Some(t) => str_eq(t.as_str(), tag),
        None => false,
    }
}

/// Whether node `c` of `dom` stands directly inside node `p`.
fn child_of(dom: &Dom, c: usize, p: usize) -> (r: bool)
    requires
        c < dom@.len(),
    ensures
        r == is_child(dom@, c as int, p as int),
{
    match dom.nodes[c].parent {
        Some(q) => q == p,
        None => false,
    }
}

/// Whether node `d` of `dom` stands somewhere inside node `a`.
fn below(dom: &Dom, d: usize, a: usize) -> (r: bool)
    requires
        d < dom@.len(),
    ensures
        r == is_below(dom@, d as int, a as int),
{
    let mut cur: usize = d;
    loop
        invariant
            cur < dom@.len(),
            is_below(dom@, d as int, a as int) == is_below(dom@, cur as int, a as int),
        decreases cur,
    {
        match dom.nodes[cur].parent {
            None => {
                return false;
            },
            Some(p) => {
                if p >= cur {
                    return false;
                }
                if p == a {
                    return true;
                }
                cur = p;
            },
        }
    }
}

/// Whether node `j` makes node `d` a container of the kind `kind`.
fn witness_at(dom: &Dom, kind: Cluster, d: usize, j: usize) -> (r: bool)
    requires
        j < dom@.len(),
    ensures
        r == is_witness(dom@, kind, d as int, j as int),
{
    match kind {
        Cluster::Paragraphs => child_of(dom, j, d) && tag_is(dom, j, "p"),
        Cluster::Links => below(dom, j, d) && (tag_is(dom, j, "p") || tag_is(dom, j, "table")
            || tag_is(dom, j, "ul")),
        Cluster::Images => child_of(dom, j, d) && tag_is(dom, j, "img"),
    }
}

/// Whether node `j` belongs to the cluster of container `d`.
fn member_at(dom: &Dom, kind: Cluster, d: usize, j: usize) -> (r: bool)
    requires
        j < dom@.len(),
    ensures
        r == is_member(dom@, kind, d as int, j as int),
{
    match kind {
        Cluster::Paragraphs => child_of(dom, j, d),
        Cluster::Links => below(dom, j, d) && tag_is(dom, j, "a"),
        Cluster::Images => child_of(dom, j, d) && tag_is(dom, j, "img"),
    }
}

/// Whether node `d` is a container of the kind `kind`.
fn candidate_at(dom: &Dom, kind: Cluster, d: usize) -> (r: bool)
    requires
        d < dom@.len(),
    ensures
        r == is_candidate(dom@, kind, d as int),
{
    if !tag_is(dom, d, "div") {
        return false;
    }
    let n = dom.len();
    let mut j: usize = 0;
    while j < n
        invariant
            n == dom@.len(),
            j <= n,
            has_tag(dom@, d as int, "div"@),
            forall|k: int| 0 <= k < j ==> !is_witness(dom@, kind, d as int, k),
        decreases n - j,
    {
        if witness_at(dom, kind, d, j) {
            assert(is_witness(dom@, kind, d as int, j as int));
            return true;
        }
        j += 1;
    }
    false
}

/// The size of the cluster of container `d`.
fn score_of(dom: &Dom, kind: Cluster, d: usize) -> (r: usize)
    ensures
        r == score(dom@, kind, d as int),
{
    let n = dom.len();
    let mut count: usize = 0;
    let mut j: usize = 0;
    while j < n
        invariant
            n == dom@.len(),
            j <= n,
            count <= j,
            count == members_upto(dom@, kind, d as int, j as int).len(),
        decreases n - j,
    {
        if member_at(dom, kind, d, j) {
            count += 1;
        }
        j += 1;
    }
    count
}

/// The container that the heuristic of the kind `kind` chooses, if the
/// document holds any container of that kind.
pub fn best_container(dom: &Dom, kind: Cluster) -> (r: Option<usize>)
    ensures
        match r {
            Some(b) => is_best(dom@, kind, b as int),
            None => forall|d: int| !is_candidate(dom@, kind, d),
        },
{
    let n = dom.len();
    let mut best: Option<usize> = None;
    let mut best_score: usize = 0;
    let mut d: usize = 0;
    while d < n
        invariant
            n == dom@.len(),
            d <= n,
            match best {
                Some(b) => {
                    &&& b < d
                    &&& is_candidate(dom@, kind, b as int)
                    &&& best_score == score(dom@, kind, b as int)
                    &&& forall|c: int|
                        0 <= c < d && #[trigger] is_candidate(dom@, kind, c) ==> {
                            &&& score(dom@, kind, c) <= best_score
                            &&& score(dom@, kind, c) == best_score ==> if kind
                                == Cluster::Paragraphs {
                                b <= c
                            } else {
                                c <= b
                            }
                        }
                },
                None => forall|c: int| 0 <= c < d ==> !is_candidate(dom@, kind, c),
            },
        decreases n - d,
    {
        if candidate_at(dom, kind, d) {
            let s = score_of(dom, kind, d);
            let better = match best {
                None => true,
                Some(_) => match kind {
                    Cluster::Paragraphs => s > best_score,
                    _ => s >= best_score,
                },
            };
            if better {
                best = Some(d);
                best_score = s;
            }
        }
        d += 1;
    }
    best
}

/// The value of the first attribute called `name`.
pub open spec fn attr_value(attrs: Seq<(Seq<char>, Seq<char>)>, name: Seq<char>) -> Option<
    Seq<char>,
>
    decreases attrs.len(),
{
    if attrs.len() == 0 {
        None
    } else if attrs[0].0 == name {
        Some(attrs[0].1)
    } else {
        attr_value(attrs.drop_first(), name)
    }
}

/// What a member of a cluster contributes: a paragraph its text, a link its
/// `href` and an image its `src`, where it has one.
pub open spec fn yield_of(nodes: Seq<NodeView>, kind: Cluster, j: int) -> Option<Seq<char>> {
    match kind {
        Cluster::Paragraphs => Some(nodes[j].text),
        Cluster::Links => attr_value(nodes[j].attrs, "href"@),
        Cluster::Images => attr_value(nodes[j].attrs, "src"@),
    }
}

/// What the members of container `d` among the first `n` nodes contribute,
/// in document order.
pub open spec fn yields_upto(nodes: Seq<NodeView>, kind: Cluster, d: int, n: int) -> Seq<
    Seq<char>,
>
    decreases n,
{
    if n <= 0 {
        Seq::empty()
    } else if is_member(nodes, kind, d, n - 1) && yield_of(nodes, kind, n - 1).is_some() {
        yields_upto(nodes, kind, d, n - 1).push(yield_of(nodes, kind, n - 1).unwrap())
    } else {
        yields_upto(nodes, kind, d, n - 1)
    }
}

/// What the members of container `d` contribute, in document order.
pub open spec fn yields(nodes: Seq<NodeView>, kind: Cluster, d: int) -> Seq<Seq<char>> {
    yields_upto(nodes, kind, d, nodes.len() as int)
}

/// The value of the first attribute of `node` called `name`.
fn attr(node: &DomNode, name: &str) -> (r: Option<String>)
    ensures
        match r {
            Some(v) => attr_value(node@.attrs, name@) == Some(v@),
            None => attr_value(node@.attrs, name@).is_none(),
        },
{
    let n = node.attrs.len();
    let mut i: usize = 0;
    assert(node@.attrs.skip(0) =~= node@.attrs);
    while i < n
        invariant
            n == node.attrs@.len(),
            i <= n,
            attr_value(node@.attrs, name@) == attr_value(node@.attrs.skip(i as int), name@),
        decreases n - i,
    {
        proof {
            let rest = node@.attrs.skip(i as int);
            assert(rest.drop_first() =~= node@.attrs.skip(i + 1));
            assert(rest[0] == (node.attrs@[i as int].0@, node.attrs@[i as int].1@));
        }
        if str_eq(node.attrs[i].0.as_str(), name) {
            return Some(node.attrs[i].1.clone());
        }
        i += 1;
    }
    None
}

/// What node `j` contributes to a cluster of the kind `kind`.
fn yield_at(dom: &Dom, kind: Cluster, j: usize) -> (r: Option<String>)
    requires
        j < dom@.len(),
    ensures
        match r {
            Some(v) => yield_of(dom@, kind, j as int) == Some(v@),
            None => yield_of(dom@, kind, j as int).is_none(),
        },
{
    match kind {
        Cluster::Paragraphs => Some(dom.nodes[j].text.clone()),
        Cluster::Links => attr(&dom.nodes[j], "href"),
        Cluster::Images => attr(&dom.nodes[j], "src"),
    }
}

/// What the members of container `d` contribute, in document order.
pub fn collect(dom: &Dom, kind: Cluster, d: usize) -> (r: Vec<String>)
    ensures
        views(r@) == yields(dom@, kind, d as int),
{
    let n = dom.len();
    let mut out: Vec<String> = Vec::new();
    let mut j: usize = 0;
    while j < n
        invariant
            n == dom@.len(),
            j <= n,
            views(out@) == yields_upto(dom@, kind, d as int, j as int),
        decreases n - j,
    {
        if member_at(dom, kind, d, j) {
            if let Some(v) = yield_at(dom, kind, j) {
                let ghost before = out@;
                out.push(v);
                assert(views(out@) =~= views(before).push(v@));
            }
        }
        j += 1;
    }
    out
}

/// The largest cluster of the kind `kind`: what the members of the chosen
/// container contribute, in document order; empty where the document holds
/// no container of that kind.
pub open spec fn cluster_of(nodes: Seq<NodeView>, kind: Cluster) -> Seq<Seq<char>> {
    if exists|b: int| is_best(nodes, kind, b) {
        yields(nodes, kind, choose|b: int| is_best(nodes, kind, b))
    } else {
        Seq::empty()
    }
}

/// At most one container is the chosen one.
pub proof fn lemma_best_is_unique(nodes: Seq<NodeView>, kind: Cluster, b: int, c: int)
    requires
        is_best(nodes, kind, b),
        is_best(nodes, kind, c),
    ensures
        b == c,
{
    assert(is_candidate(nodes, kind, b));
    assert(is_candidate(nodes, kind, c));
}

/// The largest cluster of the kind `kind`.
pub fn cluster(dom: &Dom, kind: Cluster) -> (r: Vec<String>)
    ensures
        views(r@) == cluster_of(dom@, kind),
{
    match best_container(dom, kind) {
        Some(b) => {
            let out = collect(dom, kind, b);
            proof {
                let c = choose|c: int| is_best(dom@, kind, c);
                lemma_best_is_unique(dom@, kind, b as int, c);
            }
            out
        },
        None => {
            let out: Vec<String> = Vec::new();
            assert forall|b: int| !is_best(dom@, kind, b) by {
                assert(!is_candidate(dom@, kind, b));
            }
            assert(views(out@) =~= Seq::<Seq<char>>::empty());
            out
        },
    }
}

/// The marker before which a page title is cut off.
pub open spec fn chapter_marker() -> Seq<char> {
    " Chapter"@
}

/// Whether node `t` is the first `title` element of the document.
pub open spec fn is_first_title(nodes: Seq<NodeView>, t: int) -> bool {
    has_tag(nodes, t, "title"@) && forall|k: int| 0 <= k < t ==> !has_tag(nodes, k, "title"@)
}

/// The title of the work: the text of the document's first `title` element,
/// cut off before the first `" Chapter"`. A document without a `title`
/// element has none.
pub open spec fn title_of(nodes: Seq<NodeView>) -> Option<Seq<char>> {
    if exists|t: int| is_first_title(nodes, t) {
        let t = choose|t: int| is_first_title(nodes, t);
        Some(text_before(nodes[t].text, chapter_marker()))
    } else {
        None
    }
}

/// The title of the work, as the document's `title` element suggests it.
pub fn title_guess(dom: &Dom) -> (r: Option<String>)
    ensures
        match r {
            Some(s) => title_of(dom@) == Some(s@),
            None => title_of(dom@).is_none(),
        },
{
    let n = dom.len();
    let mut i: usize = 0;
    while i < n
        invariant
            n == dom@.len(),
            i <= n,
            forall|k: int| 0 <= k < i ==> !has_tag(dom@, k, "title"@),
        decreases n - i,
    {
        if tag_is(dom, i, "title") {
            let s = cut_before(dom.nodes[i].text.as_str(), " Chapter");
            proof {
                assert(is_first_title(dom@, i as int));
                let t = choose|t: int| is_first_title(dom@, t);
                assert(t == i);
            }
            return Some(s);
        }
        i += 1;
    }
    assert forall|t: int| !is_first_title(dom@, t) by {
        assert(!has_tag(dom@, t, "title"@));
    }
    None
}

} // verus!
