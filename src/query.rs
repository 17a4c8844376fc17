//! The query engine: a small path-expression language over the document
//! tree, and selector queries handed to `tl`.

use vstd::prelude::*;
use vstd::string::StringSliceAdditionalSpecFns;
use crate::error::QueryError;
use crate::text::{
    chars_of, find_char, find_from, first_index, first_occ_from, lemma_first_index, occurs_here,
    slice_chars, split_at_char, split_char, starts_with, string_of, trim, trim_bounds,
};
use crate::tl_source;
use crate::tl_source::tl_selected;
use crate::types::{attr_of, child, n_children, root_spec, tag_of, Document, NodeData, NodeRef};

verus! {

/// A query, in one of the two languages.
#[derive(Debug, Clone)]
pub enum Query {
    /// A path expression; every match is a result.
    XPath(String),
    /// A path expression, read the same way.
    Extract(String),
    /// A selector of tag, class and attribute.
    CssSelector(String),
}

/// How the results of a query are rendered.
#[derive(Debug, Clone)]
pub struct QueryOptions {
    /// Render each result's full markup rather than its text.
    pub with_tags: bool,
    /// Render this attribute of each result rather than its text.
    pub extract_attr: Option<String>,
}

impl Default for QueryOptions {
    fn default() -> (r: Self)
        ensures
            !r.with_tags,
            r.extract_attr is None,
    {
        QueryOptions { with_tags: false, extract_attr: None }
    }
}

/// A parsed path expression.
#[derive(Debug, Clone)]
pub enum XPathPattern {
    /// `//tag`
    DescendantTag(String),
    /// `//tag[@attr='value']`
    DescendantAttr(String, String, String),
    /// `/a/b/@attr`
    AttributeValue(Vec<String>, String),
    /// `/a/b/c`
    AbsolutePath(Vec<String>),
}

/// What a path expression denotes, over character sequences.
pub ghost enum PatternView {
    DescendantTag(Seq<char>),
    DescendantAttr(Seq<char>, Seq<char>, Seq<char>),
    AttributeValue(Seq<Seq<char>>, Seq<char>),
    AbsolutePath(Seq<Seq<char>>),
}

pub open spec fn strs(v: Seq<String>) -> Seq<Seq<char>> {
    v.map_values(|x: String| x@)
}

impl XPathPattern {
    pub open spec fn view(&self) -> PatternView {
        match self {
            XPathPattern::DescendantTag(t) => PatternView::DescendantTag(t@),
            XPathPattern::DescendantAttr(t, a, v) => PatternView::DescendantAttr(t@, a@, v@),
            XPathPattern::AttributeValue(p, a) => PatternView::AttributeValue(strs(p@), a@),
            XPathPattern::AbsolutePath(p) => PatternView::AbsolutePath(strs(p@)),
        }
    }
}

pub open spec fn is_quote(c: char) -> bool {
    c == '\'' || c == '"'
}

/// The attribute name and value of a predicate `@name='value'` (or with
/// double quotes); the quotes at both ends must be the same character.
pub open spec fn predicate_spec(p: Seq<char>) -> Option<(Seq<char>, Seq<char>)> {
    if p.len() == 0 || p[0] != '@' {
        None
    } else {
        let q = trim(p.drop_first());
        match first_index(q, '=') {
            None => None,
            Some(eq) => {
                let name = trim(q.subrange(0, eq));
                let vp = trim(q.subrange(eq + 1, q.len() as int));
                if vp.len() >= 2 && is_quote(vp[0]) && vp.last() == vp[0] {
                    Some((name, vp.subrange(1, vp.len() - 1)))
                } else {
                    None
                }
            },
        }
    }
}

/// The steps of a path written after its leading `/`.
pub open spec fn steps(e: Seq<char>, end: int) -> Seq<Seq<char>> {
    if end <= 0 {
        Seq::empty()
    } else {
        split_at_char(e.subrange(1, end), '/')
    }
}

/// The pattern a path expression denotes, or `None` where it is malformed.
pub open spec fn xpath_spec(expr: Seq<char>) -> Option<PatternView> {
    let e = trim(expr);
    if starts_with(e, "//"@) {
        let rest = e.subrange(2, e.len() as int);
        match first_index(rest, '[') {
            None => Some(PatternView::DescendantTag(rest)),
            Some(b) => {
                let pred = rest.subrange(b + 1, rest.len() as int);
                match first_index(pred, ']') {
                    None => None,
                    Some(en) => match predicate_spec(pred.subrange(0, en)) {
                        Some((a, v)) => Some(PatternView::DescendantAttr(rest.subrange(0, b), a, v)),
                        None => None,
                    },
                }
            },
        }
    } else if starts_with(e, "/"@) {
        match first_occ_from(e, "/@"@, 0) {
            Some(at) => match first_occ_from(e, "/@"@, at + 2) {
                Some(_) => None,
                None => Some(PatternView::AttributeValue(steps(e, at), e.subrange(at + 2, e.len() as int))),
            },
            None => Some(PatternView::AbsolutePath(split_at_char(e.subrange(1, e.len() as int), '/'))),
        }
    } else {
        None
    }
}

/// Whether node `i` is an element named `tag` whose attribute `filter.0`, if
/// a filter is given, has the value `filter.1`.
pub open spec fn matches_node(
    nodes: Seq<NodeData>,
    i: int,
    tag: Seq<char>,
    filter: Option<(Seq<char>, Seq<char>)>,
) -> bool {
    &&& tag_of(nodes, i) == Some(tag)
    &&& match filter {
        Some((a, v)) => attr_of(nodes, i, a) == Some(v),
        None => true,
    }
}

/// The matches in document order: with `k == -1`, node `i` itself and then
/// its subtree; with `k >= 0`, the subtrees of children `k..` of `i`.
pub open spec fn descendants(
    nodes: Seq<NodeData>,
    i: int,
    k: int,
    tag: Seq<char>,
    filter: Option<(Seq<char>, Seq<char>)>,
) -> Seq<usize>
    decreases i, n_children(nodes, i) - k,
{
    if i < 0 || i >= nodes.len() || k < -1 {
        Seq::empty()
    } else if k == -1 {
        (if matches_node(nodes, i, tag, filter) {
            seq![i as usize]
        } else {
            Seq::empty()
        }) + descendants(nodes, i, 0, tag, filter)
    } else if k < n_children(nodes, i) {
        let c = child(nodes, i, k);
        (if 0 <= c < i {
            descendants(nodes, c, -1, tag, filter)
        } else {
            Seq::empty()
        }) + descendants(nodes, i, k + 1, tag, filter)
    } else {
        Seq::empty()
    }
}

/// The nodes reached from node `i` by following `path` through direct
/// children with those tag names, every matching child expanded; with
/// `attr`, only those that have that attribute. `k` is as in `descendants`.
pub open spec fn along_path(
    nodes: Seq<NodeData>,
    i: int,
    k: int,
    path: Seq<Seq<char>>,
    attr: Option<Seq<char>>,
) -> Seq<usize>
    decreases i, n_children(nodes, i) - k,
{
    if i < 0 || i >= nodes.len() || k < -1 {
        Seq::empty()
    } else if k == -1 {
        if path.len() == 0 {
            match attr {
                Some(a) => if attr_of(nodes, i, a) is Some {
                    seq![i as usize]
                } else {
                    Seq::empty()
                },
                None => seq![i as usize],
            }
        } else {
            along_path(nodes, i, 0, path, attr)
        }
    } else if k < n_children(nodes, i) && path.len() > 0 {
        let c = child(nodes, i, k);
        (if 0 <= c < i && tag_of(nodes, c) == Some(path[0]) {
            along_path(nodes, c, -1, path.drop_first(), attr)
        } else {
            Seq::empty()
        }) + along_path(nodes, i, k + 1, path, attr)
    } else {
        Seq::empty()
    }
}

/// The nodes a pattern selects in a document, in document order.
pub open spec fn select(nodes: Seq<NodeData>, top: Seq<usize>, p: PatternView) -> Seq<usize> {
    match root_spec(nodes, top) {
        None => Seq::empty(),
        Some(r) => match p {
            PatternView::DescendantTag(t) => descendants(nodes, r as int, -1, t, None),
            PatternView::DescendantAttr(t, a, v) => descendants(nodes, r as int, -1, t, Some((a, v))),
            PatternView::AttributeValue(path, a) => if path.len() > 0 && tag_of(nodes, r as int) == Some(path[0]) {
                along_path(nodes, r as int, -1, path.drop_first(), Some(a))
            } else {
                Seq::empty()
            },
            PatternView::AbsolutePath(path) => if path.len() > 0 && tag_of(nodes, r as int) == Some(path[0]) {
                along_path(nodes, r as int, -1, path.drop_first(), None)
            } else {
                Seq::empty()
            },
        },
    }
}

/// Parses an attribute predicate such as `@status='active'`.
pub fn parse_attribute_predicate(pred: &str) -> (r: Option<(String, String)>)
    ensures
        match r {
            Some((a, v)) => predicate_spec(pred@) == Some((a@, v@)),
            None => predicate_spec(pred@) is None,
        },
{
    predicate_of_chars(&chars_of(pred))
}

/// Parses an attribute predicate given as characters.
fn predicate_of_chars(pred: &Vec<char>) -> (r: Option<(String, String)>)
    ensures
        match r {
            Some((a, v)) => predicate_spec(pred@) == Some((a@, v@)),
            None => predicate_spec(pred@) is None,
        },
{
    if pred.len() == 0 || pred[0] != '@' {
        return None;
    }
    let (qa, qb) = trim_bounds(pred, 1, pred.len());
    let q = slice_chars(pred, qa, qb);
    assert(pred@.drop_first() =~= pred@.subrange(1, pred@.len() as int));
    proof {
        lemma_first_index(q@, '=');
    }
    let eq = match find_char(&q, '=') {
        Some(eq) => eq,
        None => return None,
    };
    let (na, nb) = trim_bounds(&q, 0, eq);
    let (va, vb) = trim_bounds(&q, eq + 1, q.len());
    if vb - va >= 2 && (q[va] == '\'' || q[va] == '"') && q[vb - 1] == q[va] {
        let name = string_of(slice_chars(&q, na, nb).as_slice());
        let value = string_of(slice_chars(&q, va + 1, vb - 1).as_slice());
        assert(q@.subrange(va as int, vb as int).subrange(1, (vb - va) - 1) =~= q@.subrange(va + 1, vb - 1));
        Some((name, value))
    } else {
        None
    }
}

/// Parses a path expression into the pattern it denotes; a malformed one is
/// refused with the expression as given.
pub fn parse_xpath_pattern(expr: &str) -> (r: Result<XPathPattern, QueryError>)
    ensures
        match r {
            Ok(p) => xpath_spec(expr@) == Some(p@),
            Err(e) => xpath_spec(expr@) is None && (e matches QueryError::InvalidXPath(m) && m@ == expr@),
        },
{
    let all = chars_of(expr);
    let (ea, eb) = trim_bounds(&all, 0, all.len());
    let e = slice_chars(&all, ea, eb);
    assert(all@.subrange(0, all@.len() as int) =~= all@);
    let slash2 = chars_of("//");
    let slash = chars_of("/");
    let slash_at = chars_of("/@");
    proof {
        reveal_strlit("//");
        reveal_strlit("/");
        reveal_strlit("/@");
    }
    if occurs_here(&e, &slash2, 0) {
        assert(starts_with(e@, "//"@));
        let rest = slice_chars(&e, 2, e.len());
        proof {
            lemma_first_index(rest@, '[');
        }
        match find_char(&rest, '[') {
            None => Ok(XPathPattern::DescendantTag(string_of(rest.as_slice()))),
            Some(b) => {
                let pred = slice_chars(&rest, b + 1, rest.len());
                proof {
                    lemma_first_index(pred@, ']');
                }
                if let Some(en) = find_char(&pred, ']') {
                    let inner = slice_chars(&pred, 0, en);
                    if let Some((a, v)) = predicate_of_chars(&inner) {
                        let tag = string_of(slice_chars(&rest, 0, b).as_slice());
                        return Ok(XPathPattern::DescendantAttr(tag, a, v));
                    }
                }
                Err(QueryError::InvalidXPath(String::from_str(expr)))
            },
        }
    } else if occurs_here(&e, &slash, 0) {
        assert(!starts_with(e@, "//"@));
        match find_from(&e, &slash_at, 0) {
            Some(at) => {
                proof {
                    crate::text::lemma_first_occ(e@, "/@"@, 0);
                }
                match find_from(&e, &slash_at, at + 2) {
                    Some(_) => Err(QueryError::InvalidXPath(String::from_str(expr))),
                    None => {
                        let path = if at == 0 {
                            Vec::new()
                        } else {
                            split_char(&slice_chars(&e, 1, at), '/')
                        };
                        assert(at == 0 ==> strs(path@) =~= steps(e@, at as int));
                        let attr = string_of(slice_chars(&e, at + 2, e.len()).as_slice());
                        Ok(XPathPattern::AttributeValue(path, attr))
                    },
                }
            },
            None => Ok(XPathPattern::AbsolutePath(split_char(&slice_chars(&e, 1, e.len()), '/'))),
        }
    } else {
        assert(!starts_with(e@, "//"@));
        Err(QueryError::InvalidXPath(String::from_str(expr)))
    }
}

/// Whether node `i` is an element named `tag` that passes `filter`.
fn node_matches(doc: &Document, i: usize, tag: &String, filter: &Option<(String, String)>) -> (r: bool)
    requires
        doc.wf(),
        i < doc.nodes().len(),
    ensures
        r == matches_node(doc.nodes(), i as int, tag@, filter_view(filter)),
{
    let n = NodeRef { doc, handle: Some(i) };
    match n.tag_name() {
        Some(t) => if t == *tag {
            match filter {
                Some((a, v)) => match n.attr(a.as_str()) {
                    Some(x) => x == *v,
                    None => false,
                },
                None => true,
            }
        } else {
            false
        },
        None => false,
    }
}

pub open spec fn filter_view(f: &Option<(String, String)>) -> Option<(Seq<char>, Seq<char>)> {
    match f {
        Some((a, v)) => Some((a@, v@)),
        None => None,
    }
}

/// Appends to `out` the matches in the subtree of node `i`, in document order.
fn find_descendants(
    doc: &Document,
    i: usize,
    tag: &String,
    filter: &Option<(String, String)>,
    out: &mut Vec<usize>,
)
    requires
        doc.wf(),
        i < doc.nodes().len(),
        forall|m: int| 0 <= m < old(out)@.len() ==> old(out)@[m] < doc.nodes().len(),
    ensures
        final(out)@ == old(out)@ + descendants(doc.nodes(), i as int, -1, tag@, filter_view(filter)),
        forall|m: int| 0 <= m < final(out)@.len() ==> final(out)@[m] < doc.nodes().len(),
    decreases i,
{
    let ghost nodes = doc.nodes();
    let ghost f = filter_view(filter);
    let ghost start = out@;
    if node_matches(doc, i, tag, filter) {
        out.push(i);
    }
    let ghost head = out@;
    let kids = NodeRef { doc, handle: Some(i) }.children();
    let mut k: usize = 0;
    while k < kids.len()
        invariant
            doc.wf(),
            i < nodes.len(),
            nodes == doc.nodes(),
            f == filter_view(filter),
            kids@.len() == nodes[i as int].children@.len(),
            forall|m: int| 0 <= m < kids@.len() ==> (#[trigger] kids@[m]).handle == Some(nodes[i as int].children@[m]),
            k <= kids@.len(),
            forall|m: int| 0 <= m < out@.len() ==> out@[m] < nodes.len(),
            out@ + descendants(nodes, i as int, k as int, tag@, f) == head + descendants(nodes, i as int, 0, tag@, f),
        decreases kids.len() - k,
    {
        let c = kids[k].handle.unwrap();
        assert(c == nodes[i as int].children@[k as int]);
        assert(c < i);
        let ghost before = out@;
        find_descendants(doc, c, tag, filter, &mut *out);
        let ghost x = descendants(nodes, c as int, -1, tag@, f);
        let ghost y = descendants(nodes, i as int, k + 1, tag@, f);
        assert(out@ == before + x);
        assert(descendants(nodes, i as int, k as int, tag@, f) == x + y);
        assert((before + x) + y =~= before + (x + y));
        assert(out@ + descendants(nodes, i as int, k + 1, tag@, f) =~= before + descendants(nodes, i as int, k as int, tag@, f));
        k = k + 1;
    }
    assert(descendants(nodes, i as int, k as int, tag@, f) =~= Seq::<usize>::empty());
    assert(out@ =~= head + descendants(nodes, i as int, 0, tag@, f));
    assert(head + descendants(nodes, i as int, 0, tag@, f) =~= start + descendants(nodes, i as int, -1, tag@, f));
}

/// Appends to `out` the nodes that `along_path` reaches from node `i`.
fn find_along_path(
    doc: &Document,
    i: usize,
    path: &Vec<String>,
    d: usize,
    attr: &Option<String>,
    out: &mut Vec<usize>,
)
    requires
        doc.wf(),
        i < doc.nodes().len(),
        d <= path@.len(),
        forall|m: int| 0 <= m < old(out)@.len() ==> old(out)@[m] < doc.nodes().len(),
    ensures
        final(out)@ == old(out)@ + along_path(doc.nodes(), i as int, -1, strs(path@.subrange(d as int, path@.len() as int)), opt_view(attr)),
        forall|m: int| 0 <= m < final(out)@.len() ==> final(out)@[m] < doc.nodes().len(),
    decreases i,
{
    let ghost nodes = doc.nodes();
    let ghost p = strs(path@.subrange(d as int, path@.len() as int));
    let ghost a = opt_view(attr);
    let node = NodeRef { doc, handle: Some(i) };
    let plen = path.len();
    if d == plen {
        match attr {
            Some(name) => if node.attr(name.as_str()).is_some() {
                out.push(i);
            },
            None => out.push(i),
        }
        assert(out@ =~= old(out)@ + along_path(nodes, i as int, -1, p, a));
        return;
    }
    let ghost start = out@;
    assert(strs(path@.subrange(d + 1, path@.len() as int)) =~= p.drop_first());
    let kids = node.children();
    let mut k: usize = 0;
    while k < kids.len()
        invariant
            doc.wf(),
            i < nodes.len(),
            nodes == doc.nodes(),
            a == opt_view(attr),
            d < path@.len(),
            p == strs(path@.subrange(d as int, path@.len() as int)),
            p.len() > 0,
            p[0] == path@[d as int]@,
            strs(path@.subrange(d + 1, path@.len() as int)) == p.drop_first(),
            kids@.len() == nodes[i as int].children@.len(),
            forall|m: int| 0 <= m < kids@.len() ==> (#[trigger] kids@[m]).handle == Some(nodes[i as int].children@[m]),
            forall|m: int| 0 <= m < kids@.len() ==> (#[trigger] kids@[m]).doc == doc,
            forall|m: int| 0 <= m < kids@.len() ==> (#[trigger] kids@[m]).valid(),
            plen == path@.len(),
            k <= kids@.len(),
            forall|m: int| 0 <= m < out@.len() ==> out@[m] < nodes.len(),
            out@ + along_path(nodes, i as int, k as int, p, a) == start + along_path(nodes, i as int, 0, p, a),
        decreases kids.len() - k,
    {
        let c = kids[k].handle.unwrap();
        assert(c == nodes[i as int].children@[k as int]);
        let ghost before = out@;
        assert(c < i);
        let matched = match kids[k].tag_name() {
            Some(t) => t == path[d],
            None => false,
        };
        let ghost y = along_path(nodes, i as int, k + 1, p, a);
        if matched {
            find_along_path(doc, c, path, d + 1, attr, &mut *out);
            let ghost x = along_path(nodes, c as int, -1, p.drop_first(), a);
            assert(out@ == before + x);
            assert(along_path(nodes, i as int, k as int, p, a) == x + y);
            assert((before + x) + y =~= before + (x + y));
        } else {
            assert(along_path(nodes, i as int, k as int, p, a) =~= y);
        }
        assert(out@ + along_path(nodes, i as int, k + 1, p, a) =~= before + along_path(nodes, i as int, k as int, p, a));
        k = k + 1;
    }
    assert(along_path(nodes, i as int, k as int, p, a) =~= Seq::<usize>::empty());
    assert(out@ =~= start + along_path(nodes, i as int, -1, p, a));
}

pub open spec fn opt_view(a: &Option<String>) -> Option<Seq<char>> {
    match a {
        Some(s) => Some(s@),
        None => None,
    }
}

/// The handles of `refs`, which all name nodes.
pub open spec fn handles(refs: Seq<NodeRef>) -> Seq<usize> {
    refs.map_values(|n: NodeRef| n.handle->Some_0)
}

/// References into `doc` to the nodes with indices `ix`.
fn to_refs<'a>(doc: &'a Document, ix: &Vec<usize>) -> (r: Vec<NodeRef<'a>>)
    requires
        doc.wf(),
        forall|m: int| 0 <= m < ix@.len() ==> ix@[m] < doc.nodes().len(),
    ensures
        handles(r@) == ix@,
        forall|m: int| 0 <= m < r@.len() ==> (#[trigger] r@[m]).doc == doc && r@[m].handle is Some && r@[m].valid(),
{
    let mut r: Vec<NodeRef<'a>> = Vec::new();
    let mut k: usize = 0;
    while k < ix.len()
        invariant
            doc.wf(),
            forall|m: int| 0 <= m < ix@.len() ==> ix@[m] < doc.nodes().len(),
            k <= ix@.len(),
            r@.len() == k,
            forall|m: int| 0 <= m < k ==> (#[trigger] r@[m]).handle == Some(ix@[m]),
            forall|m: int| 0 <= m < r@.len() ==> (#[trigger] r@[m]).doc == doc && r@[m].handle is Some && r@[m].valid(),
        decreases ix.len() - k,
    {
        r.push(NodeRef { doc, handle: Some(ix[k]) });
        k = k + 1;
    }
    assert(handles(r@) =~= ix@);
    r
}

/// The nodes a parsed path pattern selects, in document order.
pub fn execute_pattern<'a>(doc: &'a Document, pattern: &XPathPattern) -> (r: Vec<NodeRef<'a>>)
    requires
        doc.wf(),
    ensures
        handles(r@) == select(doc.nodes(), doc.top(), pattern@),
        forall|m: int| 0 <= m < r@.len() ==> (#[trigger] r@[m]).doc == doc && r@[m].valid(),
{
    let root = doc.root();
    let mut out: Vec<usize> = Vec::new();
    if let Some(ri) = root.handle {
        match pattern {
            XPathPattern::DescendantTag(t) => find_descendants(doc, ri, t, &None, &mut out),
            XPathPattern::DescendantAttr(t, a, v) => {
                let f = Some((a.clone(), v.clone()));
                find_descendants(doc, ri, t, &f, &mut out)
            },
            XPathPattern::AttributeValue(path, a) => {
                if path.len() > 0 && match root.tag_name() {
                    Some(t) => t == path[0],
                    None => false,
                } {
                    assert(strs(path@).drop_first() =~= strs(path@.subrange(1, path@.len() as int)));
                    find_along_path(doc, ri, path, 1, &Some(a.clone()), &mut out);
                }
            },
            XPathPattern::AbsolutePath(path) => {
                if path.len() > 0 && match root.tag_name() {
                    Some(t) => t == path[0],
                    None => false,
                } {
                    assert(strs(path@).drop_first() =~= strs(path@.subrange(1, path@.len() as int)));
                    find_along_path(doc, ri, path, 1, &None, &mut out);
                }
            },
        }
    }
    to_refs(doc, &out)
}

/// The first node at or after index `j` that `tl` knew by handle `h`.
pub open spec fn node_with_handle(nodes: Seq<NodeData>, h: usize, j: int) -> Option<usize>
    decreases nodes.len() - j,
{
    if j < 0 || j >= nodes.len() {
        None
    } else if nodes[j].handle == h {
        Some(j as usize)
    } else {
        node_with_handle(nodes, h, j + 1)
    }
}

/// The nodes that `tl` handles `hs` stand for, in the same order; a handle
/// that names no node of the arena is left out.
pub open spec fn resolve(nodes: Seq<NodeData>, hs: Seq<usize>) -> Seq<usize>
    decreases hs.len(),
{
    if hs.len() == 0 {
        Seq::empty()
    } else {
        resolve(nodes, hs.drop_last()) + match node_with_handle(nodes, hs.last(), 0) {
            Some(j) => seq![j],
            None => Seq::empty(),
        }
    }
}

fn find_handle(doc: &Document, h: usize) -> (r: Option<usize>)
    requires
        doc.wf(),
    ensures
        r == node_with_handle(doc.nodes(), h, 0),
        r matches Some(x) ==> x < doc.nodes().len(),
{
    let ghost nodes = doc.nodes();
    let n = doc.node_count();
    let mut j: usize = 0;
    while j < n
        invariant
            nodes == doc.nodes(),
            n == nodes.len(),
            j <= n,
            node_with_handle(nodes, h, 0) == node_with_handle(nodes, h, j as int),
        decreases n - j,
    {
        if doc.handle_at(j) == h {
            return Some(j);
        }
        j = j + 1;
    }
    None
}

/// References to the nodes that `tl` handles `hs` stand for, as `resolve` states.
pub fn nodes_for_handles<'a>(doc: &'a Document, hs: &Vec<usize>) -> (r: Vec<NodeRef<'a>>)
    requires
        doc.wf(),
    ensures
        handles(r@) == resolve(doc.nodes(), hs@),
        forall|m: int| 0 <= m < r@.len() ==> (#[trigger] r@[m]).doc == doc && r@[m].valid(),
{
    let ghost nodes = doc.nodes();
    let mut out: Vec<usize> = Vec::new();
    let mut k: usize = 0;
    while k < hs.len()
        invariant
            doc.wf(),
            nodes == doc.nodes(),
            k <= hs@.len(),
            out@ == resolve(nodes, hs@.subrange(0, k as int)),
            forall|m: int| 0 <= m < out@.len() ==> out@[m] < nodes.len(),
        decreases hs.len() - k,
    {
        let ghost prev = out@;
        if let Some(j) = find_handle(doc, hs[k]) {
            out.push(j);
        }
        assert(hs@.subrange(0, k + 1).drop_last() =~= hs@.subrange(0, k as int));
        assert(out@ =~= resolve(nodes, hs@.subrange(0, k + 1)));
        k = k + 1;
    }
    assert(hs@.subrange(0, k as int) =~= hs@);
    to_refs(doc, &out)
}

/// Runs a selector query through `tl` on the document's source.
fn execute_css_selector<'a>(doc: &'a Document, selector: &str) -> (r: Result<Vec<NodeRef<'a>>, QueryError>)
    requires
        doc.wf(),
    ensures
        match r {
            Ok(v) => {
                &&& forall|m: int| 0 <= m < v@.len() ==> (#[trigger] v@[m]).doc == doc && v@[m].valid()
                &&& tl_selected(doc.source_view(), selector@) matches Some(hs) && handles(v@) == resolve(doc.nodes(), hs)
            },
            Err(e) => e matches QueryError::InvalidSelector(m) && m@ == selector@ && tl_selected(
                doc.source_view(),
                selector@,
            ) is None,
        },
{
    let src = doc.source();
    assert(src.spec_bytes() == vstd::utf8::encode_utf8(src@));
    let parsed = match tl_source::parse(src) {
        Some(v) => v,
        None => return Err(QueryError::ExecutionError(String::from_str("InvalidLength"))),
    };
    match tl_source::query_selector(&parsed, selector) {
        Some(hs) => Ok(nodes_for_handles(doc, &hs)),
        None => Err(QueryError::InvalidSelector(String::from_str(selector))),
    }
}

/// Runs a query. A path expression selects what `select` states for its
/// pattern, and a malformed one is refused as invalid; a selector is matched
/// by `tl`, in document order, and refused as invalid where `tl` cannot
/// compile it.
pub fn execute_query<'a>(doc: &'a Document, query: &Query, options: &QueryOptions) -> (r: Result<
    Vec<NodeRef<'a>>,
    QueryError,
>)
    requires
        doc.wf(),
    ensures
        match query {
            Query::XPath(e) | Query::Extract(e) => match xpath_spec(e@) {
                Some(p) => r matches Ok(v) && handles(v@) == select(doc.nodes(), doc.top(), p),
                None => r matches Err(QueryError::InvalidXPath(m)) && m@ == e@,
            },
            Query::CssSelector(sel) => match r {
                Ok(v) => tl_selected(doc.source_view(), sel@) matches Some(hs) && handles(v@) == resolve(doc.nodes(), hs),
                Err(e) => e matches QueryError::InvalidSelector(m) && m@ == sel@ && tl_selected(
                    doc.source_view(),
                    sel@,
                ) is None,
            },
        },
        r matches Ok(v) ==> forall|m: int| 0 <= m < v@.len() ==> (#[trigger] v@[m]).doc == doc && v@[m].valid(),
{
    match query {
        Query::XPath(e) | Query::Extract(e) => {
            let p = parse_xpath_pattern(e.as_str())?;
            Ok(execute_pattern(doc, &p))
        },
        Query::CssSelector(sel) => execute_css_selector(doc, sel.as_str()),
    }
}

} // verus!
