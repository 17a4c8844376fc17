//! The document model: a source buffer, its kind, and an arena of parsed
//! nodes addressed by index. Every child of a node stands at a lower index
//! than the node itself, so the tree has no cycles and each walk ends.

use vstd::prelude::*;
use vstd::string::StringSliceAdditionalSpecFns;
use crate::error::ParseError;
use crate::text::occurs_here;
use crate::text::{
    chars_of, contains, contains_chars, lower_of, skip_white, starts_with, string_of, to_lower,
    trim_start,
};
use crate::tl_source;
use crate::tl_source::{opt_chars, raw_attr_set, tl_attributes, tl_children, tl_kind, tl_name, tl_span, tl_top, Parsed};

verus! {

/// The kind of a document.
#[derive(Debug, Clone, Copy, PartialEq, Eq, Structural)]
pub enum DocumentType {
    Xml,
    Html,
    Json,
}

/// The kind of a node in the document tree.
#[derive(Debug, Clone, Copy, PartialEq, Eq, Structural)]
pub enum NodeType {
    Element,
    Text,
    Comment,
    Raw,
}

/// One node of the arena. Elements carry a tag name, attributes and children;
/// text and comment nodes carry their span in `text`.
#[derive(Debug)]
pub struct NodeData {
    pub kind: NodeType,
    pub name: String,
    pub attrs: Vec<(String, String)>,
    pub children: Vec<usize>,
    pub text: String,
    pub outer: String,
    pub inner: String,
    pub handle: usize,
}

/// A parsed document. It owns its source text and the node arena; node
/// references borrow the document and cannot outlive it.
#[derive(Debug)]
pub struct Document {
    source: String,
    nodes: Vec<NodeData>,
    top: Vec<usize>,
    doc_type: DocumentType,
}

/// Every child index of every node is below the node's own index.
pub open spec fn wf_nodes(nodes: Seq<NodeData>) -> bool {
    forall|i: int, k: int|
        0 <= i < nodes.len() && 0 <= k < nodes[i].children@.len() ==> 0 <= #[trigger] nodes[i].children@[k] < i
}

pub open spec fn is_element(nodes: Seq<NodeData>, i: int) -> bool {
    0 <= i < nodes.len() && nodes[i].kind == NodeType::Element
}

/// The tag name of node `i`, which only elements have.
pub open spec fn tag_of(nodes: Seq<NodeData>, i: int) -> Option<Seq<char>> {
    if is_element(nodes, i) {
        Some(nodes[i].name@)
    } else {
        None
    }
}

/// The `k`-th child of node `i`, where that is a valid node below `i`.
pub open spec fn child(nodes: Seq<NodeData>, i: int, k: int) -> int {
    nodes[i].children@[k] as int
}

pub open spec fn n_children(nodes: Seq<NodeData>, i: int) -> int {
    if 0 <= i < nodes.len() {
        nodes[i].children@.len() as int
    } else {
        0
    }
}

pub open spec fn is_comment_span(s: Seq<char>) -> bool {
    starts_with(s, "<!--"@)
}

/// The text that children `k..` of node `i` contribute: text spans that do not
/// open a comment, and the text of element children, in order.
pub open spec fn text_from(nodes: Seq<NodeData>, i: int, k: int) -> Seq<char>
    decreases i, n_children(nodes, i) - k,
{
    if 0 <= i < nodes.len() && 0 <= k < nodes[i].children@.len() {
        let c = child(nodes, i, k);
        let piece = if 0 <= c < i {
            if nodes[c].kind == NodeType::Element {
                text_from(nodes, c, 0)
            } else if nodes[c].kind == NodeType::Text && !is_comment_span(nodes[c].text@) {
                nodes[c].text@
            } else {
                Seq::empty()
            }
        } else {
            Seq::empty()
        };
        piece + text_from(nodes, i, k + 1)
    } else {
        Seq::empty()
    }
}

/// The text of node `i`: the text of all its descendants for an element, its
/// own span for a text node, nothing for a comment.
pub open spec fn text_of(nodes: Seq<NodeData>, i: int) -> Seq<char> {
    if nodes[i].kind == NodeType::Element {
        text_from(nodes, i, 0)
    } else if nodes[i].kind == NodeType::Text {
        nodes[i].text@
    } else {
        Seq::empty()
    }
}

/// The value of the last attribute among the first `n` named `name`.
pub open spec fn lookup(attrs: Seq<(String, String)>, name: Seq<char>, n: int) -> Option<Seq<char>>
    decreases n,
{
    if n <= 0 || n > attrs.len() {
        None
    } else if attrs[n - 1].0@ == name {
        Some(attrs[n - 1].1@)
    } else {
        lookup(attrs, name, n - 1)
    }
}

/// The value of attribute `name` on node `i`, if it is an element that has it.
pub open spec fn attr_of(nodes: Seq<NodeData>, i: int, name: Seq<char>) -> Option<Seq<char>> {
    if is_element(nodes, i) {
        lookup(nodes[i].attrs@, name, nodes[i].attrs@.len() as int)
    } else {
        None
    }
}

/// The kind of a document whose text, trimmed at its start, lowercases to `t`.
pub open spec fn kind_of_folded(t: Seq<char>) -> DocumentType {
    if t.len() > 0 && (t[0] == '{' || t[0] == '[') {
        DocumentType::Json
    } else if contains(t, "<!doctype html"@) || contains(t, "<html"@) {
        DocumentType::Html
    } else {
        DocumentType::Xml
    }
}

/// The kind of a document with source `s`.
pub open spec fn detect_spec(s: Seq<char>) -> DocumentType {
    kind_of_folded(lower_of(trim_start(s)))
}

/// Detection reads nothing but the text with its leading whitespace removed
/// and lowercased: two sources that agree there are of the same kind.
pub proof fn detection_reads_folded_prefix(a: Seq<char>, b: Seq<char>)
    requires
        lower_of(trim_start(a)) == lower_of(trim_start(b)),
    ensures
        detect_spec(a) == detect_spec(b),
{
}

/// Index of the first top-level element among `top[k..]`.
pub open spec fn first_element_from(nodes: Seq<NodeData>, top: Seq<usize>, k: int) -> Option<usize>
    decreases top.len() - k,
{
    if k < 0 || k >= top.len() {
        None
    } else if is_element(nodes, top[k] as int) {
        Some(top[k])
    } else {
        first_element_from(nodes, top, k + 1)
    }
}

/// The first element child of node `i` at or after child position `k`.
pub open spec fn first_element_child(nodes: Seq<NodeData>, i: int, k: int) -> Option<usize>
    decreases n_children(nodes, i) - k,
{
    if k < 0 || k >= n_children(nodes, i) {
        None
    } else if is_element(nodes, child(nodes, i, k)) {
        Some(nodes[i].children@[k])
    } else {
        first_element_child(nodes, i, k + 1)
    }
}

/// The node the document's root resolves to: the first top-level element, or
/// else the first top-level node; an element with an empty tag name gives way
/// to its first element child.
pub open spec fn root_spec(nodes: Seq<NodeData>, top: Seq<usize>) -> Option<usize> {
    let base = match first_element_from(nodes, top, 0) {
        Some(i) => Some(i),
        None => if top.len() > 0 {
            Some(top[0])
        } else {
            None
        },
    };
    match base {
        Some(i) => if is_element(nodes, i as int) && nodes[i as int].name@.len() == 0 {
            match first_element_child(nodes, i as int, 0) {
                Some(c) => Some(c),
                None => Some(i),
            }
        } else {
            Some(i)
        },
        None => None,
    }
}

/// The kind of a document whose trimmed, lowercased text is `t`.
pub fn kind_of_lowered(t: &str) -> (r: DocumentType)
    ensures
        r == kind_of_folded(t@),
{
    let v = chars_of(t);
    if v.len() > 0 && (v[0] == '{' || v[0] == '[') {
        return DocumentType::Json;
    }
    let doctype = chars_of("<!doctype html");
    let html = chars_of("<html");
    if contains_chars(&v, &doctype) || contains_chars(&v, &html) {
        DocumentType::Html
    } else {
        DocumentType::Xml
    }
}

/// What a node is apart from its markup and the order of its attributes: its
/// kind, tag name, attribute set, children and text span.
pub ghost struct Shape {
    pub kind: NodeType,
    pub name: Seq<char>,
    pub attrs: Set<(Seq<char>, Seq<char>)>,
    pub children: Seq<usize>,
    pub text: Seq<char>,
}

/// The (name, value) pairs of an attribute list.
pub open spec fn attr_set(attrs: Seq<(String, String)>) -> Set<(Seq<char>, Seq<char>)> {
    Set::new(|p: (Seq<char>, Seq<char>)| exists|i: int| 0 <= i < attrs.len() && #[trigger] attrs[i].0@ == p.0 && attrs[i].1@ == p.1)
}

/// The pairs of `raw` that have a value.
pub open spec fn valued(raw: Set<(Seq<char>, Option<Seq<char>>)>) -> Set<(Seq<char>, Seq<char>)> {
    Set::new(|p: (Seq<char>, Seq<char>)| raw.contains((p.0, Some(p.1))))
}

pub open spec fn shape_of(n: NodeData) -> Shape {
    Shape { kind: n.kind, name: n.name@, attrs: attr_set(n.attrs@), children: n.children@, text: n.text@ }
}

pub open spec fn shapes(nodes: Seq<NodeData>) -> Seq<Shape> {
    nodes.map_values(|n: NodeData| shape_of(n))
}

/// The nodes that building `tl` node `h` of source `s` appends after `base`
/// nodes: its subtree, children first, the node itself last.
pub open spec fn built(s: Seq<char>, h: usize, fuel: nat, base: int) -> Seq<Shape>
    decreases fuel, 2nat, 0nat,
{
    match tl_kind(s, h) {
        None => Seq::empty(),
        Some(k) => {
            let kids = if k == NodeType::Element {
                built_kids(s, tl_children(s, h), fuel, base, tl_children(s, h).len())
            } else {
                (Seq::empty(), Seq::empty())
            };
            let name = if k == NodeType::Element {
                match tl_name(s, h) {
                    Some(n) => n,
                    None => Seq::empty(),
                }
            } else {
                Seq::empty()
            };
            let text = if k == NodeType::Element {
                Seq::empty()
            } else {
                match tl_span(s, h) {
                    Some(t) => t,
                    None => Seq::empty(),
                }
            };
            let attrs = if k == NodeType::Element {
                valued(tl_attributes(s, h))
            } else {
                Set::empty()
            };
            kids.0.push(Shape { kind: k, name, attrs, children: kids.1, text })
        },
    }
}

/// The nodes that building the first `k` of handles `hs` appends after
/// `base` nodes, and the indices of the subtree roots among them.
pub open spec fn built_kids(s: Seq<char>, hs: Seq<usize>, fuel: nat, base: int, k: nat) -> (Seq<Shape>, Seq<usize>)
    decreases fuel, 1nat, k,
{
    if k == 0 || k > hs.len() {
        (Seq::empty(), Seq::empty())
    } else {
        let prev = built_kids(s, hs, fuel, base, (k - 1) as nat);
        if fuel > 0 {
            let b = built(s, hs[k - 1], (fuel - 1) as nat, base + prev.0.len());
            if b.len() > 0 {
                (prev.0 + b, prev.1.push((base + prev.0.len() + b.len() - 1) as usize))
            } else {
                prev
            }
        } else {
            prev
        }
    }
}

/// The shapes of the nodes, and the top-level indices, of the document
/// parsed from `s`.
pub open spec fn tree_spec(s: Seq<char>) -> (Seq<Shape>, Seq<usize>) {
    built_kids(s, tl_top(s), s.len() + 1, 0, tl_top(s).len())
}

/// Two documents parsed from the same source have trees of the same shape:
/// the same nodes in the same places, with the same kinds, tag names,
/// attribute sets, texts and children, and the same top-level nodes.
pub proof fn reparse_gives_same_shape(a: &Document, b: &Document, src: Seq<char>)
    requires
        shapes(a.nodes()) == tree_spec(src).0,
        a.top() == tree_spec(src).1,
        shapes(b.nodes()) == tree_spec(src).0,
        b.top() == tree_spec(src).1,
    ensures
        a.nodes().len() == b.nodes().len(),
        a.top() == b.top(),
        forall|i: int|
            0 <= i < a.nodes().len() ==> #[trigger] tag_of(a.nodes(), i) == tag_of(b.nodes(), i)
                && a.nodes()[i].kind == b.nodes()[i].kind && a.nodes()[i].children@ == b.nodes()[i].children@
                && a.nodes()[i].text@ == b.nodes()[i].text@ && attr_set(a.nodes()[i].attrs@) == attr_set(
                b.nodes()[i].attrs@,
            ),
{
    assert(shapes(a.nodes()).len() == a.nodes().len());
    assert(shapes(b.nodes()).len() == b.nodes().len());
    assert forall|i: int| 0 <= i < a.nodes().len() implies #[trigger] tag_of(a.nodes(), i) == tag_of(b.nodes(), i)
        && a.nodes()[i].kind == b.nodes()[i].kind && a.nodes()[i].children@ == b.nodes()[i].children@
        && a.nodes()[i].text@ == b.nodes()[i].text@ && attr_set(a.nodes()[i].attrs@) == attr_set(b.nodes()[i].attrs@) by {
        assert(shapes(a.nodes())[i] == shape_of(a.nodes()[i]));
        assert(shapes(b.nodes())[i] == shape_of(b.nodes()[i]));
    }
}

/// One step of keeping the valued attributes: `post` is `pre` with `x`
/// appended, and `after` is `before` with `x` appended where `x` has a value.
proof fn lemma_filter_step(
    before: Seq<(String, String)>,
    after: Seq<(String, String)>,
    pre: Seq<(String, Option<String>)>,
    post: Seq<(String, Option<String>)>,
    x: (String, Option<String>),
)
    requires
        attr_set(before) == valued(raw_attr_set(pre)),
        post == pre.push(x),
        x.1 is None ==> after == before,
        x.1 matches Some(v) ==> after.len() == before.len() + 1 && after.drop_last() == before && after.last().0@ == x.0@
            && after.last().1@ == v@,
    ensures
        attr_set(after) == valued(raw_attr_set(post)),
{
    assert forall|q: (Seq<char>, Seq<char>)| #[trigger] attr_set(after).contains(q) implies valued(raw_attr_set(post)).contains(q) by {
        let i = choose|i: int| 0 <= i < after.len() && #[trigger] after[i].0@ == q.0 && after[i].1@ == q.1;
        if i < before.len() {
            if x.1 is Some {
                assert(after[i] == after.drop_last()[i]);
            }
            assert(attr_set(before).contains(q));
            assert(raw_attr_set(pre).contains((q.0, Some(q.1))));
            let w = choose|w: int| 0 <= w < pre.len() && #[trigger] pre[w].0@ == q.0 && opt_chars(pre[w].1) == Some(q.1);
            assert(post[w] == pre[w]);
        } else {
            assert(post[pre.len() as int] == x);
        }
    }
    assert forall|q: (Seq<char>, Seq<char>)| #[trigger] valued(raw_attr_set(post)).contains(q) implies attr_set(after).contains(q) by {
        let w = choose|w: int| 0 <= w < post.len() && #[trigger] post[w].0@ == q.0 && opt_chars(post[w].1) == Some(q.1);
        if w < pre.len() {
            assert(post[w] == pre[w]);
            assert(raw_attr_set(pre).contains((q.0, Some(q.1))));
            assert(attr_set(before).contains(q));
            let i = choose|i: int| 0 <= i < before.len() && #[trigger] before[i].0@ == q.0 && before[i].1@ == q.1;
            if x.1 is Some {
                assert(after[i] == after.drop_last()[i]);
            }
        } else {
            assert(post[w] == x);
            assert(after[before.len() as int] == after.last());
        }
    }
    assert(attr_set(after) =~= valued(raw_attr_set(post)));
}

/// Builds the subtree of `tl` node `h` into `out` after the nodes already
/// there, children first; returns the index of the node itself.
fn build_node(p: &Parsed<'_>, h: usize, fuel: usize, out: &mut Vec<NodeData>) -> (r: Option<usize>)
    requires
        wf_nodes(old(out)@),
    ensures
        wf_nodes(final(out)@),
        shapes(final(out)@) == shapes(old(out)@) + built(p.src@, h, fuel as nat, old(out)@.len() as int),
        final(out)@.len() == old(out)@.len() + built(p.src@, h, fuel as nat, old(out)@.len() as int).len(),
        match r {
            Some(i) => i == final(out)@.len() - 1 && built(p.src@, h, fuel as nat, old(out)@.len() as int).len() > 0,
            None => built(p.src@, h, fuel as nat, old(out)@.len() as int).len() == 0,
        },
    decreases fuel,
{
    let ghost s = p.src@;
    let ghost base = out@.len() as int;
    let ghost start = out@;
    let kind = match tl_source::node_kind(p, h) {
        Some(k) => k,
        None => {
            assert(shapes(out@) =~= shapes(out@) + Seq::<Shape>::empty());
            return None;
        },
    };
    let mut kids: Vec<usize> = Vec::new();
    let mut name = String::new();
    let mut attrs: Vec<(String, String)> = Vec::new();
    let mut text = String::new();
    let mut outer = String::new();
    let mut inner = String::new();
    if kind == NodeType::Element {
        if let Some(n) = tl_source::tag_name(p, h) {
            name = n;
        }
        let raw_attrs = tl_source::attributes(p, h);
        let mut j: usize = 0;
        assert(attr_set(attrs@) =~= valued(raw_attr_set(raw_attrs@.subrange(0, 0))));
        while j < raw_attrs.len()
            invariant
                j <= raw_attrs@.len(),
                attr_set(attrs@) == valued(raw_attr_set(raw_attrs@.subrange(0, j as int))),
            decreases raw_attrs.len() - j,
        {
            let ghost old_attrs = attrs@;
            let ghost pre = raw_attrs@.subrange(0, j as int);
            let ghost post = raw_attrs@.subrange(0, j + 1);
            if let Some(val) = &raw_attrs[j].1 {
                attrs.push((raw_attrs[j].0.clone(), val.clone()));
            }
            proof {
                assert(post =~= pre.push(raw_attrs@[j as int]));
                if raw_attrs@[j as int].1 is Some {
                    assert(attrs@.drop_last() =~= old_attrs);
                }
                lemma_filter_step(old_attrs, attrs@, pre, post, raw_attrs@[j as int]);
            }
            j = j + 1;
        }
        assert(raw_attrs@.subrange(0, j as int) =~= raw_attrs@);
        assert(attr_set(attrs@) == valued(tl_attributes(s, h)));
        let hs = tl_source::children(p, h);
        let mut k: usize = 0;
        while k < hs.len()
            invariant
                s == p.src@,
                hs@ == tl_children(s, h),
                attr_set(attrs@) == valued(tl_attributes(s, h)),
                base == start.len(),
                wf_nodes(out@),
                out@.len() >= start.len(),
                k <= hs@.len(),
                shapes(out@) == shapes(start) + built_kids(s, hs@, fuel as nat, base, k as nat).0,
                kids@ == built_kids(s, hs@, fuel as nat, base, k as nat).1,
                forall|m: int| 0 <= m < kids@.len() ==> kids@[m] < out@.len(),
            decreases hs.len() - k,
        {
            let ghost before = out@;
            if fuel > 0 {
                if let Some(c) = build_node(p, hs[k], fuel - 1, &mut *out) {
                    kids.push(c);
                }
            }
            proof {
                let prev = built_kids(s, hs@, fuel as nat, base, k as nat);
                assert(shapes(before).len() == before.len());
                assert(shapes(start).len() == start.len());
                if fuel > 0 {
                    let b = built(s, hs@[k as int], (fuel - 1) as nat, base + prev.0.len());
                    assert(before.len() == base + prev.0.len());
                    assert(shapes(out@) =~= shapes(start) + (prev.0 + b));
                }
            }
            k = k + 1;
        }
        outer = tl_source::outer_html(p, h);
        inner = tl_source::inner_html(p, h);
    } else if let Some(t) = tl_source::span_text(p, h) {
        text = t;
    }
    assert(kind != NodeType::Element ==> attr_set(attrs@) =~= Set::empty());
    let node = NodeData { kind, name, attrs, children: kids, text, outer, inner, handle: h };
    let idx = out.len();
    let ghost before = out@;
    out.push(node);
    proof {
        assert(shapes(out@) =~= shapes(before).push(shape_of(node)));
        assert forall|i: int, k: int|
            0 <= i < out@.len() && 0 <= k < out@[i].children@.len() implies 0
                <= #[trigger] out@[i].children@[k] < i by {
            if i < idx {
                assert(out@[i] == before[i]);
            }
        }
    }
    Some(idx)
}

impl Document {
    /// Parses `source` as a document of kind `doc_type`. Fails, with nothing
    /// built, only where the input is too long to index with 32 bits.
    pub fn parse(source: &str, doc_type: DocumentType) -> (r: Result<Document, ParseError>)
        ensures
            r is Err <==> source.spec_bytes().len() > u32::MAX,
            match r {
                Ok(d) => {
                    &&& d.wf()
                    &&& d.source_view() == source@
                    &&& d.kind() == doc_type
                    &&& shapes(d.nodes()) == tree_spec(source@).0
                    &&& d.top() == tree_spec(source@).1
                },
                Err(e) => e matches ParseError::SyntaxError(_),
            },
    {
        let parsed = match tl_source::parse(source) {
            Some(v) => v,
            None => return Err(ParseError::SyntaxError(String::from_str("InvalidLength"))),
        };
        let ghost s = source@;
        let hs = tl_source::top_level(&parsed);
        let mut nodes: Vec<NodeData> = Vec::new();
        let mut top: Vec<usize> = Vec::new();
        let fuel = source.unicode_len();
        let mut k: usize = 0;
        assert(shapes(nodes@) =~= Seq::<Shape>::empty());
        while k < hs.len()
            invariant
                s == parsed.src@,
                s == source@,
                fuel == s.len(),
                hs@ == tl_top(s),
                k <= hs@.len(),
                wf_nodes(nodes@),
                forall|m: int| 0 <= m < top@.len() ==> top@[m] < nodes@.len(),
                shapes(nodes@) == built_kids(s, hs@, fuel as nat + 1, 0, k as nat).0,
                top@ == built_kids(s, hs@, fuel as nat + 1, 0, k as nat).1,
            decreases hs.len() - k,
        {
            let ghost before = nodes@;
            if let Some(i) = build_node(&parsed, hs[k], fuel, &mut nodes) {
                top.push(i);
            }
            proof {
                let prev = built_kids(s, hs@, fuel as nat + 1, 0, k as nat);
                assert(shapes(before).len() == before.len());
                assert(before.len() == prev.0.len());
                let b = built(s, hs@[k as int], fuel as nat, prev.0.len() as int);
                assert(shapes(nodes@) =~= prev.0 + b);
            }
            k = k + 1;
        }
        Ok(Document { source: String::from_str(source), nodes, top, doc_type })
    }

    /// The arena is well formed, the top-level nodes lie in it, and the
    /// source is short enough for `tl` to parse.
    pub open spec fn wf(&self) -> bool {
        &&& vstd::utf8::encode_utf8(self.source_view()).len() <= u32::MAX
        &&& wf_nodes(self.nodes())
        &&& forall|m: int| 0 <= m < self.top().len() ==> #[trigger] self.top()[m] < self.nodes().len()
    }

    /// The nodes of the arena.
    pub closed spec fn nodes(&self) -> Seq<NodeData> {
        self.nodes@
    }

    /// The top-level nodes, in document order.
    pub closed spec fn top(&self) -> Seq<usize> {
        self.top@
    }

    pub closed spec fn source_view(&self) -> Seq<char> {
        self.source@
    }

    pub closed spec fn kind(&self) -> DocumentType {
        self.doc_type
    }

    /// The kind of document `source` holds: JSON where its text, trimmed and
    /// lowercased, opens with `{` or `[`; HTML where it then holds
    /// `<!doctype html` or `<html`; XML otherwise.
    pub fn detect_type(source: &str) -> (r: DocumentType)
        ensures
            r == detect_spec(source@),
    {
        let v = chars_of(source);
        let a = skip_white(&v, 0, v.len());
        assert(v@.subrange(0, v@.len() as int) =~= v@);
        let trimmed = string_of(&v.as_slice()[a..v.len()]);
        let lowered = to_lower(trimmed.as_str());
        kind_of_lowered(lowered.as_str())
    }

    /// Index of the first top-level element at or after position `k`.
    fn first_top_element(&self, k: usize) -> (r: Option<usize>)
        requires
            self.wf(),
            k <= self.top@.len(),
        ensures
            r == first_element_from(self.nodes@, self.top@, k as int),
            r matches Some(i) ==> i < self.nodes@.len(),
        decreases self.top@.len() - k,
    {
        if k >= self.top.len() {
            return None;
        }
        let i = self.top[k];
        assert(self.top()[k as int] < self.nodes().len());
        if self.nodes[i].kind == NodeType::Element {
            Some(i)
        } else {
            self.first_top_element(k + 1)
        }
    }

    /// The first element child of node `i` at or after child position `k`.
    fn first_child_element(&self, i: usize, k: usize) -> (r: Option<usize>)
        requires
            self.wf(),
            i < self.nodes@.len(),
            k <= self.nodes@[i as int].children@.len(),
        ensures
            r == first_element_child(self.nodes@, i as int, k as int),
            r matches Some(c) ==> c < i,
        decreases self.nodes@[i as int].children@.len() - k,
    {
        if k >= self.nodes[i].children.len() {
            return None;
        }
        let c = self.nodes[i].children[k];
        if self.nodes[c].kind == NodeType::Element {
            Some(c)
        } else {
            self.first_child_element(i, k + 1)
        }
    }

    /// The root node, as `root_spec` resolves it; a reference to no node for
    /// a document without nodes.
    pub fn root(&self) -> (r: NodeRef<'_>)
        requires
            self.wf(),
        ensures
            r.doc == self,
            r.handle == root_spec(self.nodes(), self.top()),
            r.valid(),
    {
        let base = match self.first_top_element(0) {
            Some(i) => Some(i),
            None => if self.top.len() > 0 {
                Some(self.top[0])
            } else {
                None
            },
        };
        let res = match base {
            Some(i) => if self.nodes[i].kind == NodeType::Element && self.nodes[i].name.as_str().unicode_len() == 0 {
                match self.first_child_element(i, 0) {
                    Some(c) => Some(c),
                    None => Some(i),
                }
            } else {
                Some(i)
            },
            None => None,
        };
        NodeRef { doc: self, handle: res }
    }

    /// The kind this document was parsed as.
    pub fn doc_type(&self) -> (r: DocumentType)
        ensures
            r == self.kind(),
    {
        self.doc_type
    }

    /// The source text.
    pub fn source(&self) -> (r: &str)
        ensures
            r@ == self.source_view(),
    {
        self.source.as_str()
    }

    /// The top-level nodes, in document order.
    pub fn top_level(&self) -> (r: Vec<NodeRef<'_>>)
        requires
            self.wf(),
        ensures
            r@.len() == self.top().len(),
            forall|m: int| 0 <= m < r@.len() ==> r@[m].doc == self && #[trigger] r@[m].handle == Some(self.top()[m]),
    {
        let mut r: Vec<NodeRef<'_>> = Vec::new();
        let mut k: usize = 0;
        while k < self.top.len()
            invariant
                k <= self.top@.len(),
                r@.len() == k,
                forall|m: int| 0 <= m < k ==> r@[m].doc == self && #[trigger] r@[m].handle == Some(self.top@[m]),
            decreases self.top.len() - k,
        {
            r.push(NodeRef { doc: self, handle: Some(self.top[k]) });
            k = k + 1;
        }
        r
    }
}

/// A reference to one node of a document, or to no node.
#[derive(Clone, Copy)]
pub struct NodeRef<'a> {
    pub doc: &'a Document,
    pub handle: Option<usize>,
}

impl Document {
    /// The text that children `k..` of node `i` contribute, as `text_from` states.
    fn collect_text(&self, i: usize, k: usize) -> (r: String)
        requires
            self.wf(),
            i < self.nodes@.len(),
            k <= self.nodes@[i as int].children@.len(),
        ensures
            r@ == text_from(self.nodes@, i as int, k as int),
        decreases i, self.nodes@[i as int].children@.len() - k,
    {
        if k >= self.nodes[i].children.len() {
            return String::new();
        }
        let c = self.nodes[i].children[k];
        let piece = if self.nodes[c].kind == NodeType::Element {
            self.collect_text(c, 0)
        } else if self.nodes[c].kind == NodeType::Text && !opens_comment(&self.nodes[c].text) {
            self.nodes[c].text.clone()
        } else {
            String::new()
        };
        let rest = self.collect_text(i, k + 1);
        piece.concat(rest.as_str())
    }

    /// The value of the last of the first `n` attributes of node `i` named `name`.
    fn lookup_attr(&self, i: usize, name: &str, n: usize) -> (r: Option<String>)
        requires
            i < self.nodes@.len(),
            n <= self.nodes@[i as int].attrs@.len(),
        ensures
            match r {
                Some(v) => lookup(self.nodes@[i as int].attrs@, name@, n as int) == Some(v@),
                None => lookup(self.nodes@[i as int].attrs@, name@, n as int) is None,
            },
        decreases n,
    {
        if n == 0 {
            return None;
        }
        let a = &self.nodes[i].attrs[n - 1];
        if a.0 == String::from_str(name) {
            Some(a.1.clone())
        } else {
            self.lookup_attr(i, name, n - 1)
        }
    }
}

/// Whether `s` opens with the comment marker `<!--`.
fn opens_comment(s: &String) -> (r: bool)
    ensures
        r == is_comment_span(s@),
{
    let v = chars_of(s.as_str());
    let m = chars_of("<!--");
    let r = occurs_here(&v, &m, 0);
    assert(r == is_comment_span(s@));
    r
}

impl<'a> NodeRef<'a> {
    /// The reference belongs to a well-formed document and names one of its
    /// nodes, or none.
    pub open spec fn valid(&self) -> bool {
        &&& self.doc.wf()
        &&& self.handle matches Some(i) ==> i < self.doc.nodes().len()
    }

    /// The node's kind; a reference to no node counts as raw.
    pub fn node_type(&self) -> (r: NodeType)
        requires
            self.valid(),
        ensures
            r == (match self.handle {
                Some(i) => self.doc.nodes()[i as int].kind,
                None => NodeType::Raw,
            }),
    {
        match self.handle {
            Some(i) => self.doc.nodes[i].kind,
            None => NodeType::Raw,
        }
    }

    /// The tag name, for an element.
    pub fn tag_name(&self) -> (r: Option<String>)
        requires
            self.valid(),
        ensures
            match self.handle {
                Some(i) => match r {
                    Some(n) => tag_of(self.doc.nodes(), i as int) == Some(n@),
                    None => tag_of(self.doc.nodes(), i as int) is None,
                },
                None => r is None,
            },
    {
        match self.handle {
            Some(i) => if self.doc.nodes[i].kind == NodeType::Element {
                Some(self.doc.nodes[i].name.clone())
            } else {
                None
            },
            None => None,
        }
    }

    /// The markup between the element's tags; empty for other nodes.
    pub fn inner_html(&self) -> (r: String)
        requires
            self.valid(),
        ensures
            match self.handle {
                Some(i) => r@ == self.doc.nodes()[i as int].inner@,
                None => r@.len() == 0,
            },
    {
        match self.handle {
            Some(i) => self.doc.nodes[i].inner.clone(),
            None => String::new(),
        }
    }

    /// The element's markup, its own tags included; empty for other nodes.
    pub fn outer_html(&self) -> (r: String)
        requires
            self.valid(),
        ensures
            match self.handle {
                Some(i) => r@ == self.doc.nodes()[i as int].outer@,
                None => r@.len() == 0,
            },
    {
        match self.handle {
            Some(i) => self.doc.nodes[i].outer.clone(),
            None => String::new(),
        }
    }

    /// The text content, as `text_of` states; `None` for a reference to no node.
    pub fn text(&self) -> (r: Option<String>)
        requires
            self.valid(),
        ensures
            match self.handle {
                Some(i) => r matches Some(t) && t@ == text_of(self.doc.nodes(), i as int),
                None => r is None,
            },
    {
        match self.handle {
            Some(i) => {
                let kind = self.doc.nodes[i].kind;
                if kind == NodeType::Element {
                    Some(self.doc.collect_text(i, 0))
                } else if kind == NodeType::Text {
                    Some(self.doc.nodes[i].text.clone())
                } else {
                    Some(String::new())
                }
            },
            None => None,
        }
    }

    /// The value of attribute `name`, compared exactly; where the name
    /// repeats, the last one counts.
    pub fn attr(&self, name: &str) -> (r: Option<String>)
        requires
            self.valid(),
        ensures
            match self.handle {
                Some(i) => match r {
                    Some(v) => attr_of(self.doc.nodes(), i as int, name@) == Some(v@),
                    None => attr_of(self.doc.nodes(), i as int, name@) is None,
                },
                None => r is None,
            },
    {
        match self.handle {
            Some(i) => if self.doc.nodes[i].kind == NodeType::Element {
                self.doc.lookup_attr(i, name, self.doc.nodes[i].attrs.len())
            } else {
                None
            },
            None => None,
        }
    }

    /// The text of a comment node.
    pub fn comment(&self) -> (r: Option<String>)
        requires
            self.valid(),
        ensures
            match self.handle {
                Some(i) => if self.doc.nodes()[i as int].kind == NodeType::Comment {
                    r matches Some(c) && c@ == self.doc.nodes()[i as int].text@
                } else {
                    r is None
                },
                None => r is None,
            },
    {
        match self.handle {
            Some(i) => if self.doc.nodes[i].kind == NodeType::Comment {
                Some(self.doc.nodes[i].text.clone())
            } else {
                None
            },
            None => None,
        }
    }

    /// The attributes of an element, in order, as (name, value) pairs.
    pub fn attributes(&self) -> (r: Vec<(String, String)>)
        requires
            self.valid(),
        ensures
            match self.handle {
                Some(i) => if self.doc.nodes()[i as int].kind == NodeType::Element {
                    r@.len() == self.doc.nodes()[i as int].attrs@.len() && forall|m: int|
                        0 <= m < r@.len() ==> #[trigger] r@[m].0@ == self.doc.nodes()[i as int].attrs@[m].0@
                            && r@[m].1@ == self.doc.nodes()[i as int].attrs@[m].1@
                } else {
                    r@.len() == 0
                },
                None => r@.len() == 0,
            },
    {
        let mut r: Vec<(String, String)> = Vec::new();
        if let Some(i) = self.handle {
            if self.doc.nodes[i].kind == NodeType::Element {
                let attrs = &self.doc.nodes[i].attrs;
                let mut k: usize = 0;
                while k < attrs.len()
                    invariant
                        k <= attrs@.len(),
                        r@.len() == k,
                        forall|m: int| 0 <= m < k ==> #[trigger] r@[m].0@ == attrs@[m].0@ && r@[m].1@ == attrs@[m].1@,
                    decreases attrs.len() - k,
                {
                    r.push((attrs[k].0.clone(), attrs[k].1.clone()));
                    k = k + 1;
                }
            }
        }
        r
    }

    /// The direct children, in order; none for a node other than an element.
    pub fn children(&self) -> (r: Vec<NodeRef<'a>>)
        requires
            self.valid(),
        ensures
            match self.handle {
                Some(i) => r@.len() == self.doc.nodes()[i as int].children@.len() && forall|m: int|
                    0 <= m < r@.len() ==> (#[trigger] r@[m]).doc == self.doc && r@[m].handle == Some(
                        self.doc.nodes()[i as int].children@[m],
                    ),
                None => r@.len() == 0,
            },
            forall|m: int| 0 <= m < r@.len() ==> (#[trigger] r@[m]).valid(),
    {
        let mut r: Vec<NodeRef<'a>> = Vec::new();
        if let Some(i) = self.handle {
            let kids = &self.doc.nodes[i].children;
            let mut k: usize = 0;
            while k < kids.len()
                invariant
                    self.valid(),
                    i < self.doc.nodes@.len(),
                    kids == &self.doc.nodes@[i as int].children,
                    k <= kids@.len(),
                    r@.len() == k,
                    forall|m: int| 0 <= m < k ==> (#[trigger] r@[m]).doc == self.doc && r@[m].handle == Some(kids@[m]),
                    forall|m: int| 0 <= m < k ==> (#[trigger] r@[m]).valid(),
                decreases kids.len() - k,
            {
                r.push(NodeRef { doc: self.doc, handle: Some(kids[k]) });
                k = k + 1;
            }
        }
        r
    }

    /// Whether the node has any child.
    pub fn has_children(&self) -> (r: bool)
        requires
            self.valid(),
        ensures
            r == (match self.handle {
                Some(i) => self.doc.nodes()[i as int].children@.len() > 0,
                None => false,
            }),
    {
        match self.handle {
            Some(i) => self.doc.nodes[i].children.len() > 0,
            None => false,
        }
    }

    /// The tree keeps no parent links, so no node has a parent to give.
    pub fn parent(&self) -> (r: Option<NodeRef<'a>>)
        ensures
            r is None,
    {
        None
    }
}

impl Document {
    /// The number of nodes in the arena.
    pub fn node_count(&self) -> (r: usize)
        ensures
            r == self.nodes().len(),
    {
        self.nodes.len()
    }

    /// Node `j` of the arena.
    pub fn node(&self, j: usize) -> (r: &NodeData)
        requires
            j < self.nodes().len(),
        ensures
            *r == self.nodes()[j as int],
    {
        &self.nodes[j]
    }

    /// The `tl` handle node `j` was built from.
    pub fn handle_at(&self, j: usize) -> (r: usize)
        requires
            j < self.nodes().len(),
        ensures
            r == self.nodes()[j as int].handle,
    {
        self.nodes[j].handle
    }
}

} // verus!
