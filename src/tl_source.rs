//! The markup parser of the `tl` crate, as the document model reads it.
//! Each function here makes one call into `tl` and converts its result to
//! plain values; node handles are `tl`'s indices into its node table. `tl`
//! parses deterministically, so the shape of its tree (kinds, names, texts
//! and children) is named as a function of the source text. Attributes are
//! named only as a set: past two per element `tl` keeps them in a `HashMap`
//! whose hasher each process seeds, so their order is not fixed by the source.

use vstd::prelude::*;
use vstd::string::StringSliceAdditionalSpecFns;
use crate::types::NodeType;

verus! {

#[verifier::external_type_specification]
#[verifier::external_body]
pub struct ExVDom<'a>(tl::VDom<'a>);

/// A tree `tl` parsed, with the text it was parsed from.
pub struct Parsed<'a> {
    pub(crate) vdom: tl::VDom<'a>,
    pub(crate) src: &'a str,
}

/// The handles of the top-level nodes `tl` finds in `s`.
pub uninterp spec fn tl_top(s: Seq<char>) -> Seq<usize>;

/// The kind of node `h` of the tree `tl` parses from `s`.
pub uninterp spec fn tl_kind(s: Seq<char>, h: usize) -> Option<NodeType>;

/// The tag name of node `h` of the tree `tl` parses from `s`.
pub uninterp spec fn tl_name(s: Seq<char>, h: usize) -> Option<Seq<char>>;

/// The child handles of node `h` of the tree `tl` parses from `s`.
pub uninterp spec fn tl_children(s: Seq<char>, h: usize) -> Seq<usize>;

/// The text of raw text or comment node `h` of the tree `tl` parses from `s`.
pub uninterp spec fn tl_span(s: Seq<char>, h: usize) -> Option<Seq<char>>;

/// The attributes, as a set, of node `h` of the tree `tl` parses from `s`.
pub uninterp spec fn tl_attributes(s: Seq<char>, h: usize) -> Set<(Seq<char>, Option<Seq<char>>)>;

/// The handles of the nodes that selector `sel` matches in the tree `tl`
/// parses from `s`, or `None` where `tl` cannot compile the selector.
pub uninterp spec fn tl_selected(s: Seq<char>, sel: Seq<char>) -> Option<Seq<usize>>;

pub open spec fn opt_chars(o: Option<String>) -> Option<Seq<char>> {
    match o {
        Some(x) => Some(x@),
        None => None,
    }
}

/// The (name, value) pairs of an attribute list whose values may be missing.
pub open spec fn raw_attr_set(raw: Seq<(String, Option<String>)>) -> Set<(Seq<char>, Option<Seq<char>>)> {
    Set::new(|p: (Seq<char>, Option<Seq<char>>)| exists|i: int| 0 <= i < raw.len() && #[trigger] raw[i].0@ == p.0 && opt_chars(raw[i].1) == p.1)
}

/// Relies on `tl::parse`, which refuses an input longer than `u32::MAX` bytes
/// and accepts every other; its one error becomes `None`.
#[verifier::external_body]
pub(crate) fn parse(src: &str) -> (r: Option<Parsed<'_>>)
    ensures
        r is None <==> src.spec_bytes().len() > u32::MAX,
        r matches Some(p) ==> p.src@ == src@,
{
    tl::parse(src, tl::ParserOptions::default()).ok().map(|vdom| Parsed { vdom, src })
}

/// Relies on `tl::VDom::children`: the handles of the top-level nodes, in order.
#[verifier::external_body]
pub(crate) fn top_level(p: &Parsed<'_>) -> (r: Vec<usize>)
    ensures
        r@ == tl_top(p.src@),
{
    p.vdom.children().iter().map(|h| h.get_inner() as usize).collect()
}

/// Relies on `tl::NodeHandle::get`: the kind of node `h`, or `None` where `h`
/// is outside the node table. Raw text nodes count as text.
#[verifier::external_body]
pub(crate) fn node_kind(p: &Parsed<'_>, h: usize) -> (r: Option<NodeType>)
    ensures
        r == tl_kind(p.src@, h),
{
    match tl::NodeHandle::new(h as u32).get(p.vdom.parser()) {
        Some(tl::Node::Tag(_)) => Some(NodeType::Element),
        Some(tl::Node::Raw(_)) => Some(NodeType::Text),
        Some(tl::Node::Comment(_)) => Some(NodeType::Comment),
        None => None,
    }
}

/// Relies on `tl::HTMLTag::name`: the tag name of element `h`.
#[verifier::external_body]
pub(crate) fn tag_name(p: &Parsed<'_>, h: usize) -> (r: Option<String>)
    ensures
        match r {
            Some(n) => tl_name(p.src@, h) == Some(n@),
            None => tl_name(p.src@, h) is None,
        },
{
    tl::NodeHandle::new(h as u32)
        .get(p.vdom.parser())
        .and_then(|n| n.as_tag())
        .map(|t| t.name().as_utf8_str().into_owned())
}

/// Relies on `tl::Attributes::iter`: the attributes of element `h`, in the
/// order `tl` keeps them; an attribute written without a value has `None`.
#[verifier::external_body]
pub(crate) fn attributes(p: &Parsed<'_>, h: usize) -> (r: Vec<(String, Option<String>)>)
    ensures
        raw_attr_set(r@) == tl_attributes(p.src@, h),
{
    match tl::NodeHandle::new(h as u32).get(p.vdom.parser()).and_then(|n| n.as_tag()) {
        Some(t) => t.attributes().iter().map(|(k, val)| (k.into_owned(), val.map(|x| x.into_owned()))).collect(),
        None => Vec::new(),
    }
}

/// Relies on `tl::Children::top`: the handles of the direct children of element `h`.
#[verifier::external_body]
pub(crate) fn children(p: &Parsed<'_>, h: usize) -> (r: Vec<usize>)
    ensures
        r@ == tl_children(p.src@, h),
{
    match tl::NodeHandle::new(h as u32).get(p.vdom.parser()).and_then(|n| n.as_tag()) {
        Some(t) => t.children().top().iter().map(|c| c.get_inner() as usize).collect(),
        None => Vec::new(),
    }
}

/// Relies on `tl::Bytes::as_utf8_str`: the text of a raw text or comment node `h`.
#[verifier::external_body]
pub(crate) fn span_text(p: &Parsed<'_>, h: usize) -> (r: Option<String>)
    ensures
        match r {
            Some(t) => tl_span(p.src@, h) == Some(t@),
            None => tl_span(p.src@, h) is None,
        },
{
    match tl::NodeHandle::new(h as u32).get(p.vdom.parser()) {
        Some(tl::Node::Raw(b)) => Some(b.as_utf8_str().into_owned()),
        Some(tl::Node::Comment(b)) => Some(b.as_utf8_str().into_owned()),
        _ => None,
    }
}

/// Relies on `tl::HTMLTag::outer_html`: the markup of element `h`, its tags included.
#[verifier::external_body]
pub(crate) fn outer_html(p: &Parsed<'_>, h: usize) -> (r: String) {
    match tl::NodeHandle::new(h as u32).get(p.vdom.parser()).and_then(|n| n.as_tag()) {
        Some(t) => t.outer_html(p.vdom.parser()),
        None => String::new(),
    }
}

/// Relies on `tl::HTMLTag::inner_html`: the markup between the tags of element `h`.
#[verifier::external_body]
pub(crate) fn inner_html(p: &Parsed<'_>, h: usize) -> (r: String) {
    match tl::NodeHandle::new(h as u32).get(p.vdom.parser()).and_then(|n| n.as_tag()) {
        Some(t) => t.inner_html(p.vdom.parser()),
        None => String::new(),
    }
}

/// Relies on `tl::VDom::query_selector`: the handles of the nodes that match
/// `selector`, in document order, or `None` where `tl` cannot compile it.
#[verifier::external_body]
pub(crate) fn query_selector(p: &Parsed<'_>, selector: &str) -> (r: Option<Vec<usize>>)
    ensures
        match r {
            Some(hs) => tl_selected(p.src@, selector@) == Some(hs@),
            None => tl_selected(p.src@, selector@) is None,
        },
{
    p.vdom.query_selector(selector).map(|it| it.map(|h| h.get_inner() as usize).collect())
}

} // verus!
