//! The projection of a subtree into a structured value: ordered mappings,
//! sequences and strings, ready for JSON export.

use vstd::prelude::*;
use crate::error::FormatError;
use crate::format::{indent_spec, FormatOptions};
use crate::text::{trim, trim_string};
use crate::types::{child, n_children, root_spec, tag_of, text_of, Document, DocumentType, NodeData, NodeRef, NodeType};

verus! {

/// A structured value. Mappings keep their keys in insertion order.
#[derive(Debug)]
pub enum Structured {
    Null,
    Str(String),
    List(Vec<Structured>),
    Object(Vec<(String, Structured)>),
}

/// What a `Structured` denotes.
pub ghost enum JValue {
    Null,
    Str(Seq<char>),
    List(Seq<JValue>),
    Object(Seq<(Seq<char>, JValue)>),
}

impl Structured {
    pub open spec fn view(&self) -> JValue
        decreases self,
    {
        match self {
            Structured::Null => JValue::Null,
            Structured::Str(s) => JValue::Str(s@),
            Structured::List(v) => JValue::List(items_view(v@)),
            Structured::Object(m) => JValue::Object(entries_view(m@)),
        }
    }
}

pub open spec fn items_view(v: Seq<Structured>) -> Seq<JValue>
    decreases v,
{
    Seq::new(v.len(), |i: int| if 0 <= i < v.len() { v[i].view() } else { JValue::Null })
}

pub open spec fn entries_view(m: Seq<(String, Structured)>) -> Seq<(Seq<char>, JValue)>
    decreases m,
{
    Seq::new(m.len(), |i: int| if 0 <= i < m.len() { (m[i].0@, m[i].1.view()) } else { (Seq::empty(), JValue::Null) })
}

/// The position of key `k` in mapping `m`, if it is there.
pub open spec fn key_index(m: Seq<(Seq<char>, JValue)>, k: Seq<char>) -> Option<int>
    decreases m.len(),
{
    if m.len() == 0 {
        None
    } else if m.last().0 == k {
        match key_index(m.drop_last(), k) {
            Some(j) => Some(j),
            None => Some(m.len() - 1),
        }
    } else {
        key_index(m.drop_last(), k)
    }
}

/// `m` with `k` bound to `v`: in place where `k` is bound, at the end otherwise.
pub open spec fn insert_key(m: Seq<(Seq<char>, JValue)>, k: Seq<char>, v: JValue) -> Seq<(Seq<char>, JValue)> {
    match key_index(m, k) {
        Some(j) => m.update(j, (k, v)),
        None => m.push((k, v)),
    }
}

/// `m` with `v` added under `k`: a second value turns the entry into a
/// sequence of both, and later ones extend that sequence.
pub open spec fn add_child_entry(m: Seq<(Seq<char>, JValue)>, k: Seq<char>, v: JValue) -> Seq<(Seq<char>, JValue)> {
    match key_index(m, k) {
        Some(j) => match m[j].1 {
            JValue::List(items) => m.update(j, (k, JValue::List(items.push(v)))),
            old => m.update(j, (k, JValue::List(seq![old, v]))),
        },
        None => m.push((k, v)),
    }
}

/// The mapping of the first `n` attributes, each under `@` and its name.
pub open spec fn attr_entries(attrs: Seq<(String, String)>, n: int) -> Seq<(Seq<char>, JValue)>
    decreases n,
{
    if n <= 0 || n > attrs.len() {
        Seq::empty()
    } else {
        insert_key(attr_entries(attrs, n - 1), "@"@ + attrs[n - 1].0@, JValue::Str(attrs[n - 1].1@))
    }
}

/// What converting an element has gathered after its first `k` children.
pub ghost struct Gathered {
    pub entries: Seq<(Seq<char>, JValue)>,
    pub text: Seq<char>,
    pub has_elements: bool,
}

/// The state after the first `k` children of element `i`: text children add
/// their text, element children add their projection under their tag name.
pub open spec fn gather(nodes: Seq<NodeData>, i: int, k: int) -> Gathered
    decreases i, k,
{
    if i < 0 || i >= nodes.len() || k <= 0 || k > n_children(nodes, i) {
        Gathered {
            entries: attr_entries(nodes[i].attrs@, nodes[i].attrs@.len() as int),
            text: Seq::empty(),
            has_elements: false,
        }
    } else {
        let g = gather(nodes, i, k - 1);
        let c = child(nodes, i, k - 1);
        if !(0 <= c < i) {
            g
        } else if nodes[c].kind == NodeType::Text {
            Gathered { text: g.text + nodes[c].text@, ..g }
        } else if nodes[c].kind == NodeType::Element {
            if nodes[c].name@.len() == 0 {
                Gathered { has_elements: true, ..g }
            } else {
                Gathered {
                    entries: add_child_entry(g.entries, nodes[c].name@, project_element(nodes, c)),
                    has_elements: true,
                    ..g
                }
            }
        } else {
            g
        }
    }
}

/// The projection of element `i`: its gathered mapping, with the trimmed
/// text under `#text`; an element with neither attributes nor element
/// children projects to its trimmed text, or to `Null` when that is empty.
pub open spec fn project_element(nodes: Seq<NodeData>, i: int) -> JValue
    decreases i, n_children(nodes, i) + 1,
{
    if i < 0 || i >= nodes.len() {
        JValue::Null
    } else {
        let g = gather(nodes, i, n_children(nodes, i));
        let t = trim(g.text);
        let bare = g.entries.len() == 0 && !g.has_elements;
        if t.len() > 0 {
            if bare {
                JValue::Str(t)
            } else {
                JValue::Object(insert_key(g.entries, "#text"@, JValue::Str(t)))
            }
        } else if bare {
            JValue::Null
        } else {
            JValue::Object(g.entries)
        }
    }
}

pub proof fn lemma_key_index(m: Seq<(Seq<char>, JValue)>, k: Seq<char>)
    ensures
        match key_index(m, k) {
            Some(j) => 0 <= j < m.len() && m[j].0 == k && forall|l: int| 0 <= l < j ==> m[l].0 != k,
            None => forall|l: int| 0 <= l < m.len() ==> m[l].0 != k,
        },
    decreases m.len(),
{
    if m.len() > 0 {
        lemma_key_index(m.drop_last(), k);
        assert forall|l: int| 0 <= l < m.len() - 1 implies m[l] == m.drop_last()[l] by {}
    }
}

/// The position of key `k` in `m`, as `key_index` states.
fn find_key(m: &Vec<(String, Structured)>, k: &String) -> (r: Option<usize>)
    ensures
        match r {
            Some(j) => key_index(entries_view(m@), k@) == Some(j as int),
            None => key_index(entries_view(m@), k@) is None,
        },
{
    let ghost e = entries_view(m@);
    proof {
        lemma_key_index(e, k@);
    }
    let mut j: usize = 0;
    while j < m.len()
        invariant
            e == entries_view(m@),
            e.len() == m@.len(),
            j <= m@.len(),
            forall|l: int| 0 <= l < j ==> e[l].0 != k@,
            match key_index(e, k@) {
                Some(x) => 0 <= x < e.len() && e[x].0 == k@ && forall|l: int| 0 <= l < x ==> e[l].0 != k@,
                None => forall|l: int| 0 <= l < e.len() ==> e[l].0 != k@,
            },
        decreases m.len() - j,
    {
        assert(e[j as int] == (m@[j as int].0@, m@[j as int].1@));
        if m[j].0 == *k {
            return Some(j);
        }
        j = j + 1;
    }
    None
}

proof fn lemma_entries_update(m: Seq<(String, Structured)>, j: int, x: (String, Structured))
    requires
        0 <= j < m.len(),
    ensures
        entries_view(m.update(j, x)) == entries_view(m).update(j, (x.0@, x.1@)),
{
    assert(entries_view(m.update(j, x)) =~= entries_view(m).update(j, (x.0@, x.1@)));
}

proof fn lemma_entries_push(m: Seq<(String, Structured)>, x: (String, Structured))
    ensures
        entries_view(m.push(x)) == entries_view(m).push((x.0@, x.1@)),
{
    assert(entries_view(m.push(x)) =~= entries_view(m).push((x.0@, x.1@)));
}

/// Binds `k` to `v` in `m`, as `insert_key` states.
fn insert_entry(m: &mut Vec<(String, Structured)>, k: String, v: Structured)
    ensures
        entries_view(final(m)@) == insert_key(entries_view(old(m)@), k@, v@),
{
    proof {
        lemma_key_index(entries_view(old(m)@), k@);
    }
    match find_key(m, &k) {
        Some(j) => {
            let ghost before = m@;
            let _ = m.remove(j);
            m.insert(j, (k, v));
            assert(m@ =~= before.update(j as int, m@[j as int]));
            proof {
                lemma_entries_update(before, j as int, m@[j as int]);
            }
        },
        None => {
            let ghost before = m@;
            m.push((k, v));
            proof {
                lemma_entries_push(before, m@.last());
            }
        },
    }
}

/// Adds `v` under `k` in `m`, as `add_child_entry` states.
fn add_child(m: &mut Vec<(String, Structured)>, k: String, v: Structured)
    ensures
        entries_view(final(m)@) == add_child_entry(entries_view(old(m)@), k@, v@),
{
    proof {
        lemma_key_index(entries_view(old(m)@), k@);
    }
    let ghost before = m@;
    match find_key(m, &k) {
        Some(j) => {
            assert(entries_view(before)[j as int] == (before[j as int].0@, before[j as int].1@));
            let (key, old_value) = m.remove(j);
            assert(key@ == k@);
            let ghost oldv = old_value@;
            assert(entries_view(before)[j as int].1 == oldv);
            let merged = match old_value {
                Structured::List(mut items) => {
                    let ghost iv = items@;
                    assert(oldv is List);
                    let ghost lv = oldv->List_0;
                    assert(lv.len() == iv.len());
                    assert(forall|i: int| 0 <= i < iv.len() ==> lv[i] == iv[i].view());
                    items.push(v);
                    let ghost nv = items@;
                    assert(items_view(nv) =~= lv.push(v@));
                    let r = Structured::List(items);
                    assert(r@ == JValue::List(lv.push(v@)));
                    r
                },
                other => {
                    let mut items: Vec<Structured> = Vec::new();
                    items.push(other);
                    items.push(v);
                    let ghost nv = items@;
                    assert(nv[0] == other);
                    assert(items_view(nv) =~= seq![oldv, v@]);
                    let r = Structured::List(items);
                    assert(r@ == JValue::List(seq![oldv, v@]));
                    assert(!(oldv is List));
                    r
                },
            };
            assert(merged@ == (match oldv {
                JValue::List(items) => JValue::List(items.push(v@)),
                o => JValue::List(seq![o, v@]),
            }));
            m.insert(j, (key, merged));
            assert(m@ =~= before.update(j as int, m@[j as int]));
            proof {
                lemma_entries_update(before, j as int, m@[j as int]);
            }
        },
        None => {
            m.push((k, v));
            proof {
                lemma_entries_push(before, m@.last());
            }
        },
    }
}

/// The mapping of the attributes of node `i`, as `attr_entries` states.
fn attribute_entries(doc: &Document, i: usize) -> (r: Vec<(String, Structured)>)
    requires
        i < doc.nodes().len(),
    ensures
        entries_view(r@) == attr_entries(doc.nodes()[i as int].attrs@, doc.nodes()[i as int].attrs@.len() as int),
{
    let attrs = &doc.node(i).attrs;
    let mut m: Vec<(String, Structured)> = Vec::new();
    let mut k: usize = 0;
    assert(entries_view(m@) =~= Seq::<(Seq<char>, JValue)>::empty());
    while k < attrs.len()
        invariant
            k <= attrs@.len(),
            entries_view(m@) == attr_entries(attrs@, k as int),
        decreases attrs.len() - k,
    {
        let key = String::from_str("@").concat(attrs[k].0.as_str());
        proof {
            reveal_strlit("@");
        }
        insert_entry(&mut m, key, Structured::Str(attrs[k].1.clone()));
        k = k + 1;
    }
    m
}

/// The projection of element `i`, as `project_element` states.
fn project_node(doc: &Document, i: usize) -> (r: Structured)
    requires
        doc.wf(),
        i < doc.nodes().len(),
    ensures
        r@ == project_element(doc.nodes(), i as int),
    decreases i,
{
    let ghost nodes = doc.nodes();
    let n = doc.node(i);
    let mut entries = attribute_entries(doc, i);
    let mut text = String::new();
    let mut has_elements = false;
    let mut k: usize = 0;
    while k < n.children.len()
        invariant
            doc.wf(),
            nodes == doc.nodes(),
            i < nodes.len(),
            *n == nodes[i as int],
            k <= n.children@.len(),
            gather(nodes, i as int, k as int) == (Gathered { entries: entries_view(entries@), text: text@, has_elements }),
        decreases n.children.len() - k,
    {
        let c = n.children[k];
        assert(c < i);
        let cn = doc.node(c);
        if cn.kind == NodeType::Text {
            text = text.concat(cn.text.as_str());
        } else if cn.kind == NodeType::Element {
            has_elements = true;
            if cn.name.as_str().unicode_len() != 0 {
                let v = project_node(doc, c);
                add_child(&mut entries, cn.name.clone(), v);
            }
        }
        k = k + 1;
    }
    let t = trim_string(text.as_str());
    let bare = entries.len() == 0 && !has_elements;
    if t.as_str().unicode_len() > 0 {
        if bare {
            Structured::Str(t)
        } else {
            let key = String::from_str("#text");
            insert_entry(&mut entries, key, Structured::Str(t));
            Structured::Object(entries)
        }
    } else if bare {
        Structured::Null
    } else {
        Structured::Object(entries)
    }
}

/// The projection of a node: an element as `project_element` states, a text
/// node as its trimmed text, anything else as `Null`.
pub open spec fn project_spec(nodes: Seq<NodeData>, h: Option<usize>) -> JValue {
    match h {
        Some(i) => if nodes[i as int].kind == NodeType::Element {
            project_element(nodes, i as int)
        } else if nodes[i as int].kind == NodeType::Text {
            JValue::Str(trim(text_of(nodes, i as int)))
        } else {
            JValue::Null
        },
        None => JValue::Null,
    }
}

/// Converts a node and its subtree into a structured value.
pub fn to_json(node: NodeRef) -> (r: Structured)
    requires
        node.valid(),
    ensures
        r@ == project_spec(node.doc.nodes(), node.handle),
{
    match node.handle {
        Some(i) => {
            let kind = node.node_type();
            if kind == NodeType::Element {
                project_node(node.doc, i)
            } else if kind == NodeType::Text {
                match node.text() {
                    Some(t) => Structured::Str(trim_string(t.as_str())),
                    None => Structured::Null,
                }
            } else {
                Structured::Null
            }
        },
        None => Structured::Null,
    }
}

/// The value of a whole markup document: the root's projection under the
/// root's tag name, or alone where the root is not an element.
pub open spec fn document_value(nodes: Seq<NodeData>, top: Seq<usize>) -> JValue {
    match root_spec(nodes, top) {
        Some(ri) => match tag_of(nodes, ri as int) {
            Some(t) => JValue::Object(seq![(t, project_spec(nodes, Some(ri)))]),
            None => project_spec(nodes, Some(ri)),
        },
        None => JValue::Null,
    }
}

/// The projection of a whole markup document: the root's value under the
/// root's tag name. A JSON document has no tree to convert, and gives `None`.
pub fn project_document(doc: &Document) -> (r: Option<Structured>)
    requires
        doc.wf(),
    ensures
        doc.kind() == DocumentType::Json <==> r is None,
        r matches Some(v) ==> v@ == document_value(doc.nodes(), doc.top()),
{
    if doc.doc_type() == DocumentType::Json {
        return None;
    }
    let root = doc.root();
    let v = to_json(root);
    match root.tag_name() {
        Some(tag) => {
            let mut m: Vec<(String, Structured)> = Vec::new();
            let ghost vv = v@;
            m.push((tag, v));
            assert(entries_view(m@) =~= seq![(m@[0].0@, vv)]);
            Some(Structured::Object(m))
        },
        None => Some(v),
    }
}

#[verifier::external_type_specification]
#[verifier::external_body]
pub struct ExJson(serde_json::Value);

/// The compact JSON text serde_json writes for `v`.
pub uninterp spec fn json_compact_of(v: JValue) -> Seq<char>;

/// The JSON text serde_json's pretty printer writes for `v`, one level of
/// nesting indented by `indent`.
pub uninterp spec fn json_pretty_of(v: JValue, indent: Seq<char>) -> Seq<char>;

/// The compact JSON text serde_json writes for the value it reads from `src`,
/// or `None` where `src` is not JSON.
pub uninterp spec fn json_reformat_compact_of(src: Seq<char>) -> Option<Seq<char>>;

/// The pretty JSON text, indented by `indent`, serde_json writes for the
/// value it reads from `src`, or `None` where `src` is not JSON.
pub uninterp spec fn json_reformat_pretty_of(src: Seq<char>, indent: Seq<char>) -> Option<Seq<char>>;

/// Relies on serde_json's `Structured` constructors: `v` as a serde_json value, its
/// mappings kept in order (the `preserve_order` feature).
#[verifier::external_body]
fn serde_value(v: &Structured) -> serde_json::Value {
    match v {
        Structured::Null => serde_json::Value::Null,
        Structured::Str(s) => serde_json::Value::String(s.clone()),
        Structured::List(items) => serde_json::Value::Array(items.iter().map(serde_value).collect()),
        Structured::Object(m) => serde_json::Value::Object(m.iter().map(|(k, x)| (k.clone(), serde_value(x))).collect()),
    }
}

/// Relies on `serde_json::to_string`, which cannot fail on a `serde_json::Value`.
#[verifier::external_body]
fn encode_compact(v: &Structured) -> (r: String)
    ensures
        r@ == json_compact_of(v@),
{
    serde_json::to_string(&serde_value(v)).unwrap_or_default()
}

/// Relies on `serde_json::ser::PrettyFormatter::with_indent`, which cannot
/// fail on a `serde_json::Value` written to memory.
#[verifier::external_body]
fn encode_pretty(v: &Structured, indent: &str) -> (r: String)
    ensures
        r@ == json_pretty_of(v@, indent@),
{
    let mut out: Vec<u8> = Vec::new();
    let f = serde_json::ser::PrettyFormatter::with_indent(indent.as_bytes());
    let mut ser = serde_json::Serializer::with_formatter(&mut out, f);
    let _ = serde::Serialize::serialize(&serde_value(v), &mut ser);
    String::from_utf8(out).unwrap_or_default()
}

/// Relies on `serde_json::from_str` and `serde_json::to_string`: `src` read as
/// JSON and written back compactly, or `None` where it is not JSON.
#[verifier::external_body]
fn reformat_compact(src: &str) -> (r: Option<String>)
    ensures
        match r {
            Some(t) => json_reformat_compact_of(src@) == Some(t@),
            None => json_reformat_compact_of(src@) is None,
        },
{
    serde_json::from_str::<serde_json::Value>(src).ok().map(|v| v.to_string())
}

/// Relies on `serde_json::from_str` and `serde_json::ser::PrettyFormatter`:
/// `src` read as JSON and written back indented by `indent`, or `None` where
/// it is not JSON.
#[verifier::external_body]
fn reformat_pretty(src: &str, indent: &str) -> (r: Option<String>)
    ensures
        match r {
            Some(t) => json_reformat_pretty_of(src@, indent@) == Some(t@),
            None => json_reformat_pretty_of(src@, indent@) is None,
        },
{
    let v: serde_json::Value = serde_json::from_str(src).ok()?;
    let mut out: Vec<u8> = Vec::new();
    let f = serde_json::ser::PrettyFormatter::with_indent(indent.as_bytes());
    let mut ser = serde_json::Serializer::with_formatter(&mut out, f);
    serde::Serialize::serialize(&v, &mut ser).ok()?;
    String::from_utf8(out).ok()
}

/// The JSON text of a document: a markup document's value, a JSON document's
/// own value; compact, or pretty with one indentation unit per level and a
/// final line break.
pub fn json_output(doc: &Document, options: &FormatOptions) -> (r: Result<String, FormatError>)
    requires
        doc.wf(),
    ensures
        doc.kind() != DocumentType::Json ==> (r matches Ok(t) && t@ == (if options.compact {
            json_compact_of(document_value(doc.nodes(), doc.top()))
        } else {
            json_pretty_of(document_value(doc.nodes(), doc.top()), indent_spec(options.indent, 1)) + "\n"@
        })),
        doc.kind() == DocumentType::Json ==> match (if options.compact {
            json_reformat_compact_of(doc.source_view())
        } else {
            json_reformat_pretty_of(doc.source_view(), indent_spec(options.indent, 1))
        }) {
            Some(t) => r matches Ok(o) && o@ == (if options.compact {
                t
            } else {
                t + "\n"@
            }),
            None => r matches Err(FormatError::IoError(_)),
        },
{
    let indent = options.indent.as_str(1);
    match project_document(doc) {
        Some(v) => if options.compact {
            Ok(encode_compact(&v))
        } else {
            let mut t = encode_pretty(&v, indent.as_str());
            t.append("\n");
            Ok(t)
        },
        None => {
            let text = if options.compact {
                reformat_compact(doc.source())
            } else {
                reformat_pretty(doc.source(), indent.as_str())
            };
            match text {
                Some(mut t) => {
                    if !options.compact {
                        t.append("\n");
                    }
                    Ok(t)
                },
                None => Err(FormatError::IoError(String::from_str("invalid JSON input"))),
            }
        },
    }
}

} // verus!
