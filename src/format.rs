//! The structural formatter: renders the tree back to markup, one element
//! per line, indented by nesting level and optionally colored.

use vstd::prelude::*;
use crate::query::QueryOptions;
use crate::text::{string_of, trim, trim_string};
use crate::types::{child, n_children, text_of, Document, NodeData, NodeRef, NodeType};

verus! {

/// When to color output.
#[derive(Debug, Clone, Copy, PartialEq, Eq, Structural)]
pub enum ColorMode {
    /// Color where the destination is an interactive terminal.
    Auto,
    /// Always color.
    Always,
    /// Never color.
    Never,
}

/// One level of indentation.
#[derive(Debug, Clone, Copy, PartialEq, Eq, Structural)]
pub enum Indent {
    /// This many spaces, from 0 to 8.
    Spaces(u8),
    /// One tab character.
    Tab,
}

/// The indentation for nesting level `level`.
pub open spec fn indent_spec(ind: Indent, level: nat) -> Seq<char> {
    match ind {
        Indent::Spaces(n) => Seq::new(n as nat * level, |_i: int| ' '),
        Indent::Tab => Seq::new(level, |_i: int| '\t'),
    }
}

impl Indent {
    /// The indentation for nesting level `level`.
    pub fn as_str(&self, level: usize) -> (r: String)
        ensures
            r@ == indent_spec(*self, level as nat),
    {
        let (c, n): (char, usize) = match self {
            Indent::Spaces(n) => (' ', *n as usize),
            Indent::Tab => ('\t', 1),
        };
        let mut v: Vec<char> = Vec::new();
        let mut l: usize = 0;
        while l < level
            invariant
                l <= level,
                v@ == Seq::new(n as nat * l as nat, |_i: int| c),
            decreases level - l,
        {
            let mut j: usize = 0;
            while j < n
                invariant
                    l < level,
                    j <= n,
                    v@ == Seq::new(n as nat * l as nat + j as nat, |_i: int| c),
                decreases n - j,
            {
                v.push(c);
                j = j + 1;
                assert(v@ =~= Seq::new(n as nat * l as nat + j as nat, |_i: int| c));
            }
            l = l + 1;
            assert(n as nat * l as nat == n as nat * (l - 1) as nat + n) by (nonlinear_arith)
                requires l >= 1;
        }
        assert(indent_spec(*self, level as nat) =~= Seq::new(n as nat * level as nat, |_i: int| c));
        string_of(v.as_slice())
    }

    /// One level of indentation; a width above 8 falls back to two spaces.
    pub fn unit(&self) -> (r: &'static str)
        ensures
            match *self {
                Indent::Spaces(n) => if n <= 8 {
                    r@ == indent_spec(*self, 1)
                } else {
                    r@ == indent_spec(Indent::Spaces(2), 1)
                },
                Indent::Tab => r@ == indent_spec(*self, 1),
            },
    {
        let r = match self {
            Indent::Spaces(n) => match n {
                0 => "",
                1 => " ",
                2 => "  ",
                3 => "   ",
                4 => "    ",
                5 => "     ",
                6 => "      ",
                7 => "       ",
                8 => "        ",
                _ => "  ",
            },
            Indent::Tab => "\t",
        };
        proof {
            reveal_strlit("");
            reveal_strlit(" ");
            reveal_strlit("  ");
            reveal_strlit("   ");
            reveal_strlit("    ");
            reveal_strlit("     ");
            reveal_strlit("      ");
            reveal_strlit("       ");
            reveal_strlit("        ");
            reveal_strlit("\t");
            assert(indent_spec(Indent::Spaces(2), 1) =~= "  "@);
            match *self {
                Indent::Spaces(n) => if n <= 8 {
                    assert(indent_spec(*self, 1) =~= r@);
                },
                Indent::Tab => assert(indent_spec(*self, 1) =~= r@),
            }
        }
        r
    }
}

/// Formatting settings.
#[derive(Debug, Clone, Copy)]
pub struct FormatOptions {
    pub indent: Indent,
    pub color: ColorMode,
    /// For JSON output: no indentation and no line breaks.
    pub compact: bool,
}

impl Default for FormatOptions {
    fn default() -> (r: Self)
        ensures
            r.indent == Indent::Spaces(2),
            r.color == ColorMode::Auto,
            !r.compact,
    {
        FormatOptions { indent: Indent::Spaces(2), color: ColorMode::Auto, compact: false }
    }
}

impl FormatOptions {
    /// Whether output is colored, given whether the destination is an
    /// interactive terminal.
    pub fn use_colors(&self, is_terminal: bool) -> (r: bool)
        ensures
            r == (match self.color {
                ColorMode::Always => true,
                ColorMode::Never => false,
                ColorMode::Auto => is_terminal,
            }),
    {
        match self.color {
            ColorMode::Always => true,
            ColorMode::Never => false,
            ColorMode::Auto => is_terminal,
        }
    }
}

/// The escape sequences that open each colored class, and the one that
/// closes them.
#[derive(Debug, Clone, Copy)]
pub struct ColorScheme {
    pub tag: &'static str,
    pub attr: &'static str,
    pub comment: &'static str,
    pub value: &'static str,
    pub reset: &'static str,
}

impl ColorScheme {
    /// Yellow tags, green attributes and values, bright blue comments.
    pub fn default() -> (r: Self)
        ensures
            r.tag@ == "\x1b[33m"@,
            r.attr@ == "\x1b[32m"@,
            r.comment@ == "\x1b[94m"@,
            r.value@ == "\x1b[32m"@,
            r.reset@ == "\x1b[0m"@,
    {
        ColorScheme {
            tag: "\x1b[33m",
            attr: "\x1b[32m",
            comment: "\x1b[94m",
            value: "\x1b[32m",
            reset: "\x1b[0m",
        }
    }

    /// No color at all: every sequence is empty.
    pub fn none() -> (r: Self)
        ensures
            r.tag@.len() == 0,
            r.attr@.len() == 0,
            r.comment@.len() == 0,
            r.value@.len() == 0,
            r.reset@.len() == 0,
    {
        proof {
            reveal_strlit("");
        }
        ColorScheme { tag: "", attr: "", comment: "", value: "", reset: "" }
    }
}

/// The color sequences of a scheme, as character sequences.
pub ghost struct Palette {
    pub tag: Seq<char>,
    pub attr: Seq<char>,
    pub comment: Seq<char>,
    pub reset: Seq<char>,
}

impl ColorScheme {
    pub open spec fn view(&self) -> Palette {
        Palette { tag: self.tag@, attr: self.attr@, comment: self.comment@, reset: self.reset@ }
    }
}

/// The palette of `ColorScheme::default` when `on`, of `ColorScheme::none` otherwise.
pub open spec fn palette(on: bool) -> Palette {
    if on {
        Palette { tag: "\x1b[33m"@, attr: "\x1b[32m"@, comment: "\x1b[94m"@, reset: "\x1b[0m"@ }
    } else {
        Palette { tag: Seq::empty(), attr: Seq::empty(), comment: Seq::empty(), reset: Seq::empty() }
    }
}

/// The first `m` attributes as they follow an opening tag.
pub open spec fn attrs_text(attrs: Seq<(String, String)>, p: Palette, m: int) -> Seq<char>
    decreases m,
{
    if m <= 0 || m > attrs.len() {
        Seq::empty()
    } else {
        attrs_text(attrs, p, m - 1) + " "@ + attrs[m - 1].0@ + p.attr + p.reset + "=\""@ + attrs[m - 1].1@
            + "\""@ + p.reset
    }
}

/// An attribute name of a declaration, with the one `tl` shortens restored.
pub open spec fn declaration_name(n: Seq<char>) -> Seq<char> {
    if n == "ersion"@ {
        "version"@
    } else {
        n
    }
}

/// The first `m` attributes as they follow `<?xml`.
pub open spec fn declaration_attrs(attrs: Seq<(String, String)>, m: int) -> Seq<char>
    decreases m,
{
    if m <= 0 || m > attrs.len() {
        Seq::empty()
    } else {
        declaration_attrs(attrs, m - 1) + " "@ + declaration_name(attrs[m - 1].0@) + "=\""@ + attrs[m - 1].1@
            + "\""@
    }
}

pub open spec fn is_textual(nodes: Seq<NodeData>, c: int) -> bool {
    0 <= c < nodes.len() && (nodes[c].kind == NodeType::Text || nodes[c].kind == NodeType::Raw)
}

/// Every child of node `i` is text.
pub open spec fn text_only(nodes: Seq<NodeData>, i: int) -> bool {
    forall|k: int| 0 <= k < n_children(nodes, i) ==> is_textual(nodes, #[trigger] child(nodes, i, k))
}

/// The trimmed texts of children `k..` of node `i`, joined.
pub open spec fn inline_text(nodes: Seq<NodeData>, i: int, k: int) -> Seq<char>
    decreases n_children(nodes, i) - k,
{
    if 0 <= k < n_children(nodes, i) {
        let c = child(nodes, i, k);
        (if 0 <= c < nodes.len() {
            trim(text_of(nodes, c))
        } else {
            Seq::empty()
        }) + inline_text(nodes, i, k + 1)
    } else {
        Seq::empty()
    }
}

pub open spec fn closing(name: Seq<char>, p: Palette) -> Seq<char> {
    p.tag + "</"@ + name + ">"@ + p.reset + "\n"@
}

/// The rendering of node `i` at nesting level `level` when `k == -1`; with
/// `k >= 0`, of children `k..` of `i`, each at nesting level `level`.
pub open spec fn render(nodes: Seq<NodeData>, i: int, k: int, level: nat, ind: Indent, p: Palette) -> Seq<char>
    decreases i, n_children(nodes, i) - k,
{
    if i < 0 || i >= nodes.len() || k < -1 {
        Seq::empty()
    } else if k == -1 {
        let n = nodes[i];
        if n.kind == NodeType::Element {
            if n.name@.len() == 0 {
                "<?xml"@ + declaration_attrs(n.attrs@, n.attrs@.len() as int) + "?>\n"@ + render(
                    nodes,
                    i,
                    0,
                    level,
                    ind,
                    p,
                )
            } else {
                let open = indent_spec(ind, level) + p.tag + "<"@ + n.name@ + attrs_text(n.attrs@, p, n.attrs@.len() as int);
                if n.children@.len() == 0 {
                    open + p.tag + "/>"@ + p.reset + "\n"@
                } else if text_only(nodes, i) {
                    open + p.tag + ">"@ + p.reset + inline_text(nodes, i, 0) + closing(n.name@, p)
                } else {
                    open + p.tag + ">"@ + p.reset + "\n"@ + render(nodes, i, 0, level + 1, ind, p)
                        + indent_spec(ind, level) + closing(n.name@, p)
                }
            }
        } else if n.kind == NodeType::Text {
            let t = trim(n.text@);
            if t.len() > 0 {
                t + "\n"@
            } else {
                Seq::empty()
            }
        } else if n.kind == NodeType::Comment {
            indent_spec(ind, level) + p.comment + n.text@ + p.reset + "\n"@
        } else {
            Seq::empty()
        }
    } else if k < n_children(nodes, i) {
        let c = child(nodes, i, k);
        (if 0 <= c < i {
            render(nodes, c, -1, level, ind, p)
        } else {
            Seq::empty()
        }) + render(nodes, i, k + 1, level, ind, p)
    } else {
        Seq::empty()
    }
}

/// The rendering of top-level nodes `k..`, each at level zero.
pub open spec fn render_top(nodes: Seq<NodeData>, top: Seq<usize>, k: int, ind: Indent, p: Palette) -> Seq<char>
    decreases top.len() - k,
{
    if 0 <= k < top.len() {
        render(nodes, top[k] as int, -1, 0, ind, p) + render_top(nodes, top, k + 1, ind, p)
    } else {
        Seq::empty()
    }
}

/// Renders markup documents.
pub struct XmlFormatter;

/// Renders a document as its source text, unchanged.
pub struct TextFormatter;

impl TextFormatter {
    /// The document's source text.
    pub fn format(&self, doc: &Document) -> (r: String)
        ensures
            r@ == doc.source_view(),
    {
        String::from_str(doc.source())
    }
}

fn write_attrs(out: &mut String, attrs: &Vec<(String, String)>, cs: &ColorScheme)
    ensures
        final(out)@ == old(out)@ + attrs_text(attrs@, cs@, attrs@.len() as int),
{
    let ghost start = out@;
    let mut k: usize = 0;
    while k < attrs.len()
        invariant
            k <= attrs@.len(),
            out@ == start + attrs_text(attrs@, cs@, k as int),
        decreases attrs.len() - k,
    {
        let ghost before = out@;
        out.append(" ");
        out.append(attrs[k].0.as_str());
        out.append(cs.attr);
        out.append(cs.reset);
        out.append("=\"");
        out.append(attrs[k].1.as_str());
        out.append("\"");
        out.append(cs.reset);
        k = k + 1;
        assert(out@ =~= start + attrs_text(attrs@, cs@, k as int));
    }
}

fn write_declaration_attrs(out: &mut String, attrs: &Vec<(String, String)>)
    ensures
        final(out)@ == old(out)@ + declaration_attrs(attrs@, attrs@.len() as int),
{
    let ghost start = out@;
    let version = String::from_str("version");
    let ersion = String::from_str("ersion");
    let mut k: usize = 0;
    while k < attrs.len()
        invariant
            k <= attrs@.len(),
            version@ == "version"@,
            ersion@ == "ersion"@,
            out@ == start + declaration_attrs(attrs@, k as int),
        decreases attrs.len() - k,
    {
        out.append(" ");
        if attrs[k].0 == ersion {
            out.append(version.as_str());
        } else {
            out.append(attrs[k].0.as_str());
        }
        out.append("=\"");
        out.append(attrs[k].1.as_str());
        out.append("\"");
        k = k + 1;
        assert(out@ =~= start + declaration_attrs(attrs@, k as int));
    }
}

/// Whether every child of node `i` is text.
fn children_text_only(doc: &Document, i: usize) -> (r: bool)
    requires
        doc.wf(),
        i < doc.nodes().len(),
    ensures
        r == text_only(doc.nodes(), i as int),
{
    let n = doc.node(i);
    let mut k: usize = 0;
    while k < n.children.len()
        invariant
            doc.wf(),
            i < doc.nodes().len(),
            *n == doc.nodes()[i as int],
            k <= n.children@.len(),
            forall|m: int| 0 <= m < k ==> is_textual(doc.nodes(), #[trigger] child(doc.nodes(), i as int, m)),
        decreases n.children.len() - k,
    {
        let c = n.children[k];
        let kind = doc.node(c).kind;
        if !(kind == NodeType::Text || kind == NodeType::Raw) {
            assert(!is_textual(doc.nodes(), child(doc.nodes(), i as int, k as int)));
            return false;
        }
        k = k + 1;
    }
    true
}

/// Appends the trimmed texts of the children of node `i`.
fn write_inline_text(doc: &Document, i: usize, out: &mut String)
    requires
        doc.wf(),
        i < doc.nodes().len(),
    ensures
        final(out)@ == old(out)@ + inline_text(doc.nodes(), i as int, 0),
{
    let ghost start = out@;
    let kids = NodeRef { doc, handle: Some(i) }.children();
    let mut k: usize = 0;
    while k < kids.len()
        invariant
            doc.wf(),
            i < doc.nodes().len(),
            kids@.len() == doc.nodes()[i as int].children@.len(),
            forall|m: int| 0 <= m < kids@.len() ==> (#[trigger] kids@[m]).doc == doc && kids@[m].handle == Some(
                doc.nodes()[i as int].children@[m],
            ),
            forall|m: int| 0 <= m < kids@.len() ==> (#[trigger] kids@[m]).valid(),
            k <= kids@.len(),
            out@ + inline_text(doc.nodes(), i as int, k as int) == start + inline_text(doc.nodes(), i as int, 0),
        decreases kids.len() - k,
    {
        let ghost before = out@;
        let ghost c = doc.nodes()[i as int].children@[k as int] as int;
        if let Some(t) = kids[k].text() {
            let tt = trim_string(t.as_str());
            out.append(tt.as_str());
        }
        assert(out@ + inline_text(doc.nodes(), i as int, k + 1) =~= before + inline_text(doc.nodes(), i as int, k as int));
        k = k + 1;
    }
    assert(inline_text(doc.nodes(), i as int, k as int) =~= Seq::<char>::empty());
    assert(out@ =~= start + inline_text(doc.nodes(), i as int, 0));
}

/// Appends the rendering of children `k..` of node `i`, each at `level`.
fn render_children(doc: &Document, i: usize, level: usize, ind: Indent, cs: &ColorScheme, out: &mut String)
    requires
        doc.wf(),
        i < doc.nodes().len(),
        level + i <= usize::MAX,
    ensures
        final(out)@ == old(out)@ + render(doc.nodes(), i as int, 0, level as nat, ind, cs@),
    decreases i, 0nat,
{
    let ghost nodes = doc.nodes();
    let ghost start = out@;
    let n = doc.node(i);
    let mut k: usize = 0;
    while k < n.children.len()
        invariant
            doc.wf(),
            nodes == doc.nodes(),
            i < nodes.len(),
            level + i <= usize::MAX,
            *n == nodes[i as int],
            k <= n.children@.len(),
            out@ + render(nodes, i as int, k as int, level as nat, ind, cs@) == start + render(
                nodes,
                i as int,
                0,
                level as nat,
                ind,
                cs@,
            ),
        decreases n.children.len() - k,
    {
        let c = n.children[k];
        assert(c < i);
        let ghost before = out@;
        render_node(doc, c, level, ind, cs, &mut *out);
        let ghost x = render(nodes, c as int, -1, level as nat, ind, cs@);
        let ghost y = render(nodes, i as int, k + 1, level as nat, ind, cs@);
        assert(render(nodes, i as int, k as int, level as nat, ind, cs@) == x + y);
        assert((before + x) + y =~= before + (x + y));
        k = k + 1;
    }
    assert(render(nodes, i as int, k as int, level as nat, ind, cs@) =~= Seq::<char>::empty());
    assert(out@ =~= start + render(nodes, i as int, 0, level as nat, ind, cs@));
}

fn write_open(out: &mut String, pad: &String, name: &String, attrs: &Vec<(String, String)>, cs: &ColorScheme)
    ensures
        final(out)@ == old(out)@ + (pad@ + cs@.tag + "<"@ + name@ + attrs_text(attrs@, cs@, attrs@.len() as int)),
{
    let ghost start = out@;
    out.append(pad.as_str());
    out.append(cs.tag);
    out.append("<");
    out.append(name.as_str());
    let ghost mid = out@;
    write_attrs(out, attrs, cs);
    assert(out@ =~= start + (pad@ + cs@.tag + "<"@ + name@ + attrs_text(attrs@, cs@, attrs@.len() as int)));
}

fn write_close(out: &mut String, name: &String, cs: &ColorScheme)
    ensures
        final(out)@ == old(out)@ + closing(name@, cs@),
{
    let ghost start = out@;
    out.append(cs.tag);
    out.append("</");
    out.append(name.as_str());
    out.append(">");
    out.append(cs.reset);
    out.append("\n");
    assert(out@ =~= start + closing(name@, cs@));
}

fn write_three(out: &mut String, a: &str, b: &str, c: &str)
    ensures
        final(out)@ == old(out)@ + (a@ + b@ + c@),
{
    let ghost start = out@;
    out.append(a);
    out.append(b);
    out.append(c);
    assert(out@ =~= start + (a@ + b@ + c@));
}

/// Appends the rendering of an element with a tag name.
#[verifier::rlimit(60)]
fn render_element(doc: &Document, i: usize, level: usize, ind: Indent, cs: &ColorScheme, out: &mut String)
    requires
        doc.wf(),
        i < doc.nodes().len(),
        level + i < usize::MAX,
        doc.nodes()[i as int].kind == NodeType::Element,
        doc.nodes()[i as int].name@.len() != 0,
    ensures
        final(out)@ == old(out)@ + render(doc.nodes(), i as int, -1, level as nat, ind, cs@),
    decreases i, 1nat,
{
    let ghost nodes = doc.nodes();
    let ghost start = out@;
    let n = doc.node(i);
    let pad = ind.as_str(level);
    write_open(out, &pad, &n.name, &n.attrs, cs);
    let ghost open = pad@ + cs@.tag + "<"@ + n.name@ + attrs_text(n.attrs@, cs@, n.attrs@.len() as int);
    if n.children.len() == 0 {
        write_three(out, cs.tag, "/>", cs.reset);
        out.append("\n");
        assert(out@ =~= start + (open + cs@.tag + "/>"@ + cs@.reset + "\n"@));
        assert(render(nodes, i as int, -1, level as nat, ind, cs@) == open + cs@.tag + "/>"@ + cs@.reset + "\n"@);
    } else if children_text_only(doc, i) {
        write_three(out, cs.tag, ">", cs.reset);
        let ghost a = out@;
        write_inline_text(doc, i, out);
        let ghost b = out@;
        write_close(out, &n.name, cs);
        assert(out@ =~= start + (open + cs@.tag + ">"@ + cs@.reset + inline_text(nodes, i as int, 0) + closing(n.name@, cs@)));
        assert(render(nodes, i as int, -1, level as nat, ind, cs@) == open + cs@.tag + ">"@ + cs@.reset + inline_text(nodes, i as int, 0) + closing(n.name@, cs@));
    } else {
        write_three(out, cs.tag, ">", cs.reset);
        out.append("\n");
        let ghost a = out@;
        render_children(doc, i, level + 1, ind, cs, &mut *out);
        let ghost b = out@;
        out.append(pad.as_str());
        write_close(out, &n.name, cs);
        assert(out@ =~= start + (open + cs@.tag + ">"@ + cs@.reset + "\n"@ + render(nodes, i as int, 0, level as nat + 1, ind, cs@)
            + indent_spec(ind, level as nat) + closing(n.name@, cs@)));
        assert(render(nodes, i as int, -1, level as nat, ind, cs@) == open + cs@.tag + ">"@ + cs@.reset + "\n"@ + render(nodes, i as int, 0, level as nat + 1, ind, cs@)
            + indent_spec(ind, level as nat) + closing(n.name@, cs@));
    }
}

/// Appends the rendering of node `i` at nesting level `level`.
fn render_node(doc: &Document, i: usize, level: usize, ind: Indent, cs: &ColorScheme, out: &mut String)
    requires
        doc.wf(),
        i < doc.nodes().len(),
        level + i < usize::MAX,
    ensures
        final(out)@ == old(out)@ + render(doc.nodes(), i as int, -1, level as nat, ind, cs@),
    decreases i, 2nat,
{
    let ghost nodes = doc.nodes();
    let ghost start = out@;
    let n = doc.node(i);
    if n.kind == NodeType::Element {
        if n.name.as_str().unicode_len() == 0 {
            out.append("<?xml");
            write_declaration_attrs(out, &n.attrs);
            out.append("?>\n");
            render_children(doc, i, level, ind, cs, &mut *out);
            assert(out@ =~= start + render(nodes, i as int, -1, level as nat, ind, cs@));
        } else {
            render_element(doc, i, level, ind, cs, out);
        }
    } else if n.kind == NodeType::Text {
        let t = trim_string(n.text.as_str());
        if t.as_str().unicode_len() > 0 {
            out.append(t.as_str());
            out.append("\n");
        }
        assert(out@ =~= start + render(nodes, i as int, -1, level as nat, ind, cs@));
    } else if n.kind == NodeType::Comment {
        let pad = ind.as_str(level);
        write_three(out, pad.as_str(), cs.comment, n.text.as_str());
        out.append(cs.reset);
        out.append("\n");
        assert(out@ =~= start + render(nodes, i as int, -1, level as nat, ind, cs@));
    } else {
        assert(out@ =~= start + render(nodes, i as int, -1, level as nat, ind, cs@));
    }
}

impl XmlFormatter {
    /// Renders every top-level node at level zero, colored when `colors`.
    pub fn format(&self, doc: &Document, options: &FormatOptions, colors: bool) -> (r: String)
        requires
            doc.wf(),
        ensures
            r@ == render_top(doc.nodes(), doc.top(), 0, options.indent, palette(colors)),
    {
        let cs = if colors {
            ColorScheme::default()
        } else {
            ColorScheme::none()
        };
        assert(cs@.tag == palette(colors).tag);
        assert(cs@.attr == palette(colors).attr);
        assert(cs@.comment == palette(colors).comment);
        assert(cs@.reset == palette(colors).reset);
        assert(cs@ == palette(colors));
        let cnt = doc.node_count();
        let tops = doc.top_level();
        let mut out = String::new();
        let mut k: usize = 0;
        while k < tops.len()
            invariant
                doc.wf(),
                cs@ == palette(colors),
                cnt == doc.nodes().len(),
                tops@.len() == doc.top().len(),
                forall|m: int| 0 <= m < tops@.len() ==> #[trigger] tops@[m].handle == Some(doc.top()[m]),
                k <= tops@.len(),
                out@ + render_top(doc.nodes(), doc.top(), k as int, options.indent, cs@) == render_top(
                    doc.nodes(),
                    doc.top(),
                    0,
                    options.indent,
                    cs@,
                ),
            decreases tops.len() - k,
        {
            let i = tops[k].handle.unwrap();
            assert(doc.top()[k as int] < doc.nodes().len());
            let ghost before = out@;
            render_node(doc, i, 0, options.indent, &cs, &mut out);
            assert(out@ + render_top(doc.nodes(), doc.top(), k + 1, options.indent, cs@) =~= before
                + render_top(doc.nodes(), doc.top(), k as int, options.indent, cs@));
            k = k + 1;
        }
        assert(out@ =~= out@ + render_top(doc.nodes(), doc.top(), k as int, options.indent, cs@));
        out
    }
}

/// The line a query result renders to: its full markup with `with_tags`,
/// else the attribute `extract_attr` names, else its trimmed text; a result
/// without that attribute, or whose text trims to nothing, renders to nothing.
pub open spec fn result_line(nodes: Seq<NodeData>, h: Option<usize>, with_tags: bool, attr: Option<Seq<char>>) -> Seq<char> {
    if with_tags {
        (match h {
            Some(i) => nodes[i as int].outer@,
            None => Seq::empty(),
        }) + "\n"@
    } else {
        match attr {
            Some(a) => match h {
                Some(i) => match crate::types::attr_of(nodes, i as int, a) {
                    Some(v) => v + "\n"@,
                    None => Seq::empty(),
                },
                None => Seq::empty(),
            },
            None => match h {
                Some(i) => if trim(text_of(nodes, i as int)).len() > 0 {
                    trim(text_of(nodes, i as int)) + "\n"@
                } else {
                    Seq::empty()
                },
                None => Seq::empty(),
            },
        }
    }
}

/// The lines of the first `k` results.
pub open spec fn result_lines(
    nodes: Seq<NodeData>,
    hs: Seq<Option<usize>>,
    k: int,
    with_tags: bool,
    attr: Option<Seq<char>>,
) -> Seq<char>
    decreases k,
{
    if k <= 0 || k > hs.len() {
        Seq::empty()
    } else {
        result_lines(nodes, hs, k - 1, with_tags, attr) + result_line(nodes, hs[k - 1], with_tags, attr)
    }
}

pub open spec fn ref_handles(rs: Seq<NodeRef>) -> Seq<Option<usize>> {
    rs.map_values(|n: NodeRef| n.handle)
}

/// Renders query results one per line, as `result_lines` states.
pub fn format_query_results<'a>(doc: &'a Document, results: &Vec<NodeRef<'a>>, options: &QueryOptions) -> (r: String)
    requires
        doc.wf(),
        forall|m: int| 0 <= m < results@.len() ==> (#[trigger] results@[m]).doc == doc && results@[m].valid(),
    ensures
        r@ == result_lines(
            doc.nodes(),
            ref_handles(results@),
            results@.len() as int,
            options.with_tags,
            crate::query::opt_view(&options.extract_attr),
        ),
{
    let ghost hs = ref_handles(results@);
    let ghost a = crate::query::opt_view(&options.extract_attr);
    let mut out = String::new();
    let mut k: usize = 0;
    while k < results.len()
        invariant
            doc.wf(),
            forall|m: int| 0 <= m < results@.len() ==> (#[trigger] results@[m]).doc == doc && results@[m].valid(),
            hs == ref_handles(results@),
            a == crate::query::opt_view(&options.extract_attr),
            k <= results@.len(),
            out@ == result_lines(doc.nodes(), hs, k as int, options.with_tags, a),
        decreases results.len() - k,
    {
        let node = &results[k];
        assert(hs[k as int] == node.handle);
        let ghost before = out@;
        if options.with_tags {
            let outer = node.outer_html();
            out.append(outer.as_str());
            out.append("\n");
        } else if let Some(name) = &options.extract_attr {
            if let Some(v) = node.attr(name.as_str()) {
                out.append(v.as_str());
                out.append("\n");
            }
        } else if let Some(t) = node.text() {
            let tt = trim_string(t.as_str());
            if tt.as_str().unicode_len() > 0 {
                out.append(tt.as_str());
                out.append("\n");
            }
        }
        assert(out@ =~= before + result_line(doc.nodes(), hs[k as int], options.with_tags, a));
        k = k + 1;
    }
    out
}

/// Formatting the same document twice with the same settings gives the same
/// text: the output depends on the tree, the indentation and the palette alone.
pub proof fn format_is_deterministic(doc: &Document, options: FormatOptions, colors: bool, first: Seq<char>, second: Seq<char>)
    requires
        first == render_top(doc.nodes(), doc.top(), 0, options.indent, palette(colors)),
        second == render_top(doc.nodes(), doc.top(), 0, options.indent, palette(colors)),
    ensures
        first == second,
{
}

} // verus!
