//! The decisions behind the command line: validating the indentation,
//! choosing the document kind, the query, the color policy and the
//! formatter. Reading arguments and files is left to the caller.

use vstd::prelude::*;
use crate::format::{ColorMode, FormatOptions, XmlFormatter};
use crate::error::FormatError;
use crate::format::indent_spec;
use crate::json::{
    document_value, json_compact_of, json_output, json_pretty_of, json_reformat_compact_of, json_reformat_pretty_of,
    project_document, Structured,
};
use crate::query::Query;
use crate::types::{detect_spec, Document, DocumentType};

verus! {

/// The settings the command line gathers.
#[derive(Debug, Clone)]
pub struct Cli {
    pub file: Option<String>,
    pub xpath: Option<String>,
    pub extract: Option<String>,
    pub css_query: Option<String>,
    pub css_attr: Option<String>,
    pub with_tags: bool,
    pub html: bool,
    pub json: bool,
    pub indent: u8,
    pub use_tabs: bool,
    pub force_color: bool,
    pub no_color: bool,
    pub in_place: bool,
    pub compact: bool,
    pub depth: i32,
}

impl Default for Cli {
    /// No file, no query, two spaces of indentation, no flag set, no depth limit.
    fn default() -> (r: Self)
        ensures
            r.file is None && r.xpath is None && r.extract is None && r.css_query is None && r.css_attr is None,
            !r.with_tags && !r.html && !r.json && !r.use_tabs && !r.force_color && !r.no_color && !r.in_place
                && !r.compact,
            r.indent == 2,
            r.depth == -1,
    {
        Cli {
            file: None,
            xpath: None,
            extract: None,
            css_query: None,
            css_attr: None,
            with_tags: false,
            html: false,
            json: false,
            indent: 2,
            use_tabs: false,
            force_color: false,
            no_color: false,
            in_place: false,
            compact: false,
            depth: -1,
        }
    }
}

pub open spec fn is_digit(c: char) -> bool {
    '0' <= c && c <= '9'
}

/// The number the decimal digits `s` write, where `s` is all digits.
pub open spec fn digits_value(s: Seq<char>) -> Option<int>
    decreases s.len(),
{
    if s.len() == 0 {
        None
    } else if !is_digit(s.last()) {
        None
    } else if s.len() == 1 {
        Some(s.last() as int - '0' as int)
    } else {
        match digits_value(s.drop_last()) {
            Some(v) => Some(v * 10 + (s.last() as int - '0' as int)),
            None => None,
        }
    }
}

proof fn lemma_digits_nonneg(s: Seq<char>)
    ensures
        digits_value(s) matches Some(v) ==> v >= 0,
    decreases s.len(),
{
    if s.len() > 1 {
        lemma_digits_nonneg(s.drop_last());
    }
}

/// The number `s` writes as an unsigned integer: an optional `+`, then digits.
pub open spec fn unsigned_value(s: Seq<char>) -> Option<int> {
    if s.len() > 0 && s[0] == '+' {
        digits_value(s.drop_first())
    } else {
        digits_value(s)
    }
}

/// Relies on `u8: FromStr`, which accepts an optional `+` followed by decimal
/// digits whose value fits in a `u8`, and refuses everything else.
#[verifier::external_body]
fn parse_u8(s: &str) -> (r: Option<u8>)
    ensures
        match unsigned_value(s@) {
            Some(v) => if v <= 255 {
                r == Some(v as u8)
            } else {
                r is None
            },
            None => r is None,
        },
{
    s.parse::<u8>().ok()
}

/// Accepts an indentation width from 0 to 8.
pub fn validate_indent(s: &str) -> (r: Result<u8, String>)
    ensures
        match unsigned_value(s@) {
            Some(v) => if v <= 8 {
                r == Ok::<u8, String>(v as u8)
            } else {
                r matches Err(m) && m@ == (if v <= 255 {
                    "indent should be between 0-8 spaces"@
                } else {
                    "must be a number"@
                })
            },
            None => r matches Err(m) && m@ == "must be a number"@,
        },
{
    proof {
        lemma_digits_nonneg(s@);
        lemma_digits_nonneg(s@.drop_first());
    }
    match parse_u8(s) {
        None => Err(String::from_str("must be a number")),
        Some(v) => if v > 8 {
            Err(String::from_str("indent should be between 0-8 spaces"))
        } else {
            Ok(v)
        },
    }
}

/// HTML where asked for, else the kind the text shows.
pub fn determine_doc_type(cli: &Cli, input: &str) -> (r: DocumentType)
    ensures
        r == (if cli.html {
            DocumentType::Html
        } else {
            detect_spec(input@)
        }),
{
    if cli.html {
        DocumentType::Html
    } else {
        Document::detect_type(input)
    }
}

/// The query asked for: a path expression before an extraction before a selector.
pub fn build_query(cli: &Cli) -> (r: Option<Query>)
    ensures
        match cli.xpath {
            Some(x) => r matches Some(Query::XPath(q)) && q@ == x@,
            None => match cli.extract {
                Some(e) => r matches Some(Query::Extract(q)) && q@ == e@,
                None => match cli.css_query {
                    Some(c) => r matches Some(Query::CssSelector(q)) && q@ == c@,
                    None => r is None,
                },
            },
        },
{
    if let Some(x) = &cli.xpath {
        Some(Query::XPath(x.clone()))
    } else if let Some(e) = &cli.extract {
        Some(Query::Extract(e.clone()))
    } else if let Some(c) = &cli.css_query {
        Some(Query::CssSelector(c.clone()))
    } else {
        None
    }
}

/// Never for editing in place; else forced on, forced off, or automatic.
pub fn color_mode(cli: &Cli) -> (r: ColorMode)
    ensures
        r == (if cli.in_place {
            ColorMode::Never
        } else if cli.force_color {
            ColorMode::Always
        } else if cli.no_color {
            ColorMode::Never
        } else {
            ColorMode::Auto
        }),
{
    if cli.in_place {
        ColorMode::Never
    } else if cli.force_color {
        ColorMode::Always
    } else if cli.no_color {
        ColorMode::Never
    } else {
        ColorMode::Auto
    }
}

/// Renders markup documents through `XmlFormatter`.
pub struct XmlHtmlFormatter;

/// Renders documents as JSON: markup through its projection, JSON as it reads.
pub struct JsonFormatter;

/// The formatter for a kind of document.
pub enum DocFormatter {
    Xml(XmlHtmlFormatter),
    Json(JsonFormatter),
}

/// Markup kinds are rendered as markup, JSON as JSON.
pub fn get_formatter(doc_type: DocumentType) -> (r: DocFormatter)
    ensures
        (r is Json) <==> doc_type == DocumentType::Json,
{
    match doc_type {
        DocumentType::Xml | DocumentType::Html => DocFormatter::Xml(XmlHtmlFormatter),
        DocumentType::Json => DocFormatter::Json(JsonFormatter),
    }
}

impl XmlHtmlFormatter {
    /// What `XmlFormatter::format` renders.
    pub fn format(&self, doc: &Document, options: &FormatOptions, colors: bool) -> (r: String)
        requires
            doc.wf(),
        ensures
            r@ == crate::format::render_top(doc.nodes(), doc.top(), 0, options.indent, crate::format::palette(colors)),
    {
        XmlFormatter.format(doc, options, colors)
    }
}

impl JsonFormatter {
    /// The value to write for a markup document; `None` for a JSON one, whose
    /// source is written as it parses.
    pub fn value(&self, doc: &Document) -> (r: Option<Structured>)
        requires
            doc.wf(),
        ensures
            doc.kind() == DocumentType::Json <==> r is None,
            r matches Some(v) ==> v@ == document_value(doc.nodes(), doc.top()),
    {
        project_document(doc)
    }

    /// The document as JSON text, as `json_output` states.
    pub fn format(&self, doc: &Document, options: &FormatOptions) -> (r: Result<String, FormatError>)
        requires
            doc.wf(),
        ensures
            doc.kind() != DocumentType::Json ==> (r matches Ok(t) && t@ == (if options.compact {
                json_compact_of(document_value(doc.nodes(), doc.top()))
            } else {
                json_pretty_of(document_value(doc.nodes(), doc.top()), indent_spec(options.indent, 1)) + "\n"@
            })),
            doc.kind() == DocumentType::Json ==> match (if options.compact {
                json_reformat_compact_of(doc.source_view())
            } else {
                json_reformat_pretty_of(doc.source_view(), indent_spec(options.indent, 1))
            }) {
                Some(t) => r matches Ok(o) && o@ == (if options.compact {
                    t
                } else {
                    t + "\n"@
                }),
                None => r matches Err(FormatError::IoError(_)),
            },
    {
        json_output(doc, options)
    }
}

} // verus!
