//! Parsing with settings: a size limit and kind detection.

use vstd::prelude::*;
use vstd::string::StringSliceAdditionalSpecFns;
use crate::error::ParseError;
use crate::types::{detect_spec, shapes, tree_spec, Document, DocumentType};

verus! {

/// Settings for `parse_with_options`.
#[derive(Debug, Clone)]
pub struct ParseOptions {
    /// Detect the document's kind from its text rather than take the one given.
    pub auto_detect: bool,
    /// Fail on any error.
    pub strict: bool,
    /// The largest accepted source, in bytes.
    pub max_size: Option<usize>,
}

impl Default for ParseOptions {
    fn default() -> (r: Self)
        ensures
            !r.auto_detect,
            !r.strict,
            r.max_size is None,
    {
        ParseOptions { auto_detect: false, strict: false, max_size: None }
    }
}

/// Relies on `format!`: the message for a source of `len` bytes over the limit `max`.
#[verifier::external_body]
fn size_message(len: usize, max: usize) -> (r: String) {
    format!("Document size {} exceeds maximum {}", len, max)
}

/// Parses `source`, refusing it where it is longer than `max_size` bytes, and
/// taking its kind from its text where `auto_detect` asks for that.
pub fn parse_with_options(source: &str, doc_type: DocumentType, options: &ParseOptions) -> (r: Result<
    Document,
    ParseError,
>)
    ensures
        match options.max_size {
            Some(m) if source.spec_bytes().len() > m => r matches Err(ParseError::SyntaxError(_)),
            _ => {
                &&& (r is Err <==> source.spec_bytes().len() > u32::MAX)
                &&& (r matches Ok(d) ==> d.wf() && d.source_view() == source@ && d.kind() == (if options.auto_detect {
                    detect_spec(source@)
                } else {
                    doc_type
                }) && shapes(d.nodes()) == tree_spec(source@).0 && d.top() == tree_spec(source@).1)
            },
        },
{
    if let Some(m) = options.max_size {
        if source.len() > m {
            return Err(ParseError::SyntaxError(size_message(source.len(), m)));
        }
    }
    let kind = if options.auto_detect {
        Document::detect_type(source)
    } else {
        doc_type
    };
    Document::parse(source, kind)
}

} // verus!
