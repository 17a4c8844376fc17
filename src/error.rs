//! Error types of parsing, querying and formatting.

use vstd::prelude::*;

verus! {

/// Errors that can occur during document parsing.
#[derive(Debug, Clone)]
pub enum ParseError {
    SyntaxError(String),
    UnsupportedType,
    EncodingError(String),
    EmptyInput,
}

/// Errors that can occur during query execution.
#[derive(Debug, Clone)]
pub enum QueryError {
    InvalidXPath(String),
    InvalidSelector(String),
    ExecutionError(String),
    NodeNotFound,
    AttributeNotFound(String),
}

/// Errors that can occur during formatting.
#[derive(Debug, Clone)]
pub enum FormatError {
    IoError(String),
    FormatFailed(String),
    InvalidIndent(String),
    ColorNotSupported,
}

impl ParseError {
    /// The message that describes this error.
    pub fn to_string(&self) -> (r: String)
        ensures
            self matches ParseError::SyntaxError(m) ==> r@ == "XML/HTML syntax error: "@ + m@,
            self matches ParseError::UnsupportedType ==> r@ == "unsupported document type"@,
            self matches ParseError::EncodingError(m) ==> r@ == "character encoding error: "@ + m@,
            self matches ParseError::EmptyInput ==> r@ == "empty or invalid input"@,
    {
        match self {
            ParseError::SyntaxError(m) => String::from_str("XML/HTML syntax error: ").concat(m.as_str()),
            ParseError::UnsupportedType => String::from_str("unsupported document type"),
            ParseError::EncodingError(m) => String::from_str("character encoding error: ").concat(m.as_str()),
            ParseError::EmptyInput => String::from_str("empty or invalid input"),
        }
    }
}

impl QueryError {
    /// The message that describes this error.
    pub fn to_string(&self) -> (r: String)
        ensures
            self matches QueryError::InvalidXPath(m) ==> r@ == "invalid XPath expression: "@ + m@,
            self matches QueryError::InvalidSelector(m) ==> r@ == "invalid CSS selector: "@ + m@,
            self matches QueryError::ExecutionError(m) ==> r@ == "query execution failed: "@ + m@,
            self matches QueryError::NodeNotFound ==> r@ == "node not found"@,
            self matches QueryError::AttributeNotFound(m) ==> r@ == "attribute '"@ + m@ + "' not found"@,
    {
        match self {
            QueryError::InvalidXPath(m) => String::from_str("invalid XPath expression: ").concat(m.as_str()),
            QueryError::InvalidSelector(m) => String::from_str("invalid CSS selector: ").concat(m.as_str()),
            QueryError::ExecutionError(m) => String::from_str("query execution failed: ").concat(m.as_str()),
            QueryError::NodeNotFound => String::from_str("node not found"),
            QueryError::AttributeNotFound(m) => String::from_str("attribute '").concat(m.as_str()).concat("' not found"),
        }
    }
}

impl FormatError {
    /// The message that describes this error.
    pub fn to_string(&self) -> (r: String)
        ensures
            self matches FormatError::IoError(m) ==> r@ == "I/O error: "@ + m@,
            self matches FormatError::FormatFailed(m) ==> r@ == "formatting failed: "@ + m@,
            self matches FormatError::InvalidIndent(m) ==> r@ == "invalid indentation: "@ + m@,
            self matches FormatError::ColorNotSupported ==> r@ == "color output not supported"@,
    {
        match self {
            FormatError::IoError(m) => String::from_str("I/O error: ").concat(m.as_str()),
            FormatError::FormatFailed(m) => String::from_str("formatting failed: ").concat(m.as_str()),
            FormatError::InvalidIndent(m) => String::from_str("invalid indentation: ").concat(m.as_str()),
            FormatError::ColorNotSupported => String::from_str("color output not supported"),
        }
    }
}

} // verus!
