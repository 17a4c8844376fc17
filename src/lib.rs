//! Parsing, querying and re-serialising markup documents (XML and HTML), and
//! projecting them into structured values for JSON export.
//!
//! A `Document` owns its source and an arena of nodes that `tl` parsed;
//! `NodeRef`s borrow the document, so none can be used after it is dropped.

pub mod cli;
pub mod error;
pub mod format;
pub mod json;
pub mod parser;
pub mod query;
pub mod text;
mod tl_source;
pub mod types;

pub use error::{FormatError, ParseError, QueryError};
pub use format::{ColorMode, ColorScheme, FormatOptions, Indent, TextFormatter, XmlFormatter};
pub use json::{to_json, Structured};
pub use query::{execute_query, Query, QueryOptions};
pub use types::{Document, DocumentType, NodeRef, NodeType};
