use rxq::parser::{parse_with_options, ParseOptions};
use rxq::types::kind_of_lowered;
use rxq::{Document, DocumentType, FormatError, NodeType, ParseError, QueryError};

#[test]
fn test_document_parse() {
    let xml = "<root><child>value</child></root>";
    let doc = Document::parse(xml, DocumentType::Xml).unwrap();
    assert_eq!(doc.doc_type(), DocumentType::Xml);
    assert_eq!(doc.source(), xml);
}

#[test]
fn test_auto_detect_html() {
    let html = "<!DOCTYPE html><html><body>test</body></html>";
    assert_eq!(Document::detect_type(html), DocumentType::Html);
    assert_eq!(Document::detect_type("<!doctype html>"), DocumentType::Html);
    assert_eq!(Document::detect_type("<HTML><BODY></BODY></HTML>"), DocumentType::Html);
    assert_eq!(Document::detect_type("   <html></html>"), DocumentType::Html);
}

#[test]
fn test_auto_detect_json() {
    assert_eq!(Document::detect_type("{}"), DocumentType::Json);
    assert_eq!(Document::detect_type("  {\"key\": \"value\"}"), DocumentType::Json);
    assert_eq!(Document::detect_type("[]"), DocumentType::Json);
    assert_eq!(Document::detect_type("\n [1, 2, 3]"), DocumentType::Json);
}

#[test]
fn test_auto_detect_xml() {
    assert_eq!(Document::detect_type("<root></root>"), DocumentType::Xml);
    assert_eq!(Document::detect_type("<?xml version=\"1.0\"?><root></root>"), DocumentType::Xml);
    assert_eq!(Document::detect_type("  <root/>"), DocumentType::Xml);
    assert_eq!(Document::detect_type("just some text"), DocumentType::Xml);
}

#[test]
fn detect_kind_examples() {
    assert_eq!(Document::detect_type("  {\"a\":1}"), DocumentType::Json);
    assert_eq!(Document::detect_type("<!DOCTYPE html><html>"), DocumentType::Html);
    assert_eq!(Document::detect_type("<root/>"), DocumentType::Xml);
    assert_eq!(Document::detect_type("plain words, nothing else"), DocumentType::Xml);
    assert_eq!(Document::detect_type(""), DocumentType::Xml);
}

#[test]
fn detect_kind_of_lowered_text() {
    assert_eq!(kind_of_lowered("[1]"), DocumentType::Json);
    assert_eq!(kind_of_lowered("x <html>"), DocumentType::Html);
    assert_eq!(kind_of_lowered("<HTML>"), DocumentType::Xml);
    assert_eq!(kind_of_lowered(" {"), DocumentType::Xml);
}

#[test]
fn test_node_tag_name() {
    let xml = "<root><child>value</child></root>";
    let doc = Document::parse(xml, DocumentType::Xml).unwrap();
    let root = doc.root();
    assert_eq!(root.tag_name().as_deref(), Some("root"));
}

#[test]
fn test_node_text() {
    let xml = "<root><child>value</child></root>";
    let doc = Document::parse(xml, DocumentType::Xml).unwrap();
    let root = doc.root();
    let text = root.text().unwrap();
    assert_eq!(text.trim(), "value");
}

#[test]
fn test_node_children() {
    let xml = "<div><p>1</p><p>2</p></div>";
    let doc = Document::parse(xml, DocumentType::Html).unwrap();
    let root = doc.root();
    let children: Vec<_> = root
        .children()
        .into_iter()
        .filter(|n| n.node_type() == NodeType::Element)
        .collect();
    assert_eq!(children.len(), 2);
    assert_eq!(children[0].tag_name().as_deref(), Some("p"));
    assert_eq!(children[1].tag_name().as_deref(), Some("p"));
}

#[test]
fn node_text_skips_comments_and_joins_descendants() {
    let doc = Document::parse("<a>x<!-- c --><b>y</b>z</a>", DocumentType::Xml).unwrap();
    assert_eq!(doc.root().text().unwrap(), "xyz");
}

#[test]
fn node_attributes_and_lookup() {
    let doc = Document::parse("<a k=\"1\" j='2'>t</a>", DocumentType::Xml).unwrap();
    let root = doc.root();
    assert_eq!(root.attr("k").as_deref(), Some("1"));
    assert_eq!(root.attr("j").as_deref(), Some("2"));
    assert_eq!(root.attr("K"), None);
    let mut names: Vec<String> = root.attributes().into_iter().map(|(k, _)| k).collect();
    names.sort();
    assert_eq!(names, vec!["j".to_string(), "k".to_string()]);
    assert!(root.has_children());
    assert!(root.parent().is_none());
}

#[test]
fn root_skips_declaration() {
    let doc = Document::parse("<?xml version=\"1.0\"?><catalog><book/></catalog>", DocumentType::Xml).unwrap();
    assert_eq!(doc.root().tag_name().as_deref(), Some("catalog"));
}

#[test]
fn root_of_plain_text_is_text_node() {
    let doc = Document::parse("just text", DocumentType::Xml).unwrap();
    let root = doc.root();
    assert_eq!(root.node_type(), NodeType::Text);
    assert_eq!(root.text().as_deref(), Some("just text"));
    assert_eq!(root.tag_name(), None);
}

#[test]
fn empty_document_has_no_root_node() {
    let doc = Document::parse("", DocumentType::Xml).unwrap();
    let root = doc.root();
    assert_eq!(root.node_type(), NodeType::Raw);
    assert_eq!(root.text(), None);
    assert!(root.children().is_empty());
}

#[test]
fn outer_and_inner_markup() {
    let doc = Document::parse("<root><item>value</item></root>", DocumentType::Xml).unwrap();
    let root = doc.root();
    assert_eq!(root.outer_html(), "<root><item>value</item></root>");
    assert_eq!(root.inner_html(), "<item>value</item>");
}

fn shape(n: rxq::NodeRef) -> String {
    let mut s = format!("{:?}{:?}{:?}", n.node_type(), n.tag_name(), n.attributes());
    for c in n.children() {
        s.push_str(&shape(c));
    }
    s
}

#[test]
fn reparsing_gives_the_same_tree() {
    let src = "<r a=\"1\"><x>1</x><y b=\"2\"/><x>2</x></r>";
    let d1 = Document::parse(src, DocumentType::Xml).unwrap();
    let d2 = Document::parse(src, DocumentType::Xml).unwrap();
    assert_eq!(shape(d1.root()), shape(d2.root()));
}

#[test]
fn test_parse_with_size_limit() {
    let xml = "<root><child>value</child></root>";
    let options = ParseOptions { max_size: Some(10), ..Default::default() };
    let result = parse_with_options(xml, DocumentType::Xml, &options);
    assert!(result.is_err());
}

#[test]
fn size_limit_message() {
    let options = ParseOptions { max_size: Some(3), ..Default::default() };
    match parse_with_options("<a/>", DocumentType::Xml, &options) {
        Err(ParseError::SyntaxError(m)) => assert_eq!(m, "Document size 4 exceeds maximum 3"),
        _ => panic!("expected a syntax error"),
    }
    assert!(parse_with_options("<a/>", DocumentType::Xml, &ParseOptions { max_size: Some(4), ..Default::default() }).is_ok());
}

#[test]
fn test_parse_with_auto_detect() {
    let html = "<!DOCTYPE html><html><body>test</body></html>";
    let options = ParseOptions { auto_detect: true, ..Default::default() };
    let doc = parse_with_options(html, DocumentType::Xml, &options).unwrap();
    assert_eq!(doc.doc_type(), DocumentType::Html);
}

#[test]
fn test_error_display() {
    let err = ParseError::SyntaxError("unexpected token".to_string());
    assert_eq!(err.to_string(), "XML/HTML syntax error: unexpected token");
}

#[test]
fn error_messages() {
    assert_eq!(ParseError::UnsupportedType.to_string(), "unsupported document type");
    assert_eq!(ParseError::EncodingError("x".to_string()).to_string(), "character encoding error: x");
    assert_eq!(ParseError::EmptyInput.to_string(), "empty or invalid input");
    assert_eq!(QueryError::InvalidXPath("a".to_string()).to_string(), "invalid XPath expression: a");
    assert_eq!(QueryError::InvalidSelector("b".to_string()).to_string(), "invalid CSS selector: b");
    assert_eq!(QueryError::ExecutionError("c".to_string()).to_string(), "query execution failed: c");
    assert_eq!(QueryError::NodeNotFound.to_string(), "node not found");
    assert_eq!(QueryError::AttributeNotFound("id".to_string()).to_string(), "attribute 'id' not found");
    assert_eq!(FormatError::IoError("d".to_string()).to_string(), "I/O error: d");
    assert_eq!(FormatError::FormatFailed("e".to_string()).to_string(), "formatting failed: e");
    assert_eq!(FormatError::InvalidIndent("f".to_string()).to_string(), "invalid indentation: f");
    assert_eq!(FormatError::ColorNotSupported.to_string(), "color output not supported");
}
