use rxq::cli::{
    build_query, color_mode, determine_doc_type, get_formatter, validate_indent, Cli, DocFormatter, JsonFormatter,
};
use rxq::format::format_query_results;
use rxq::json::{project_document, to_json, Structured};
use rxq::{
    execute_query, ColorMode, ColorScheme, Document, DocumentType, FormatOptions, Indent, Query, QueryOptions,
    TextFormatter, XmlFormatter,
};

fn render(src: &str, indent: Indent, colors: bool) -> String {
    let doc = Document::parse(src, DocumentType::Xml).unwrap();
    let opts = FormatOptions { indent, color: ColorMode::Never, compact: false };
    XmlFormatter.format(&doc, &opts, colors)
}

#[test]
fn test_indent_as_str() {
    let spaces = Indent::Spaces(2);
    assert_eq!(spaces.as_str(0), "");
    assert_eq!(spaces.as_str(1), "  ");
    assert_eq!(spaces.as_str(2), "    ");
    let tab = Indent::Tab;
    assert_eq!(tab.as_str(0), "");
    assert_eq!(tab.as_str(1), "\t");
    assert_eq!(tab.as_str(2), "\t\t");
}

#[test]
fn indent_units() {
    assert_eq!(Indent::Spaces(0).unit(), "");
    assert_eq!(Indent::Spaces(3).unit(), "   ");
    assert_eq!(Indent::Spaces(8).unit(), "        ");
    assert_eq!(Indent::Spaces(9).unit(), "  ");
    assert_eq!(Indent::Tab.unit(), "\t");
    assert_eq!(Indent::Spaces(3).as_str(2), "      ");
}

#[test]
fn test_color_scheme() {
    let colors = ColorScheme::default();
    assert!(!colors.tag.is_empty());
    assert!(!colors.reset.is_empty());
    let no_colors = ColorScheme::none();
    assert!(no_colors.tag.is_empty());
    assert!(no_colors.reset.is_empty());
}

#[test]
fn color_policy() {
    let mut o = FormatOptions::default();
    assert_eq!(o.indent, Indent::Spaces(2));
    assert!(!o.compact);
    assert!(o.use_colors(true));
    assert!(!o.use_colors(false));
    o.color = ColorMode::Always;
    assert!(o.use_colors(false));
    o.color = ColorMode::Never;
    assert!(!o.use_colors(true));
}

#[test]
fn test_format_simple_xml() {
    let result = render("<root><child>value</child></root>", Indent::Spaces(2), false);
    assert!(result.contains("<root>"));
    assert!(result.contains("</root>"));
}

#[test]
fn formatted_layout() {
    assert_eq!(
        render("<root><child>value</child><empty /></root>", Indent::Spaces(2), false),
        "<root>\n  <child>value</child>\n  <empty/>\n</root>\n"
    );
    assert_eq!(
        render("<root><child>value</child></root>", Indent::Tab, false),
        "<root>\n\t<child>value</child>\n</root>\n"
    );
    assert_eq!(
        render("<a x=\"1\"><b>  t  </b><!--c--></a>", Indent::Spaces(4), false),
        "<a x=\"1\">\n    <b>t</b>\n    <!--c-->\n</a>\n"
    );
}

#[test]
fn formatted_with_colors() {
    assert_eq!(
        render("<a k=\"v\"/>", Indent::Spaces(2), true),
        "\x1b[33m<a k\x1b[32m\x1b[0m=\"v\"\x1b[0m\x1b[33m/>\x1b[0m\n"
    );
}

#[test]
fn formatted_declaration() {
    let out = render("<?xml version=\"1.0\"?><root><a>1</a></root>", Indent::Spaces(2), false);
    assert_eq!(out, "<?xml version=\"1.0\"?>\n<root>\n  <a>1</a>\n</root>\n");
    let doc = Document::parse("<?xml version=\"1.0\"?><root/>", DocumentType::Xml).unwrap();
    let decl = &doc.top_level()[0];
    assert_eq!(decl.tag_name().as_deref(), Some(""));
    assert_eq!(decl.attributes(), vec![("ersion".to_string(), "1.0".to_string())]);
}

#[test]
fn formatting_twice_is_identical() {
    let src = "<r><a k=\"1\">x</a><b><c/></b></r>";
    let doc = Document::parse(src, DocumentType::Xml).unwrap();
    let opts = FormatOptions::default();
    assert_eq!(XmlFormatter.format(&doc, &opts, true), XmlFormatter.format(&doc, &opts, true));
}

#[test]
fn text_formatter_echoes_source() {
    let doc = Document::parse("<a>  x </a>", DocumentType::Xml).unwrap();
    assert_eq!(TextFormatter.format(&doc), "<a>  x </a>");
}

#[test]
fn query_result_lines() {
    let doc = Document::parse("<root><item id=\"7\"> value </item><item>w</item><item>  </item></root>", DocumentType::Xml).unwrap();
    let results = execute_query(&doc, &Query::XPath("//item".to_string()), &QueryOptions::default()).unwrap();
    assert_eq!(results.len(), 3);
    assert_eq!(format_query_results(&doc, &results, &QueryOptions::default()), "value\nw\n");
    let tags = QueryOptions { with_tags: true, extract_attr: None };
    assert_eq!(
        format_query_results(&doc, &results, &tags),
        "<item id=\"7\"> value </item>\n<item>w</item>\n<item>  </item>\n"
    );
    let attr = QueryOptions { with_tags: false, extract_attr: Some("id".to_string()) };
    assert_eq!(format_query_results(&doc, &results, &attr), "7\n");
}

#[test]
fn projection_leaf_and_empty() {
    let doc = Document::parse("<a>  value  </a>", DocumentType::Xml).unwrap();
    match to_json(doc.root()) {
        Structured::Str(s) => assert_eq!(s, "value"),
        v => panic!("{:?}", v),
    }
    let doc = Document::parse("<a></a>", DocumentType::Xml).unwrap();
    assert!(matches!(to_json(doc.root()), Structured::Null));
}

#[test]
fn projection_groups_repeated_children() {
    let doc = Document::parse("<r k=\"1\"><x>a</x><x>b</x><x>c</x><y></y>t</r>", DocumentType::Xml).unwrap();
    match project_document(&doc).unwrap() {
        Structured::Object(top) => {
            assert_eq!(top.len(), 1);
            assert_eq!(top[0].0, "r");
            match &top[0].1 {
                Structured::Object(m) => {
                    let keys: Vec<&str> = m.iter().map(|(k, _)| k.as_str()).collect();
                    assert_eq!(keys, vec!["@k", "x", "y", "#text"]);
                    match &m[1].1 {
                        Structured::List(items) => assert_eq!(items.len(), 3),
                        v => panic!("{:?}", v),
                    }
                    assert!(matches!(&m[2].1, Structured::Null));
                    assert!(matches!(&m[3].1, Structured::Str(s) if s == "t"));
                }
                v => panic!("{:?}", v),
            }
        }
        v => panic!("{:?}", v),
    }
    let json = Document::parse("{\"a\":1}", DocumentType::Json).unwrap();
    assert!(project_document(&json).is_none());
}

#[test]
fn test_validate_indent() {
    assert!(validate_indent("2").is_ok());
    assert!(validate_indent("8").is_ok());
    assert!(validate_indent("0").is_ok());
    assert!(validate_indent("9").is_err());
    assert!(validate_indent("abc").is_err());
}

#[test]
fn indent_validation_messages() {
    assert_eq!(validate_indent("+4"), Ok(4));
    assert_eq!(validate_indent("9"), Err("indent should be between 0-8 spaces".to_string()));
    assert_eq!(validate_indent("300"), Err("must be a number".to_string()));
    assert_eq!(validate_indent(""), Err("must be a number".to_string()));
}

#[test]
fn test_determine_doc_type() {
    let cli = Cli::default();
    let html = "<!DOCTYPE html><html></html>";
    assert_eq!(determine_doc_type(&cli, html), DocumentType::Html);
    let json = r#"{"key": "value"}"#;
    assert_eq!(determine_doc_type(&cli, json), DocumentType::Json);
    let xml = "<root></root>";
    assert_eq!(determine_doc_type(&cli, xml), DocumentType::Xml);
}

#[test]
fn test_color_mode_in_place() {
    let cli = Cli { in_place: true, file: Some("test.xml".to_string()), ..Cli::default() };
    assert_eq!(color_mode(&cli), ColorMode::Never);
}

#[test]
fn test_color_mode_forced() {
    let cli = Cli { force_color: true, ..Cli::default() };
    assert_eq!(color_mode(&cli), ColorMode::Always);
}

#[test]
fn query_and_formatter_choice() {
    assert!(build_query(&Cli::default()).is_none());
    let cli = Cli { css_query: Some("p".to_string()), extract: Some("/a".to_string()), ..Cli::default() };
    assert!(matches!(build_query(&cli), Some(Query::Extract(e)) if e == "/a"));
    assert!(matches!(get_formatter(DocumentType::Json), DocFormatter::Json(_)));
    assert!(matches!(get_formatter(DocumentType::Html), DocFormatter::Xml(_)));
}

#[test]
fn test_json_formatter_pretty() {
    let json = r#"{"key":"value"}"#;
    let doc = Document::parse(json, DocumentType::Json).unwrap();
    let options = FormatOptions::default();
    let formatter = JsonFormatter;
    let result = formatter.format(&doc, &options).unwrap();
    assert!(result.contains("{\n  \"key\": \"value\"\n}"));
}

#[test]
fn test_json_formatter_compact() {
    let json = r#"{
            "key": "value"
        }"#;
    let doc = Document::parse(json, DocumentType::Json).unwrap();
    let options = FormatOptions { compact: true, ..FormatOptions::default() };
    let formatter = JsonFormatter;
    let result = formatter.format(&doc, &options).unwrap();
    assert_eq!(result, r#"{"key":"value"}"#);
}

#[test]
fn json_of_markup_keeps_key_order() {
    let doc = Document::parse("<user id=\"1\"><name>John</name><age>3</age><name>Jo</name></user>", DocumentType::Xml).unwrap();
    let compact = FormatOptions { compact: true, ..FormatOptions::default() };
    assert_eq!(
        JsonFormatter.format(&doc, &compact).unwrap(),
        r#"{"user":{"@id":"1","name":["John","Jo"],"age":"3"}}"#
    );
    let tab = FormatOptions { indent: Indent::Tab, ..FormatOptions::default() };
    assert_eq!(JsonFormatter.format(&doc, &tab).unwrap(), "{\n\t\"user\": {\n\t\t\"@id\": \"1\",\n\t\t\"name\": [\n\t\t\t\"John\",\n\t\t\t\"Jo\"\n\t\t],\n\t\t\"age\": \"3\"\n\t}\n}\n");
}

#[test]
fn json_document_passes_through_in_order() {
    let doc = Document::parse("{ \"b\": [1, 2], \"a\": null }", DocumentType::Json).unwrap();
    let compact = FormatOptions { compact: true, ..FormatOptions::default() };
    assert_eq!(JsonFormatter.format(&doc, &compact).unwrap(), r#"{"b":[1,2],"a":null}"#);
    let bad = Document::parse("{ not json", DocumentType::Json).unwrap();
    assert!(matches!(JsonFormatter.format(&bad, &compact), Err(rxq::FormatError::IoError(_))));
}
