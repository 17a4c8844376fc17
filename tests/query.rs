use rxq::query::{parse_attribute_predicate, parse_xpath_pattern, XPathPattern};
use rxq::{execute_query, Document, DocumentType, Query, QueryError, QueryOptions};

fn texts(doc: &Document, q: &str) -> Vec<String> {
    execute_query(doc, &Query::XPath(q.to_string()), &QueryOptions::default())
        .unwrap()
        .into_iter()
        .map(|n| n.text().unwrap().trim().to_string())
        .collect()
}

#[test]
fn query_test_css_selector() {
    let html = r#"
            <html>
                <body>
                    <p class="test">First</p>
                    <p class="test">Second</p>
                    <div>Other</div>
                </body>
            </html>
        "#;
    let doc = Document::parse(html, DocumentType::Html).unwrap();
    let query = Query::CssSelector("p.test".to_string());
    let results: Vec<_> = execute_query(&doc, &query, &QueryOptions::default()).unwrap();
    assert_eq!(results.len(), 2);
    assert_eq!(results[0].text().unwrap(), "First");
    assert_eq!(results[1].text().unwrap(), "Second");
}

#[test]
fn test_xpath_descendant_tag() {
    let xml = r#"
            <root>
                <item>1</item>
                <nested>
                    <item>2</item>
                </nested>
            </root>
        "#;
    let doc = Document::parse(xml, DocumentType::Xml).unwrap();
    let query = Query::XPath("//item".to_string());
    let results: Vec<_> = execute_query(&doc, &query, &QueryOptions::default()).unwrap();
    assert_eq!(results.len(), 2);
}

#[test]
fn test_xpath_attribute_predicate() {
    let xml = r#"
            <root>
                <user status="active">Alice</user>
                <user status="inactive">Bob</user>
                <user status="active">Charlie</user>
            </root>
        "#;
    let doc = Document::parse(xml, DocumentType::Xml).unwrap();
    let query = Query::XPath("//user[@status='active']".to_string());
    let results: Vec<_> = execute_query(&doc, &query, &QueryOptions::default()).unwrap();
    assert_eq!(results.len(), 2);
}

#[test]
fn active_users_in_document_order() {
    let xml = "<root><user status=\"active\">Alice</user><user status=\"inactive\">Bob</user><user status=\"active\">Charlie</user></root>";
    let doc = Document::parse(xml, DocumentType::Xml).unwrap();
    assert_eq!(texts(&doc, "//user[@status='active']"), vec!["Alice", "Charlie"]);
    assert_eq!(texts(&doc, "//user[@status=\"inactive\"]"), vec!["Bob"]);
}

#[test]
fn test_parse_xpath_patterns() {
    let pattern = parse_xpath_pattern("//tag").unwrap();
    assert!(matches!(pattern, XPathPattern::DescendantTag(_)));
    let pattern = parse_xpath_pattern("//tag[@attr='value']").unwrap();
    assert!(matches!(pattern, XPathPattern::DescendantAttr(_, _, _)));
    let pattern = parse_xpath_pattern("/root/child/@attr").unwrap();
    assert!(matches!(pattern, XPathPattern::AttributeValue(_, _)));
}

#[test]
fn pattern_parts() {
    match parse_xpath_pattern("  //user[@status = 'active' ]  ").unwrap() {
        XPathPattern::DescendantAttr(t, a, v) => {
            assert_eq!((t.as_str(), a.as_str(), v.as_str()), ("user", "status", "active"));
        }
        _ => panic!("wrong pattern"),
    }
    match parse_xpath_pattern("/a/b/@id").unwrap() {
        XPathPattern::AttributeValue(p, a) => {
            assert_eq!(p, vec!["a".to_string(), "b".to_string()]);
            assert_eq!(a, "id");
        }
        _ => panic!("wrong pattern"),
    }
    match parse_xpath_pattern("/a/b/c").unwrap() {
        XPathPattern::AbsolutePath(p) => assert_eq!(p, vec!["a", "b", "c"]),
        _ => panic!("wrong pattern"),
    }
}

#[test]
fn malformed_expressions_are_refused() {
    for e in ["invalid[[[xpath", "child", "//a[@b='c\"]", "//a[@b 'c']", "//a[@b='c'", "/a/@b/@c", "//a[b='c']"] {
        match parse_xpath_pattern(e) {
            Err(QueryError::InvalidXPath(m)) => assert_eq!(m, e),
            _ => panic!("accepted {}", e),
        }
    }
}

#[test]
fn attribute_predicates() {
    assert_eq!(parse_attribute_predicate("@k='v'"), Some(("k".to_string(), "v".to_string())));
    assert_eq!(parse_attribute_predicate("@k=\"v w\""), Some(("k".to_string(), "v w".to_string())));
    assert_eq!(parse_attribute_predicate("@k='v\""), None);
    assert_eq!(parse_attribute_predicate("k='v'"), None);
    assert_eq!(parse_attribute_predicate("@k='"), None);
    assert_eq!(parse_attribute_predicate("@k"), None);
}

#[test]
fn children_in_document_order() {
    let xml = "<root><child>A</child><child>B</child><other>C</other></root>";
    let doc = Document::parse(xml, DocumentType::Xml).unwrap();
    assert_eq!(texts(&doc, "//child"), vec!["A", "B"]);
    assert_eq!(texts(&doc, "/root/child"), vec!["A", "B"]);
    assert_eq!(texts(&doc, "/other/child"), Vec::<String>::new());
    assert_eq!(texts(&doc, "//root").len(), 1);
}

#[test]
fn test_xpath_multiple_matches_absolute_path() {
    let xml = r#"
        <root>
            <child>A</child>
            <child>B</child>
            <other>C</other>
        </root>
    "#;
    let doc = Document::parse(xml, DocumentType::Xml).unwrap();
    let query = Query::XPath("/root/child".to_string());
    let results: Vec<_> = execute_query(&doc, &query, &QueryOptions::default()).unwrap();
    assert_eq!(results.len(), 2, "Should find 2 children, found {}", results.len());
}

#[test]
fn test_xpath_multiple_matches_attribute_value() {
    let xml = r#"
        <root>
            <child id="1" />
            <child id="2" />
        </root>
    "#;
    let doc = Document::parse(xml, DocumentType::Xml).unwrap();
    let query = Query::XPath("/root/child/@id".to_string());
    let results: Vec<_> = execute_query(&doc, &query, &QueryOptions::default()).unwrap();
    assert_eq!(results.len(), 2, "Should find 2 ids, found {}", results.len());
}

#[test]
fn attribute_path_yields_elements() {
    let xml = "<root><child id=\"1\"/><child id=\"2\"/><child/></root>";
    let doc = Document::parse(xml, DocumentType::Xml).unwrap();
    let results = execute_query(&doc, &Query::Extract("/root/child/@id".to_string()), &QueryOptions::default()).unwrap();
    let ids: Vec<_> = results.iter().map(|n| n.attr("id").unwrap()).collect();
    assert_eq!(ids, vec!["1", "2"]);
    assert_eq!(results[0].tag_name().as_deref(), Some("child"));
}

#[test]
fn repeated_names_fan_out() {
    let xml = "<r><a><b>1</b><b>2</b></a><a><b>3</b></a></r>";
    let doc = Document::parse(xml, DocumentType::Xml).unwrap();
    assert_eq!(texts(&doc, "/r/a/b"), vec!["1", "2", "3"]);
    assert_eq!(texts(&doc, "//b"), vec!["1", "2", "3"]);
}

#[test]
fn invalid_query_errors() {
    let doc = Document::parse("<root>test</root>", DocumentType::Xml).unwrap();
    match execute_query(&doc, &Query::XPath("invalid[[[xpath".to_string()), &QueryOptions::default()) {
        Err(QueryError::InvalidXPath(m)) => assert_eq!(m, "invalid[[[xpath"),
        _ => panic!("expected an invalid expression"),
    }
    match execute_query(&doc, &Query::CssSelector("p[".to_string()), &QueryOptions::default()) {
        Err(QueryError::InvalidSelector(m)) => assert_eq!(m, "p["),
        Ok(v) => assert!(v.is_empty()),
        Err(_) => panic!("unexpected error"),
    }
}
