use md2jsx::build_tree;
use md2jsx::parse;
use md2jsx::Construct;
use md2jsx::MdEvent;
use md2jsx::Node;
use md2jsx::Prop;
use md2jsx::PropValue;
use md2jsx::TranspileOptions;

fn find_node<'a>(nodes: &'a [Node], tag_name: &str) -> Option<&'a Node> {
    for node in nodes {
        if let Node::Element { tag, children, .. } = node {
            if tag.as_str() == tag_name {
                return Some(node);
            }
            if let Some(found) = find_node(children, tag_name) {
                return Some(found);
            }
        }
    }
    None
}

fn get_prop<'a>(props: &'a [Prop], key: &str) -> Option<&'a PropValue> {
    props.iter().find(|p| p.key.as_str() == key).map(|p| &p.value)
}

fn prop_str<'a>(props: &'a [Prop], key: &str) -> &'a str {
    match get_prop(props, key) {
        Some(PropValue::Str(s)) => s.as_str(),
        _ => panic!("expected a string value for {key}"),
    }
}

fn collect_texts<'a>(nodes: &'a [Node], out: &mut Vec<&'a str>) {
    for node in nodes {
        match node {
            Node::Text { content } => out.push(content.as_str()),
            Node::Element { children, .. } => collect_texts(children, out),
        }
    }
}

#[test]
fn test_gfm_footnotes() {
    let markdown = "Here is a footnote[^1]\n\n[^1]: This is the footnote content.";
    let options = TranspileOptions { allowed_tags: vec![] };
    let ast = parse(markdown, &options);

    let sup = find_node(&ast, "sup").expect("Should find sup for footnote ref");
    if let Node::Element { children, .. } = sup {
        let a = children.first().expect("Should have link child");
        if let Node::Element { tag, props, .. } = a {
            assert_eq!(tag, "a");
            let href = prop_str(props, "href");
            assert!(href.contains("#fn-1"));
        }
    }

    let div = find_node(&ast, "div").expect("Should find footnote definition");
    if let Node::Element { props, .. } = div {
        assert_eq!(prop_str(props, "className"), "footnote-definition");
    }
}

#[test]
fn test_basic_markdown() {
    let markdown = "# Hello\nThis is **bold**";
    let options = TranspileOptions { allowed_tags: vec![] };
    let ast = parse(markdown, &options);

    assert_eq!(ast.len(), 2);
    if let Node::Element { tag, children, .. } = &ast[0] {
        assert_eq!(tag, "h1");
        assert_eq!(children[0], Node::Text { content: "Hello".to_string() });
    } else {
        panic!("Expected h1 element");
    }
}

#[test]
fn test_html_tags() {
    let markdown = "Hello <VideoPlayer src=\"test.mp4\" /> world";
    let options = TranspileOptions { allowed_tags: vec!["VideoPlayer".to_string()] };
    let ast = parse(markdown, &options);

    let node = find_node(&ast, "VideoPlayer").expect("Should find VideoPlayer node");
    if let Node::Element { props, .. } = node {
        assert_eq!(prop_str(props, "src"), "test.mp4");
    }
}

#[test]
fn test_nested_html() {
    let markdown = "<div>\n\n# Inside\n\n</div>";
    let options = TranspileOptions { allowed_tags: vec!["div".to_string()] };
    let ast = parse(markdown, &options);

    assert!(find_node(&ast, "div").is_some());
}

#[test]
fn test_allowed_tags_filtering() {
    let markdown = "<Allowed>Keep</Allowed><Forbidden>Drop</Forbidden>";
    let options = TranspileOptions { allowed_tags: vec!["Allowed".to_string()] };
    let ast = parse(markdown, &options);

    assert!(find_node(&ast, "Allowed").is_some());
    assert!(find_node(&ast, "Forbidden").is_none());
}

#[test]
fn test_gfm_table() {
    let markdown = "| Header |\n| --- |\n| Cell |";
    let options = TranspileOptions { allowed_tags: vec![] };
    let ast = parse(markdown, &options);

    assert!(find_node(&ast, "table").is_some());
    assert!(find_node(&ast, "thead").is_some());
    assert!(find_node(&ast, "td").is_some());
}

#[test]
fn test_strikethrough() {
    let markdown = "~~deleted~~";
    let options = TranspileOptions { allowed_tags: vec![] };
    let ast = parse(markdown, &options);

    assert!(find_node(&ast, "del").is_some());
}

#[test]
fn test_allowed_self_closing_element_has_no_residue() {
    let markdown = "Hello <VideoPlayer src=\"x.mp4\" /> world";
    let options = TranspileOptions { allowed_tags: vec!["VideoPlayer".to_string()] };
    let ast = parse(markdown, &options);

    // the whole document is one closed paragraph
    assert_eq!(ast.len(), 1);
    let node = find_node(&ast, "VideoPlayer").expect("should find the element");
    if let Node::Element { props, children, .. } = node {
        assert_eq!(prop_str(props, "src"), "x.mp4");
        assert!(children.is_empty());
    }
}

#[test]
fn test_disallowed_tag_falls_back_to_literal_text() {
    let markdown = "Hello <VideoPlayer src=\"x.mp4\" /> world";
    let options = TranspileOptions { allowed_tags: vec![] };
    let ast = parse(markdown, &options);

    assert!(find_node(&ast, "VideoPlayer").is_none());
    let mut texts: Vec<&str> = Vec::new();
    collect_texts(&ast, &mut texts);
    assert!(texts.contains(&"<VideoPlayer src=\"x.mp4\" />"));
}

#[test]
fn test_allowed_element_keeps_its_text() {
    let markdown = "<Allowed>Keep</Allowed><Forbidden>Drop</Forbidden>";
    let options = TranspileOptions { allowed_tags: vec!["Allowed".to_string()] };
    let ast = parse(markdown, &options);

    let allowed = find_node(&ast, "Allowed").expect("should find the allowed element");
    if let Node::Element { children, .. } = allowed {
        assert_eq!(children.as_slice(), &[Node::Text { content: "Keep".to_string() }]);
    }
    assert!(find_node(&ast, "Forbidden").is_none());
}

#[test]
fn test_table_structure_in_document_order() {
    let markdown = "| Header |\n| --- |\n| Cell |";
    let options = TranspileOptions { allowed_tags: vec![] };
    let ast = parse(markdown, &options);

    let table = find_node(&ast, "table").expect("should find the table");
    if let Node::Element { children, .. } = table {
        let thead = match &children[0] {
            Node::Element { tag, .. } if tag.as_str() == "thead" => &children[0],
            _ => panic!("thead should be the table's first child"),
        };
        if let Node::Element { children: head_children, .. } = thead {
            let td = find_node(head_children.as_slice(), "td").expect("td under thead");
            let mut texts: Vec<&str> = Vec::new();
            if let Node::Element { children: td_children, .. } = td {
                collect_texts(td_children, &mut texts);
            }
            assert_eq!(texts, vec!["Header"]);
        }
        let tr = find_node(&children[1..], "tr").expect("body row after the head");
        let mut texts: Vec<&str> = Vec::new();
        if let Node::Element { children: tr_children, .. } = tr {
            collect_texts(tr_children, &mut texts);
        }
        assert_eq!(texts, vec!["Cell"]);
    }
}

#[test]
fn test_heading_levels() {
    let options = TranspileOptions { allowed_tags: vec![] };
    let ast = parse("## Two", &options);
    assert_eq!(ast.len(), 1);
    if let Node::Element { tag, children, .. } = &ast[0] {
        assert_eq!(tag, "h2");
        assert_eq!(children.as_slice(), &[Node::Text { content: "Two".to_string() }]);
    } else {
        panic!("expected a heading element");
    }
    let ast = parse("###### Six", &options);
    if let Node::Element { tag, .. } = &ast[0] {
        assert_eq!(tag, "h6");
    } else {
        panic!("expected a heading element");
    }
}

#[test]
fn test_empty_input_yields_empty_forest() {
    let options = TranspileOptions { allowed_tags: vec![] };
    let ast = parse("", &options);
    assert!(ast.is_empty());
}

#[test]
fn test_code_span() {
    let options = TranspileOptions { allowed_tags: vec![] };
    let ast = parse("`let x`", &options);
    let code = find_node(&ast, "code").expect("should find the code element");
    if let Node::Element { children, .. } = code {
        assert_eq!(children.as_slice(), &[Node::Text { content: "let x".to_string() }]);
    }
}

#[test]
fn test_soft_break_becomes_newline_text() {
    let options = TranspileOptions { allowed_tags: vec![] };
    let ast = parse("a\nb", &options);
    assert_eq!(ast.len(), 1);
    if let Node::Element { tag, children, .. } = &ast[0] {
        assert_eq!(tag, "p");
        assert_eq!(
            children.as_slice(),
            &[
                Node::Text { content: "a".to_string() },
                Node::Text { content: "\n".to_string() },
                Node::Text { content: "b".to_string() },
            ]
        );
    }
}

#[test]
fn test_link_href() {
    let options = TranspileOptions { allowed_tags: vec![] };
    let ast = parse("[here](http://example.com/)", &options);
    let a = find_node(&ast, "a").expect("should find the link");
    if let Node::Element { props, children, .. } = a {
        assert_eq!(prop_str(props, "href"), "http://example.com/");
        assert_eq!(children.as_slice(), &[Node::Text { content: "here".to_string() }]);
    }
}

#[test]
fn test_root_level_break_is_dropped() {
    let options = TranspileOptions { allowed_tags: vec![] };
    let events = vec![MdEvent::LineBreak];
    let ast = build_tree(&events, &options);
    assert!(ast.is_empty());
}

#[test]
fn test_end_with_nothing_open_is_a_no_op() {
    let options = TranspileOptions { allowed_tags: vec![] };
    let events = vec![MdEvent::End, MdEvent::Text("x".to_string())];
    let ast = build_tree(&events, &options);
    assert_eq!(ast, vec![Node::Text { content: "x".to_string() }]);
}

#[test]
fn test_unknown_construct_maps_to_div() {
    let options = TranspileOptions { allowed_tags: vec![] };
    let events = vec![MdEvent::Start(Construct::Other), MdEvent::End];
    let ast = build_tree(&events, &options);
    assert_eq!(
        ast,
        vec![Node::Element { tag: "div".to_string(), props: vec![], children: vec![] }]
    );
}

#[test]
fn test_footnote_reference_unit_shape() {
    let options = TranspileOptions { allowed_tags: vec![] };
    let events = vec![MdEvent::FootnoteRef("7".to_string())];
    let ast = build_tree(&events, &options);
    assert_eq!(
        ast,
        vec![Node::Element {
            tag: "sup".to_string(),
            props: vec![],
            children: vec![Node::Element {
                tag: "a".to_string(),
                props: vec![
                    Prop {
                        key: "href".to_string(),
                        value: PropValue::Str("#fn-7".to_string()),
                    },
                    Prop {
                        key: "className".to_string(),
                        value: PropValue::Str("footnote-ref".to_string()),
                    },
                ],
                children: vec![Node::Text { content: "7".to_string() }],
            }],
        }]
    );
}

#[test]
fn test_footnote_definition_props() {
    let options = TranspileOptions { allowed_tags: vec![] };
    let events = vec![
        MdEvent::Start(Construct::FootnoteDefinition("note".to_string())),
        MdEvent::Text("body".to_string()),
        MdEvent::End,
    ];
    let ast = build_tree(&events, &options);
    assert_eq!(
        ast,
        vec![Node::Element {
            tag: "div".to_string(),
            props: vec![
                Prop { key: "id".to_string(), value: PropValue::Str("fn-note".to_string()) },
                Prop {
                    key: "className".to_string(),
                    value: PropValue::Str("footnote-definition".to_string()),
                },
            ],
            children: vec![Node::Text { content: "body".to_string() }],
        }]
    );
}

#[test]
fn test_unclosed_elements_are_discarded() {
    let markdown = "Hello <Wrap>lost";
    let options = TranspileOptions { allowed_tags: vec!["Wrap".to_string()] };
    let ast = parse(markdown, &options);
    // the end of the paragraph closes the still-open Wrap element, and the
    // paragraph itself then stays open at end-of-stream, so it is discarded
    assert!(ast.is_empty());
}
