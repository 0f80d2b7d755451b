use md2jsx::parse_html_tag;
use md2jsx::Prop;
use md2jsx::PropValue;
use md2jsx::Recognized;

fn prop(key: &str, value: &str) -> Prop {
    Prop { key: key.to_string(), value: PropValue::Str(value.to_string()) }
}

fn flag(key: &str) -> Prop {
    Prop { key: key.to_string(), value: PropValue::Flag }
}

#[test]
fn test_opening_tag_with_attributes() {
    let r = parse_html_tag("<Widget a=\"1\" b='two' c=bare d>");
    assert_eq!(
        r,
        Recognized::Opening {
            tag: "Widget".to_string(),
            props: vec![prop("a", "1"), prop("b", "two"), prop("c", "bare"), flag("d")],
            self_closing: false,
        }
    );
}

#[test]
fn test_self_closing_tag() {
    let r = parse_html_tag("<br/>");
    assert_eq!(
        r,
        Recognized::Opening { tag: "br".to_string(), props: vec![], self_closing: true }
    );
}

#[test]
fn test_surrounding_whitespace_is_trimmed() {
    let r = parse_html_tag("  <hr-rule />\n");
    assert_eq!(
        r,
        Recognized::Opening { tag: "hr-rule".to_string(), props: vec![], self_closing: true }
    );
}

#[test]
fn test_closing_tag() {
    assert_eq!(parse_html_tag("</div>"), Recognized::Closing { tag: "div".to_string() });
    assert_eq!(parse_html_tag("</ div >"), Recognized::Closing { tag: "div".to_string() });
}

#[test]
fn test_unrecognized_fragments() {
    assert_eq!(parse_html_tag("plain text"), Recognized::Unrecognized);
    assert_eq!(parse_html_tag("<not a tag"), Recognized::Unrecognized);
    assert_eq!(parse_html_tag("<>"), Recognized::Unrecognized);
    assert_eq!(parse_html_tag("<a>b>"), Recognized::Unrecognized);
}

#[test]
fn test_duplicate_attribute_last_wins() {
    let r = parse_html_tag("<x a=1 a=2>");
    assert_eq!(
        r,
        Recognized::Opening {
            tag: "x".to_string(),
            props: vec![prop("a", "2")],
            self_closing: false,
        }
    );
}

#[test]
fn test_unterminated_quote_falls_back_to_bare_token() {
    let r = parse_html_tag("<x a=\"oops>");
    assert_eq!(
        r,
        Recognized::Opening {
            tag: "x".to_string(),
            props: vec![prop("a", "\"oops")],
            self_closing: false,
        }
    );
}

#[test]
fn test_attribute_extraction_is_idempotent() {
    let fragment = "<Widget a=\"1\" b='two' c=bare d repeat=x repeat=y />";
    let first = parse_html_tag(fragment);
    let second = parse_html_tag(fragment);
    assert_eq!(first, second);
}
