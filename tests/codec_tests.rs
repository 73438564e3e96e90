use textorium::codec::{frame_document, parse_frontmatter, render_document, split_document, DecodeError};
use textorium::metadata::Metadata;
use textorium::posts::{parse_date, post_from_text, Timestamp};
use textorium::text::{compare_text, text_contains};
use textorium::value::FieldValue;

fn text_of(m: &Metadata, k: &str) -> Option<String> {
    match m.get(k) {
        Some(FieldValue::Text(s)) => Some(s.clone()),
        _ => None,
    }
}

#[test]
fn round_trip_keeps_fields_and_body() {
    let mut m = Metadata::new();
    m.insert("title".to_string(), FieldValue::Text("Hello".to_string()));
    m.insert("draft".to_string(), FieldValue::Bool(true));
    m.insert("content_type".to_string(), FieldValue::Text("post".to_string()));
    m.insert("series".to_string(), FieldValue::Text("vol1".to_string()));
    m.insert(
        "tags".to_string(),
        FieldValue::List(vec!["a".to_string(), "b".to_string()]),
    );
    m.insert("date".to_string(), FieldValue::Text("2024-01-01".to_string()));
    let body = "Some body text.\n\nSecond paragraph.";
    let raw = render_document(&m, body).unwrap();
    assert!(raw.starts_with("---\n"));
    let (back, b) = parse_frontmatter(&raw).ok().unwrap();
    assert_eq!(b, body);
    assert_eq!(back.len(), m.len());
    assert_eq!(text_of(&back, "title").as_deref(), Some("Hello"));
    assert_eq!(text_of(&back, "series").as_deref(), Some("vol1"));
    assert_eq!(text_of(&back, "date").as_deref(), Some("2024-01-01"));
    assert!(matches!(back.get("draft"), Some(FieldValue::Bool(true))));
    match back.get("tags") {
        Some(FieldValue::List(v)) => assert_eq!(v, &vec!["a".to_string(), "b".to_string()]),
        _ => panic!("tags lost"),
    }
}

#[test]
fn absent_delimiter_gives_empty_mapping_and_whole_body() {
    let text = "  just text\nno block here\n";
    let (m, body) = parse_frontmatter(text).ok().unwrap();
    assert_eq!(m.len(), 0);
    assert_eq!(body, text);
}

#[test]
fn unclosed_block_is_all_body() {
    let text = "---\ntitle: x\nno closing line";
    let (m, body) = parse_frontmatter(text).ok().unwrap();
    assert_eq!(m.len(), 0);
    assert_eq!(body, text);
    assert!(split_document(text).is_none());
}

#[test]
fn split_finds_first_closing_delimiter_and_keeps_body() {
    let (block, body) = split_document("---\na: 1\n---\n\n  body --- more \n").unwrap();
    assert_eq!(block, "\na: 1\n");
    assert_eq!(body, "  body --- more \n");
    let (_, body) = split_document("---\na: 1\n---\nnext").unwrap();
    assert_eq!(body, "next");
    let (_, body) = split_document("---\na: 1\n---tail").unwrap();
    assert_eq!(body, "tail");
}

#[test]
fn body_comes_back_exactly() {
    let mut m = Metadata::new();
    m.insert("title".to_string(), FieldValue::Text("T".to_string()));
    let body = " x\n\n  indented\n";
    let raw = render_document(&m, body).unwrap();
    let (_, b) = parse_frontmatter(&raw).ok().unwrap();
    assert_eq!(b, body);
}

#[test]
fn frame_writes_block_then_blank_line_then_body() {
    assert_eq!(frame_document("  a: 1\n\n", "Body"), "---\na: 1\n---\n\nBody");
}

#[test]
fn decoding_fills_well_known_defaults() {
    let (m, body) = parse_frontmatter("---\nauthor: me\ncategory: old\n---\nHi").ok().unwrap();
    assert_eq!(body, "Hi");
    assert_eq!(text_of(&m, "title").as_deref(), Some(""));
    assert_eq!(text_of(&m, "content_type").as_deref(), Some(""));
    assert!(matches!(m.get("draft"), Some(FieldValue::Bool(false))));
    assert_eq!(text_of(&m, "author").as_deref(), Some("me"));
    assert_eq!(text_of(&m, "category").as_deref(), Some("old"));
    assert!(m.get("date").is_none());
    assert!(m.get("tags").is_none());
    assert!(m.get("categories").is_none());
}

#[test]
fn decoding_keeps_numbers_as_their_text() {
    let (m, _) = parse_frontmatter("---\nweight: 3\n---\nx").ok().unwrap();
    match m.get("weight") {
        Some(v @ FieldValue::Number(n)) => {
            assert_eq!(n, "3");
            assert_eq!(v.display_text(), "3");
        }
        _ => panic!("weight is not a number"),
    }
}

#[test]
fn malformed_block_is_a_syntax_error() {
    let r = parse_frontmatter("---\ntitle: [unclosed\n---\nbody");
    assert!(matches!(r, Err(DecodeError::Syntax(_))));
}

#[test]
fn wrong_kind_of_well_known_field_is_named() {
    let r = parse_frontmatter("---\ndraft: maybe\n---\nbody");
    match r {
        Err(DecodeError::FieldType(n)) => assert_eq!(n, "draft"),
        _ => panic!("expected a field type error"),
    }
    let r = parse_frontmatter("---\ntags: plain\n---\nbody");
    assert!(matches!(r, Err(DecodeError::FieldType(n)) if n == "tags"));
}

#[test]
fn dates_in_both_formats_and_otherwise_absent() {
    let midnight = Some(Timestamp { secs: 1688774400, nanos: 0 });
    assert_eq!(parse_date("2023-07-08T00:00:00Z"), midnight);
    assert_eq!(parse_date("2023-07-08"), midnight);
    assert_eq!(parse_date("not-a-date"), None);
    assert_eq!(
        parse_date("2023-07-08T02:00:00+02:00"),
        Some(Timestamp { secs: 1688774400, nanos: 0 })
    );
}

#[test]
fn post_reads_its_fields() {
    let raw = "---\ntitle: Alpha\ndate: 2023-07-08\ndraft: true\ncontent_type: note\ncategories: [Beta]\ntags: [t1]\n---\n\nBody";
    let p = post_from_text("content/a.md".to_string(), raw).ok().unwrap();
    assert_eq!(p.title, "Alpha");
    assert!(p.draft);
    assert_eq!(p.content_type, "note");
    assert_eq!(p.categories, vec!["Beta".to_string()]);
    assert_eq!(p.tags, vec!["t1".to_string()]);
    assert_eq!(p.content, "Body");
    assert_eq!(p.date, Some(Timestamp { secs: 1688774400, nanos: 0 }));
    assert_eq!(p.path, "content/a.md");
}

#[test]
fn post_without_block_gets_placeholder_title() {
    let p = post_from_text("x.md".to_string(), "hello").ok().unwrap();
    assert_eq!(p.title, "Untitled");
    assert_eq!(text_of(&p.metadata, "title").as_deref(), Some("Untitled"));
    assert_eq!(p.metadata.len(), 1);
    assert_eq!(p.content, "hello");
    assert!(!p.draft);
    assert_eq!(p.date, None);
}

#[test]
fn text_order_and_search() {
    assert!(compare_text("a", "b") < 0);
    assert!(compare_text("b", "a") > 0);
    assert!(compare_text("ab", "a") > 0);
    assert_eq!(compare_text("same", "same"), 0);
    assert!(compare_text("Z", "a") < 0);
    assert!(text_contains("hello world", "o w"));
    assert!(!text_contains("hello", "world"));
    assert!(text_contains("x", ""));
}

#[test]
fn list_values_display_bracketed() {
    let v = FieldValue::List(vec!["a".to_string(), "b".to_string()]);
    assert_eq!(v.display_text(), "[a, b]");
    assert_eq!(v.edit_text(), "");
    assert_eq!(FieldValue::Bool(false).display_text(), "false");
    assert_eq!(FieldValue::Null.display_text(), "\u{2014}");
}
