use mustgather::document::Document;

fn text(value: &str) -> Document {
    Document::Text(String::from(value))
}

fn mapping(entries: Vec<(&str, Document)>) -> Document {
    Document::Mapping(entries.into_iter().map(|(key, value)| (String::from(key), value)).collect())
}

#[test]
fn get_finds_the_value_under_a_key() {
    let document = mapping(vec![("a", text("1")), ("b", text("2")), ("c", Document::Other)]);
    assert_eq!(document.get("a"), Some(&text("1")));
    assert_eq!(document.get("b"), Some(&text("2")));
    assert_eq!(document.get("c"), Some(&Document::Other));
}

#[test]
fn get_finds_nothing_under_a_missing_key() {
    let document = mapping(vec![("a", text("1"))]);
    assert_eq!(document.get("b"), None);
    assert_eq!(document.get(""), None);
    assert_eq!(document.get("A"), None);
    assert_eq!(mapping(vec![]).get("a"), None);
}

#[test]
fn get_finds_nothing_in_what_is_no_mapping() {
    assert_eq!(text("a").get("a"), None);
    assert_eq!(Document::Other.get("a"), None);
}

#[test]
fn get_takes_the_first_of_equal_keys() {
    let document = mapping(vec![("a", text("first")), ("b", text("2")), ("a", text("second"))]);
    assert_eq!(document.get("a"), Some(&text("first")));
}

#[test]
fn as_text_gives_the_text_of_a_string() {
    assert_eq!(text("hello").as_text(), Some("hello"));
    assert_eq!(text("").as_text(), Some(""));
    assert_eq!(Document::Other.as_text(), None);
    assert_eq!(mapping(vec![("a", text("1"))]).as_text(), None);
}

#[test]
fn text_at_follows_the_keys() {
    let document = mapping(vec![
        ("metadata", mapping(vec![("name", text("node1"))])),
        ("status", mapping(vec![("desired", mapping(vec![("version", text("4.10.3"))]))])),
    ]);
    assert_eq!(document.text_at(&["status", "desired", "version"]), Some("4.10.3"));
    assert_eq!(document.text_at(&["metadata", "name"]), Some("node1"));
}

#[test]
fn text_at_gives_nothing_off_the_path() {
    let document = mapping(vec![
        ("status", mapping(vec![("desired", mapping(vec![("version", text("4.10.3"))]))])),
    ]);
    assert_eq!(document.text_at(&["status", "desired"]), None);
    assert_eq!(document.text_at(&["status", "version"]), None);
    assert_eq!(document.text_at(&["desired", "version"]), None);
    assert_eq!(document.text_at(&["status", "desired", "version", "major"]), None);
    assert_eq!(document.text_at(&[]), None);
}

#[test]
fn text_at_without_keys_is_the_text_itself() {
    assert_eq!(text("4.10.3").text_at(&[]), Some("4.10.3"));
    assert_eq!(text("4.10.3").text_at(&["version"]), None);
}
