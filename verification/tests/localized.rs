use opds::error::ParseError;
use opds::v2_0::metadata::language::compare_tags;
use opds::v2_0::metadata::{StringWithAlternates, TaggedStrings};
use opds::value::{Shape, Value};

fn text(s: &str) -> Value {
    Value::String(s.to_string())
}

fn object(members: &[(&str, Value)]) -> Value {
    let mut out = Vec::new();
    for (k, v) in members {
        out.push((k.to_string(), match v {
            Value::String(s) => Value::String(s.clone()),
            Value::Bool(b) => Value::Bool(*b),
            _ => Value::Null,
        }));
    }
    Value::Object(out)
}

fn pairs(t: &TaggedStrings) -> Vec<(&str, &str)> {
    t.choices.iter().map(|(k, v)| (k.as_str(), v.as_str())).collect()
}

#[test]
fn a_single_string_is_read_and_written_as_a_string() {
    let read = StringWithAlternates::parse(&text("Moby-Dick"), "title").unwrap();
    assert_eq!(read, StringWithAlternates::Always("Moby-Dick".to_string()));
    assert_eq!(read.to_value(), text("Moby-Dick"));
}

#[test]
fn choices_by_language_are_read_and_written_as_an_object() {
    let doc = object(&[("en", text("Whale")), ("fr", text("Baleine"))]);
    let read = StringWithAlternates::parse(&doc, "title").unwrap();
    match &read {
        StringWithAlternates::Variants(t) => assert_eq!(pairs(t), vec![("en", "Whale"), ("fr", "Baleine")]),
        other => panic!("read {:?}", other),
    }
    assert_eq!(read.to_value(), doc);
    assert_eq!(StringWithAlternates::parse(&read.to_value(), "title").unwrap(), read);
}

#[test]
fn choices_are_held_in_the_order_of_their_tags() {
    let doc = object(&[("pt", text("Autores")), ("de", text("Autoren")), ("en", text("Authors"))]);
    let read = StringWithAlternates::parse(&doc, "title").unwrap();
    let expected = object(&[("de", text("Autoren")), ("en", text("Authors")), ("pt", text("Autores"))]);
    assert_eq!(read.to_value(), expected);
    assert_eq!(StringWithAlternates::parse(&expected, "title").unwrap(), read);
}

#[test]
fn a_tag_written_twice_keeps_its_first_spelling_and_its_last_text() {
    let doc = object(&[("en", text("first")), ("EN", text("second"))]);
    let read = StringWithAlternates::parse(&doc, "title").unwrap();
    assert_eq!(read.to_value(), object(&[("en", text("second"))]));
}

#[test]
fn tags_are_ordered_without_regard_to_case_and_longer_tags_first() {
    assert_eq!(compare_tags("de", "en"), -1);
    assert_eq!(compare_tags("en", "de"), 1);
    assert_eq!(compare_tags("en", "EN"), 0);
    assert_eq!(compare_tags("EN", "fr"), -1);
    assert_eq!(compare_tags("en-US", "en"), -1);
    assert_eq!(compare_tags("en", "en-US"), 1);
    assert_eq!(compare_tags("", ""), 0);
    let doc = object(&[("en", text("a")), ("en-US", text("b"))]);
    let read = StringWithAlternates::parse(&doc, "title").unwrap();
    assert_eq!(read.to_value(), object(&[("en-US", text("b")), ("en", text("a"))]));
}

#[test]
fn a_key_that_is_no_language_tag_is_refused() {
    let doc = object(&[("en", text("a")), ("not a tag", text("b"))]);
    assert_eq!(
        StringWithAlternates::parse(&doc, "title"),
        Err(ParseError::InvalidLanguageTag("not a tag".to_string()))
    );
}

#[test]
fn a_choice_that_is_no_text_is_refused() {
    let doc = object(&[("en", Value::Bool(true))]);
    assert_eq!(
        StringWithAlternates::parse(&doc, "title"),
        Err(ParseError::ShapeMismatch {
            field: "en".to_string(),
            expected: vec![Shape::String],
            actual: Shape::Bool,
        })
    );
}

#[test]
fn a_display_text_is_a_string_or_an_object() {
    assert_eq!(
        StringWithAlternates::parse(&Value::Array(vec![]), "title"),
        Err(ParseError::ShapeMismatch {
            field: "title".to_string(),
            expected: vec![Shape::String, Shape::Object],
            actual: Shape::Array,
        })
    );
}

#[test]
fn insert_puts_a_choice_where_the_order_of_tags_has_it() {
    let mut t = TaggedStrings::new();
    assert!(t.insert("fr", "Auteurs".to_string()));
    assert!(t.insert("de", "Autoren".to_string()));
    assert!(t.insert("es", "Autoras".to_string()));
    assert!(!t.insert("no tag", "x".to_string()));
    assert_eq!(pairs(&t), vec![("de", "Autoren"), ("es", "Autoras"), ("fr", "Auteurs")]);
    assert!(t.insert("ES", "Autores".to_string()));
    assert_eq!(pairs(&t), vec![("de", "Autoren"), ("es", "Autores"), ("fr", "Auteurs")]);
}

#[test]
fn from_static_keeps_the_choices_as_given() {
    let t = TaggedStrings::from_static(&[("fr", "Langues"), ("de", "Sprachen")]);
    assert_eq!(pairs(&t), vec![("fr", "Langues"), ("de", "Sprachen")]);
}

#[test]
fn a_display_text_is_made_from_a_string() {
    assert_eq!(StringWithAlternates::from("x"), StringWithAlternates::Always("x".to_string()));
    assert_eq!(StringWithAlternates::from("x".to_string()), StringWithAlternates::Always("x".to_string()));
}
