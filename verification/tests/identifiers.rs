use opds::error::ParseError;
use opds::v2_0::metadata::identifier::{canonical_url, canonical_urn, parse_url};
use opds::v2_0::metadata::language::parse_language;
use opds::v2_0::metadata::Identifier;
use opds::value::{Shape, Value};

fn text(s: &str) -> Value {
    Value::String(s.to_string())
}

#[test]
fn a_url_is_held_in_its_canonical_text() {
    assert_eq!(canonical_url("http://example.com"), Some("http://example.com/".to_string()));
    assert_eq!(canonical_url("HTTP://Example.COM/a b"), Some("http://example.com/a%20b".to_string()));
    assert_eq!(canonical_url("https://example.org/a/../b"), Some("https://example.org/b".to_string()));
    assert_eq!(canonical_url("urn:isbn:9780000000001"), Some("urn:isbn:9780000000001".to_string()));
}

#[test]
fn text_that_is_no_url_is_refused() {
    assert_eq!(canonical_url("not a url"), None);
    assert_eq!(canonical_url(""), None);
    assert_eq!(canonical_url("//example.org/relative"), None);
    assert_eq!(
        parse_url(&text("not a url"), "identifier"),
        Err(ParseError::InvalidIdentifier("not a url".to_string()))
    );
}

#[test]
fn a_url_is_read_from_text_only() {
    assert_eq!(parse_url(&text("http://example.com"), "identifier"), Ok("http://example.com/".to_string()));
    assert_eq!(
        parse_url(&Value::Bool(false), "identifier"),
        Err(ParseError::ShapeMismatch {
            field: "identifier".to_string(),
            expected: vec![Shape::String],
            actual: Shape::Bool,
        })
    );
}

#[test]
fn a_urn_is_held_in_its_canonical_text() {
    assert_eq!(canonical_urn("URN:ISBN:0451450523"), Some("urn:isbn:0451450523".to_string()));
    assert_eq!(canonical_urn("urn:example:a%3fb"), Some("urn:example:a%3Fb".to_string()));
    assert_eq!(canonical_urn("urn:x"), None);
    assert_eq!(canonical_urn("http://example.com/"), None);
}

#[test]
fn an_identifier_that_reads_as_a_url_is_a_url() {
    assert_eq!(
        Identifier::resolve("https://example.org/book/1"),
        Some(Identifier::Url("https://example.org/book/1".to_string()))
    );
    assert_eq!(
        Identifier::resolve("urn:isbn:9780000000001"),
        Some(Identifier::Url("urn:isbn:9780000000001".to_string()))
    );
    assert_eq!(Identifier::resolve("neither"), None);
}

#[test]
fn an_identifier_is_written_as_its_text() {
    let id = Identifier::resolve("http://example.com").unwrap();
    assert_eq!(id.as_str(), "http://example.com/");
    assert_eq!(id.to_value(), text("http://example.com/"));
    assert_eq!(Identifier::parse(&id.to_value(), "identifier"), Ok(id));
    assert_eq!(Identifier::Urn("urn:isbn:1".to_string()).to_value(), text("urn:isbn:1"));
}

#[test]
fn text_that_is_no_identifier_is_refused() {
    assert_eq!(
        Identifier::parse(&text("neither"), "identifier"),
        Err(ParseError::InvalidIdentifier("neither".to_string()))
    );
}

#[test]
fn a_language_is_a_language_tag() {
    assert_eq!(parse_language(&text("en"), "language"), Ok("en".to_string()));
    assert_eq!(parse_language(&text("fr-CA"), "language"), Ok("fr-CA".to_string()));
    assert_eq!(parse_language(&text("zh-Hant-TW"), "language"), Ok("zh-Hant-TW".to_string()));
    assert_eq!(
        parse_language(&text("en_US"), "language"),
        Err(ParseError::InvalidLanguageTag("en_US".to_string()))
    );
    assert_eq!(
        parse_language(&text(""), "language"),
        Err(ParseError::InvalidLanguageTag(String::new()))
    );
}
