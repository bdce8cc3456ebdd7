use opds::error::ParseError;
use opds::v2_0::metadata::{
    AccessMode, AccessibilityFeature, AccessibilityHazard, AvailabilityState, PageDisplay,
    PublicationLayout, ReadingProgression, Reservation, StringWithAlternates,
};
use opds::v2_0::{Feed, FeedGroup, Link, Publication};
use opds::value::{Number, Shape, Value, MAX_DEPTH};

fn to_doc(j: &serde_json::Value) -> Value {
    match j {
        serde_json::Value::Null => Value::Null,
        serde_json::Value::Bool(b) => Value::Bool(*b),
        serde_json::Value::Number(n) => Value::Number(match (n.as_u64(), n.as_i64(), n.as_f64()) {
            (Some(u), _, _) => Number::Unsigned(u),
            (None, Some(i), _) => Number::Signed(i),
            (None, None, Some(f)) => Number::Float(f.to_bits()),
            (None, None, None) => unreachable!(),
        }),
        serde_json::Value::String(s) => Value::String(s.clone()),
        serde_json::Value::Array(items) => Value::Array(items.iter().map(to_doc).collect()),
        serde_json::Value::Object(members) => {
            Value::Object(members.iter().map(|(k, v)| (k.clone(), to_doc(v))).collect())
        }
    }
}

fn read(text: &str) -> Value {
    to_doc(&serde_json::from_str::<serde_json::Value>(text).unwrap())
}

const FEED_IN: &str = r#"{
  "metadata": {
    "title": {"fr": "Catalogue", "en": "Catalog"},
    "subtitle": "All books",
    "identifier": "https://example.org/feed",
    "@type": "http://schema.org/DataFeed",
    "itemsPerPage": 20,
    "numberOfItems": 1,
    "unknown": {"ignored": true}
  },
  "links": [
    {"href": "https://example.org/feed.json", "type": "application/opds+json", "rel": ["self"]},
    {"href": "https://example.org/search{?query}", "templated": true, "rel": "search", "templated_by": 1}
  ],
  "navigation": [
    {"title": "New", "href": "/new", "rel": ["http://opds-spec.org/sort/new", "x-custom"], "properties": {"numberOfItems": 5}}
  ],
  "facets": [
    {"metadata": {"title": "Language"}, "links": [{"href": "/fr", "title": "French", "language": ["fr"]}]}
  ],
  "publications": [
    {
      "metadata": {
        "@type": "http://schema.org/Book",
        "conformsTo": ["https://readium.org/webpub-manifest/profiles/epub"],
        "title": "Moby-Dick",
        "sortAs": "Moby Dick",
        "author": "Herman Melville",
        "identifier": "urn:isbn:9780000000001",
        "altIdentifier": ["1234", {"value": "5678", "scheme": "https://example.org/scheme"}],
        "accessibility": {
          "conformsTo": "http://www.idpf.org/epub/a11y/accessibility-20170105.html",
          "accessMode": ["textual", "visual"],
          "feature": ["tableOfContents", "ARIA"],
          "hazard": ["none"],
          "certification": {"certifiedBy": "A11y Inc."},
          "summary": "Readable"
        },
        "modified": "2015-09-29T17:00:00Z",
        "language": "en",
        "subject": [{"name": "Whales", "code": "W"}],
        "layout": "reflowable",
        "readingProgression": "ltr",
        "duration": 0,
        "abridged": false,
        "numberOfPages": 635,
        "belongsTo": {"collection": "Classics", "series": {"name": "Sea", "position": 1}, "volume": 2},
        "contains": {"chapter": [1, 2]},
        "tdm": {"reservation": "all", "policy": "https://example.org/policy"},
        "translator": [],
        "publisher": {"name": {"en": "Harper"}, "role": ["pbl"]}
      },
      "links": [
        {
          "href": "https://example.org/moby.epub",
          "type": "application/epub+zip",
          "rel": "http://opds-spec.org/acquisition/buy",
          "properties": {
            "price": {"value": 4.99, "currency": "EUR"},
            "availability": {"state": "available", "since": "2020-01-01"},
            "indirectAcquisition": [{"type": "application/vnd.adobe.adept+xml", "child": [{"type": "application/epub+zip"}]}],
            "holds": {"total": 2},
            "copies": {"total": 3, "available": 1},
            "page": "center"
          },
          "size": 1024,
          "bitrate": 128,
          "duration": 12.5,
          "alternate": [{"href": "https://example.org/moby.pdf", "children": [{"href": "/toc"}]}]
        }
      ],
      "images": [{"href": "https://example.org/cover.jpg", "type": "image/jpeg", "height": 1400, "width": 800}]
    }
  ],
  "groups": [
    {"metadata": {"title": "Picks"}, "navigation": [{"href": "/picks"}]}
  ]
}"#;

const FEED_OUT: &str = r#"{
  "metadata": {
    "title": {"en": "Catalog", "fr": "Catalogue"},
    "subtitle": "All books",
    "identifier": "https://example.org/feed",
    "@type": "http://schema.org/DataFeed",
    "itemsPerPage": 20,
    "numberOfItems": 1
  },
  "links": [
    {"href": "https://example.org/feed.json", "type": "application/opds+json", "rel": "self"},
    {"href": "https://example.org/search{?query}", "templated": true, "rel": "search"}
  ],
  "navigation": [
    {"title": "New", "href": "/new", "rel": ["http://opds-spec.org/sort/new", "x-custom"], "properties": {"numberOfItems": 5}}
  ],
  "facets": [
    {"metadata": {"title": "Language"}, "links": [{"title": "French", "href": "/fr", "language": ["fr"]}]}
  ],
  "publications": [
    {
      "metadata": {
        "@type": "http://schema.org/Book",
        "conformsTo": ["https://readium.org/webpub-manifest/profiles/epub"],
        "title": "Moby-Dick",
        "sortAs": "Moby Dick",
        "author": {"name": "Herman Melville"},
        "identifier": "urn:isbn:9780000000001",
        "altIdentifier": [{"value": "1234"}, {"value": "5678", "scheme": "https://example.org/scheme"}],
        "accessibility": {
          "conformsTo": "http://www.idpf.org/epub/a11y/accessibility-20170105.html",
          "accessMode": ["textual", "visual"],
          "feature": ["tableOfContents", "ARIA"],
          "hazard": ["none"],
          "certification": {"certifiedBy": "A11y Inc."},
          "summary": "Readable"
        },
        "modified": "2015-09-29T17:00:00Z",
        "language": "en",
        "subject": [{"name": "Whales", "code": "W"}],
        "layout": "reflowable",
        "readingProgression": "ltr",
        "duration": 0,
        "abridged": false,
        "numberOfPages": 635,
        "belongsTo": {"collection": {"name": "Classics"}, "series": {"name": "Sea", "position": 1}, "volume": {"position": 2}},
        "contains": {"chapter": [{"position": 1}, {"position": 2}]},
        "tdm": {"reservation": "all", "policy": "https://example.org/policy"},
        "publisher": {"name": {"en": "Harper"}, "role": ["pbl"]}
      },
      "links": [
        {
          "href": "https://example.org/moby.epub",
          "type": "application/epub+zip",
          "rel": "http://opds-spec.org/acquisition/buy",
          "properties": {
            "page": "center",
            "availability": {"state": "available", "since": "2020-01-01"},
            "price": {"value": 4.99, "currency": "EUR"},
            "indirectAcquisition": [{"type": "application/vnd.adobe.adept+xml", "child": [{"type": "application/epub+zip"}]}],
            "holds": {"total": 2},
            "copies": {"total": 3, "available": 1}
          },
          "size": 1024,
          "bitrate": 128,
          "duration": 12.5,
          "alternate": [{"href": "https://example.org/moby.pdf", "children": [{"href": "/toc"}]}]
        }
      ],
      "images": [{"href": "https://example.org/cover.jpg", "type": "image/jpeg", "height": 1400, "width": 800}]
    }
  ],
  "groups": [
    {"metadata": {"title": "Picks"}, "navigation": [{"href": "/picks"}]}
  ]
}"#;

#[test]
fn test_feed() {
    for (json_in, json_exp) in [(FEED_IN, FEED_OUT), (FEED_OUT, FEED_OUT)] {
        let feed = Feed::from_value(&read(json_in)).expect("can parse feed");
        let json_out = feed.to_value();
        assert_eq!(json_out, read(json_exp), "input matches expected output after parsing");
    }
}

#[test]
fn a_feed_read_from_its_written_form_is_the_same_feed() {
    let feed = Feed::from_value(&read(FEED_IN)).unwrap();
    let again = Feed::from_value(&feed.to_value()).unwrap();
    assert_eq!(again, feed);
    assert_eq!(again.to_value(), feed.to_value());
}

#[test]
fn the_parts_of_a_feed_are_read_into_their_fields() {
    let feed = Feed::from_value(&read(FEED_IN)).unwrap();
    assert_eq!(feed.links.len(), 2);
    assert!(feed.links[1].templated);
    assert!(!feed.links[0].templated);
    assert_eq!(feed.metadata.items_per_page, Some(20));
    assert_eq!(feed.metadata.current_page, None);
    assert_eq!(feed.metadata.identifier, Some("https://example.org/feed".to_string()));
    assert_eq!(feed.facets[0].links[0].language, vec!["fr".to_string()]);
    let publication = &feed.publications[0];
    let meta = &publication.metadata;
    assert_eq!(meta.layout, Some(PublicationLayout::Reflowable));
    assert_eq!(meta.reading_progression, Some(ReadingProgression::LeftToRight));
    assert_eq!(meta.abridged, Some(false));
    assert_eq!(meta.duration, Some(0));
    assert_eq!(meta.language, vec!["en".to_string()]);
    assert_eq!(meta.tdm.as_ref().unwrap().reservation, Reservation::All);
    let a11y = meta.accessibility.as_ref().unwrap();
    assert_eq!(a11y.access_mode, vec![AccessMode::Textual, AccessMode::Visual]);
    assert_eq!(a11y.feature, vec![AccessibilityFeature::TableOfContents, AccessibilityFeature::Aria]);
    assert_eq!(a11y.hazard, vec![AccessibilityHazard::NoHazards]);
    let link = &publication.links[0];
    assert_eq!(link.size, Some(1024));
    assert_eq!(link.bitrate, Some(Number::Unsigned(128)));
    assert_eq!(link.duration, Some(Number::Float(12.5f64.to_bits())));
    assert_eq!(link.properties.page, Some(PageDisplay::Center));
    assert_eq!(link.properties.price.as_ref().unwrap().value, Number::Float(4.99f64.to_bits()));
    assert_eq!(link.properties.availability.as_ref().unwrap().state, AvailabilityState::Available);
    assert_eq!(link.properties.indirect_acquisition[0].child[0].mime, "application/epub+zip");
    assert_eq!(link.alternate[0].children[0].href, Some("/toc".to_string()));
    assert_eq!(feed.groups[0].navigation[0].href, Some("/picks".to_string()));
}

#[test]
fn a_feed_without_a_title_is_refused() {
    assert_eq!(
        Feed::from_value(&read(r#"{"metadata": {}, "links": []}"#)),
        Err(ParseError::MissingRequiredField("title".to_string()))
    );
    assert_eq!(
        Feed::from_value(&read(r#"{"metadata": {"subtitle": "x"}}"#)),
        Err(ParseError::MissingRequiredField("title".to_string()))
    );
}

#[test]
fn a_feed_without_metadata_is_refused() {
    assert_eq!(
        Feed::from_value(&read(r#"{"links": []}"#)),
        Err(ParseError::MissingRequiredField("metadata".to_string()))
    );
    assert_eq!(
        Publication::from_value(&read(r#"{"metadata": {"title": "x"}, "images": [{"type": 5}]}"#)),
        Err(ParseError::ShapeMismatch { field: "type".to_string(), expected: vec![Shape::String], actual: Shape::Natural })
    );
}

#[test]
fn the_smallest_feed_holds_a_title_only() {
    let feed = Feed::from_value(&read(r#"{"metadata": {"title": "T"}}"#)).unwrap();
    assert_eq!(feed, Feed::new(StringWithAlternates::Always("T".to_string())));
    assert_eq!(feed.to_value(), read(r#"{"metadata": {"title": "T"}}"#));
}

#[test]
fn a_value_of_the_wrong_shape_is_refused_with_the_field_and_the_shapes() {
    assert_eq!(
        Feed::from_value(&read(r#"{"metadata": {"title": "T"}, "links": 3}"#)),
        Err(ParseError::ShapeMismatch { field: "links".to_string(), expected: vec![Shape::Array], actual: Shape::Natural })
    );
    assert_eq!(
        Feed::from_value(&read(r#"{"metadata": {"title": "T"}, "links": [3]}"#)),
        Err(ParseError::ShapeMismatch { field: "links".to_string(), expected: vec![Shape::Object], actual: Shape::Natural })
    );
    assert_eq!(
        Feed::from_value(&read(r#"{"metadata": {"title": "T"}, "links": null}"#)),
        Err(ParseError::ShapeMismatch { field: "links".to_string(), expected: vec![Shape::Array], actual: Shape::Null })
    );
    assert_eq!(
        Feed::from_value(&read("[]")),
        Err(ParseError::ShapeMismatch { field: String::new(), expected: vec![Shape::Object], actual: Shape::Array })
    );
    assert_eq!(
        Link::from_value(&read(r#"{"templated": "yes"}"#)),
        Err(ParseError::ShapeMismatch { field: "templated".to_string(), expected: vec![Shape::Bool], actual: Shape::String })
    );
    assert_eq!(
        Link::from_value(&read(r#"{"height": 1.5}"#)),
        Err(ParseError::ShapeMismatch { field: "height".to_string(), expected: vec![Shape::Natural], actual: Shape::Number })
    );
    assert_eq!(
        Link::from_value(&read(r#"{"bitrate": "fast"}"#)),
        Err(ParseError::ShapeMismatch {
            field: "bitrate".to_string(),
            expected: vec![Shape::Natural, Shape::Number],
            actual: Shape::String,
        })
    );
    assert_eq!(
        Link::from_value(&read(r#"{"rel": 1}"#)),
        Err(ParseError::ShapeMismatch {
            field: "rel".to_string(),
            expected: vec![Shape::String, Shape::Array],
            actual: Shape::Natural,
        })
    );
}

#[test]
fn the_first_field_that_cannot_be_read_gives_the_error() {
    assert_eq!(
        Link::from_value(&read(r#"{"width": "w", "height": "h", "title": 1}"#)),
        Err(ParseError::ShapeMismatch { field: "title".to_string(), expected: vec![Shape::String], actual: Shape::Natural })
    );
    assert_eq!(
        Link::from_value(&read(r#"{"width": "w", "height": "h"}"#)),
        Err(ParseError::ShapeMismatch { field: "height".to_string(), expected: vec![Shape::Natural], actual: Shape::String })
    );
}

#[test]
fn a_name_outside_a_closed_set_is_refused() {
    let text = r#"{"metadata": {"title": "T", "layout": "sideways"}, "links": []}"#;
    assert_eq!(
        Publication::from_value(&read(text)),
        Err(ParseError::InvalidEnumValue { field: "layout".to_string(), value: "sideways".to_string() })
    );
    let text = r#"{"metadata": {"title": "T", "accessibility": {"hazard": ["flashing", "loud"]}}}"#;
    assert_eq!(
        Publication::from_value(&read(text)),
        Err(ParseError::InvalidEnumValue { field: "hazard".to_string(), value: "loud".to_string() })
    );
    let text = r#"{"properties": {"availability": {"state": "Available"}}}"#;
    assert_eq!(
        Link::from_value(&read(text)),
        Err(ParseError::InvalidEnumValue { field: "state".to_string(), value: "Available".to_string() })
    );
    let text = r#"{"properties": {"availability": {}}}"#;
    assert_eq!(Link::from_value(&read(text)), Err(ParseError::MissingRequiredField("state".to_string())));
}

#[test]
fn an_unknown_relation_is_never_refused() {
    let link = Link::from_value(&read(r#"{"rel": ["sideways", "self"]}"#)).unwrap();
    assert_eq!(link.to_value(), read(r#"{"rel": ["sideways", "self"]}"#));
}

#[test]
fn a_link_in_a_language_that_is_no_tag_is_refused() {
    assert_eq!(
        Link::from_value(&read(r#"{"language": ["en", "not a tag"]}"#)),
        Err(ParseError::InvalidLanguageTag("not a tag".to_string()))
    );
    assert_eq!(
        Publication::from_value(&read(r#"{"metadata": {"title": "T", "language": "e"}}"#)),
        Err(ParseError::InvalidLanguageTag("e".to_string()))
    );
}

#[test]
fn a_feed_whose_identifier_is_no_url_is_refused() {
    assert_eq!(
        Feed::from_value(&read(r#"{"metadata": {"title": "T", "identifier": "no identifier"}}"#)),
        Err(ParseError::InvalidIdentifier("no identifier".to_string()))
    );
}

#[test]
fn an_address_is_written_in_its_canonical_text() {
    let feed = Feed::from_value(&read(r#"{"metadata": {"title": "T", "identifier": "HTTP://Example.org"}}"#)).unwrap();
    assert_eq!(feed.metadata.identifier, Some("http://example.org/".to_string()));
    assert_eq!(feed.to_value(), read(r#"{"metadata": {"title": "T", "identifier": "http://example.org/"}}"#));
}

fn nested(levels: usize) -> Value {
    let mut v = Value::Null;
    for _ in 0..levels {
        v = Value::Array(vec![v]);
    }
    v
}

#[test]
fn a_document_that_nests_too_deeply_is_refused_before_it_is_read() {
    assert_eq!(MAX_DEPTH, 128);
    assert!(nested(MAX_DEPTH).within_depth(MAX_DEPTH));
    assert!(!nested(MAX_DEPTH + 1).within_depth(MAX_DEPTH));
    assert!(Value::Null.within_depth(0));
    assert!(!nested(1).within_depth(0));
    assert!(nested(1).within_depth(1));
    let deep = Value::Object(vec![
        ("metadata".to_string(), read(r#"{"title": "T"}"#)),
        ("ignored".to_string(), nested(MAX_DEPTH)),
    ]);
    assert_eq!(Feed::from_value(&deep), Err(ParseError::RecursionLimitExceeded(MAX_DEPTH)));
    assert_eq!(Feed::from_value(&nested(2_000)), Err(ParseError::RecursionLimitExceeded(MAX_DEPTH)));
    let fine = Value::Object(vec![
        ("metadata".to_string(), read(r#"{"title": "T"}"#)),
        ("ignored".to_string(), nested(MAX_DEPTH - 1)),
    ]);
    assert!(Feed::from_value(&fine).is_ok());
}

#[test]
fn links_nest_as_deeply_as_the_ceiling_lets_them() {
    let mut v = read(r#"{"href": "/leaf"}"#);
    for _ in 0..63 {
        v = Value::Object(vec![("children".to_string(), Value::Array(vec![v]))]);
    }
    let link = Link::from_value(&v).unwrap();
    assert_eq!(link.to_value(), v);
    let v = Value::Object(vec![("children".to_string(), Value::Array(vec![v]))]);
    assert_eq!(Link::from_value(&v), Err(ParseError::RecursionLimitExceeded(MAX_DEPTH)));
}

#[test]
fn the_first_member_of_a_name_is_the_one_that_is_read() {
    let v = Value::Object(vec![
        ("href".to_string(), Value::String("/first".to_string())),
        ("href".to_string(), Value::String("/second".to_string())),
    ]);
    assert_eq!(Link::from_value(&v).unwrap().href, Some("/first".to_string()));
}

#[test]
fn a_null_stands_for_nothing_where_a_field_may_be_absent() {
    let link = Link::from_value(&read(r#"{"href": null, "height": null, "bitrate": null}"#)).unwrap();
    assert_eq!(link.href, None);
    assert_eq!(link.height, None);
    assert_eq!(link.bitrate, None);
    assert_eq!(link.to_value(), read("{}"));
}

#[test]
fn a_group_is_made_of_links_and_publications() {
    let group = FeedGroup::from_value(&read(r#"{"metadata": {"title": "G"}, "publications": [{"metadata": {"title": "P"}}]}"#)).unwrap();
    assert_eq!(group.publications.len(), 1);
    assert_eq!(group.to_value(), read(r#"{"metadata": {"title": "G"}, "publications": [{"metadata": {"title": "P"}}]}"#));
}
