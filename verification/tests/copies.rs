use opds::v2_0::metadata::{
    AcquisitionKind, Identifier, Relation, Series, StringWithAlternates, TaggedStrings,
};
use opds::v2_0::{Feed, Link};
use opds::value::{Number, Value};
use opds::{mime, schema};

fn label_pairs(label: &StringWithAlternates) -> Vec<(String, String)> {
    match label {
        StringWithAlternates::Variants(t) => t.choices.clone(),
        StringWithAlternates::Always(_) => panic!("choices by language were expected"),
    }
}

fn pair(a: &str, b: &str) -> (String, String) {
    (a.to_string(), b.to_string())
}

#[test]
fn a_copy_of_a_value_holds_the_same() {
    let v = Value::Object(vec![
        ("a".to_string(), Value::Array(vec![Value::Null, Value::Bool(true), Value::Number(Number::Signed(-1))])),
        ("b".to_string(), Value::Object(vec![("c".to_string(), Value::String("d".to_string()))])),
    ]);
    assert_eq!(v.clone(), v);
}

#[test]
fn a_copy_of_a_tree_holds_the_same() {
    let mut link = Link::template("/search{?q}".to_string(), Some("application/opds+json".to_string()));
    link.rel.push(Relation::Search);
    link.rel.push(Relation::Acquisition(AcquisitionKind::Subscribe));
    link.rel.push(Relation::Custom("x".to_string()));
    link.language.push("en".to_string());
    link.properties.count = Some(3);
    link.children.push(Link::new("/child".to_string(), None));
    link.bitrate = Some(Number::Float(1.5f64.to_bits()));
    assert_eq!(link.clone(), link);
    let mut series = Series::new(StringWithAlternates::Always("S".to_string()));
    series.identifier = Some(Identifier::Url("https://example.org/s".to_string()));
    series.links.push(link.clone());
    assert_eq!(series.clone(), series);
    let mut choices = TaggedStrings::new();
    choices.insert("en", "Catalog".to_string());
    choices.insert("fr", "Catalogue".to_string());
    let feed = Feed::new(StringWithAlternates::Variants(choices)).with_link(link);
    assert_eq!(feed.clone(), feed);
    assert_eq!(feed.clone().to_value(), feed.to_value());
}

#[test]
fn the_labels_are_given_in_five_languages() {
    assert_eq!(
        label_pairs(&StringWithAlternates::authors()),
        vec![
            pair("de", "Autoren"),
            pair("en", "Authors"),
            pair("es", "Autoras"),
            pair("fr", "Auteurs"),
            pair("pt", "Autores"),
        ]
    );
    assert_eq!(label_pairs(&StringWithAlternates::books_alphabetical())[0], pair("de", "Bücher (Alphabetisch)"));
    assert_eq!(label_pairs(&StringWithAlternates::books_recently_added())[1], pair("en", "Books (Recently Added)"));
    assert_eq!(label_pairs(&StringWithAlternates::categories())[2], pair("es", "Categorías"));
    assert_eq!(label_pairs(&StringWithAlternates::file_formats())[3], pair("fr", "Formats de fichiers"));
    assert_eq!(label_pairs(&StringWithAlternates::languages())[4], pair("pt", "Línguas"));
    assert_eq!(label_pairs(&StringWithAlternates::publishers())[3], pair("fr", "Éditeurs"));
}

#[test]
fn a_label_is_read_back_from_its_written_form() {
    for label in [
        StringWithAlternates::authors(),
        StringWithAlternates::books_alphabetical(),
        StringWithAlternates::books_recently_added(),
        StringWithAlternates::categories(),
        StringWithAlternates::file_formats(),
        StringWithAlternates::languages(),
        StringWithAlternates::publishers(),
    ] {
        assert_eq!(StringWithAlternates::parse(&label.to_value(), "title"), Ok(label));
    }
}

#[test]
fn the_common_types_and_schemas_have_their_names() {
    assert_eq!(mime::APPLICATION_OPDS_JSON, "application/opds+json");
    assert_eq!(mime::APPLICATION_OPDS_PUBLICATION_JSON, "application/opds-publication+json");
    assert_eq!(schema::SCHEMA_ORG_ARTICLE, "http://schema.org/Article");
    assert_eq!(schema::SCHEMA_ORG_BOOK, "http://schema.org/Book");
    assert_eq!(schema::SCHEMA_ORG_COMIC_STORY, "http://schema.org/ComicStory");
    assert_eq!(schema::SCHEMA_ORG_DATA_FEED, "http://schema.org/DataFeed");
    assert_eq!(schema::SCHEMA_ORG_THING, "http://schema.org/Thing");
}
