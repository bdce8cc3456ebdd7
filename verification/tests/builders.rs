use opds::v2_0::metadata::{
    Article, BelongsTo, Collection, Contains, Contributor, FeedMetadata, LinkProperties, Periodical,
    PublicationMetadata, Series, StringWithAlternates, Subject,
};
use opds::v2_0::{Facet, Feed, FeedGroup, Link, Publication};
use opds::value::{Number, Value};

fn title(s: &str) -> StringWithAlternates {
    StringWithAlternates::Always(s.to_string())
}

fn object(members: Vec<(&str, Value)>) -> Value {
    Value::Object(members.into_iter().map(|(k, v)| (k.to_string(), v)).collect())
}

fn text(s: &str) -> Value {
    Value::String(s.to_string())
}

#[test]
fn a_new_link_holds_its_address_and_type_only() {
    let link = Link::new("/a".to_string(), Some("text/html".to_string()));
    assert_eq!(link.href, Some("/a".to_string()));
    assert_eq!(link.mime, Some("text/html".to_string()));
    assert!(!link.templated);
    assert_eq!(link.title, None);
    assert!(link.rel.is_empty());
    assert!(link.properties.is_empty());
    assert_eq!((link.height, link.width, link.size), (None, None, None));
    assert_eq!((link.bitrate, link.duration), (None, None));
    assert!(link.language.is_empty() && link.alternate.is_empty() && link.children.is_empty());
    assert_eq!(link.to_value(), object(vec![("href", text("/a")), ("type", text("text/html"))]));
}

#[test]
fn a_template_link_says_that_its_address_is_a_template() {
    let link = Link::template("/search{?q}".to_string(), None);
    assert!(link.templated);
    assert_eq!(
        link.to_value(),
        object(vec![("href", text("/search{?q}")), ("templated", Value::Bool(true))])
    );
    assert_eq!(Link::from_value(&link.to_value()).unwrap(), link);
}

#[test]
fn link_properties_are_empty_when_they_hold_nothing() {
    let mut p = LinkProperties::default();
    assert!(p.is_empty());
    assert_eq!(p.to_value(), object(vec![]));
    p.count = Some(0);
    assert!(!p.is_empty());
    assert_eq!(p.to_value(), object(vec![("numberOfItems", Value::Number(Number::Unsigned(0)))]));
    let mut link = Link::new("/a".to_string(), None);
    link.properties = p;
    let written = link.to_value();
    assert_eq!(
        written,
        object(vec![
            ("href", text("/a")),
            ("properties", object(vec![("numberOfItems", Value::Number(Number::Unsigned(0)))])),
        ])
    );
    assert_eq!(Link::from_value(&written).unwrap(), link);
}

#[test]
fn a_feed_is_built_up_link_by_link() {
    let feed = Feed::new(title("Catalog"))
        .with_link(Link::new("/self".to_string(), None))
        .with_navigation(Link::new("/new".to_string(), None))
        .with_navigation(Link::new("/popular".to_string(), None))
        .with_facet(Facet::new(title("Language")))
        .with_group(FeedGroup::new(title("Picks")));
    assert_eq!(feed.metadata, FeedMetadata::new(title("Catalog")));
    assert_eq!(feed.links.len(), 1);
    assert_eq!(feed.navigation[1].href, Some("/popular".to_string()));
    assert_eq!(feed.facets.len(), 1);
    assert_eq!(feed.groups.len(), 1);
    assert!(feed.publications.is_empty());
    let publication = Publication::from_value(&object(vec![("metadata", object(vec![("title", text("P"))]))])).unwrap();
    let feed = feed.with_publication(publication);
    assert_eq!(feed.publications.len(), 1);
    assert_eq!(feed.publications[0].metadata, PublicationMetadata::new(title("P")));
    assert_eq!(Feed::from_value(&feed.to_value()).unwrap(), feed);
}

#[test]
fn a_new_entity_holds_its_name_only() {
    let c = Collection::new(title("C"));
    assert_eq!(c.name, title("C"));
    assert_eq!((c.sort_as, c.identifier, c.position), (None, None, None));
    assert!(c.alt_identifier.is_empty() && c.links.is_empty());
    assert_eq!(Periodical::new(title("P")).to_value(), object(vec![("name", text("P"))]));
    assert_eq!(Series::new(title("S")).to_value(), object(vec![("name", text("S"))]));
    assert_eq!(Article::new(title("A")).to_value(), object(vec![("name", text("A"))]));
    assert_eq!(Subject::new(title("T")).to_value(), object(vec![("name", text("T"))]));
    assert_eq!(Contributor::new(title("N")).to_value(), object(vec![("name", text("N"))]));
    assert_eq!(Subject::from("T".to_string()), Subject::new(title("T")));
    assert_eq!(Series::from("S".to_string()), Series::new(title("S")));
}

#[test]
fn new_metadata_holds_its_title_only() {
    let m = PublicationMetadata::new(title("T"));
    assert_eq!(m.to_value(), object(vec![("title", text("T"))]));
    assert_eq!(PublicationMetadata::from_value(&m.to_value()).unwrap(), m);
    let m = FeedMetadata::new(title("T"));
    assert_eq!(m.to_value(), object(vec![("title", text("T"))]));
}

#[test]
fn the_records_of_containment_start_out_empty() {
    assert_eq!(BelongsTo::default().to_value(), object(vec![]));
    assert_eq!(Contains::default().to_value(), object(vec![]));
    assert_eq!(BelongsTo::from_value(&object(vec![])).unwrap(), BelongsTo::default());
}
