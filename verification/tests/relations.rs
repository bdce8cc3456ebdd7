use opds::v2_0::metadata::{AcquisitionKind, Relation};
use opds::v2_0::Link;
use opds::value::Value;

#[test]
fn resolves_each_well_known_relation() {
    let table = [
        ("self", Relation::Myself),
        ("alternate", Relation::Alternate),
        ("contents", Relation::Contents),
        ("cover", Relation::Cover),
        ("manifest", Relation::Manifest),
        ("profile", Relation::Profile),
        ("first", Relation::First),
        ("previous", Relation::Previous),
        ("next", Relation::Next),
        ("last", Relation::Last),
        ("current", Relation::Current),
        ("search", Relation::Search),
        ("subsection", Relation::Subsection),
        ("http://opds-spec.org/sort/new", Relation::SortNew),
        ("http://opds-spec.org/sort/popular", Relation::SortPopular),
    ];
    for (name, tag) in table {
        assert_eq!(Relation::resolve(name), tag);
        assert_eq!(tag.name(), name);
    }
}

#[test]
fn resolves_each_acquisition_relation() {
    let table = [
        ("http://opds-spec.org/acquisition", AcquisitionKind::Fallback),
        ("http://opds-spec.org/acquisition/open-access", AcquisitionKind::OpenAccess),
        ("http://opds-spec.org/acquisition/buy", AcquisitionKind::Buy),
        ("http://opds-spec.org/acquisition/sample", AcquisitionKind::Sample),
        ("http://opds-spec.org/acquisition/subscribe", AcquisitionKind::Subscribe),
        ("preview", AcquisitionKind::Preview),
    ];
    for (name, kind) in table {
        assert_eq!(Relation::resolve(name), Relation::Acquisition(kind));
        assert_eq!(kind.name(), name);
        assert_eq!(AcquisitionKind::from_name(name), Some(kind));
    }
}

#[test]
fn keeps_an_unknown_relation_as_it_is() {
    assert_eq!(Relation::resolve("Self"), Relation::Custom("Self".to_string()));
    assert_eq!(Relation::resolve(""), Relation::Custom(String::new()));
    assert_eq!(
        Relation::resolve("http://example.org/rel"),
        Relation::Custom("http://example.org/rel".to_string())
    );
    assert_eq!(
        Relation::resolve("http://opds-spec.org/acquisition/"),
        Relation::Custom("http://opds-spec.org/acquisition/".to_string())
    );
}

#[test]
fn a_relation_made_from_text_is_resolved() {
    assert_eq!(Relation::from("cover".to_string()), Relation::Cover);
    assert_eq!(Relation::from("x-own".to_string()), Relation::Custom("x-own".to_string()));
}

#[test]
fn writes_a_relation_as_its_name() {
    assert_eq!(Relation::Myself.to_value(), Value::String("self".to_string()));
    assert_eq!(
        Relation::Acquisition(AcquisitionKind::OpenAccess).to_value(),
        Value::String("http://opds-spec.org/acquisition/open-access".to_string())
    );
    assert_eq!(Relation::Custom("x".to_string()).to_value(), Value::String("x".to_string()));
}

#[test]
fn a_relation_is_read_from_text_only() {
    assert_eq!(Relation::parse(&Value::String("next".to_string()), "rel"), Ok(Relation::Next));
    assert!(Relation::parse(&Value::Bool(true), "rel").is_err());
}

#[test]
fn as_acquisition_gives_the_kind_of_an_acquisition_relation_only() {
    assert_eq!(Relation::Acquisition(AcquisitionKind::Buy).as_acquisition(), Some(AcquisitionKind::Buy));
    assert_eq!(Relation::Cover.as_acquisition(), None);
    assert_eq!(Relation::Custom("http://opds-spec.org/acquisition/buy".to_string()).as_acquisition(), None);
}

#[test]
fn get_acquisition_gives_the_first_acquisition_among_the_relations() {
    let mut link = Link::new("https://example.org/book.epub".to_string(), None);
    assert_eq!(link.get_acquisition(), None);
    link.rel.push(Relation::Alternate);
    assert_eq!(link.get_acquisition(), None);
    link.rel.push(Relation::Acquisition(AcquisitionKind::Sample));
    link.rel.push(Relation::Acquisition(AcquisitionKind::Buy));
    assert_eq!(link.get_acquisition(), Some(AcquisitionKind::Sample));
}
