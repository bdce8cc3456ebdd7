use opds::error::ParseError;
use opds::helpers::{collapse, plain, FlattenedVec, NumlikeObject, StringyObject};
use opds::v2_0::metadata::containment::get_collection_flat;
use opds::v2_0::metadata::{
    AltIdentifier, BelongsTo, Chapter, Collection, Contributor, Episode, Issue, Season, Series,
    StoryArc, StringWithAlternates,
};
use opds::v2_0::Link;
use opds::value::{Number, Shape, Value};

fn to_value(j: &serde_json::Value) -> Value {
    match j {
        serde_json::Value::Null => Value::Null,
        serde_json::Value::Bool(b) => Value::Bool(*b),
        serde_json::Value::Number(n) => Value::Number(match (n.as_u64(), n.as_i64(), n.as_f64()) {
            (Some(u), _, _) => Number::Unsigned(u),
            (None, Some(i), _) => Number::Signed(i),
            (None, None, Some(f)) => Number::Float(f.to_bits()),
            (None, None, None) => unreachable!(),
        }),
        serde_json::Value::String(s) => Value::String(s.clone()),
        serde_json::Value::Array(items) => Value::Array(items.iter().map(to_value).collect()),
        serde_json::Value::Object(members) => {
            Value::Object(members.iter().map(|(k, v)| (k.clone(), to_value(v))).collect())
        }
    }
}

fn doc(text: &str) -> Value {
    to_value(&serde_json::from_str::<serde_json::Value>(text).unwrap())
}

fn name_of(c: &Collection) -> &str {
    match &c.name {
        StringWithAlternates::Always(s) => s.as_str(),
        StringWithAlternates::Variants(_) => panic!("a single name was expected"),
    }
}

#[test]
fn a_season_written_as_a_bare_number_has_that_position_and_nothing_else() {
    let season = Season::from_value(&doc("3")).unwrap();
    assert_eq!(season.position, 3);
    assert_eq!(season.name, None);
    assert_eq!(season.sort_as, None);
    assert_eq!(season.identifier, None);
    assert!(season.alt_identifier.is_empty());
    assert!(season.links.is_empty());
    assert!(season.article.is_empty());
    assert!(season.chapter.is_empty());
    assert_eq!(season, Season::new(3));
}

#[test]
fn a_season_is_always_written_as_the_full_object() {
    let season = Season::from_value(&doc("3")).unwrap();
    assert_eq!(season.to_value(), doc(r#"{"position": 3}"#));
    assert_eq!(Season::from_value(&season.to_value()).unwrap(), season);
}

#[test]
fn each_numbered_entity_may_be_written_as_its_position() {
    assert_eq!(Episode::from_value(&doc("7")).unwrap(), Episode::new(7));
    assert_eq!(StoryArc::from_value(&doc("1")).unwrap(), StoryArc::new(1));
    assert_eq!(Issue::from_value(&doc("12")).unwrap(), Issue::new(12));
    assert_eq!(Chapter::from_value(&doc("0")).unwrap(), Chapter::new(0));
    assert_eq!(Chapter::from_value(&doc("0")).unwrap().to_value(), doc(r#"{"position": 0}"#));
    assert_eq!(Episode::from(7), Episode::new(7));
}

#[test]
fn a_position_is_a_number_that_can_count() {
    assert_eq!(Season::parse(&Value::Number(Number::Signed(4)), "season").unwrap(), Season::new(4));
    let expected = vec![Shape::Natural, Shape::Object];
    assert_eq!(
        Season::parse(&doc("-1"), "season"),
        Err(ParseError::ShapeMismatch { field: "season".to_string(), expected: expected.clone(), actual: Shape::Number })
    );
    assert_eq!(
        Season::parse(&doc("2.5"), "season"),
        Err(ParseError::ShapeMismatch { field: "season".to_string(), expected: expected.clone(), actual: Shape::Number })
    );
    assert_eq!(
        Season::parse(&doc("\"3\""), "season"),
        Err(ParseError::ShapeMismatch { field: "season".to_string(), expected, actual: Shape::String })
    );
}

#[test]
fn a_numbered_entity_in_full_needs_its_position() {
    assert_eq!(
        Season::from_value(&doc(r#"{"name": "Winter"}"#)),
        Err(ParseError::MissingRequiredField("position".to_string()))
    );
    let season = Season::from_value(&doc(r#"{"name": "Winter", "position": 2, "chapter": 5}"#)).unwrap();
    assert_eq!(season.position, 2);
    assert_eq!(season.name, Some(StringWithAlternates::Always("Winter".to_string())));
    assert_eq!(season.chapter, vec![Chapter::new(5)]);
    assert_eq!(
        season.to_value(),
        doc(r#"{"name": "Winter", "position": 2, "chapter": {"position": 5}}"#)
    );
}

#[test]
fn a_collection_field_takes_bare_names_and_full_objects_side_by_side() {
    let belongs = doc(r#"{"collection": ["Fiction", {"name": "Drama", "position": 2}]}"#);
    let read = BelongsTo::from_value(&belongs).unwrap();
    assert_eq!(read.collection.len(), 2);
    assert_eq!(name_of(&read.collection[0]), "Fiction");
    assert_eq!(read.collection[0].position, None);
    assert_eq!(name_of(&read.collection[1]), "Drama");
    assert_eq!(read.collection[1].position, Some(2));
    assert_eq!(
        read.to_value(),
        doc(r#"{"collection": [{"name": "Fiction"}, {"name": "Drama", "position": 2}]}"#)
    );
    assert_eq!(BelongsTo::from_value(&read.to_value()).unwrap(), read);
}

#[test]
fn a_collection_field_takes_one_bare_collection() {
    let members = match doc(r#"{"collection": "Fiction"}"#) {
        Value::Object(m) => m,
        _ => unreachable!(),
    };
    let read = get_collection_flat(&members, "collection").unwrap();
    assert_eq!(read, vec![Collection::new(StringWithAlternates::Always("Fiction".to_string()))]);
    let members = match doc(r#"{"collection": {"name": "Fiction"}}"#) {
        Value::Object(m) => m,
        _ => unreachable!(),
    };
    assert_eq!(get_collection_flat(&members, "collection").unwrap(), read);
    let members = match doc(r#"{"other": 1}"#) {
        Value::Object(m) => m,
        _ => unreachable!(),
    };
    assert_eq!(get_collection_flat(&members, "collection").unwrap(), vec![]);
}

#[test]
fn a_list_of_one_is_written_bare_whatever_it_was_read_from() {
    let read = BelongsTo::from_value(&doc(r#"{"collection": ["Fiction"]}"#)).unwrap();
    assert_eq!(read.to_value(), doc(r#"{"collection": {"name": "Fiction"}}"#));
    assert_eq!(BelongsTo::from_value(&read.to_value()).unwrap(), read);
}

#[test]
fn a_collection_field_refuses_other_shapes() {
    assert_eq!(
        BelongsTo::from_value(&doc(r#"{"collection": 5}"#)),
        Err(ParseError::ShapeMismatch {
            field: "collection".to_string(),
            expected: vec![Shape::String, Shape::Object, Shape::Array],
            actual: Shape::Natural,
        })
    );
    assert_eq!(
        BelongsTo::from_value(&doc(r#"{"collection": ["Fiction", true]}"#)),
        Err(ParseError::ShapeMismatch {
            field: "collection".to_string(),
            expected: vec![Shape::String, Shape::Object],
            actual: Shape::Bool,
        })
    );
    assert_eq!(
        BelongsTo::from_value(&doc(r#"{"collection": [["Fiction"]]}"#)),
        Err(ParseError::ShapeMismatch {
            field: "collection".to_string(),
            expected: vec![Shape::String, Shape::Object],
            actual: Shape::Array,
        })
    );
    assert_eq!(
        BelongsTo::from_value(&doc(r#"{"season": "one"}"#)),
        Err(ParseError::ShapeMismatch {
            field: "season".to_string(),
            expected: vec![Shape::Natural, Shape::Object, Shape::Array],
            actual: Shape::String,
        })
    );
}

#[test]
fn the_relations_of_a_link_are_written_bare_when_there_is_one() {
    let link = Link::from_value(&doc(r#"{"href": "/a", "rel": ["self"]}"#)).unwrap();
    assert_eq!(link.to_value(), doc(r#"{"href": "/a", "rel": "self"}"#));
    let link = Link::from_value(&doc(r#"{"href": "/a", "rel": ["self", "alternate"]}"#)).unwrap();
    assert_eq!(link.to_value(), doc(r#"{"href": "/a", "rel": ["self", "alternate"]}"#));
    let link = Link::from_value(&doc(r#"{"href": "/a", "rel": []}"#)).unwrap();
    assert_eq!(link.to_value(), doc(r#"{"href": "/a"}"#));
    let link = Link::from_value(&doc(r#"{"href": "/a", "rel": "next"}"#)).unwrap();
    assert_eq!(link.to_value(), doc(r#"{"href": "/a", "rel": "next"}"#));
}

#[test]
fn contributors_and_alternate_identifiers_may_be_written_as_text() {
    let c = Contributor::from_value(&doc("\"Herman Melville\"")).unwrap();
    assert_eq!(c, Contributor::new(StringWithAlternates::Always("Herman Melville".to_string())));
    assert_eq!(c.to_value(), doc(r#"{"name": "Herman Melville"}"#));
    assert_eq!(Contributor::from("Herman Melville".to_string()), c);
    let a = AltIdentifier::from_value(&doc("\"1234\"")).unwrap();
    assert_eq!(a, AltIdentifier::new("1234".to_string()));
    assert_eq!(a.to_value(), doc(r#"{"value": "1234"}"#));
    assert_eq!(AltIdentifier::from("1234".to_string()), a);
}

#[test]
fn entities_nest_in_each_other() {
    let text = r#"{"name": "Saga", "volume": [1, {"position": 2, "chapter": {"position": 1, "series": "Inner"}}]}"#;
    let series = Series::from_value(&doc(text)).unwrap();
    assert_eq!(series.volume.len(), 2);
    assert_eq!(series.volume[1].chapter[0].series[0].name, StringWithAlternates::Always("Inner".to_string()));
    let written = series.to_value();
    assert_eq!(
        written,
        doc(r#"{"name": "Saga", "volume": [{"position": 1}, {"position": 2, "chapter": {"position": 1, "series": {"name": "Inner"}}}]}"#)
    );
    assert_eq!(Series::from_value(&written).unwrap(), series);
}

#[test]
fn into_inner_gives_the_entity_or_makes_it_from_its_shorthand() {
    assert_eq!(NumlikeObject::<Season>::Number(3).into_inner(), Season::new(3));
    assert_eq!(NumlikeObject::Object(Season::new(4)).into_inner(), Season::new(4));
    let named = Collection::new(StringWithAlternates::Always("Fiction".to_string()));
    assert_eq!(StringyObject::<Collection>::String("Fiction".to_string()).into_inner(), named);
    assert_eq!(StringyObject::Object(Collection::new(StringWithAlternates::Always("Drama".to_string()))).into_inner().name,
        StringWithAlternates::Always("Drama".to_string()));
}

#[test]
fn into_vec_gives_the_sequence_or_wraps_the_one_item() {
    assert_eq!(FlattenedVec::Singleton(5).into_vec(), vec![5]);
    assert_eq!(FlattenedVec::Vec(vec![1, 2]).into_vec(), vec![1, 2]);
    assert_eq!(FlattenedVec::<u8>::Vec(vec![]).into_vec(), Vec::<u8>::new());
}

#[test]
fn collapse_cuts_a_list_of_one_short() {
    assert_eq!(collapse(vec![]), None);
    assert_eq!(collapse(vec![Value::Bool(true)]), Some(Value::Bool(true)));
    assert_eq!(
        collapse(vec![Value::Bool(true), Value::Null]),
        Some(Value::Array(vec![Value::Bool(true), Value::Null]))
    );
    assert_eq!(plain(vec![]), None);
    assert_eq!(plain(vec![Value::Bool(true)]), Some(Value::Array(vec![Value::Bool(true)])));
}
