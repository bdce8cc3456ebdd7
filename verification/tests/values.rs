use opds::error::ParseError;
use opds::helpers::{
    get_flag, get_natural, get_number, get_opt_flag, get_opt_natural, get_opt_number, get_opt_text,
    get_text, get_text_list, make_flag, make_natural, make_opt_text, make_text_list,
};
use opds::value::{find, natural, position, put_member, Number, Shape, Value};

fn members(pairs: Vec<(&str, Value)>) -> Vec<(String, Value)> {
    pairs.into_iter().map(|(k, v)| (k.to_string(), v)).collect()
}

fn s(text: &str) -> Value {
    Value::String(text.to_string())
}

fn n(k: u64) -> Value {
    Value::Number(Number::Unsigned(k))
}

#[test]
fn a_number_counts_when_it_is_a_whole_number_that_is_not_negative() {
    assert_eq!(natural(Number::Unsigned(0)), Some(0));
    assert_eq!(natural(Number::Unsigned(635)), Some(635));
    assert_eq!(natural(Number::Signed(7)), Some(7));
    assert_eq!(natural(Number::Signed(-7)), None);
    assert_eq!(natural(Number::Signed(i64::MIN)), None);
    assert_eq!(natural(Number::Float(3.0f64.to_bits())), None);
    assert_eq!(natural(Number::Unsigned(usize::MAX as u64)), Some(usize::MAX));
}

#[test]
fn every_value_has_its_shape() {
    assert_eq!(Value::Null.shape(), Shape::Null);
    assert_eq!(Value::Bool(false).shape(), Shape::Bool);
    assert_eq!(n(1).shape(), Shape::Natural);
    assert_eq!(Value::Number(Number::Signed(-1)).shape(), Shape::Number);
    assert_eq!(Value::Number(Number::Float(0)).shape(), Shape::Number);
    assert_eq!(s("").shape(), Shape::String);
    assert_eq!(Value::Array(vec![]).shape(), Shape::Array);
    assert_eq!(Value::Object(vec![]).shape(), Shape::Object);
}

#[test]
fn a_member_is_found_by_its_name_the_first_of_that_name() {
    let m = members(vec![("a", n(1)), ("b", n(2)), ("a", n(3))]);
    assert_eq!(position(&m, "a"), Some(0));
    assert_eq!(position(&m, "b"), Some(1));
    assert_eq!(position(&m, "c"), None);
    assert_eq!(position(&m, "A"), None);
    assert_eq!(find(&m, "a"), Some(&n(1)));
    assert_eq!(find(&m, "c"), None);
    assert_eq!(position(&Vec::new(), "a"), None);
}

#[test]
fn a_member_is_put_at_the_end_where_there_is_a_value() {
    let mut m = members(vec![("a", n(1))]);
    put_member(&mut m, "b", None);
    assert_eq!(m, members(vec![("a", n(1))]));
    put_member(&mut m, "b", Some(n(2)));
    assert_eq!(m, members(vec![("a", n(1)), ("b", n(2))]));
}

#[test]
fn the_plain_fields_are_read_by_their_kind() {
    let m = members(vec![
        ("text", s("t")),
        ("count", n(3)),
        ("number", Value::Number(Number::Signed(-2))),
        ("flag", Value::Bool(true)),
        ("nothing", Value::Null),
        ("list", Value::Array(vec![s("a"), s("b")])),
    ]);
    assert_eq!(get_opt_text(&m, "text"), Ok(Some("t".to_string())));
    assert_eq!(get_opt_text(&m, "absent"), Ok(None));
    assert_eq!(get_opt_text(&m, "nothing"), Ok(None));
    assert_eq!(get_text(&m, "text"), Ok("t".to_string()));
    assert_eq!(get_text(&m, "absent"), Err(ParseError::MissingRequiredField("absent".to_string())));
    assert!(get_text(&m, "nothing").is_err());
    assert_eq!(get_opt_natural(&m, "count"), Ok(Some(3)));
    assert_eq!(get_opt_natural(&m, "absent"), Ok(None));
    assert_eq!(get_natural(&m, "count"), Ok(3));
    assert_eq!(get_natural(&m, "absent"), Err(ParseError::MissingRequiredField("absent".to_string())));
    assert!(get_natural(&m, "number").is_err());
    assert_eq!(get_opt_number(&m, "number"), Ok(Some(Number::Signed(-2))));
    assert_eq!(get_number(&m, "count"), Ok(Number::Unsigned(3)));
    assert_eq!(get_number(&m, "absent"), Err(ParseError::MissingRequiredField("absent".to_string())));
    assert_eq!(get_flag(&m, "flag"), Ok(true));
    assert_eq!(get_flag(&m, "absent"), Ok(false));
    assert!(get_flag(&m, "nothing").is_err());
    assert_eq!(get_opt_flag(&m, "flag"), Ok(Some(true)));
    assert_eq!(get_opt_flag(&m, "nothing"), Ok(None));
    assert_eq!(get_text_list(&m, "list"), Ok(vec!["a".to_string(), "b".to_string()]));
    assert_eq!(get_text_list(&m, "absent"), Ok(vec![]));
    assert_eq!(
        get_text_list(&m, "text"),
        Err(ParseError::ShapeMismatch { field: "text".to_string(), expected: vec![Shape::Array], actual: Shape::String })
    );
    let m = members(vec![("list", Value::Array(vec![s("a"), n(1)]))]);
    assert_eq!(
        get_text_list(&m, "list"),
        Err(ParseError::ShapeMismatch { field: "list".to_string(), expected: vec![Shape::String], actual: Shape::Natural })
    );
}

#[test]
fn the_plain_fields_are_written_by_their_kind() {
    assert_eq!(make_flag(false), None);
    assert_eq!(make_flag(true), Some(Value::Bool(true)));
    assert_eq!(make_natural(0), Some(n(0)));
    assert_eq!(make_opt_text(&None), None);
    assert_eq!(make_opt_text(&Some(String::new())), Some(s("")));
    assert_eq!(make_text_list(&vec![]), None);
    assert_eq!(make_text_list(&vec!["a".to_string()]), Some(Value::Array(vec![s("a")])));
}
