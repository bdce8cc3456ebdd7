//! The shorthand reducers, and the fields of plain kinds.
//!
//! A list field may be written as one bare item, an entity as its position
//! or its name alone. The three reducers here bring those spellings to one
//! form when a document is read; `collapse` and `plain` give a list its
//! written form. The rest of the file reads and writes the fields that hold
//! text, counts, numbers and flags.
use vstd::prelude::*;
use crate::error::{
    flag_shapes, list_shapes, mismatch, natural_shapes, number_shapes, parsed, text_shapes, Fault,
    ParseError,
};
use crate::text::{opt_text, texts_of};
use crate::value::{
    docs_of, find, lookup, members_of, natural, natural_of, opt_doc, shape_of, Doc, Number, Shape,
    Value,
};

verus! {

/// An entity given in full, or as the number that is its position.
#[derive(Debug)]
pub enum NumlikeObject<T> {
    Object(T),
    Number(usize),
}

impl<T> NumlikeObject<T> {
    /// The entity: the one given, or the one made from the position by
    /// `T::from`.
    pub fn into_inner(self) -> (inner: T) where T: From<usize>
        ensures
            match self {
                NumlikeObject::Object(t) => inner == t,
                NumlikeObject::Number(n) => call_ensures(T::from, (n,), inner),
            },
    {
        match self {
            NumlikeObject::Object(t) => t,
            NumlikeObject::Number(n) => T::from(n),
        }
    }
}

/// An entity given in full, or as the text that is its name.
#[derive(Debug)]
pub enum StringyObject<T> {
    Object(T),
    String(String),
}

impl<T> StringyObject<T> {
    /// The entity: the one given, or the one made from the name by
    /// `T::from`.
    pub fn into_inner(self) -> (inner: T) where T: From<String>
        ensures
            match self {
                StringyObject::Object(t) => inner == t,
                StringyObject::String(s) => call_ensures(T::from, (s,), inner),
            },
    {
        match self {
            StringyObject::Object(t) => t,
            StringyObject::String(s) => T::from(s),
        }
    }
}

/// A list given as a sequence, or as its only item.
#[derive(Debug)]
pub enum FlattenedVec<T> {
    Vec(Vec<T>),
    Singleton(T),
}

impl<T> FlattenedVec<T> {
    /// The list: the sequence given, or the one item wrapped.
    pub fn into_vec(self) -> (items: Vec<T>)
        ensures
            items@ == match self {
                FlattenedVec::Vec(v) => v@,
                FlattenedVec::Singleton(t) => seq![t],
            },
    {
        match self {
            FlattenedVec::Vec(v) => v,
            FlattenedVec::Singleton(t) => {
                let mut items: Vec<T> = Vec::new();
                items.push(t);
                assert(items@ =~= seq![t]);
                items
            },
        }
    }
}

/// The written form of a list that may be cut short: nothing for an empty
/// list, the bare item for a list of one, a sequence otherwise.
pub open spec fn collapsed(items: Seq<Doc>) -> Option<Doc> {
    if items.len() == 0 {
        None
    } else if items.len() == 1 {
        Some(items[0])
    } else {
        Some(Doc::Array(items))
    }
}

/// The written form of a list that is always a sequence: nothing for an
/// empty list.
pub open spec fn listed(items: Seq<Doc>) -> Option<Doc> {
    if items.len() == 0 {
        None
    } else {
        Some(Doc::Array(items))
    }
}

/// Writes a list that may be cut short.
pub fn collapse(items: Vec<Value>) -> (r: Option<Value>)
    ensures
        opt_doc(r) == collapsed(docs_of(items@)),
{
    let mut items = items;
    if items.len() == 0 {
        None
    } else if items.len() == 1 {
        let ghost before = items@;
        let only = items.pop();
        assert(only == Some(before[0]));
        only
    } else {
        Some(Value::Array(items))
    }
}

/// Writes a list that is always a sequence.
pub fn plain(items: Vec<Value>) -> (r: Option<Value>)
    ensures
        opt_doc(r) == listed(docs_of(items@)),
{
    if items.len() == 0 {
        None
    } else {
        Some(Value::Array(items))
    }
}

/// The error for a value of the wrong shape under `field`.
pub fn wrong_shape(field: &str, expected: Vec<Shape>, v: &Value) -> (e: ParseError)
    ensures
        e@ == mismatch(field@, expected@, shape_of(v@)),
{
    ParseError::ShapeMismatch { field: field.to_owned(), expected, actual: v.shape() }
}

/// The error for a field that has to be there and is not.
pub fn missing(field: &str) -> (e: ParseError)
    ensures
        e@ == Fault::MissingRequiredField(field@),
{
    ParseError::MissingRequiredField(field.to_owned())
}

/// A list of one shape.
pub fn shapes1(a: Shape) -> (r: Vec<Shape>)
    ensures
        r@ == seq![a],
{
    let mut r: Vec<Shape> = Vec::new();
    r.push(a);
    assert(r@ =~= seq![a]);
    r
}

/// A list of two shapes.
pub fn shapes2(a: Shape, b: Shape) -> (r: Vec<Shape>)
    ensures
        r@ == seq![a, b],
{
    let mut r: Vec<Shape> = Vec::new();
    r.push(a);
    r.push(b);
    assert(r@ =~= seq![a, b]);
    r
}

/// A list of three shapes.
pub fn shapes3(a: Shape, b: Shape, c: Shape) -> (r: Vec<Shape>)
    ensures
        r@ == seq![a, b, c],
{
    let mut r: Vec<Shape> = Vec::new();
    r.push(a);
    r.push(b);
    r.push(c);
    assert(r@ =~= seq![a, b, c]);
    r
}

// ---- optional text ----
/// What an optional field of text holds: nothing where it is absent or null.
pub open spec fn read_opt_text(
    m: Seq<(Seq<char>, Doc)>,
    key: Seq<char>,
) -> Result<Option<Seq<char>>, Fault> {
    match lookup(m, key) {
        None => Ok(None),
        Some(Doc::Null) => Ok(None),
        Some(Doc::String(s)) => Ok(Some(s)),
        Some(d) => Err(mismatch(key, text_shapes(), shape_of(d))),
    }
}

/// The written form of an optional field of text.
pub open spec fn write_opt_text(o: Option<Seq<char>>) -> Option<Doc> {
    match o {
        Some(s) => Some(Doc::String(s)),
        None => None,
    }
}

/// The model of what reading an optional piece of text gave.
pub open spec fn parsed_opt_text(
    r: Result<Option<String>, ParseError>,
) -> Result<Option<Seq<char>>, Fault> {
    match r {
        Ok(o) => Ok(opt_text(o)),
        Err(e) => Err(e@),
    }
}

/// Reads an optional field of text.
pub fn get_opt_text(
    members: &Vec<(String, Value)>,
    key: &str,
) -> (r: Result<Option<String>, ParseError>)
    ensures
        parsed_opt_text(r) == read_opt_text(members_of(members@), key@),
{
    match find(members, key) {
        None => Ok(None),
        Some(v) => match v {
            Value::Null => Ok(None),
            Value::String(s) => Ok(Some(s.clone())),
            _ => Err(wrong_shape(key, shapes1(Shape::String), v)),
        },
    }
}

/// Writes an optional field of text.
pub fn make_opt_text(o: &Option<String>) -> (r: Option<Value>)
    ensures
        opt_doc(r) == write_opt_text(opt_text(*o)),
{
    match o {
        Some(s) => Some(Value::String(s.clone())),
        None => None,
    }
}

// ---- required text ----
/// What a field of text holds that has to be there.
pub open spec fn read_text(m: Seq<(Seq<char>, Doc)>, key: Seq<char>) -> Result<Seq<char>, Fault> {
    match lookup(m, key) {
        None => Err(Fault::MissingRequiredField(key)),
        Some(Doc::String(s)) => Ok(s),
        Some(d) => Err(mismatch(key, text_shapes(), shape_of(d))),
    }
}

/// The written form of a field of text.
pub open spec fn write_text(s: Seq<char>) -> Option<Doc> {
    Some(Doc::String(s))
}

/// Reads a field of text that has to be there.
pub fn get_text(members: &Vec<(String, Value)>, key: &str) -> (r: Result<String, ParseError>)
    ensures
        parsed(r) == read_text(members_of(members@), key@),
{
    match find(members, key) {
        None => Err(missing(key)),
        Some(v) => match v {
            Value::String(s) => Ok(s.clone()),
            _ => Err(wrong_shape(key, shapes1(Shape::String), v)),
        },
    }
}

/// Writes a field of text.
pub fn make_text(s: &String) -> (r: Option<Value>)
    ensures
        opt_doc(r) == write_text(s@),
{
    Some(Value::String(s.clone()))
}

// ---- counts ----
/// The count a value stands for.
pub open spec fn natural_in(d: Doc, key: Seq<char>) -> Result<usize, Fault> {
    match d {
        Doc::Number(n) => match natural_of(n) {
            Some(k) => Ok(k),
            None => Err(mismatch(key, natural_shapes(), shape_of(d))),
        },
        _ => Err(mismatch(key, natural_shapes(), shape_of(d))),
    }
}

/// What an optional counting field holds.
pub open spec fn read_opt_natural(
    m: Seq<(Seq<char>, Doc)>,
    key: Seq<char>,
) -> Result<Option<usize>, Fault> {
    match lookup(m, key) {
        None => Ok(None),
        Some(Doc::Null) => Ok(None),
        Some(d) => match natural_in(d, key) {
            Ok(k) => Ok(Some(k)),
            Err(e) => Err(e),
        },
    }
}

/// What a counting field holds that has to be there.
pub open spec fn read_natural(m: Seq<(Seq<char>, Doc)>, key: Seq<char>) -> Result<usize, Fault> {
    match lookup(m, key) {
        None => Err(Fault::MissingRequiredField(key)),
        Some(d) => natural_in(d, key),
    }
}

/// The written form of a count.
pub open spec fn natural_doc(k: usize) -> Doc {
    Doc::Number(Number::Unsigned(k as u64))
}

/// The written form of an optional counting field.
pub open spec fn write_opt_natural(o: Option<usize>) -> Option<Doc> {
    match o {
        Some(k) => Some(natural_doc(k)),
        None => None,
    }
}

/// The written form of a counting field.
pub open spec fn write_natural(k: usize) -> Option<Doc> {
    Some(natural_doc(k))
}

/// The model of what reading a plain value gave.
pub open spec fn parsed_plain<T>(r: Result<T, ParseError>) -> Result<T, Fault> {
    match r {
        Ok(t) => Ok(t),
        Err(e) => Err(e@),
    }
}

/// The count a value stands for.
pub fn natural_from(v: &Value, key: &str) -> (r: Result<usize, ParseError>)
    ensures
        parsed_plain(r) == natural_in(v@, key@),
{
    match v {
        Value::Number(n) => match natural(*n) {
            Some(k) => Ok(k),
            None => Err(wrong_shape(key, shapes1(Shape::Natural), v)),
        },
        _ => Err(wrong_shape(key, shapes1(Shape::Natural), v)),
    }
}

/// Reads an optional counting field.
pub fn get_opt_natural(
    members: &Vec<(String, Value)>,
    key: &str,
) -> (r: Result<Option<usize>, ParseError>)
    ensures
        parsed_plain(r) == read_opt_natural(members_of(members@), key@),
{
    match find(members, key) {
        None => Ok(None),
        Some(v) => match v {
            Value::Null => Ok(None),
            _ => match natural_from(v, key) {
                Ok(k) => Ok(Some(k)),
                Err(e) => Err(e),
            },
        },
    }
}

/// Reads a counting field that has to be there.
pub fn get_natural(members: &Vec<(String, Value)>, key: &str) -> (r: Result<usize, ParseError>)
    ensures
        parsed_plain(r) == read_natural(members_of(members@), key@),
{
    match find(members, key) {
        None => Err(missing(key)),
        Some(v) => natural_from(v, key),
    }
}

/// Writes a count.
pub fn natural_value(k: usize) -> (v: Value)
    ensures
        v@ == natural_doc(k),
{
    Value::Number(Number::Unsigned(k as u64))
}

/// Writes an optional counting field.
pub fn make_opt_natural(o: &Option<usize>) -> (r: Option<Value>)
    ensures
        opt_doc(r) == write_opt_natural(*o),
{
    match o {
        Some(k) => Some(natural_value(*k)),
        None => None,
    }
}

/// Writes a counting field.
pub fn make_natural(k: usize) -> (r: Option<Value>)
    ensures
        opt_doc(r) == write_natural(k),
{
    Some(natural_value(k))
}

// ---- numbers ----
/// What an optional numeric field holds.
pub open spec fn read_opt_number(
    m: Seq<(Seq<char>, Doc)>,
    key: Seq<char>,
) -> Result<Option<Number>, Fault> {
    match lookup(m, key) {
        None => Ok(None),
        Some(Doc::Null) => Ok(None),
        Some(Doc::Number(n)) => Ok(Some(n)),
        Some(d) => Err(mismatch(key, number_shapes(), shape_of(d))),
    }
}

/// What a numeric field holds that has to be there.
pub open spec fn read_number(m: Seq<(Seq<char>, Doc)>, key: Seq<char>) -> Result<Number, Fault> {
    match lookup(m, key) {
        None => Err(Fault::MissingRequiredField(key)),
        Some(Doc::Number(n)) => Ok(n),
        Some(d) => Err(mismatch(key, number_shapes(), shape_of(d))),
    }
}

/// The written form of an optional numeric field.
pub open spec fn write_opt_number(o: Option<Number>) -> Option<Doc> {
    match o {
        Some(n) => Some(Doc::Number(n)),
        None => None,
    }
}

/// The written form of a numeric field.
pub open spec fn write_number(n: Number) -> Option<Doc> {
    Some(Doc::Number(n))
}

/// Reads an optional numeric field.
pub fn get_opt_number(
    members: &Vec<(String, Value)>,
    key: &str,
) -> (r: Result<Option<Number>, ParseError>)
    ensures
        parsed_plain(r) == read_opt_number(members_of(members@), key@),
{
    match find(members, key) {
        None => Ok(None),
        Some(v) => match v {
            Value::Null => Ok(None),
            Value::Number(n) => Ok(Some(*n)),
            _ => Err(wrong_shape(key, shapes2(Shape::Natural, Shape::Number), v)),
        },
    }
}

/// Reads a numeric field that has to be there.
pub fn get_number(members: &Vec<(String, Value)>, key: &str) -> (r: Result<Number, ParseError>)
    ensures
        parsed_plain(r) == read_number(members_of(members@), key@),
{
    match find(members, key) {
        None => Err(missing(key)),
        Some(v) => match v {
            Value::Number(n) => Ok(*n),
            _ => Err(wrong_shape(key, shapes2(Shape::Natural, Shape::Number), v)),
        },
    }
}

/// Writes an optional numeric field.
pub fn make_opt_number(o: &Option<Number>) -> (r: Option<Value>)
    ensures
        opt_doc(r) == write_opt_number(*o),
{
    match o {
        Some(n) => Some(Value::Number(*n)),
        None => None,
    }
}

/// Writes a numeric field.
pub fn make_number(n: Number) -> (r: Option<Value>)
    ensures
        opt_doc(r) == write_number(n),
{
    Some(Value::Number(n))
}

// ---- flags ----
/// What a flag holds that is off where it is absent.
pub open spec fn read_flag(m: Seq<(Seq<char>, Doc)>, key: Seq<char>) -> Result<bool, Fault> {
    match lookup(m, key) {
        None => Ok(false),
        Some(Doc::Bool(b)) => Ok(b),
        Some(d) => Err(mismatch(key, flag_shapes(), shape_of(d))),
    }
}

/// What an optional flag holds.
pub open spec fn read_opt_flag(
    m: Seq<(Seq<char>, Doc)>,
    key: Seq<char>,
) -> Result<Option<bool>, Fault> {
    match lookup(m, key) {
        None => Ok(None),
        Some(Doc::Null) => Ok(None),
        Some(Doc::Bool(b)) => Ok(Some(b)),
        Some(d) => Err(mismatch(key, flag_shapes(), shape_of(d))),
    }
}

/// The written form of a flag that is left out when it is off.
pub open spec fn write_flag(b: bool) -> Option<Doc> {
    if b {
        Some(Doc::Bool(true))
    } else {
        None
    }
}

/// The written form of an optional flag.
pub open spec fn write_opt_flag(o: Option<bool>) -> Option<Doc> {
    match o {
        Some(b) => Some(Doc::Bool(b)),
        None => None,
    }
}

/// Reads a flag that is off where it is absent.
pub fn get_flag(members: &Vec<(String, Value)>, key: &str) -> (r: Result<bool, ParseError>)
    ensures
        parsed_plain(r) == read_flag(members_of(members@), key@),
{
    match find(members, key) {
        None => Ok(false),
        Some(v) => match v {
            Value::Bool(b) => Ok(*b),
            _ => Err(wrong_shape(key, shapes1(Shape::Bool), v)),
        },
    }
}

/// Reads an optional flag.
pub fn get_opt_flag(
    members: &Vec<(String, Value)>,
    key: &str,
) -> (r: Result<Option<bool>, ParseError>)
    ensures
        parsed_plain(r) == read_opt_flag(members_of(members@), key@),
{
    match find(members, key) {
        None => Ok(None),
        Some(v) => match v {
            Value::Null => Ok(None),
            Value::Bool(b) => Ok(Some(*b)),
            _ => Err(wrong_shape(key, shapes1(Shape::Bool), v)),
        },
    }
}

/// Writes a flag that is left out when it is off.
pub fn make_flag(b: bool) -> (r: Option<Value>)
    ensures
        opt_doc(r) == write_flag(b),
{
    if b {
        Some(Value::Bool(true))
    } else {
        None
    }
}

/// Writes an optional flag.
pub fn make_opt_flag(o: &Option<bool>) -> (r: Option<Value>)
    ensures
        opt_doc(r) == write_opt_flag(*o),
{
    match o {
        Some(b) => Some(Value::Bool(*b)),
        None => None,
    }
}

// ---- lists of text ----
/// The pieces of text that the items of a sequence stand for, or the error
/// of the first item that is no text.
pub open spec fn decode_text_seq(items: Seq<Doc>, field: Seq<char>) -> Result<Seq<Seq<char>>, Fault>
    decreases items.len(),
{
    if items.len() == 0 {
        Ok(Seq::empty())
    } else {
        match decode_text_seq(items.drop_last(), field) {
            Err(e) => Err(e),
            Ok(init) => match items.last() {
                Doc::String(s) => Ok(init.push(s)),
                d => Err(mismatch(field, text_shapes(), shape_of(d))),
            },
        }
    }
}

/// The written forms of a run of pieces of text.
pub open spec fn encode_text_seq(xs: Seq<Seq<char>>) -> Seq<Doc> {
    Seq::new(xs.len(), |i: int| Doc::String(xs[i]))
}

/// What a list field of text holds: nothing where it is absent.
pub open spec fn read_text_list(
    m: Seq<(Seq<char>, Doc)>,
    key: Seq<char>,
) -> Result<Seq<Seq<char>>, Fault> {
    match lookup(m, key) {
        None => Ok(Seq::empty()),
        Some(Doc::Array(items)) => decode_text_seq(items, key),
        Some(d) => Err(mismatch(key, list_shapes(), shape_of(d))),
    }
}

/// The written form of a list field of text: left out where the list is
/// empty.
pub open spec fn write_text_list(xs: Seq<Seq<char>>) -> Option<Doc> {
    listed(encode_text_seq(xs))
}

/// Where the items before `i` are text and item `i` is not, the sequence
/// gives the error of item `i`.
pub proof fn lemma_text_seq_fails(items: Seq<Doc>, field: Seq<char>, i: int)
    requires
        0 <= i < items.len(),
        decode_text_seq(items.take(i), field) is Ok,
        items[i] !is String,
    ensures
        decode_text_seq(items, field) == Err::<Seq<Seq<char>>, Fault>(
            mismatch(field, text_shapes(), shape_of(items[i])),
        ),
    decreases items.len(),
{
    if i == items.len() - 1 {
        assert(items.take(i) =~= items.drop_last());
    } else {
        assert(items.drop_last().take(i) =~= items.take(i));
        lemma_text_seq_fails(items.drop_last(), field, i);
    }
}

/// Reads a list field of text.
pub fn get_text_list(
    members: &Vec<(String, Value)>,
    key: &str,
) -> (r: Result<Vec<String>, ParseError>)
    ensures
        match r {
            Ok(xs) => read_text_list(members_of(members@), key@)
                == Ok::<Seq<Seq<char>>, Fault>(texts_of(xs@)),
            Err(e) => read_text_list(members_of(members@), key@)
                == Err::<Seq<Seq<char>>, Fault>(e@),
        },
{
    let mut out: Vec<String> = Vec::new();
    proof {
        assert(texts_of(out@) =~= Seq::<Seq<char>>::empty());
    }
    match find(members, key) {
        None => Ok(out),
        Some(v) => match v {
            Value::Array(items) => {
                let mut i: usize = 0;
                while i < items.len()
                    invariant
                        i <= items.len(),
                        lookup(members_of(members@), key@) == Some(Doc::Array(docs_of(items@))),
                        decode_text_seq(docs_of(items@).take(i as int), key@)
                            == Ok::<Seq<Seq<char>>, Fault>(
                            texts_of(out@),
                        ),
                    decreases items.len() - i,
                {
                    let ghost all = docs_of(items@);
                    let ghost before = out@;
                    proof {
                        assert(all.take(i + 1).drop_last() =~= all.take(i as int));
                        assert(all.take(i + 1).last() == items@[i as int]@);
                    }
                    match &items[i] {
                        Value::String(s) => {
                            out.push(s.clone());
                            proof {
                                assert(texts_of(out@) =~= texts_of(before).push(s@));
                            }
                        },
                        other => {
                            proof {
                                lemma_text_seq_fails(all, key@, i as int);
                            }
                            return Err(wrong_shape(key, shapes1(Shape::String), other));
                        },
                    }
                    i += 1;
                }
                proof {
                    assert(docs_of(items@).take(i as int) =~= docs_of(items@));
                }
                Ok(out)
            },
            _ => Err(wrong_shape(key, shapes1(Shape::Array), v)),
        },
    }
}

/// Writes a list field of text.
pub fn make_text_list(xs: &Vec<String>) -> (r: Option<Value>)
    ensures
        opt_doc(r) == write_text_list(texts_of(xs@)),
{
    let mut out: Vec<Value> = Vec::new();
    let mut i: usize = 0;
    while i < xs.len()
        invariant
            i <= xs.len(),
            out@.len() == i,
            forall|j: int| 0 <= j < i ==> (#[trigger] out@[j])@ == Doc::String(xs@[j]@),
        decreases xs.len() - i,
    {
        out.push(Value::String(xs[i].clone()));
        i += 1;
    }
    proof {
        assert(docs_of(out@) =~= encode_text_seq(texts_of(xs@)));
    }
    plain(out)
}

/// A run of pieces of text written and read again is the same run.
pub proof fn lemma_text_seq_round_trip(xs: Seq<Seq<char>>, field: Seq<char>)
    ensures
        decode_text_seq(encode_text_seq(xs), field) == Ok::<Seq<Seq<char>>, Fault>(xs),
    decreases xs.len(),
{
    if xs.len() > 0 {
        let docs = encode_text_seq(xs);
        assert(docs.drop_last() =~= encode_text_seq(xs.drop_last()));
        lemma_text_seq_round_trip(xs.drop_last(), field);
        assert(xs.drop_last().push(xs.last()) =~= xs);
    } else {
        assert(xs =~= Seq::<Seq<char>>::empty());
    }
}

/// A list field of text, written and read again, holds the same text.
pub proof fn lemma_text_list_round_trip(
    xs: Seq<Seq<char>>,
    m: Seq<(Seq<char>, Doc)>,
    key: Seq<char>,
)
    requires
        lookup(m, key) == write_text_list(xs),
    ensures
        read_text_list(m, key) == Ok::<Seq<Seq<char>>, Fault>(xs),
{
    if xs.len() == 0 {
        assert(xs =~= Seq::<Seq<char>>::empty());
    } else {
        lemma_text_seq_round_trip(xs, key);
    }
}

} // verus!
