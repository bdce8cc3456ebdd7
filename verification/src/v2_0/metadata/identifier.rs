//! Identifiers: URLs and URNs in their canonical form.
//!
//! A tree holds the canonical text of each address, as the url and urn
//! crates write it, and only text that reads back as itself.
use vstd::prelude::*;
use crate::error::{flat_text_shapes, list_shapes, mismatch, text_shapes, Fault, ParseError};
use crate::helpers::{collapse, collapsed, listed, plain, shapes1, shapes2, wrong_shape, FlattenedVec};
use crate::text::{opt_text, texts_of};
use crate::v2_0::metadata::language::{parsed_text, parsed_texts};
use crate::value::{docs_of, find, lookup, members_of, opt_doc, shape_of, Doc, Shape, Value};

verus! {

/// The canonical text that `Url::parse` of the url crate gives for a text,
/// where it takes the text as a URL.
pub uninterp spec fn url_canonical(s: Seq<char>) -> Option<Seq<char>>;

/// The canonical text that the urn crate gives for a text, where it takes
/// the text as a URN.
pub uninterp spec fn urn_canonical(s: Seq<char>) -> Option<Seq<char>>;

/// The canonical text of a URL.
///
/// Stands for `Url::parse` of the url crate and the conversion of its
/// result into a `String`, which hands out the serialization that the
/// `Url` holds. Nothing is claimed here of which texts pass or of what
/// the canonical text looks like.
#[verifier::external_body]
fn url_text(s: &str) -> (r: Option<String>)
    ensures
        opt_text(r) == url_canonical(s@),
{
    match url::Url::parse(s) {
        Ok(u) => Some(String::from(u)),
        Err(_) => None,
    }
}

/// The canonical text of a URN.
///
/// Stands for `Urn::try_from` of the urn crate on a `&str`, and `as_str`
/// on its result, which hands out the normalized text that the `Urn`
/// holds. Nothing is claimed here of which texts pass or of what the
/// canonical text looks like.
#[verifier::external_body]
fn urn_text(s: &str) -> (r: Option<String>)
    ensures
        opt_text(r) == urn_canonical(s@),
{
    match urn::Urn::try_from(s) {
        Ok(u) => Some(u.as_str().to_owned()),
        Err(_) => None,
    }
}

/// An identifier for a resource: a URL, or a URN that is no URL.
#[derive(Debug, PartialEq, Eq)]
pub enum Identifier {
    /// The canonical text of a URL.
    Url(String),
    /// The canonical text of a URN.
    Urn(String),
}

/// The mathematical model of an [`Identifier`].
pub enum IdentifierView {
    Url(Seq<char>),
    Urn(Seq<char>),
}

impl View for Identifier {
    type V = IdentifierView;

    open spec fn view(&self) -> IdentifierView {
        match self {
            Identifier::Url(s) => IdentifierView::Url(s@),
            Identifier::Urn(s) => IdentifierView::Urn(s@),
        }
    }
}

/// The model of an optional identifier.
pub open spec fn opt_identifier(o: Option<Identifier>) -> Option<IdentifierView> {
    match o {
        Some(x) => Some(x@),
        None => None,
    }
}

/// A text is well formed as a URL when it is the canonical text of
/// itself.
pub open spec fn url_wf(s: Seq<char>) -> bool {
    url_canonical(s) == Some(s)
}

/// Whether every text of a run is well formed as a URL.
pub open spec fn urls_wf(xs: Seq<Seq<char>>) -> bool {
    forall|i: int| 0 <= i < xs.len() ==> url_wf(#[trigger] xs[i])
}

/// Whether an optional text is well formed as a URL.
pub open spec fn opt_url_wf(o: Option<Seq<char>>) -> bool {
    o matches Some(s) ==> url_wf(s)
}

/// A text is well formed as a URN when it is no URL and is the canonical
/// text of itself.
pub open spec fn urn_wf(s: Seq<char>) -> bool {
    url_canonical(s) is None && urn_canonical(s) == Some(s)
}

/// An identifier is well formed when its text is, as what it is.
pub open spec fn identifier_wf(x: IdentifierView) -> bool {
    match x {
        IdentifierView::Url(s) => url_wf(s),
        IdentifierView::Urn(s) => urn_wf(s),
    }
}

/// Whether an optional identifier is well formed.
pub open spec fn opt_identifier_wf(o: Option<IdentifierView>) -> bool {
    o matches Some(x) ==> identifier_wf(x)
}

/// The address that a text stands for: its canonical text, where that
/// reads back as itself.
pub open spec fn url_of(s: Seq<char>) -> Option<Seq<char>> {
    match url_canonical(s) {
        Some(c) => if url_wf(c) {
            Some(c)
        } else {
            None
        },
        None => None,
    }
}

/// The identifier that a text stands for: a URL where the text is one,
/// else a URN where the text is one.
pub open spec fn identifier_of(s: Seq<char>) -> Option<IdentifierView> {
    match url_canonical(s) {
        Some(c) => if url_wf(c) {
            Some(IdentifierView::Url(c))
        } else {
            None
        },
        None => match urn_canonical(s) {
            Some(c) => if urn_wf(c) {
                Some(IdentifierView::Urn(c))
            } else {
                None
            },
            None => None,
        },
    }
}

/// The address that a value stands for: the value has to be text, and the
/// text a URL.
pub open spec fn decode_url(d: Doc, field: Seq<char>) -> Result<Seq<char>, Fault> {
    match d {
        Doc::String(s) => match url_of(s) {
            Some(c) => Ok(c),
            None => Err(Fault::InvalidIdentifier(s)),
        },
        _ => Err(mismatch(field, text_shapes(), shape_of(d))),
    }
}

/// The written form of an address: its text.
pub open spec fn encode_url(s: Seq<char>) -> Doc {
    Doc::String(s)
}

/// The identifier that a value stands for: the value has to be text, and
/// the text a URL or a URN.
pub open spec fn decode_identifier(d: Doc, field: Seq<char>) -> Result<IdentifierView, Fault> {
    match d {
        Doc::String(s) => match identifier_of(s) {
            Some(x) => Ok(x),
            None => Err(Fault::InvalidIdentifier(s)),
        },
        _ => Err(mismatch(field, text_shapes(), shape_of(d))),
    }
}

/// The written form of an identifier: its text.
pub open spec fn encode_identifier(x: IdentifierView) -> Doc {
    match x {
        IdentifierView::Url(s) => Doc::String(s),
        IdentifierView::Urn(s) => Doc::String(s),
    }
}

/// What an optional field holds that is an address.
pub open spec fn read_opt_url(
    m: Seq<(Seq<char>, Doc)>,
    key: Seq<char>,
) -> Result<Option<Seq<char>>, Fault> {
    match lookup(m, key) {
        None => Ok(None),
        Some(Doc::Null) => Ok(None),
        Some(d) => match decode_url(d, key) {
            Ok(x) => Ok(Some(x)),
            Err(e) => Err(e),
        },
    }
}

/// The written form of an optional address.
pub open spec fn write_opt_url(o: Option<Seq<char>>) -> Option<Doc> {
    match o {
        Some(s) => Some(encode_url(s)),
        None => None,
    }
}

/// What an optional field holds that is an identifier.
pub open spec fn read_opt_identifier(
    m: Seq<(Seq<char>, Doc)>,
    key: Seq<char>,
) -> Result<Option<IdentifierView>, Fault> {
    match lookup(m, key) {
        None => Ok(None),
        Some(Doc::Null) => Ok(None),
        Some(d) => match decode_identifier(d, key) {
            Ok(x) => Ok(Some(x)),
            Err(e) => Err(e),
        },
    }
}

/// The written form of an optional identifier.
pub open spec fn write_opt_identifier(o: Option<IdentifierView>) -> Option<Doc> {
    match o {
        Some(x) => Some(encode_identifier(x)),
        None => None,
    }
}

/// The model of what reading an optional piece of text gave.
pub open spec fn parsed_opt_url(
    r: Result<Option<String>, ParseError>,
) -> Result<Option<Seq<char>>, Fault> {
    match r {
        Ok(o) => Ok(opt_text(o)),
        Err(e) => Err(e@),
    }
}

/// The model of what reading an optional identifier gave.
pub open spec fn parsed_opt_identifier(
    r: Result<Option<Identifier>, ParseError>,
) -> Result<Option<IdentifierView>, Fault> {
    match r {
        Ok(o) => Ok(opt_identifier(o)),
        Err(e) => Err(e@),
    }
}

/// The model of what reading an identifier gave.
pub open spec fn parsed_identifier(
    r: Result<Identifier, ParseError>,
) -> Result<IdentifierView, Fault> {
    match r {
        Ok(x) => Ok(x@),
        Err(e) => Err(e@),
    }
}

/// The canonical text of a URL, where the text is a URL and its canonical
/// text reads back as itself.
pub fn canonical_url(s: &str) -> (r: Option<String>)
    ensures
        opt_text(r) == url_of(s@),
        r matches Some(c) ==> url_wf(c@),
{
    match url_text(s) {
        Some(c) => match url_text(c.as_str()) {
            Some(again) => if again == c {
                Some(c)
            } else {
                None
            },
            None => None,
        },
        None => None,
    }
}

/// The canonical text of a URN, where the text is a URN and its canonical
/// text reads back as itself.
pub fn canonical_urn(s: &str) -> (r: Option<String>)
    ensures
        opt_text(r) == match urn_canonical(s@) {
            Some(c) => if urn_canonical(c) == Some(c) {
                Some(c)
            } else {
                None
            },
            None => None,
        },
{
    match urn_text(s) {
        Some(c) => match urn_text(c.as_str()) {
            Some(again) => if again == c {
                Some(c)
            } else {
                None
            },
            None => None,
        },
        None => None,
    }
}

impl Identifier {
    /// The identifier that a text stands for: a URL where the text is
    /// one, else a URN where the text is one; in its canonical text, and
    /// only where that reads back as the same identifier.
    pub fn resolve(s: &str) -> (r: Option<Identifier>)
        ensures
            opt_identifier(r) == identifier_of(s@),
            r matches Some(x) ==> identifier_wf(x@),
    {
        match url_text(s) {
            Some(c) => match url_text(c.as_str()) {
                Some(again) => if again == c {
                    Some(Identifier::Url(c))
                } else {
                    None
                },
                None => None,
            },
            None => match urn_text(s) {
                Some(c) => {
                    if url_text(c.as_str()).is_some() {
                        return None;
                    }
                    match urn_text(c.as_str()) {
                        Some(again) => if again == c {
                            Some(Identifier::Urn(c))
                        } else {
                            None
                        },
                        None => None,
                    }
                },
                None => None,
            },
        }
    }

    /// The text of this identifier.
    pub fn as_str(&self) -> (s: &str)
        ensures
            Doc::String(s@) == encode_identifier(self@),
    {
        match self {
            Identifier::Url(s) => s.as_str(),
            Identifier::Urn(s) => s.as_str(),
        }
    }

    /// Reads an identifier from a value found under `field`.
    pub fn parse(v: &Value, field: &str) -> (r: Result<Identifier, ParseError>)
        ensures
            parsed_identifier(r) == decode_identifier(v@, field@),
            r matches Ok(x) ==> identifier_wf(x@),
    {
        match v {
            Value::String(s) => match Identifier::resolve(s.as_str()) {
                Some(x) => Ok(x),
                None => Err(ParseError::InvalidIdentifier(s.clone())),
            },
            _ => Err(wrong_shape(field, shapes1(Shape::String), v)),
        }
    }

    /// Writes this identifier as a value.
    pub fn to_value(&self) -> (v: Value)
        ensures
            v@ == encode_identifier(self@),
    {
        Value::String(self.as_str().to_owned())
    }
}

impl Clone for Identifier {
    /// The same identifier.
    fn clone(&self) -> (r: Identifier)
        ensures
            r@ == self@,
    {
        match self {
            Identifier::Url(s) => Identifier::Url(s.clone()),
            Identifier::Urn(s) => Identifier::Urn(s.clone()),
        }
    }
}

/// A copy of an optional identifier.
pub(crate) fn copy_opt_identifier(o: &Option<Identifier>) -> (r: Option<Identifier>)
    ensures
        opt_identifier(r) == opt_identifier(*o),
{
    match o {
        Some(x) => Some(x.clone()),
        None => None,
    }
}

/// Reads an address from a value found under `field`.
pub fn parse_url(v: &Value, field: &str) -> (r: Result<String, ParseError>)
    ensures
        parsed_text(r) == decode_url(v@, field@),
        r matches Ok(s) ==> url_wf(s@),
{
    match v {
        Value::String(s) => match canonical_url(s.as_str()) {
            Some(c) => Ok(c),
            None => Err(ParseError::InvalidIdentifier(s.clone())),
        },
        _ => Err(wrong_shape(field, shapes1(Shape::String), v)),
    }
}

/// Writes an address as a value.
pub fn url_value(s: &String) -> (v: Value)
    ensures
        v@ == encode_url(s@),
{
    Value::String(s.clone())
}

/// Reads an optional field that is an address.
pub fn get_opt_url(
    members: &Vec<(String, Value)>,
    key: &str,
) -> (r: Result<Option<String>, ParseError>)
    ensures
        parsed_opt_url(r) == read_opt_url(members_of(members@), key@),
        r matches Ok(o) ==> opt_url_wf(opt_text(o)),
{
    match find(members, key) {
        None => Ok(None),
        Some(v) => match v {
            Value::Null => Ok(None),
            _ => match parse_url(v, key) {
                Ok(x) => Ok(Some(x)),
                Err(e) => Err(e),
            },
        },
    }
}

/// Writes an optional address.
pub fn make_opt_url(o: &Option<String>) -> (r: Option<Value>)
    ensures
        opt_doc(r) == write_opt_url(opt_text(*o)),
{
    match o {
        Some(s) => Some(url_value(s)),
        None => None,
    }
}

/// Reads an optional field that is an identifier.
pub fn get_opt_identifier(
    members: &Vec<(String, Value)>,
    key: &str,
) -> (r: Result<Option<Identifier>, ParseError>)
    ensures
        parsed_opt_identifier(r) == read_opt_identifier(members_of(members@), key@),
        r matches Ok(o) ==> opt_identifier_wf(opt_identifier(o)),
{
    match find(members, key) {
        None => Ok(None),
        Some(v) => match v {
            Value::Null => Ok(None),
            _ => match Identifier::parse(v, key) {
                Ok(x) => Ok(Some(x)),
                Err(e) => Err(e),
            },
        },
    }
}

/// Writes an optional identifier.
pub fn make_opt_identifier(o: &Option<Identifier>) -> (r: Option<Value>)
    ensures
        opt_doc(r) == write_opt_identifier(opt_identifier(*o)),
{
    match o {
        Some(x) => Some(x.to_value()),
        None => None,
    }
}

/// A well-formed identifier written and read again is the same
/// identifier.
pub proof fn lemma_identifier_round_trip(x: IdentifierView, field: Seq<char>)
    requires
        identifier_wf(x),
    ensures
        decode_identifier(encode_identifier(x), field) == Ok::<IdentifierView, Fault>(x),
{
}

/// The addresses that the items of a sequence stand for, or the error of
/// the first item that stands for none.
pub open spec fn decode_url_seq(items: Seq<Doc>, field: Seq<char>) -> Result<Seq<Seq<char>>, Fault>
    decreases items.len(),
{
    if items.len() == 0 {
        Ok(Seq::empty())
    } else {
        match decode_url_seq(items.drop_last(), field) {
            Err(e) => Err(e),
            Ok(init) => match decode_url(items.last(), field) {
                Err(e) => Err(e),
                Ok(x) => Ok(init.push(x)),
            },
        }
    }
}

/// The written forms of a run of addresses.
pub open spec fn encode_url_seq(xs: Seq<Seq<char>>) -> Seq<Doc> {
    Seq::new(xs.len(), |i: int| encode_url(xs[i]))
}

/// What a list field of addresses holds: nothing where it is absent.
pub open spec fn read_url_list(
    m: Seq<(Seq<char>, Doc)>,
    key: Seq<char>,
) -> Result<Seq<Seq<char>>, Fault> {
    match lookup(m, key) {
        None => Ok(Seq::empty()),
        Some(Doc::Array(items)) => decode_url_seq(items, key),
        Some(d) => Err(mismatch(key, list_shapes(), shape_of(d))),
    }
}

/// The written form of a list field of addresses.
pub open spec fn write_url_list(xs: Seq<Seq<char>>) -> Option<Doc> {
    listed(encode_url_seq(xs))
}

/// What a field of addresses holds that may be written as one bare address.
pub open spec fn read_url_flat(
    m: Seq<(Seq<char>, Doc)>,
    key: Seq<char>,
) -> Result<Seq<Seq<char>>, Fault> {
    match lookup(m, key) {
        None => Ok(Seq::empty()),
        Some(Doc::Array(items)) => decode_url_seq(items, key),
        Some(Doc::String(s)) => match decode_url(Doc::String(s), key) {
            Ok(x) => Ok(seq![x]),
            Err(e) => Err(e),
        },
        Some(d) => Err(mismatch(key, flat_text_shapes(), shape_of(d))),
    }
}

/// The written form of a field of addresses that may be cut short.
pub open spec fn write_url_flat(xs: Seq<Seq<char>>) -> Option<Doc> {
    collapsed(encode_url_seq(xs))
}

/// Where the items before `i` can be read and item `i` cannot, the sequence
/// gives the error of item `i`.
pub proof fn lemma_url_seq_fails(items: Seq<Doc>, field: Seq<char>, i: int)
    requires
        0 <= i < items.len(),
        decode_url_seq(items.take(i), field) is Ok,
        decode_url(items[i], field) is Err,
    ensures
        decode_url_seq(items, field) == Err::<Seq<Seq<char>>, Fault>(
            decode_url(items[i], field)->Err_0,
        ),
    decreases items.len(),
{
    if i == items.len() - 1 {
        assert(items.take(i) =~= items.drop_last());
    } else {
        assert(items.drop_last().take(i) =~= items.take(i));
        lemma_url_seq_fails(items.drop_last(), field, i);
    }
}

/// Reads the items of a sequence as addresses.
pub fn parse_url_seq(items: &Vec<Value>, field: &str) -> (r: Result<Vec<String>, ParseError>)
    ensures
        parsed_texts(r) == decode_url_seq(docs_of(items@), field@),
        r matches Ok(xs) ==> urls_wf(texts_of(xs@)),
{
    let mut out: Vec<String> = Vec::new();
    let mut i: usize = 0;
    proof {
        assert(texts_of(out@) =~= Seq::<Seq<char>>::empty());
    }
    while i < items.len()
        invariant
            i <= items.len(),
            decode_url_seq(docs_of(items@).take(i as int), field@) == Ok::<Seq<Seq<char>>, Fault>(
                texts_of(out@),
            ),
            urls_wf(texts_of(out@)),
        decreases items.len() - i,
    {
        let ghost all = docs_of(items@);
        let ghost before = out@;
        proof {
            assert(all.take(i + 1).drop_last() =~= all.take(i as int));
            assert(all.take(i + 1).last() == items@[i as int]@);
        }
        match parse_url(&items[i], field) {
            Ok(x) => {
                out.push(x);
                proof {
                    assert(texts_of(out@) =~= texts_of(before).push(x@));
                }
            },
            Err(e) => {
                proof {
                    lemma_url_seq_fails(all, field@, i as int);
                }
                return Err(e);
            },
        }
        i += 1;
    }
    proof {
        assert(docs_of(items@).take(i as int) =~= docs_of(items@));
    }
    Ok(out)
}

/// Writes a run of addresses.
pub fn url_values(xs: &Vec<String>) -> (out: Vec<Value>)
    ensures
        docs_of(out@) == encode_url_seq(texts_of(xs@)),
{
    let mut out: Vec<Value> = Vec::new();
    let mut i: usize = 0;
    while i < xs.len()
        invariant
            i <= xs.len(),
            out@.len() == i,
            forall|j: int| 0 <= j < i ==> (#[trigger] out@[j])@ == encode_url(xs@[j]@),
        decreases xs.len() - i,
    {
        out.push(url_value(&xs[i]));
        i += 1;
    }
    proof {
        assert(docs_of(out@) =~= encode_url_seq(texts_of(xs@)));
    }
    out
}

/// Reads a list field of addresses.
pub fn get_url_list(
    members: &Vec<(String, Value)>,
    key: &str,
) -> (r: Result<Vec<String>, ParseError>)
    ensures
        parsed_texts(r) == read_url_list(members_of(members@), key@),
        r matches Ok(xs) ==> urls_wf(texts_of(xs@)),
{
    match find(members, key) {
        None => {
            let xs: Vec<String> = Vec::new();
            proof {
                assert(texts_of(xs@) =~= Seq::<Seq<char>>::empty());
            }
            Ok(xs)
        },
        Some(v) => match v {
            Value::Array(items) => parse_url_seq(items, key),
            _ => Err(wrong_shape(key, shapes1(Shape::Array), v)),
        },
    }
}

/// Writes a list field of addresses.
pub fn make_url_list(xs: &Vec<String>) -> (r: Option<Value>)
    ensures
        opt_doc(r) == write_url_list(texts_of(xs@)),
{
    plain(url_values(xs))
}

/// Reads a field of addresses that may be written as one bare address.
pub fn get_url_flat(
    members: &Vec<(String, Value)>,
    key: &str,
) -> (r: Result<Vec<String>, ParseError>)
    ensures
        parsed_texts(r) == read_url_flat(members_of(members@), key@),
        r matches Ok(xs) ==> urls_wf(texts_of(xs@)),
{
    match find(members, key) {
        None => {
            let xs: Vec<String> = Vec::new();
            proof {
                assert(texts_of(xs@) =~= Seq::<Seq<char>>::empty());
            }
            Ok(xs)
        },
        Some(v) => {
            let ghost mut only: Seq<char> = Seq::empty();
            let given = match v {
                Value::Array(items) => match parse_url_seq(items, key) {
                    Ok(xs) => FlattenedVec::Vec(xs),
                    Err(e) => {
                        return Err(e);
                    },
                },
                Value::String(_) => match parse_url(v, key) {
                    Ok(x) => {
                        proof {
                            only = x@;
                        }
                        FlattenedVec::Singleton(x)
                    },
                    Err(e) => {
                        return Err(e);
                    },
                },
                _ => {
                    return Err(wrong_shape(key, shapes2(Shape::String, Shape::Array), v));
                },
            };
            let xs = given.into_vec();
            proof {
                if v is String {
                    assert(texts_of(xs@) =~= seq![only]);
                }
            }
            Ok(xs)
        },
    }
}

/// Writes a field of addresses that may be cut short.
pub fn make_url_flat(xs: &Vec<String>) -> (r: Option<Value>)
    ensures
        opt_doc(r) == write_url_flat(texts_of(xs@)),
{
    collapse(url_values(xs))
}

/// What the items of a sequence give is well formed.
pub proof fn lemma_decode_url_seq_wf(items: Seq<Doc>, field: Seq<char>)
    ensures
        decode_url_seq(items, field) matches Ok(xs) ==> urls_wf(xs),
    decreases items.len(),
{
    if items.len() > 0 {
        lemma_decode_url_seq_wf(items.drop_last(), field);
        if let Ok(init) = decode_url_seq(items.drop_last(), field) {
            if let Ok(x) = decode_url(items.last(), field) {
                let xs = init.push(x);
                assert forall|i: int| 0 <= i < xs.len() implies url_wf(#[trigger] xs[i]) by {
                    if i < init.len() {
                        assert(xs[i] == init[i]);
                    }
                }
            }
        }
    }
}

/// What a list field gives is well formed.
pub proof fn lemma_read_url_list_wf(m: Seq<(Seq<char>, Doc)>, key: Seq<char>)
    ensures
        read_url_list(m, key) matches Ok(xs) ==> urls_wf(xs),
{
    if let Some(Doc::Array(items)) = lookup(m, key) {
        lemma_decode_url_seq_wf(items, key);
    }
}

/// What a field gives that may be cut short is well formed.
pub proof fn lemma_read_url_flat_wf(m: Seq<(Seq<char>, Doc)>, key: Seq<char>)
    ensures
        read_url_flat(m, key) matches Ok(xs) ==> urls_wf(xs),
{
    if let Some(Doc::Array(items)) = lookup(m, key) {
        lemma_decode_url_seq_wf(items, key);
    }
}

/// What an optional field gives that is an address is well formed.
pub proof fn lemma_read_opt_url_wf(m: Seq<(Seq<char>, Doc)>, key: Seq<char>)
    ensures
        read_opt_url(m, key) matches Ok(o) ==> opt_url_wf(o),
{
}

/// What an optional field gives that is an identifier is well formed.
pub proof fn lemma_read_opt_identifier_wf(m: Seq<(Seq<char>, Doc)>, key: Seq<char>)
    ensures
        read_opt_identifier(m, key) matches Ok(o) ==> opt_identifier_wf(o),
{
}

/// A run of addresses written and read again is the same run.
pub proof fn lemma_url_seq_round_trip(xs: Seq<Seq<char>>, field: Seq<char>)
    requires
        urls_wf(xs),
    ensures
        decode_url_seq(encode_url_seq(xs), field) == Ok::<Seq<Seq<char>>, Fault>(xs),
    decreases xs.len(),
{
    if xs.len() > 0 {
        let docs = encode_url_seq(xs);
        assert(docs.drop_last() =~= encode_url_seq(xs.drop_last()));
        lemma_url_seq_round_trip(xs.drop_last(), field);
        assert(url_wf(xs.last()));
        assert(xs.drop_last().push(xs.last()) =~= xs);
    } else {
        assert(xs =~= Seq::<Seq<char>>::empty());
    }
}

/// A list field of addresses that is written and read again holds the same
/// addresses.
pub proof fn lemma_url_list_round_trip(xs: Seq<Seq<char>>, m: Seq<(Seq<char>, Doc)>, key: Seq<char>)
    requires
        urls_wf(xs),
        lookup(m, key) == write_url_list(xs),
    ensures
        read_url_list(m, key) == Ok::<Seq<Seq<char>>, Fault>(xs),
{
    if xs.len() == 0 {
        assert(xs =~= Seq::<Seq<char>>::empty());
    } else {
        lemma_url_seq_round_trip(xs, key);
    }
}

/// A field of addresses that may be cut short holds the same addresses
/// when it is written and read again.
pub proof fn lemma_url_flat_round_trip(xs: Seq<Seq<char>>, m: Seq<(Seq<char>, Doc)>, key: Seq<char>)
    requires
        urls_wf(xs),
        lookup(m, key) == write_url_flat(xs),
    ensures
        read_url_flat(m, key) == Ok::<Seq<Seq<char>>, Fault>(xs),
{
    if xs.len() == 0 {
        assert(xs =~= Seq::<Seq<char>>::empty());
    } else if xs.len() == 1 {
        assert(url_wf(xs[0]));
        assert(seq![xs[0]] =~= xs);
    } else {
        lemma_url_seq_round_trip(xs, key);
    }
}

} // verus!
