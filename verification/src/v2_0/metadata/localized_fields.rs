//! The fields that hold text for display.
use vstd::prelude::*;
use crate::error::{Fault, ParseError, flat_named_shapes, mismatch};
use crate::helpers::{FlattenedVec, collapse, collapsed, missing, shapes3, wrong_shape};
use crate::v2_0::metadata::localized::{
    Localized, StringWithAlternates, decode_localized, encode_localized,
    lemma_decode_localized_wf, lemma_localized_round_trip, localized_seq_wf, localized_views,
    localized_wf, opt_localized, opt_localized_wf,
};
use crate::value::{
    Doc, Shape, Value, docs_of, index_of, lemma_index_of, lemma_lookup_index, lookup, members_of,
    opt_doc, position, shape_of,
};

verus! {

/// The display texts that the items of a sequence stand for, or the error
/// of the first item that stands for none.
pub open spec fn decode_localized_seq(
    items: Seq<Doc>,
    field: Seq<char>,
) -> Result<Seq<Localized>, Fault>
    decreases items.len(),
{
    if items.len() == 0 {
        Ok(Seq::empty())
    } else {
        match decode_localized_seq(items.drop_last(), field) {
            Err(e) => Err(e),
            Ok(init) => match decode_localized(items.last(), field) {
                Err(e) => Err(e),
                Ok(x) => Ok(init.push(x)),
            },
        }
    }
}

/// The written forms of a run of display texts.
pub open spec fn encode_localized_seq(xs: Seq<Localized>) -> Seq<Doc> {
    Seq::new(
        xs.len(),
        |i: int|
            if 0 <= i < xs.len() {
                encode_localized(xs[i])
            } else {
                Doc::Null
            },
    )
}

/// Where the items before `i` can be read and item `i` cannot, the
/// sequence gives the error of item `i`.
pub proof fn lemma_localized_seq_fails(items: Seq<Doc>, field: Seq<char>, i: int)
    requires
        0 <= i < items.len(),
        decode_localized_seq(items.take(i), field) is Ok,
        decode_localized(items[i], field) is Err,
    ensures
        decode_localized_seq(items, field)
            == Err::<Seq<Localized>, Fault>(decode_localized(items[i], field)->Err_0),
    decreases items.len(),
{
    if i == items.len() - 1 {
        assert(items.take(i) =~= items.drop_last());
    } else {
        assert(items.drop_last().take(i) =~= items.take(i));
        lemma_localized_seq_fails(items.drop_last(), field, i);
    }
}

/// Reads the items of a sequence as display texts.
pub fn parse_localized_seq(
    items: &Vec<Value>,
    field: &str,
) -> (r: Result<Vec<StringWithAlternates>, ParseError>)
    ensures
        match r {
            Ok(xs) => decode_localized_seq(docs_of(items@), field@)
                == Ok::<Seq<Localized>, Fault>(localized_views(xs@)),
            Err(e) => decode_localized_seq(docs_of(items@), field@)
                == Err::<Seq<Localized>, Fault>(e@),
        },
        r matches Ok(xs) ==> localized_seq_wf(localized_views(xs@)),
{
    let mut out: Vec<StringWithAlternates> = Vec::new();
    let mut i: usize = 0;
    proof {
        assert(localized_views(out@) =~= Seq::<Localized>::empty());
    }
    while i < items.len()
        invariant
            i <= items.len(),
            decode_localized_seq(docs_of(items@).take(i as int), field@)
                == Ok::<Seq<Localized>, Fault>(
                localized_views(out@),
            ),
            localized_seq_wf(localized_views(out@)),
        decreases items.len() - i,
    {
        let ghost all = docs_of(items@);
        let ghost before = out@;
        proof {
            assert(all.take(i + 1).drop_last() =~= all.take(i as int));
            assert(all.take(i + 1).last() == items@[i as int]@);
        }
        match StringWithAlternates::parse(&items[i], field) {
            Ok(x) => {
                let ghost one = x@;
                out.push(x);
                proof {
                    assert(localized_views(out@) =~= localized_views(before).push(one));
                }
            },
            Err(e) => {
                proof {
                    lemma_localized_seq_fails(all, field@, i as int);
                }
                return Err(e);
            },
        }
        i += 1;
    }
    proof {
        assert(docs_of(items@).take(i as int) =~= docs_of(items@));
    }
    Ok(out)
}

/// Writes a run of display texts.
pub fn emit_localized_seq(xs: &Vec<StringWithAlternates>) -> (out: Vec<Value>)
    ensures
        docs_of(out@) == encode_localized_seq(localized_views(xs@)),
{
    let mut out: Vec<Value> = Vec::new();
    let mut i: usize = 0;
    while i < xs.len()
        invariant
            i <= xs.len(),
            out@.len() == i,
            forall|j: int| 0 <= j < i ==> (#[trigger] out@[j])@ == encode_localized(xs@[j]@),
        decreases xs.len() - i,
    {
        out.push(xs[i].to_value());
        i += 1;
    }
    proof {
        assert(docs_of(out@) =~= encode_localized_seq(localized_views(xs@)));
    }
    out
}

/// A run of well-formed display texts written and read again is the same
/// run.
pub proof fn lemma_localized_seq_round_trip(xs: Seq<Localized>, field: Seq<char>)
    requires
        localized_seq_wf(xs),
    ensures
        decode_localized_seq(encode_localized_seq(xs), field) == Ok::<Seq<Localized>, Fault>(xs),
    decreases xs.len(),
{
    if xs.len() > 0 {
        let docs = encode_localized_seq(xs);
        assert(docs.drop_last() =~= encode_localized_seq(xs.drop_last()));
        assert(localized_seq_wf(xs.drop_last())) by {
            assert forall|i: int| 0 <= i < xs.drop_last().len()
                implies localized_wf((#[trigger] xs.drop_last()[i])) by {
                assert(xs.drop_last()[i] == xs[i]);
            }
        }
        lemma_localized_seq_round_trip(xs.drop_last(), field);
        assert(localized_wf(xs.last()));
        lemma_localized_round_trip(xs.last(), field);
        assert(xs.drop_last().push(xs.last()) =~= xs);
    } else {
        assert(xs =~= Seq::<Localized>::empty());
    }
}

/// A copy of a run of display texts.
pub(crate) fn copy_localized_seq(xs: &Vec<StringWithAlternates>) -> (out: Vec<StringWithAlternates>)
    ensures
        localized_views(out@) == localized_views(xs@),
{
    let mut out: Vec<StringWithAlternates> = Vec::new();
    let mut i: usize = 0;
    while i < xs.len()
        invariant
            i <= xs.len(),
            out@.len() == i,
            forall|j: int| 0 <= j < i ==> (#[trigger] out@[j])@ == xs@[j]@,
        decreases xs.len() - i,
    {
        out.push(xs[i].clone());
        i += 1;
    }
    proof {
        assert(localized_views(out@) =~= localized_views(xs@));
    }
    out
}

/// A copy of an optional display text.
pub(crate) fn copy_opt_localized(
    o: &Option<StringWithAlternates>,
) -> (r: Option<StringWithAlternates>)
    ensures
        opt_localized(r) == opt_localized(*o),
{
    match o {
        Some(x) => Some(x.clone()),
        None => None,
    }
}

/// What the items of a sequence give as display texts is well formed.
pub proof fn lemma_decode_localized_seq_wf(items: Seq<Doc>, field: Seq<char>)
    ensures
        decode_localized_seq(items, field) matches Ok(xs) ==> localized_seq_wf(xs),
    decreases items.len(),
{
    if items.len() > 0 {
        lemma_decode_localized_seq_wf(items.drop_last(), field);
        lemma_decode_localized_wf(items.last(), field);
        if let Ok(init) = decode_localized_seq(items.drop_last(), field) {
            if let Ok(x) = decode_localized(items.last(), field) {
                let xs = init.push(x);
                assert forall|i: int| 0 <= i < xs.len()
                    implies localized_wf((#[trigger] xs[i])) by {
                    if i < init.len() {
                        assert(xs[i] == init[i]);
                    }
                }
            }
        }
    }
}

/// What such a field gives is well formed.
pub proof fn lemma_read_localized_wf(m: Seq<(Seq<char>, Doc)>, key: Seq<char>)
    ensures
        read_localized(m, key) matches Ok(x) ==> localized_wf(x),
{
    lemma_index_of(m, key);
    let i = index_of(m, key);
    if 0 <= i < m.len() {
        lemma_decode_localized_wf(m[i].1, key);
    }
}

/// What a field gives that may be a display text is well formed.
pub proof fn lemma_read_opt_localized_wf(m: Seq<(Seq<char>, Doc)>, key: Seq<char>)
    ensures
        read_opt_localized(m, key) matches Ok(o) ==> opt_localized_wf(o),
{
    lemma_index_of(m, key);
    let i = index_of(m, key);
    if 0 <= i < m.len() {
        lemma_decode_localized_wf(m[i].1, key);
    }
}

/// What a field of display texts gives that may be written as one bare
/// display text is well formed.
pub proof fn lemma_read_localized_flat_wf(m: Seq<(Seq<char>, Doc)>, key: Seq<char>)
    ensures
        read_localized_flat(m, key) matches Ok(xs) ==> localized_seq_wf(xs),
{
    lemma_index_of(m, key);
    let i = index_of(m, key);
    if 0 <= i < m.len() {
        if let Doc::Array(items) = m[i].1 {
            lemma_decode_localized_seq_wf(items, key);
        } else {
            lemma_decode_localized_wf(m[i].1, key);
        }
    }
}

/// What a field holds that has to be a display text.
pub open spec fn read_localized(
    m: Seq<(Seq<char>, Doc)>,
    key: Seq<char>,
) -> Result<Localized, Fault> {
    let i = index_of(m, key);
    if 0 <= i < m.len() {
        decode_localized(m[i].1, key)
    } else {
        Err(Fault::MissingRequiredField(key))
    }
}

/// The written form of such a field.
pub open spec fn write_localized(x: Localized) -> Option<Doc> {
    Some(encode_localized(x))
}

/// Reads a field that has to be a display text.
pub fn get_localized(
    members: &Vec<(String, Value)>,
    key: &str,
) -> (r: Result<StringWithAlternates, ParseError>)
    ensures
        match r {
            Ok(x) => read_localized(members_of(members@), key@) == Ok::<Localized, Fault>(x@),
            Err(e) => read_localized(members_of(members@), key@) == Err::<Localized, Fault>(e@),
        },
        r matches Ok(x) ==> localized_wf(x@),
{
    match position(members, key) {
        None => Err(missing(key)),
        Some(i) => {
            proof {
                assert(members_of(members@)[i as int].1 == members@[i as int].1@);
            }
            StringWithAlternates::parse(&members[i].1, key)
        },
    }
}

/// Writes such a field.
pub fn make_localized(x: &StringWithAlternates) -> (r: Option<Value>)
    ensures
        opt_doc(r) == write_localized((*x)@),
{
    Some(x.to_value())
}

/// Such a field, written and read again, holds the same display text.
pub proof fn lemma_localized_field_round_trip(
    x: Localized,
    m: Seq<(Seq<char>, Doc)>,
    key: Seq<char>,
)
    requires
        localized_wf(x),
        lookup(m, key) == write_localized(x),
    ensures
        read_localized(m, key) == Ok::<Localized, Fault>(x),
{
    lemma_lookup_index(m, key);
    lemma_localized_round_trip(x, key);
}

/// What a field holds that may be a display text: nothing where it is
/// absent or null.
pub open spec fn read_opt_localized(
    m: Seq<(Seq<char>, Doc)>,
    key: Seq<char>,
) -> Result<Option<Localized>, Fault> {
    let i = index_of(m, key);
    if 0 <= i < m.len() {
        if m[i].1 is Null {
            Ok(None)
        } else {
            match decode_localized(m[i].1, key) {
                Ok(x) => Ok(Some(x)),
                Err(e) => Err(e),
            }
        }
    } else {
        Ok(None)
    }
}

/// The written form of such a field: left out where there is nothing.
pub open spec fn write_opt_localized(o: Option<Localized>) -> Option<Doc> {
    match o {
        Some(x) => Some(encode_localized(x)),
        None => None,
    }
}

/// Reads a field that may be a display text.
pub fn get_opt_localized(
    members: &Vec<(String, Value)>,
    key: &str,
) -> (r: Result<Option<StringWithAlternates>, ParseError>)
    ensures
        match r {
            Ok(o) => read_opt_localized(members_of(members@), key@)
                == Ok::<Option<Localized>, Fault>(opt_localized(o)),
            Err(e) => read_opt_localized(members_of(members@), key@)
                == Err::<Option<Localized>, Fault>(e@),
        },
        r matches Ok(o) ==> opt_localized_wf(opt_localized(o)),
{
    match position(members, key) {
        None => Ok(None),
        Some(i) => {
            proof {
                assert(members_of(members@)[i as int].1 == members@[i as int].1@);
            }
            match &members[i].1 {
                Value::Null => Ok(None),
                v => match StringWithAlternates::parse(v, key) {
                    Ok(x) => Ok(Some(x)),
                    Err(e) => Err(e),
                },
            }
        },
    }
}

/// Writes such a field.
pub fn make_opt_localized(o: &Option<StringWithAlternates>) -> (r: Option<Value>)
    ensures
        opt_doc(r) == write_opt_localized(opt_localized(*o)),
{
    match o {
        Some(x) => Some(x.to_value()),
        None => None,
    }
}

/// Such a field, written and read again, holds the same.
pub proof fn lemma_opt_localized_round_trip(
    o: Option<Localized>,
    m: Seq<(Seq<char>, Doc)>,
    key: Seq<char>,
)
    requires
        opt_localized_wf(o),
        lookup(m, key) == write_opt_localized(o),
    ensures
        read_opt_localized(m, key) == Ok::<Option<Localized>, Fault>(o),
{
    lemma_lookup_index(m, key);
    if let Some(x) = o {
        lemma_localized_round_trip(x, key);
    }
}

/// What a field of display texts holds that may be written as one bare
/// display text: nothing where it is absent, the items of a sequence, or the
/// one display text that stands there.
pub open spec fn read_localized_flat(
    m: Seq<(Seq<char>, Doc)>,
    key: Seq<char>,
) -> Result<Seq<Localized>, Fault> {
    let i = index_of(m, key);
    if 0 <= i < m.len() {
        match m[i].1 {
            Doc::Array(items) => decode_localized_seq(items, key),
            _ => if shape_of(m[i].1) == Shape::String || shape_of(m[i].1) == Shape::Object {
                match decode_localized(m[i].1, key) {
                    Ok(x) => Ok(seq![x]),
                    Err(e) => Err(e),
                }
            } else {
                Err(mismatch(key, flat_named_shapes(), shape_of(m[i].1)))
            },
        }
    } else {
        Ok(Seq::empty())
    }
}

/// The written form of such a field: left out where the list is empty,
/// the bare display text where there is one, a sequence otherwise.
pub open spec fn write_localized_flat(xs: Seq<Localized>) -> Option<Doc> {
    collapsed(encode_localized_seq(xs))
}

/// Reads a field of display texts that may be written as one bare display text.
pub fn get_localized_flat(
    members: &Vec<(String, Value)>,
    key: &str,
) -> (r: Result<Vec<StringWithAlternates>, ParseError>)
    ensures
        match r {
            Ok(xs) => read_localized_flat(members_of(members@), key@)
                == Ok::<Seq<Localized>, Fault>(localized_views(xs@)),
            Err(e) => read_localized_flat(members_of(members@), key@)
                == Err::<Seq<Localized>, Fault>(e@),
        },
        r matches Ok(xs) ==> localized_seq_wf(localized_views(xs@)),
{
    match position(members, key) {
        None => {
            let xs: Vec<StringWithAlternates> = Vec::new();
            proof {
                assert(localized_views(xs@) =~= Seq::<Localized>::empty());
            }
            Ok(xs)
        },
        Some(i) => {
            proof {
                assert(members_of(members@)[i as int].1 == members@[i as int].1@);
            }
            match &members[i].1 {
                Value::Array(items) => {
                    match parse_localized_seq(items, key) {
                        Ok(xs) => Ok(FlattenedVec::Vec(xs).into_vec()),
                        Err(e) => Err(e),
                    }
                },
                v => {
                    let shape = v.shape();
                    if shape == Shape::String || shape == Shape::Object {
                        match StringWithAlternates::parse(v, key) {
                            Ok(x) => {
                                let ghost one = x@;
                                let xs = FlattenedVec::Singleton(x).into_vec();
                                proof {
                                    assert(localized_views(xs@) =~= seq![one]);
                                }
                                Ok(xs)
                            },
                            Err(e) => Err(e),
                        }
                    } else {
                        Err(wrong_shape(key, shapes3(Shape::String, Shape::Object, Shape::Array), v))
                    }
                },
            }
        },
    }
}

/// Writes a field of display texts that may be cut short.
pub fn make_localized_flat(xs: &Vec<StringWithAlternates>) -> (r: Option<Value>)
    ensures
        opt_doc(r) == write_localized_flat(localized_views(xs@)),
{
    collapse(emit_localized_seq(xs))
}

/// A field of well-formed display texts that may be cut short holds the same
/// display texts when it is written and read again.
pub proof fn lemma_localized_flat_round_trip(
    xs: Seq<Localized>,
    m: Seq<(Seq<char>, Doc)>,
    key: Seq<char>,
)
    requires
        localized_seq_wf(xs),
        lookup(m, key) == write_localized_flat(xs),
    ensures
        read_localized_flat(m, key) == Ok::<Seq<Localized>, Fault>(xs),
{
    lemma_lookup_index(m, key);
    if xs.len() == 0 {
        assert(xs =~= Seq::<Localized>::empty());
    } else if xs.len() == 1 {
        assert(localized_wf(xs[0]));
        lemma_localized_round_trip(xs[0], key);
        assert(encode_localized_seq(xs)[0] == encode_localized(xs[0]));
        assert(seq![xs[0]] =~= xs);
    } else {
        lemma_localized_seq_round_trip(xs, key);
    }
}

} // verus!
