//! Language tags: which text is one, and how tags are ordered.
use vstd::prelude::*;
use crate::error::{flat_text_shapes, list_shapes, mismatch, text_shapes, Fault, ParseError};
use crate::helpers::{collapse, collapsed, listed, plain, shapes1, shapes2, wrong_shape, FlattenedVec};
use crate::text::texts_of;
use crate::value::{docs_of, find, lookup, members_of, opt_doc, shape_of, Doc, Shape, Value};

verus! {

/// Whether `LangTag::new` of the langtag crate takes the text as a language
/// tag.
pub uninterp spec fn language_tag_ok(s: Seq<char>) -> bool;

/// Whether the text is a language tag.
///
/// Stands for `LangTag::new` of the langtag crate, which checks the text
/// against the grammar of RFC 5646 and changes nothing in it. Nothing is
/// claimed here of which texts pass.
#[verifier::external_body]
pub(crate) fn is_language_tag(s: &str) -> (ok: bool)
    ensures
        ok == language_tag_ok(s@),
{
    langtag::LangTag::new(s).is_ok()
}

/// A piece of text is well formed as a language when it is a language tag.
pub open spec fn language_wf(s: Seq<char>) -> bool {
    language_tag_ok(s)
}

/// Whether every text of a run is a language tag.
pub open spec fn languages_wf(xs: Seq<Seq<char>>) -> bool {
    forall|i: int| 0 <= i < xs.len() ==> language_wf(#[trigger] xs[i])
}

/// A letter without regard to its case: the capitals `A` to `Z` count as
/// their small letters.
pub open spec fn fold_case(c: char) -> int {
    if 65 <= c as int <= 90 {
        c as int + 32
    } else {
        c as int
    }
}

/// How two tags are ordered: negative where `a` comes first, positive
/// where `b` does, 0 where they are the same tag. Tags are held against
/// each other letter by letter without regard to case, and a tag comes
/// after every longer tag that it begins.
pub open spec fn tag_order(a: Seq<char>, b: Seq<char>) -> int
    decreases a.len(),
{
    if a.len() == 0 {
        if b.len() == 0 {
            0
        } else {
            1
        }
    } else if b.len() == 0 {
        -1
    } else if fold_case(a[0]) < fold_case(b[0]) {
        -1
    } else if fold_case(a[0]) > fold_case(b[0]) {
        1
    } else {
        tag_order(a.drop_first(), b.drop_first())
    }
}

/// Whether tag `a` comes before tag `b`.
pub open spec fn tag_before(a: Seq<char>, b: Seq<char>) -> bool {
    tag_order(a, b) < 0
}

/// The order is one of -1, 0 and 1, and turning the two tags round turns
/// it round.
pub proof fn lemma_tag_order_turns(a: Seq<char>, b: Seq<char>)
    ensures
        -1 <= tag_order(a, b) <= 1,
        tag_order(b, a) == -tag_order(a, b),
    decreases a.len(),
{
    if a.len() > 0 && b.len() > 0 && fold_case(a[0]) == fold_case(b[0]) {
        lemma_tag_order_turns(a.drop_first(), b.drop_first());
    }
}

/// Coming before is transitive.
pub proof fn lemma_tag_before_chain(a: Seq<char>, b: Seq<char>, c: Seq<char>)
    requires
        tag_before(a, b),
        tag_before(b, c),
    ensures
        tag_before(a, c),
    decreases a.len(),
{
    if a.len() > 0 && b.len() > 0 && c.len() > 0 && fold_case(a[0])
        == fold_case(b[0]) && fold_case(b[0])
        == fold_case(c[0]) {
        lemma_tag_before_chain(a.drop_first(), b.drop_first(), c.drop_first());
    }
}

/// A letter's number without regard to case.
fn folded(c: char) -> (n: u32)
    ensures
        n == fold_case(c),
{
    let u: u32 = c as u32;
    if 65 <= u && u <= 90 {
        u + 32
    } else {
        u
    }
}

/// Holds two tags against each other: -1 where `a` comes first, 1 where
/// `b` does, 0 where they are the same tag.
pub fn compare_tags(a: &str, b: &str) -> (r: i8)
    ensures
        r == tag_order(a@, b@),
{
    let n: usize = a.unicode_len();
    let k: usize = b.unicode_len();
    let mut i: usize = 0;
    proof {
        assert(a@.skip(0) =~= a@);
        assert(b@.skip(0) =~= b@);
    }
    loop
        invariant
            n == a@.len(),
            k == b@.len(),
            i <= n,
            i <= k,
            tag_order(a@, b@) == tag_order(a@.skip(i as int), b@.skip(i as int)),
        decreases n - i,
    {
        proof {
            if i < n && i < k {
                assert(a@.skip(i as int).drop_first() =~= a@.skip(i + 1));
                assert(b@.skip(i as int).drop_first() =~= b@.skip(i + 1));
            }
        }
        if i >= n {
            if i >= k {
                return 0;
            }
            return 1;
        }
        if i >= k {
            return -1;
        }
        let x: u32 = folded(a.get_char(i));
        let y: u32 = folded(b.get_char(i));
        if x < y {
            return -1;
        }
        if x > y {
            return 1;
        }
        i += 1;
    }
}

/// The language that a value stands for: the value has to be text, and the
/// text a language tag.
pub open spec fn decode_language(d: Doc, field: Seq<char>) -> Result<Seq<char>, Fault> {
    match d {
        Doc::String(s) => if language_tag_ok(s) {
            Ok(s)
        } else {
            Err(Fault::InvalidLanguageTag(s))
        },
        _ => Err(mismatch(field, text_shapes(), shape_of(d))),
    }
}

/// The written form of a language: its tag.
pub open spec fn encode_language(s: Seq<char>) -> Doc {
    Doc::String(s)
}

/// The languages that the items of a sequence stand for, or the error of
/// the first item that stands for none.
pub open spec fn decode_language_seq(
    items: Seq<Doc>,
    field: Seq<char>,
) -> Result<Seq<Seq<char>>, Fault>
    decreases items.len(),
{
    if items.len() == 0 {
        Ok(Seq::empty())
    } else {
        match decode_language_seq(items.drop_last(), field) {
            Err(e) => Err(e),
            Ok(init) => match decode_language(items.last(), field) {
                Err(e) => Err(e),
                Ok(x) => Ok(init.push(x)),
            },
        }
    }
}

/// The written forms of a run of languages.
pub open spec fn encode_language_seq(xs: Seq<Seq<char>>) -> Seq<Doc> {
    Seq::new(xs.len(), |i: int| encode_language(xs[i]))
}

/// What a list field of languages holds: nothing where it is absent.
pub open spec fn read_language_list(
    m: Seq<(Seq<char>, Doc)>,
    key: Seq<char>,
) -> Result<Seq<Seq<char>>, Fault> {
    match lookup(m, key) {
        None => Ok(Seq::empty()),
        Some(Doc::Array(items)) => decode_language_seq(items, key),
        Some(d) => Err(mismatch(key, list_shapes(), shape_of(d))),
    }
}

/// The written form of a list field of languages.
pub open spec fn write_language_list(xs: Seq<Seq<char>>) -> Option<Doc> {
    listed(encode_language_seq(xs))
}

/// What a field of languages holds that may be written as one bare tag.
pub open spec fn read_language_flat(
    m: Seq<(Seq<char>, Doc)>,
    key: Seq<char>,
) -> Result<Seq<Seq<char>>, Fault> {
    match lookup(m, key) {
        None => Ok(Seq::empty()),
        Some(Doc::Array(items)) => decode_language_seq(items, key),
        Some(Doc::String(s)) => match decode_language(Doc::String(s), key) {
            Ok(x) => Ok(seq![x]),
            Err(e) => Err(e),
        },
        Some(d) => Err(mismatch(key, flat_text_shapes(), shape_of(d))),
    }
}

/// The written form of a field of languages that may be cut short.
pub open spec fn write_language_flat(xs: Seq<Seq<char>>) -> Option<Doc> {
    collapsed(encode_language_seq(xs))
}

/// The model of what reading a piece of text gave.
pub open spec fn parsed_text(r: Result<String, ParseError>) -> Result<Seq<char>, Fault> {
    match r {
        Ok(s) => Ok(s@),
        Err(e) => Err(e@),
    }
}

/// The model of what reading a run of pieces of text gave.
pub open spec fn parsed_texts(r: Result<Vec<String>, ParseError>) -> Result<Seq<Seq<char>>, Fault> {
    match r {
        Ok(xs) => Ok(texts_of(xs@)),
        Err(e) => Err(e@),
    }
}

/// Reads a language from a value found under `field`.
pub fn parse_language(v: &Value, field: &str) -> (r: Result<String, ParseError>)
    ensures
        parsed_text(r) == decode_language(v@, field@),
        r matches Ok(s) ==> language_wf(s@),
{
    match v {
        Value::String(s) => if is_language_tag(s.as_str()) {
            Ok(s.clone())
        } else {
            Err(ParseError::InvalidLanguageTag(s.clone()))
        },
        _ => Err(wrong_shape(field, shapes1(Shape::String), v)),
    }
}

/// Writes a language as a value.
pub fn language_value(s: &String) -> (v: Value)
    ensures
        v@ == encode_language(s@),
{
    Value::String(s.clone())
}

/// Where the items before `i` can be read and item `i` cannot, the sequence
/// gives the error of item `i`.
pub proof fn lemma_language_seq_fails(items: Seq<Doc>, field: Seq<char>, i: int)
    requires
        0 <= i < items.len(),
        decode_language_seq(items.take(i), field) is Ok,
        decode_language(items[i], field) is Err,
    ensures
        decode_language_seq(items, field) == Err::<Seq<Seq<char>>, Fault>(
            decode_language(items[i], field)->Err_0,
        ),
    decreases items.len(),
{
    if i == items.len() - 1 {
        assert(items.take(i) =~= items.drop_last());
    } else {
        assert(items.drop_last().take(i) =~= items.take(i));
        lemma_language_seq_fails(items.drop_last(), field, i);
    }
}

/// Reads the items of a sequence as languages.
pub fn parse_language_seq(items: &Vec<Value>, field: &str) -> (r: Result<Vec<String>, ParseError>)
    ensures
        parsed_texts(r) == decode_language_seq(docs_of(items@), field@),
        r matches Ok(xs) ==> languages_wf(texts_of(xs@)),
{
    let mut out: Vec<String> = Vec::new();
    let mut i: usize = 0;
    proof {
        assert(texts_of(out@) =~= Seq::<Seq<char>>::empty());
    }
    while i < items.len()
        invariant
            i <= items.len(),
            decode_language_seq(docs_of(items@).take(i as int), field@)
                == Ok::<Seq<Seq<char>>, Fault>(
                texts_of(out@),
            ),
            languages_wf(texts_of(out@)),
        decreases items.len() - i,
    {
        let ghost all = docs_of(items@);
        let ghost before = out@;
        proof {
            assert(all.take(i + 1).drop_last() =~= all.take(i as int));
            assert(all.take(i + 1).last() == items@[i as int]@);
        }
        match parse_language(&items[i], field) {
            Ok(x) => {
                out.push(x);
                proof {
                    assert(texts_of(out@) =~= texts_of(before).push(x@));
                }
            },
            Err(e) => {
                proof {
                    lemma_language_seq_fails(all, field@, i as int);
                }
                return Err(e);
            },
        }
        i += 1;
    }
    proof {
        assert(docs_of(items@).take(i as int) =~= docs_of(items@));
    }
    Ok(out)
}

/// Writes a run of languages.
pub fn language_values(xs: &Vec<String>) -> (out: Vec<Value>)
    ensures
        docs_of(out@) == encode_language_seq(texts_of(xs@)),
{
    let mut out: Vec<Value> = Vec::new();
    let mut i: usize = 0;
    while i < xs.len()
        invariant
            i <= xs.len(),
            out@.len() == i,
            forall|j: int| 0 <= j < i ==> (#[trigger] out@[j])@ == encode_language(xs@[j]@),
        decreases xs.len() - i,
    {
        out.push(language_value(&xs[i]));
        i += 1;
    }
    proof {
        assert(docs_of(out@) =~= encode_language_seq(texts_of(xs@)));
    }
    out
}

/// Reads a list field of languages.
pub fn get_language_list(
    members: &Vec<(String, Value)>,
    key: &str,
) -> (r: Result<Vec<String>, ParseError>)
    ensures
        parsed_texts(r) == read_language_list(members_of(members@), key@),
        r matches Ok(xs) ==> languages_wf(texts_of(xs@)),
{
    match find(members, key) {
        None => {
            let xs: Vec<String> = Vec::new();
            proof {
                assert(texts_of(xs@) =~= Seq::<Seq<char>>::empty());
            }
            Ok(xs)
        },
        Some(v) => match v {
            Value::Array(items) => parse_language_seq(items, key),
            _ => Err(wrong_shape(key, shapes1(Shape::Array), v)),
        },
    }
}

/// Writes a list field of languages.
pub fn make_language_list(xs: &Vec<String>) -> (r: Option<Value>)
    ensures
        opt_doc(r) == write_language_list(texts_of(xs@)),
{
    plain(language_values(xs))
}

/// Reads a field of languages that may be written as one bare tag.
pub fn get_language_flat(
    members: &Vec<(String, Value)>,
    key: &str,
) -> (r: Result<Vec<String>, ParseError>)
    ensures
        parsed_texts(r) == read_language_flat(members_of(members@), key@),
        r matches Ok(xs) ==> languages_wf(texts_of(xs@)),
{
    match find(members, key) {
        None => {
            let xs: Vec<String> = Vec::new();
            proof {
                assert(texts_of(xs@) =~= Seq::<Seq<char>>::empty());
            }
            Ok(xs)
        },
        Some(v) => {
            let given = match v {
                Value::Array(items) => match parse_language_seq(items, key) {
                    Ok(xs) => FlattenedVec::Vec(xs),
                    Err(e) => {
                        return Err(e);
                    },
                },
                Value::String(_) => match parse_language(v, key) {
                    Ok(x) => FlattenedVec::Singleton(x),
                    Err(e) => {
                        return Err(e);
                    },
                },
                _ => {
                    return Err(wrong_shape(key, shapes2(Shape::String, Shape::Array), v));
                },
            };
            let xs = given.into_vec();
            proof {
                if v is String {
                    assert(texts_of(xs@) =~= seq![v->String_0@]);
                }
            }
            Ok(xs)
        },
    }
}

/// Writes a field of languages that may be cut short.
pub fn make_language_flat(xs: &Vec<String>) -> (r: Option<Value>)
    ensures
        opt_doc(r) == write_language_flat(texts_of(xs@)),
{
    collapse(language_values(xs))
}

/// What the items of a sequence give is well formed.
pub proof fn lemma_decode_language_seq_wf(items: Seq<Doc>, field: Seq<char>)
    ensures
        decode_language_seq(items, field) matches Ok(xs) ==> languages_wf(xs),
    decreases items.len(),
{
    if items.len() > 0 {
        lemma_decode_language_seq_wf(items.drop_last(), field);
        if let Ok(init) = decode_language_seq(items.drop_last(), field) {
            if let Ok(x) = decode_language(items.last(), field) {
                let xs = init.push(x);
                assert forall|i: int| 0 <= i < xs.len() implies language_wf(#[trigger] xs[i]) by {
                    if i < init.len() {
                        assert(xs[i] == init[i]);
                    }
                }
            }
        }
    }
}

/// What a list field gives is well formed.
pub proof fn lemma_read_language_list_wf(m: Seq<(Seq<char>, Doc)>, key: Seq<char>)
    ensures
        read_language_list(m, key) matches Ok(xs) ==> languages_wf(xs),
{
    if let Some(Doc::Array(items)) = lookup(m, key) {
        lemma_decode_language_seq_wf(items, key);
    }
}

/// What a field gives that may be cut short is well formed.
pub proof fn lemma_read_language_flat_wf(m: Seq<(Seq<char>, Doc)>, key: Seq<char>)
    ensures
        read_language_flat(m, key) matches Ok(xs) ==> languages_wf(xs),
{
    if let Some(Doc::Array(items)) = lookup(m, key) {
        lemma_decode_language_seq_wf(items, key);
    }
}

/// A run of languages written and read again is the same run.
pub proof fn lemma_language_seq_round_trip(xs: Seq<Seq<char>>, field: Seq<char>)
    requires
        languages_wf(xs),
    ensures
        decode_language_seq(encode_language_seq(xs), field) == Ok::<Seq<Seq<char>>, Fault>(xs),
    decreases xs.len(),
{
    if xs.len() > 0 {
        let docs = encode_language_seq(xs);
        assert(docs.drop_last() =~= encode_language_seq(xs.drop_last()));
        lemma_language_seq_round_trip(xs.drop_last(), field);
        assert(language_wf(xs.last()));
        assert(xs.drop_last().push(xs.last()) =~= xs);
    } else {
        assert(xs =~= Seq::<Seq<char>>::empty());
    }
}

/// A list field of languages that is written and read again holds the same
/// languages.
pub proof fn lemma_language_list_round_trip(
    xs: Seq<Seq<char>>,
    m: Seq<(Seq<char>, Doc)>,
    key: Seq<char>,
)
    requires
        languages_wf(xs),
        lookup(m, key) == write_language_list(xs),
    ensures
        read_language_list(m, key) == Ok::<Seq<Seq<char>>, Fault>(xs),
{
    if xs.len() == 0 {
        assert(xs =~= Seq::<Seq<char>>::empty());
    } else {
        lemma_language_seq_round_trip(xs, key);
    }
}

/// A field of languages that may be cut short holds the same languages
/// when it is written and read again.
pub proof fn lemma_language_flat_round_trip(
    xs: Seq<Seq<char>>,
    m: Seq<(Seq<char>, Doc)>,
    key: Seq<char>,
)
    requires
        languages_wf(xs),
        lookup(m, key) == write_language_flat(xs),
    ensures
        read_language_flat(m, key) == Ok::<Seq<Seq<char>>, Fault>(xs),
{
    if xs.len() == 0 {
        assert(xs =~= Seq::<Seq<char>>::empty());
    } else if xs.len() == 1 {
        assert(language_wf(xs[0]));
        assert(seq![xs[0]] =~= xs);
    } else {
        lemma_language_seq_round_trip(xs, key);
    }
}

} // verus!
