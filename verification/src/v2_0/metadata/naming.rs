//! Alternate identifiers, and the reservation of text and data mining.
use vstd::prelude::*;
use crate::error::{
    Fault, ParseError, flat_named_shapes, mismatch, named_shapes, parsed, record_shapes,
};
use crate::helpers::{
    FlattenedVec, StringyObject, collapse, collapsed, get_text, make_text, read_text, shapes1,
    shapes2, shapes3, write_text, wrong_shape,
};
use crate::text::{copy_opt_text, opt_text};
use crate::v2_0::metadata::identifier::{
    get_opt_url, lemma_read_opt_url_wf, make_opt_url, opt_url_wf, read_opt_url, write_opt_url,
};
use crate::v2_0::metadata::presentation::{
    Reservation, get_reservation, lemma_reservation_round_trip, make_reservation,
    read_reservation, write_reservation,
};
use crate::v2_0::spelling::{spell_policy, spell_reservation, spell_scheme, spell_value};
use crate::value::{
    Doc, MAX_DEPTH, Shape, Value, depth, docs_of, index_of, lemma_index_of,
    lemma_lookup_after_put, lemma_lookup_empty, lemma_lookup_index, lookup, members_of, opt_doc,
    position, put, put_member, shape_of,
};
use vstd::std_specs::convert::FromSpecImpl;

verus! {

/// An alternate identifier for a resource.
#[derive(Debug, PartialEq, Eq)]
pub struct AltIdentifier {
    /// The identifier, as it is written.
    pub value: String,
    /// The scheme that the identifier follows, as the canonical text of a URL.
    pub scheme: Option<String>,
}

/// The mathematical model of an alternate identifier.
pub struct AltIdentifierView {
    pub value: Seq<char>,
    pub scheme: Option<Seq<char>>,
}

/// The model of an alternate identifier.
pub open spec fn alt_identifier_view(x: AltIdentifier) -> AltIdentifierView {
    AltIdentifierView {
        value: x.value@,
        scheme: opt_text(x.scheme),
    }
}

impl View for AltIdentifier {
    type V = AltIdentifierView;

    open spec fn view(&self) -> AltIdentifierView {
        alt_identifier_view(*self)
    }
}

/// An alternate identifier is well formed when everything it holds is.
pub open spec fn alt_identifier_wf(x: AltIdentifierView) -> bool {
    &&& opt_url_wf(x.scheme)
}

/// The alternate identifier made from its value, with nothing else in it.
pub open spec fn alt_identifier_new(value: Seq<char>) -> AltIdentifierView {
    AltIdentifierView {
        value,
        scheme: None,
    }
}

/// The members that an alternate identifier is written as: one for each field
/// that holds something, in the order of the fields.
pub open spec fn alt_identifier_members(x: AltIdentifierView) -> Seq<(Seq<char>, Doc)> {
    let m = Seq::<(Seq<char>, Doc)>::empty();
    let m = put(m, "value"@, write_text(x.value));
    let m = put(m, "scheme"@, write_opt_url(x.scheme));
    m
}

/// The written form of an alternate identifier: always the full object.
pub open spec fn encode_alt_identifier(x: AltIdentifierView) -> Doc {
    Doc::Object(alt_identifier_members(x))
}

/// The alternate identifier that the members of an object stand for, or the
/// error of the first field, in the order of the fields, that cannot be read.
pub open spec fn alt_identifier_from_members(
    m: Seq<(Seq<char>, Doc)>,
) -> Result<AltIdentifierView, Fault> {
    let value = read_text(m, "value"@);
    let scheme = read_opt_url(m, "scheme"@);
    if value is Err {
        Err(value->Err_0)
    } else if scheme is Err {
        Err(scheme->Err_0)
    } else {
        Ok(AltIdentifierView {
            value: value->Ok_0,
            scheme: scheme->Ok_0,
        })
    }
}

/// The alternate identifier that a value stands for: an object, or the text
/// that is its value.
pub open spec fn decode_alt_identifier(
    d: Doc,
    field: Seq<char>,
) -> Result<AltIdentifierView, Fault> {
    match d {
        Doc::Object(m) => alt_identifier_from_members(m),
        Doc::String(s) => Ok(alt_identifier_new(s)),
        _ => Err(mismatch(field, named_shapes(), shape_of(d))),
    }
}

/// What reading a whole document as an alternate identifier gives: an error
/// where arrays and objects nest more deeply than the ceiling.
pub open spec fn alt_identifier_from_doc(d: Doc) -> Result<AltIdentifierView, Fault> {
    if depth(d) > MAX_DEPTH {
        Err(Fault::RecursionLimitExceeded(MAX_DEPTH))
    } else {
        decode_alt_identifier(d, ""@)
    }
}

impl AltIdentifier {
    /// The alternate identifier of that value, under no scheme.
    pub fn new(value: String) -> (r: AltIdentifier)
        ensures
            r@ == alt_identifier_new(value@),
            alt_identifier_wf(r@),
    {
        AltIdentifier {
            value,
            scheme: None,
        }
    }

    /// Reads an alternate identifier from the members of an object.
    pub fn from_members(members: &Vec<(String, Value)>) -> (r: Result<AltIdentifier, ParseError>)
        ensures
            parsed(r) == alt_identifier_from_members(members_of(members@)),
            r matches Ok(x) ==> alt_identifier_wf(x@),
    {
        let value = match get_text(members, "value") {
            Ok(x) => x,
            Err(e) => {
                return Err(e);
            },
        };
        let scheme = match get_opt_url(members, "scheme") {
            Ok(x) => x,
            Err(e) => {
                return Err(e);
            },
        };
        Ok(AltIdentifier { value, scheme })
    }

    /// Reads an alternate identifier from a value found under `field`.
    pub fn parse(v: &Value, field: &str) -> (r: Result<AltIdentifier, ParseError>)
        ensures
            parsed(r) == decode_alt_identifier(v@, field@),
            r matches Ok(x) ==> alt_identifier_wf(x@),
    {
        let given = match v {
            Value::Object(members) => {
                match AltIdentifier::from_members(members) {
                    Ok(x) => StringyObject::Object(x),
                    Err(e) => {
                        return Err(e);
                    },
                }
            },
            Value::String(s) => StringyObject::String(s.clone()),
            _ => {
                return Err(wrong_shape(field, shapes2(Shape::String, Shape::Object), v));
            },
        };
        Ok(given.into_inner())
    }

    /// Reads a whole document as an alternate identifier. A document in which
    /// arrays and objects nest more deeply than [`MAX_DEPTH`] is refused before
    /// anything is read from it.
    pub fn from_value(v: &Value) -> (r: Result<AltIdentifier, ParseError>)
        ensures
            parsed(r) == alt_identifier_from_doc(v@),
            r matches Ok(x) ==> alt_identifier_wf(x@),
    {
        if !v.within_depth(MAX_DEPTH) {
            return Err(ParseError::RecursionLimitExceeded(MAX_DEPTH));
        }
        AltIdentifier::parse(v, "")
    }

    /// Writes the members of this alternate identifier.
    pub fn to_members(&self) -> (members: Vec<(String, Value)>)
        ensures
            members_of(members@) == alt_identifier_members(self@),
    {
        let mut m: Vec<(String, Value)> = Vec::new();
        assert(members_of(m@) =~= Seq::<(Seq<char>, Doc)>::empty());
        put_member(&mut m, "value", make_text(&self.value));
        put_member(&mut m, "scheme", make_opt_url(&self.scheme));
        m
    }

    /// Writes this alternate identifier as a value: always the full object.
    pub fn to_value(&self) -> (v: Value)
        ensures
            v@ == encode_alt_identifier(self@),
    {
        Value::Object(self.to_members())
    }
}

/// A copy of an alternate identifier.
pub(crate) fn copy_alt_identifier(x: &AltIdentifier) -> (r: AltIdentifier)
    ensures
        r@ == x@,
{
    AltIdentifier {
        value: x.value.clone(),
        scheme: copy_opt_text(&x.scheme),
    }
}

impl Clone for AltIdentifier {
    /// A copy that holds the same.
    fn clone(&self) -> (r: AltIdentifier)
        ensures
            r@ == self@,
    {
        copy_alt_identifier(self)
    }
}

impl FromSpecImpl<String> for AltIdentifier {
    open spec fn obeys_from_spec() -> bool {
        false
    }

    open spec fn from_spec(value: String) -> Self {
        arbitrary()
    }
}

impl From<String> for AltIdentifier {
    /// The alternate identifier that has the text as its value, under no
    /// scheme.
    fn from(value: String) -> (r: AltIdentifier)
        ensures
            r@ == alt_identifier_new(value@),
            alt_identifier_wf(r@),
    {
        AltIdentifier::new(value)
    }
}

/// In the written form of an alternate identifier, each field's name leads to
/// what that field wrote.
pub proof fn lemma_alt_identifier_members(x: AltIdentifierView)
    ensures
        lookup(alt_identifier_members(x), "value"@) == write_text(x.value),
        lookup(alt_identifier_members(x), "scheme"@) == write_opt_url(x.scheme),
{
    broadcast use {lemma_lookup_after_put, lemma_lookup_empty};
    spell_value();
    spell_scheme();
}

/// An alternate identifier that is well formed, written and read again, is the
/// same alternate identifier.
pub proof fn lemma_alt_identifier_round_trip(x: AltIdentifierView, field: Seq<char>)
    requires
        alt_identifier_wf(x),
    ensures
        decode_alt_identifier(encode_alt_identifier(x), field) == Ok::<AltIdentifierView, Fault>(x),
{
    lemma_alt_identifier_members(x);
    let m = alt_identifier_members(x);
    assert(read_text(m, "value"@) == Ok::<Seq<char>, Fault>(x.value));
    assert(read_opt_url(m, "scheme"@) == Ok::<Option<Seq<char>>, Fault>(x.scheme));
}

/// What the members of an object give as an alternate identifier is well
/// formed.
pub proof fn lemma_alt_identifier_from_members_wf(m: Seq<(Seq<char>, Doc)>)
    ensures
        alt_identifier_from_members(m) matches Ok(x) ==> alt_identifier_wf(x),
{
    lemma_read_opt_url_wf(m, "scheme"@);
}

/// What is read as an alternate identifier is well formed.
pub proof fn lemma_decode_alt_identifier_wf(d: Doc, field: Seq<char>)
    ensures
        decode_alt_identifier(d, field) matches Ok(x) ==> alt_identifier_wf(x),
{
    if let Doc::Object(m) = d {
        lemma_alt_identifier_from_members_wf(m);
    }
}

/// An alternate identifier that was read, in whatever spelling, is read again
/// as the same alternate identifier from its written form.
pub proof fn lemma_alt_identifier_reread(d: Doc, field: Seq<char>)
    ensures
        decode_alt_identifier(d, field) matches Ok(x)
            ==> decode_alt_identifier(encode_alt_identifier(x), field)
                == Ok::<AltIdentifierView, Fault>(x),
{
    lemma_decode_alt_identifier_wf(d, field);
    if let Ok(x) = decode_alt_identifier(d, field) {
        lemma_alt_identifier_round_trip(x, field);
    }
}

/// An alternate identifier that is well formed and whose written form nests no
/// more deeply than the ceiling is read back whole from that form.
pub proof fn lemma_alt_identifier_doc_round_trip(x: AltIdentifierView)
    requires
        alt_identifier_wf(x),
        depth(encode_alt_identifier(x)) <= MAX_DEPTH,
    ensures
        alt_identifier_from_doc(encode_alt_identifier(x)) == Ok::<AltIdentifierView, Fault>(x),
{
    lemma_alt_identifier_round_trip(x, ""@);
}

/// Information about whether text and data mining is permitted for this
/// publication.
#[derive(Debug, PartialEq, Eq)]
pub struct DataMining {
    /// What is reserved.
    pub reservation: Reservation,
    /// Where the policy is stated, as the canonical text of a URL.
    pub policy: Option<String>,
}

/// The mathematical model of a data mining record.
pub struct DataMiningView {
    pub reservation: Reservation,
    pub policy: Option<Seq<char>>,
}

/// The model of a data mining record.
pub open spec fn data_mining_view(x: DataMining) -> DataMiningView {
    DataMiningView {
        reservation: x.reservation,
        policy: opt_text(x.policy),
    }
}

impl View for DataMining {
    type V = DataMiningView;

    open spec fn view(&self) -> DataMiningView {
        data_mining_view(*self)
    }
}

/// A data mining record is well formed when everything it holds is.
pub open spec fn data_mining_wf(x: DataMiningView) -> bool {
    &&& opt_url_wf(x.policy)
}

/// The members that a data mining record is written as: one for each field that
/// holds something, in the order of the fields.
pub open spec fn data_mining_members(x: DataMiningView) -> Seq<(Seq<char>, Doc)> {
    let m = Seq::<(Seq<char>, Doc)>::empty();
    let m = put(m, "reservation"@, write_reservation(x.reservation));
    let m = put(m, "policy"@, write_opt_url(x.policy));
    m
}

/// The written form of a data mining record: always the full object.
pub open spec fn encode_data_mining(x: DataMiningView) -> Doc {
    Doc::Object(data_mining_members(x))
}

/// The data mining record that the members of an object stand for, or the error
/// of the first field, in the order of the fields, that cannot be read.
pub open spec fn data_mining_from_members(
    m: Seq<(Seq<char>, Doc)>,
) -> Result<DataMiningView, Fault> {
    let reservation = read_reservation(m, "reservation"@);
    let policy = read_opt_url(m, "policy"@);
    if reservation is Err {
        Err(reservation->Err_0)
    } else if policy is Err {
        Err(policy->Err_0)
    } else {
        Ok(DataMiningView {
            reservation: reservation->Ok_0,
            policy: policy->Ok_0,
        })
    }
}

/// The data mining record that a value stands for: an object.
pub open spec fn decode_data_mining(d: Doc, field: Seq<char>) -> Result<DataMiningView, Fault> {
    match d {
        Doc::Object(m) => data_mining_from_members(m),
        _ => Err(mismatch(field, record_shapes(), shape_of(d))),
    }
}

/// What reading a whole document as a data mining record gives: an error where
/// arrays and objects nest more deeply than the ceiling.
pub open spec fn data_mining_from_doc(d: Doc) -> Result<DataMiningView, Fault> {
    if depth(d) > MAX_DEPTH {
        Err(Fault::RecursionLimitExceeded(MAX_DEPTH))
    } else {
        decode_data_mining(d, ""@)
    }
}

impl DataMining {
    /// Reads a data mining record from the members of an object.
    pub fn from_members(members: &Vec<(String, Value)>) -> (r: Result<DataMining, ParseError>)
        ensures
            parsed(r) == data_mining_from_members(members_of(members@)),
            r matches Ok(x) ==> data_mining_wf(x@),
    {
        let reservation = match get_reservation(members, "reservation") {
            Ok(x) => x,
            Err(e) => {
                return Err(e);
            },
        };
        let policy = match get_opt_url(members, "policy") {
            Ok(x) => x,
            Err(e) => {
                return Err(e);
            },
        };
        Ok(DataMining { reservation, policy })
    }

    /// Reads a data mining record from a value found under `field`.
    pub fn parse(v: &Value, field: &str) -> (r: Result<DataMining, ParseError>)
        ensures
            parsed(r) == decode_data_mining(v@, field@),
            r matches Ok(x) ==> data_mining_wf(x@),
    {
        match v {
            Value::Object(members) => {
                DataMining::from_members(members)
            },
            _ => Err(wrong_shape(field, shapes1(Shape::Object), v)),
        }
    }

    /// Reads a whole document as a data mining record. A document in which
    /// arrays and objects nest more deeply than [`MAX_DEPTH`] is refused before
    /// anything is read from it.
    pub fn from_value(v: &Value) -> (r: Result<DataMining, ParseError>)
        ensures
            parsed(r) == data_mining_from_doc(v@),
            r matches Ok(x) ==> data_mining_wf(x@),
    {
        if !v.within_depth(MAX_DEPTH) {
            return Err(ParseError::RecursionLimitExceeded(MAX_DEPTH));
        }
        DataMining::parse(v, "")
    }

    /// Writes the members of this data mining record.
    pub fn to_members(&self) -> (members: Vec<(String, Value)>)
        ensures
            members_of(members@) == data_mining_members(self@),
    {
        let mut m: Vec<(String, Value)> = Vec::new();
        assert(members_of(m@) =~= Seq::<(Seq<char>, Doc)>::empty());
        put_member(&mut m, "reservation", make_reservation(self.reservation));
        put_member(&mut m, "policy", make_opt_url(&self.policy));
        m
    }

    /// Writes this data mining record as a value: always the full object.
    pub fn to_value(&self) -> (v: Value)
        ensures
            v@ == encode_data_mining(self@),
    {
        Value::Object(self.to_members())
    }
}

/// A copy of a data mining record.
pub(crate) fn copy_data_mining(x: &DataMining) -> (r: DataMining)
    ensures
        r@ == x@,
{
    DataMining {
        reservation: x.reservation,
        policy: copy_opt_text(&x.policy),
    }
}

impl Clone for DataMining {
    /// A copy that holds the same.
    fn clone(&self) -> (r: DataMining)
        ensures
            r@ == self@,
    {
        copy_data_mining(self)
    }
}

/// In the written form of a data mining record, each field's name leads to what
/// that field wrote.
pub proof fn lemma_data_mining_members(x: DataMiningView)
    ensures
        lookup(data_mining_members(x), "reservation"@) == write_reservation(x.reservation),
        lookup(data_mining_members(x), "policy"@) == write_opt_url(x.policy),
{
    broadcast use {lemma_lookup_after_put, lemma_lookup_empty};
    spell_reservation();
    spell_policy();
}

/// A data mining record that is well formed, written and read again, is the
/// same data mining record.
pub proof fn lemma_data_mining_round_trip(x: DataMiningView, field: Seq<char>)
    requires
        data_mining_wf(x),
    ensures
        decode_data_mining(encode_data_mining(x), field) == Ok::<DataMiningView, Fault>(x),
{
    lemma_data_mining_members(x);
    let m = data_mining_members(x);
    assert(read_reservation(m, "reservation"@) == Ok::<Reservation, Fault>(x.reservation)) by {
        lemma_reservation_round_trip(x.reservation);
    }
    assert(read_opt_url(m, "policy"@) == Ok::<Option<Seq<char>>, Fault>(x.policy));
}

/// What the members of an object give as a data mining record is well formed.
pub proof fn lemma_data_mining_from_members_wf(m: Seq<(Seq<char>, Doc)>)
    ensures
        data_mining_from_members(m) matches Ok(x) ==> data_mining_wf(x),
{
    lemma_read_opt_url_wf(m, "policy"@);
}

/// What is read as a data mining record is well formed.
pub proof fn lemma_decode_data_mining_wf(d: Doc, field: Seq<char>)
    ensures
        decode_data_mining(d, field) matches Ok(x) ==> data_mining_wf(x),
{
    if let Doc::Object(m) = d {
        lemma_data_mining_from_members_wf(m);
    }
}

/// A data mining record that was read, in whatever spelling, is read again as
/// the same data mining record from its written form.
pub proof fn lemma_data_mining_reread(d: Doc, field: Seq<char>)
    ensures
        decode_data_mining(d, field) matches Ok(x)
            ==> decode_data_mining(encode_data_mining(x), field) == Ok::<DataMiningView, Fault>(x),
{
    lemma_decode_data_mining_wf(d, field);
    if let Ok(x) = decode_data_mining(d, field) {
        lemma_data_mining_round_trip(x, field);
    }
}

/// A data mining record that is well formed and whose written form nests no
/// more deeply than the ceiling is read back whole from that form.
pub proof fn lemma_data_mining_doc_round_trip(x: DataMiningView)
    requires
        data_mining_wf(x),
        depth(encode_data_mining(x)) <= MAX_DEPTH,
    ensures
        data_mining_from_doc(encode_data_mining(x)) == Ok::<DataMiningView, Fault>(x),
{
    lemma_data_mining_round_trip(x, ""@);
}

/// The models of a run of alternate identifiers.
pub open spec fn alt_identifier_views(xs: Seq<AltIdentifier>) -> Seq<AltIdentifierView> {
    Seq::new(
        xs.len(),
        |i: int|
            if 0 <= i < xs.len() {
                alt_identifier_view(xs[i])
            } else {
                arbitrary()
            },
    )
}

/// Whether every alternate identifier of a run is well formed.
pub open spec fn alt_identifier_seq_wf(xs: Seq<AltIdentifierView>) -> bool {
    forall|i: int| 0 <= i < xs.len() ==> alt_identifier_wf((#[trigger] xs[i]))
}

/// The alternate identifiers that the items of a sequence stand for, or the
/// error of the first item that stands for none.
pub open spec fn decode_alt_identifier_seq(
    items: Seq<Doc>,
    field: Seq<char>,
) -> Result<Seq<AltIdentifierView>, Fault>
    decreases items.len(),
{
    if items.len() == 0 {
        Ok(Seq::empty())
    } else {
        match decode_alt_identifier_seq(items.drop_last(), field) {
            Err(e) => Err(e),
            Ok(init) => match decode_alt_identifier(items.last(), field) {
                Err(e) => Err(e),
                Ok(x) => Ok(init.push(x)),
            },
        }
    }
}

/// The written forms of a run of alternate identifiers.
pub open spec fn encode_alt_identifier_seq(xs: Seq<AltIdentifierView>) -> Seq<Doc> {
    Seq::new(
        xs.len(),
        |i: int|
            if 0 <= i < xs.len() {
                encode_alt_identifier(xs[i])
            } else {
                Doc::Null
            },
    )
}

/// Where the items before `i` can be read and item `i` cannot, the
/// sequence gives the error of item `i`.
pub proof fn lemma_alt_identifier_seq_fails(items: Seq<Doc>, field: Seq<char>, i: int)
    requires
        0 <= i < items.len(),
        decode_alt_identifier_seq(items.take(i), field) is Ok,
        decode_alt_identifier(items[i], field) is Err,
    ensures
        decode_alt_identifier_seq(items, field)
            == Err::<Seq<AltIdentifierView>, Fault>(decode_alt_identifier(items[i], field)->Err_0),
    decreases items.len(),
{
    if i == items.len() - 1 {
        assert(items.take(i) =~= items.drop_last());
    } else {
        assert(items.drop_last().take(i) =~= items.take(i));
        lemma_alt_identifier_seq_fails(items.drop_last(), field, i);
    }
}

/// Reads the items of a sequence as alternate identifiers.
pub fn parse_alt_identifier_seq(
    items: &Vec<Value>,
    field: &str,
) -> (r: Result<Vec<AltIdentifier>, ParseError>)
    ensures
        match r {
            Ok(xs) => decode_alt_identifier_seq(docs_of(items@), field@)
                == Ok::<Seq<AltIdentifierView>, Fault>(alt_identifier_views(xs@)),
            Err(e) => decode_alt_identifier_seq(docs_of(items@), field@)
                == Err::<Seq<AltIdentifierView>, Fault>(e@),
        },
        r matches Ok(xs) ==> alt_identifier_seq_wf(alt_identifier_views(xs@)),
{
    let mut out: Vec<AltIdentifier> = Vec::new();
    let mut i: usize = 0;
    proof {
        assert(alt_identifier_views(out@) =~= Seq::<AltIdentifierView>::empty());
    }
    while i < items.len()
        invariant
            i <= items.len(),
            decode_alt_identifier_seq(docs_of(items@).take(i as int), field@)
                == Ok::<Seq<AltIdentifierView>, Fault>(
                alt_identifier_views(out@),
            ),
            alt_identifier_seq_wf(alt_identifier_views(out@)),
        decreases items.len() - i,
    {
        let ghost all = docs_of(items@);
        let ghost before = out@;
        proof {
            assert(all.take(i + 1).drop_last() =~= all.take(i as int));
            assert(all.take(i + 1).last() == items@[i as int]@);
        }
        match AltIdentifier::parse(&items[i], field) {
            Ok(x) => {
                let ghost one = alt_identifier_view(x);
                out.push(x);
                proof {
                    assert(alt_identifier_views(out@) =~= alt_identifier_views(before).push(one));
                }
            },
            Err(e) => {
                proof {
                    lemma_alt_identifier_seq_fails(all, field@, i as int);
                }
                return Err(e);
            },
        }
        i += 1;
    }
    proof {
        assert(docs_of(items@).take(i as int) =~= docs_of(items@));
    }
    Ok(out)
}

/// Writes a run of alternate identifiers.
pub fn emit_alt_identifier_seq(xs: &Vec<AltIdentifier>) -> (out: Vec<Value>)
    ensures
        docs_of(out@) == encode_alt_identifier_seq(alt_identifier_views(xs@)),
{
    let mut out: Vec<Value> = Vec::new();
    let mut i: usize = 0;
    while i < xs.len()
        invariant
            i <= xs.len(),
            out@.len() == i,
            forall|j: int| 0 <= j < i
                ==> (#[trigger] out@[j])@ == encode_alt_identifier(alt_identifier_view(xs@[j])),
        decreases xs.len() - i,
    {
        out.push(xs[i].to_value());
        i += 1;
    }
    proof {
        assert(docs_of(out@) =~= encode_alt_identifier_seq(alt_identifier_views(xs@)));
    }
    out
}

/// A run of well-formed alternate identifiers written and read again is the
/// same run.
pub proof fn lemma_alt_identifier_seq_round_trip(xs: Seq<AltIdentifierView>, field: Seq<char>)
    requires
        alt_identifier_seq_wf(xs),
    ensures
        decode_alt_identifier_seq(encode_alt_identifier_seq(xs), field)
            == Ok::<Seq<AltIdentifierView>, Fault>(xs),
    decreases xs.len(),
{
    if xs.len() > 0 {
        let docs = encode_alt_identifier_seq(xs);
        assert(docs.drop_last() =~= encode_alt_identifier_seq(xs.drop_last()));
        assert(alt_identifier_seq_wf(xs.drop_last())) by {
            assert forall|i: int| 0 <= i < xs.drop_last().len()
                implies alt_identifier_wf((#[trigger] xs.drop_last()[i])) by {
                assert(xs.drop_last()[i] == xs[i]);
            }
        }
        lemma_alt_identifier_seq_round_trip(xs.drop_last(), field);
        assert(alt_identifier_wf(xs.last()));
        lemma_alt_identifier_round_trip(xs.last(), field);
        assert(xs.drop_last().push(xs.last()) =~= xs);
    } else {
        assert(xs =~= Seq::<AltIdentifierView>::empty());
    }
}

/// A copy of a run of alternate identifiers.
pub(crate) fn copy_alt_identifier_seq(xs: &Vec<AltIdentifier>) -> (out: Vec<AltIdentifier>)
    ensures
        alt_identifier_views(out@) == alt_identifier_views(xs@),
{
    let mut out: Vec<AltIdentifier> = Vec::new();
    let mut i: usize = 0;
    while i < xs.len()
        invariant
            i <= xs.len(),
            out@.len() == i,
            forall|j: int| 0 <= j < i
                ==> alt_identifier_view((#[trigger] out@[j])) == alt_identifier_view(xs@[j]),
        decreases xs.len() - i,
    {
        out.push(copy_alt_identifier(&xs[i]));
        i += 1;
    }
    proof {
        assert(alt_identifier_views(out@) =~= alt_identifier_views(xs@));
    }
    out
}

/// What the items of a sequence give as alternate identifiers is well formed.
pub proof fn lemma_decode_alt_identifier_seq_wf(items: Seq<Doc>, field: Seq<char>)
    ensures
        decode_alt_identifier_seq(items, field) matches Ok(xs) ==> alt_identifier_seq_wf(xs),
    decreases items.len(),
{
    if items.len() > 0 {
        lemma_decode_alt_identifier_seq_wf(items.drop_last(), field);
        lemma_decode_alt_identifier_wf(items.last(), field);
        if let Ok(init) = decode_alt_identifier_seq(items.drop_last(), field) {
            if let Ok(x) = decode_alt_identifier(items.last(), field) {
                let xs = init.push(x);
                assert forall|i: int| 0 <= i < xs.len()
                    implies alt_identifier_wf((#[trigger] xs[i])) by {
                    if i < init.len() {
                        assert(xs[i] == init[i]);
                    }
                }
            }
        }
    }
}

/// What a field of alternate identifiers gives that may be written as one bare
/// alternate identifier is well formed.
pub proof fn lemma_read_alt_identifier_flat_wf(m: Seq<(Seq<char>, Doc)>, key: Seq<char>)
    ensures
        read_alt_identifier_flat(m, key) matches Ok(xs) ==> alt_identifier_seq_wf(xs),
{
    lemma_index_of(m, key);
    let i = index_of(m, key);
    if 0 <= i < m.len() {
        if let Doc::Array(items) = m[i].1 {
            lemma_decode_alt_identifier_seq_wf(items, key);
        } else {
            lemma_decode_alt_identifier_wf(m[i].1, key);
        }
    }
}

/// What a field of alternate identifiers holds that may be written as one bare
/// alternate identifier: nothing where it is absent, the items of a sequence,
/// or the one alternate identifier that stands there.
pub open spec fn read_alt_identifier_flat(
    m: Seq<(Seq<char>, Doc)>,
    key: Seq<char>,
) -> Result<Seq<AltIdentifierView>, Fault> {
    let i = index_of(m, key);
    if 0 <= i < m.len() {
        match m[i].1 {
            Doc::Array(items) => decode_alt_identifier_seq(items, key),
            _ => if shape_of(m[i].1) == Shape::String || shape_of(m[i].1) == Shape::Object {
                match decode_alt_identifier(m[i].1, key) {
                    Ok(x) => Ok(seq![x]),
                    Err(e) => Err(e),
                }
            } else {
                Err(mismatch(key, flat_named_shapes(), shape_of(m[i].1)))
            },
        }
    } else {
        Ok(Seq::empty())
    }
}

/// The written form of such a field: left out where the list is empty,
/// the bare alternate identifier where there is one, a sequence otherwise.
pub open spec fn write_alt_identifier_flat(xs: Seq<AltIdentifierView>) -> Option<Doc> {
    collapsed(encode_alt_identifier_seq(xs))
}

/// Reads a field of alternate identifiers that may be written as one bare
/// alternate identifier.
pub fn get_alt_identifier_flat(
    members: &Vec<(String, Value)>,
    key: &str,
) -> (r: Result<Vec<AltIdentifier>, ParseError>)
    ensures
        match r {
            Ok(xs) => read_alt_identifier_flat(members_of(members@), key@)
                == Ok::<Seq<AltIdentifierView>, Fault>(alt_identifier_views(xs@)),
            Err(e) => read_alt_identifier_flat(members_of(members@), key@)
                == Err::<Seq<AltIdentifierView>, Fault>(e@),
        },
        r matches Ok(xs) ==> alt_identifier_seq_wf(alt_identifier_views(xs@)),
{
    match position(members, key) {
        None => {
            let xs: Vec<AltIdentifier> = Vec::new();
            proof {
                assert(alt_identifier_views(xs@) =~= Seq::<AltIdentifierView>::empty());
            }
            Ok(xs)
        },
        Some(i) => {
            proof {
                assert(members_of(members@)[i as int].1 == members@[i as int].1@);
            }
            match &members[i].1 {
                Value::Array(items) => {
                    match parse_alt_identifier_seq(items, key) {
                        Ok(xs) => Ok(FlattenedVec::Vec(xs).into_vec()),
                        Err(e) => Err(e),
                    }
                },
                v => {
                    let shape = v.shape();
                    if shape == Shape::String || shape == Shape::Object {
                        match AltIdentifier::parse(v, key) {
                            Ok(x) => {
                                let ghost one = alt_identifier_view(x);
                                let xs = FlattenedVec::Singleton(x).into_vec();
                                proof {
                                    assert(alt_identifier_views(xs@) =~= seq![one]);
                                }
                                Ok(xs)
                            },
                            Err(e) => Err(e),
                        }
                    } else {
                        Err(wrong_shape(key, shapes3(Shape::String, Shape::Object, Shape::Array), v))
                    }
                },
            }
        },
    }
}

/// Writes a field of alternate identifiers that may be cut short.
pub fn make_alt_identifier_flat(xs: &Vec<AltIdentifier>) -> (r: Option<Value>)
    ensures
        opt_doc(r) == write_alt_identifier_flat(alt_identifier_views(xs@)),
{
    collapse(emit_alt_identifier_seq(xs))
}

/// A field of well-formed alternate identifiers that may be cut short holds the
/// same alternate identifiers when it is written and read again.
pub proof fn lemma_alt_identifier_flat_round_trip(
    xs: Seq<AltIdentifierView>,
    m: Seq<(Seq<char>, Doc)>,
    key: Seq<char>,
)
    requires
        alt_identifier_seq_wf(xs),
        lookup(m, key) == write_alt_identifier_flat(xs),
    ensures
        read_alt_identifier_flat(m, key) == Ok::<Seq<AltIdentifierView>, Fault>(xs),
{
    lemma_lookup_index(m, key);
    if xs.len() == 0 {
        assert(xs =~= Seq::<AltIdentifierView>::empty());
    } else if xs.len() == 1 {
        assert(alt_identifier_wf(xs[0]));
        lemma_alt_identifier_round_trip(xs[0], key);
        assert(encode_alt_identifier_seq(xs)[0] == encode_alt_identifier(xs[0]));
        assert(seq![xs[0]] =~= xs);
    } else {
        lemma_alt_identifier_seq_round_trip(xs, key);
    }
}

/// The model of an optional data mining record.
pub open spec fn opt_data_mining(o: Option<DataMining>) -> Option<DataMiningView> {
    match o {
        Some(x) => Some(data_mining_view(x)),
        None => None,
    }
}

/// Whether an optional data mining record is well formed.
pub open spec fn opt_data_mining_wf(o: Option<DataMiningView>) -> bool {
    o matches Some(x) ==> data_mining_wf(x)
}

/// A copy of an optional data mining record.
pub(crate) fn copy_opt_data_mining(o: &Option<DataMining>) -> (r: Option<DataMining>)
    ensures
        opt_data_mining(r) == opt_data_mining(*o),
{
    match o {
        Some(x) => Some(copy_data_mining(x)),
        None => None,
    }
}

/// What a field gives that may be a data mining record is well formed.
pub proof fn lemma_read_opt_data_mining_wf(m: Seq<(Seq<char>, Doc)>, key: Seq<char>)
    ensures
        read_opt_data_mining(m, key) matches Ok(o) ==> opt_data_mining_wf(o),
{
    lemma_index_of(m, key);
    let i = index_of(m, key);
    if 0 <= i < m.len() {
        lemma_decode_data_mining_wf(m[i].1, key);
    }
}

/// What a field holds that may be a data mining record: nothing where it is
/// absent or null.
pub open spec fn read_opt_data_mining(
    m: Seq<(Seq<char>, Doc)>,
    key: Seq<char>,
) -> Result<Option<DataMiningView>, Fault> {
    let i = index_of(m, key);
    if 0 <= i < m.len() {
        if m[i].1 is Null {
            Ok(None)
        } else {
            match decode_data_mining(m[i].1, key) {
                Ok(x) => Ok(Some(x)),
                Err(e) => Err(e),
            }
        }
    } else {
        Ok(None)
    }
}

/// The written form of such a field: left out where there is nothing.
pub open spec fn write_opt_data_mining(o: Option<DataMiningView>) -> Option<Doc> {
    match o {
        Some(x) => Some(encode_data_mining(x)),
        None => None,
    }
}

/// Reads a field that may be a data mining record.
pub fn get_opt_data_mining(
    members: &Vec<(String, Value)>,
    key: &str,
) -> (r: Result<Option<DataMining>, ParseError>)
    ensures
        match r {
            Ok(o) => read_opt_data_mining(members_of(members@), key@)
                == Ok::<Option<DataMiningView>, Fault>(opt_data_mining(o)),
            Err(e) => read_opt_data_mining(members_of(members@), key@)
                == Err::<Option<DataMiningView>, Fault>(e@),
        },
        r matches Ok(o) ==> opt_data_mining_wf(opt_data_mining(o)),
{
    match position(members, key) {
        None => Ok(None),
        Some(i) => {
            proof {
                assert(members_of(members@)[i as int].1 == members@[i as int].1@);
            }
            match &members[i].1 {
                Value::Null => Ok(None),
                v => match DataMining::parse(v, key) {
                    Ok(x) => Ok(Some(x)),
                    Err(e) => Err(e),
                },
            }
        },
    }
}

/// Writes such a field.
pub fn make_opt_data_mining(o: &Option<DataMining>) -> (r: Option<Value>)
    ensures
        opt_doc(r) == write_opt_data_mining(opt_data_mining(*o)),
{
    match o {
        Some(x) => Some(x.to_value()),
        None => None,
    }
}

/// Such a field, written and read again, holds the same.
pub proof fn lemma_opt_data_mining_round_trip(
    o: Option<DataMiningView>,
    m: Seq<(Seq<char>, Doc)>,
    key: Seq<char>,
)
    requires
        opt_data_mining_wf(o),
        lookup(m, key) == write_opt_data_mining(o),
    ensures
        read_opt_data_mining(m, key) == Ok::<Option<DataMiningView>, Fault>(o),
{
    lemma_lookup_index(m, key);
    if let Some(x) = o {
        lemma_data_mining_round_trip(x, key);
    }
}

} // verus!
