//! What a link says of the resource it leads to: price, availability, holds and
//! copies.
use vstd::prelude::*;
use crate::error::{Fault, ParseError, list_shapes, mismatch, parsed, record_shapes};
use crate::helpers::{
    get_number, get_opt_natural, get_opt_text, get_text, listed, make_number, make_opt_natural,
    make_opt_text, make_text, plain, read_number, read_opt_natural, read_opt_text, read_text,
    shapes1, write_number, write_opt_natural, write_opt_text, write_text, wrong_shape,
};
use crate::text::{copy_opt_text, opt_text};
use crate::v2_0::metadata::presentation::{
    AvailabilityState, PageDisplay, get_availability_state, get_opt_page_display,
    lemma_availability_state_round_trip, lemma_page_display_round_trip, make_availability_state,
    make_opt_page_display, read_availability_state, read_opt_page_display,
    write_availability_state, write_opt_page_display,
};
use crate::v2_0::spelling::{
    spell_availability, spell_available, spell_child, spell_copies, spell_currency, spell_holds,
    spell_indirect_acquisition, spell_number_of_items, spell_page, spell_position, spell_price,
    spell_since, spell_state, spell_total, spell_type, spell_until, spell_value,
};
use crate::value::{
    Doc, MAX_DEPTH, Number, Shape, Value, depth, docs_of, index_of, lemma_index_of,
    lemma_lookup_after_put, lemma_lookup_empty, lemma_lookup_index, lookup, members_of, opt_doc,
    position, put, put_member, shape_of,
};

verus! {

/// The price of purchasing access to a publication from the acquisition link.
#[derive(Debug, PartialEq, Eq)]
pub struct Price {
    /// The number price for an acquisition, as the document gave it.
    pub value: Number,
    /// The unit of currency for the price value.
    pub currency: String,
}

/// The mathematical model of a price.
pub struct PriceView {
    pub value: Number,
    pub currency: Seq<char>,
}

/// The model of a price.
pub open spec fn price_view(x: Price) -> PriceView {
    PriceView {
        value: x.value,
        currency: x.currency@,
    }
}

impl View for Price {
    type V = PriceView;

    open spec fn view(&self) -> PriceView {
        price_view(*self)
    }
}

/// A price is well formed when everything it holds is.
pub open spec fn price_wf(x: PriceView) -> bool {
    true
}

/// The members that a price is written as: one for each field that holds
/// something, in the order of the fields.
pub open spec fn price_members(x: PriceView) -> Seq<(Seq<char>, Doc)> {
    let m = Seq::<(Seq<char>, Doc)>::empty();
    let m = put(m, "value"@, write_number(x.value));
    let m = put(m, "currency"@, write_text(x.currency));
    m
}

/// The written form of a price: always the full object.
pub open spec fn encode_price(x: PriceView) -> Doc {
    Doc::Object(price_members(x))
}

/// The price that the members of an object stand for, or the error of the first
/// field, in the order of the fields, that cannot be read.
pub open spec fn price_from_members(m: Seq<(Seq<char>, Doc)>) -> Result<PriceView, Fault> {
    let value = read_number(m, "value"@);
    let currency = read_text(m, "currency"@);
    if value is Err {
        Err(value->Err_0)
    } else if currency is Err {
        Err(currency->Err_0)
    } else {
        Ok(PriceView {
            value: value->Ok_0,
            currency: currency->Ok_0,
        })
    }
}

/// The price that a value stands for: an object.
pub open spec fn decode_price(d: Doc, field: Seq<char>) -> Result<PriceView, Fault> {
    match d {
        Doc::Object(m) => price_from_members(m),
        _ => Err(mismatch(field, record_shapes(), shape_of(d))),
    }
}

/// What reading a whole document as a price gives: an error where arrays and
/// objects nest more deeply than the ceiling.
pub open spec fn price_from_doc(d: Doc) -> Result<PriceView, Fault> {
    if depth(d) > MAX_DEPTH {
        Err(Fault::RecursionLimitExceeded(MAX_DEPTH))
    } else {
        decode_price(d, ""@)
    }
}

impl Price {
    /// Reads a price from the members of an object.
    pub fn from_members(members: &Vec<(String, Value)>) -> (r: Result<Price, ParseError>)
        ensures
            parsed(r) == price_from_members(members_of(members@)),
            r matches Ok(x) ==> price_wf(x@),
    {
        let value = match get_number(members, "value") {
            Ok(x) => x,
            Err(e) => {
                return Err(e);
            },
        };
        let currency = match get_text(members, "currency") {
            Ok(x) => x,
            Err(e) => {
                return Err(e);
            },
        };
        Ok(Price { value, currency })
    }

    /// Reads a price from a value found under `field`.
    pub fn parse(v: &Value, field: &str) -> (r: Result<Price, ParseError>)
        ensures
            parsed(r) == decode_price(v@, field@),
            r matches Ok(x) ==> price_wf(x@),
    {
        match v {
            Value::Object(members) => {
                Price::from_members(members)
            },
            _ => Err(wrong_shape(field, shapes1(Shape::Object), v)),
        }
    }

    /// Reads a whole document as a price. A document in which arrays and
    /// objects nest more deeply than [`MAX_DEPTH`] is refused before anything
    /// is read from it.
    pub fn from_value(v: &Value) -> (r: Result<Price, ParseError>)
        ensures
            parsed(r) == price_from_doc(v@),
            r matches Ok(x) ==> price_wf(x@),
    {
        if !v.within_depth(MAX_DEPTH) {
            return Err(ParseError::RecursionLimitExceeded(MAX_DEPTH));
        }
        Price::parse(v, "")
    }

    /// Writes the members of this price.
    pub fn to_members(&self) -> (members: Vec<(String, Value)>)
        ensures
            members_of(members@) == price_members(self@),
    {
        let mut m: Vec<(String, Value)> = Vec::new();
        assert(members_of(m@) =~= Seq::<(Seq<char>, Doc)>::empty());
        put_member(&mut m, "value", make_number(self.value));
        put_member(&mut m, "currency", make_text(&self.currency));
        m
    }

    /// Writes this price as a value: always the full object.
    pub fn to_value(&self) -> (v: Value)
        ensures
            v@ == encode_price(self@),
    {
        Value::Object(self.to_members())
    }
}

/// A copy of a price.
pub(crate) fn copy_price(x: &Price) -> (r: Price)
    ensures
        r@ == x@,
{
    Price {
        value: x.value,
        currency: x.currency.clone(),
    }
}

impl Clone for Price {
    /// A copy that holds the same.
    fn clone(&self) -> (r: Price)
        ensures
            r@ == self@,
    {
        copy_price(self)
    }
}

/// In the written form of a price, each field's name leads to what that field
/// wrote.
pub proof fn lemma_price_members(x: PriceView)
    ensures
        lookup(price_members(x), "value"@) == write_number(x.value),
        lookup(price_members(x), "currency"@) == write_text(x.currency),
{
    broadcast use {lemma_lookup_after_put, lemma_lookup_empty};
    spell_value();
    spell_currency();
}

/// A price that is well formed, written and read again, is the same price.
pub proof fn lemma_price_round_trip(x: PriceView, field: Seq<char>)
    requires
        price_wf(x),
    ensures
        decode_price(encode_price(x), field) == Ok::<PriceView, Fault>(x),
{
    lemma_price_members(x);
    let m = price_members(x);
    assert(read_number(m, "value"@) == Ok::<Number, Fault>(x.value));
    assert(read_text(m, "currency"@) == Ok::<Seq<char>, Fault>(x.currency));
}

/// What the members of an object give as a price is well formed.
pub proof fn lemma_price_from_members_wf(m: Seq<(Seq<char>, Doc)>)
    ensures
        price_from_members(m) matches Ok(x) ==> price_wf(x),
{
}

/// What is read as a price is well formed.
pub proof fn lemma_decode_price_wf(d: Doc, field: Seq<char>)
    ensures
        decode_price(d, field) matches Ok(x) ==> price_wf(x),
{
    if let Doc::Object(m) = d {
        lemma_price_from_members_wf(m);
    }
}

/// A price that was read, in whatever spelling, is read again as the same price
/// from its written form.
pub proof fn lemma_price_reread(d: Doc, field: Seq<char>)
    ensures
        decode_price(d, field) matches Ok(x)
            ==> decode_price(encode_price(x), field) == Ok::<PriceView, Fault>(x),
{
    lemma_decode_price_wf(d, field);
    if let Ok(x) = decode_price(d, field) {
        lemma_price_round_trip(x, field);
    }
}

/// A price that is well formed and whose written form nests no more deeply than
/// the ceiling is read back whole from that form.
pub proof fn lemma_price_doc_round_trip(x: PriceView)
    requires
        price_wf(x),
        depth(encode_price(x)) <= MAX_DEPTH,
    ensures
        price_from_doc(encode_price(x)) == Ok::<PriceView, Fault>(x),
{
    lemma_price_round_trip(x, ""@);
}

/// Information about a library's holds for a publication.
#[derive(Debug, PartialEq, Eq)]
pub struct Holds {
    pub total: Option<usize>,
    pub position: Option<usize>,
}

/// The mathematical model of a record of holds.
pub struct HoldsView {
    pub total: Option<usize>,
    pub position: Option<usize>,
}

/// The model of a record of holds.
pub open spec fn holds_view(x: Holds) -> HoldsView {
    HoldsView {
        total: x.total,
        position: x.position,
    }
}

impl View for Holds {
    type V = HoldsView;

    open spec fn view(&self) -> HoldsView {
        holds_view(*self)
    }
}

/// A record of holds is well formed when everything it holds is.
pub open spec fn holds_wf(x: HoldsView) -> bool {
    true
}

/// The members that a record of holds is written as: one for each field that
/// holds something, in the order of the fields.
pub open spec fn holds_members(x: HoldsView) -> Seq<(Seq<char>, Doc)> {
    let m = Seq::<(Seq<char>, Doc)>::empty();
    let m = put(m, "total"@, write_opt_natural(x.total));
    let m = put(m, "position"@, write_opt_natural(x.position));
    m
}

/// The written form of a record of holds: always the full object.
pub open spec fn encode_holds(x: HoldsView) -> Doc {
    Doc::Object(holds_members(x))
}

/// The record of holds that the members of an object stand for, or the error of
/// the first field, in the order of the fields, that cannot be read.
pub open spec fn holds_from_members(m: Seq<(Seq<char>, Doc)>) -> Result<HoldsView, Fault> {
    let total = read_opt_natural(m, "total"@);
    let position = read_opt_natural(m, "position"@);
    if total is Err {
        Err(total->Err_0)
    } else if position is Err {
        Err(position->Err_0)
    } else {
        Ok(HoldsView {
            total: total->Ok_0,
            position: position->Ok_0,
        })
    }
}

/// The record of holds that a value stands for: an object.
pub open spec fn decode_holds(d: Doc, field: Seq<char>) -> Result<HoldsView, Fault> {
    match d {
        Doc::Object(m) => holds_from_members(m),
        _ => Err(mismatch(field, record_shapes(), shape_of(d))),
    }
}

/// What reading a whole document as a record of holds gives: an error where
/// arrays and objects nest more deeply than the ceiling.
pub open spec fn holds_from_doc(d: Doc) -> Result<HoldsView, Fault> {
    if depth(d) > MAX_DEPTH {
        Err(Fault::RecursionLimitExceeded(MAX_DEPTH))
    } else {
        decode_holds(d, ""@)
    }
}

impl Holds {
    /// Reads a record of holds from the members of an object.
    pub fn from_members(members: &Vec<(String, Value)>) -> (r: Result<Holds, ParseError>)
        ensures
            parsed(r) == holds_from_members(members_of(members@)),
            r matches Ok(x) ==> holds_wf(x@),
    {
        let total = match get_opt_natural(members, "total") {
            Ok(x) => x,
            Err(e) => {
                return Err(e);
            },
        };
        let position = match get_opt_natural(members, "position") {
            Ok(x) => x,
            Err(e) => {
                return Err(e);
            },
        };
        Ok(Holds { total, position })
    }

    /// Reads a record of holds from a value found under `field`.
    pub fn parse(v: &Value, field: &str) -> (r: Result<Holds, ParseError>)
        ensures
            parsed(r) == decode_holds(v@, field@),
            r matches Ok(x) ==> holds_wf(x@),
    {
        match v {
            Value::Object(members) => {
                Holds::from_members(members)
            },
            _ => Err(wrong_shape(field, shapes1(Shape::Object), v)),
        }
    }

    /// Reads a whole document as a record of holds. A document in which arrays
    /// and objects nest more deeply than [`MAX_DEPTH`] is refused before
    /// anything is read from it.
    pub fn from_value(v: &Value) -> (r: Result<Holds, ParseError>)
        ensures
            parsed(r) == holds_from_doc(v@),
            r matches Ok(x) ==> holds_wf(x@),
    {
        if !v.within_depth(MAX_DEPTH) {
            return Err(ParseError::RecursionLimitExceeded(MAX_DEPTH));
        }
        Holds::parse(v, "")
    }

    /// Writes the members of this record of holds.
    pub fn to_members(&self) -> (members: Vec<(String, Value)>)
        ensures
            members_of(members@) == holds_members(self@),
    {
        let mut m: Vec<(String, Value)> = Vec::new();
        assert(members_of(m@) =~= Seq::<(Seq<char>, Doc)>::empty());
        put_member(&mut m, "total", make_opt_natural(&self.total));
        put_member(&mut m, "position", make_opt_natural(&self.position));
        m
    }

    /// Writes this record of holds as a value: always the full object.
    pub fn to_value(&self) -> (v: Value)
        ensures
            v@ == encode_holds(self@),
    {
        Value::Object(self.to_members())
    }
}

/// A copy of a record of holds.
pub(crate) fn copy_holds(x: &Holds) -> (r: Holds)
    ensures
        r@ == x@,
{
    Holds {
        total: x.total,
        position: x.position,
    }
}

impl Clone for Holds {
    /// A copy that holds the same.
    fn clone(&self) -> (r: Holds)
        ensures
            r@ == self@,
    {
        copy_holds(self)
    }
}

/// In the written form of a record of holds, each field's name leads to what
/// that field wrote.
pub proof fn lemma_holds_members(x: HoldsView)
    ensures
        lookup(holds_members(x), "total"@) == write_opt_natural(x.total),
        lookup(holds_members(x), "position"@) == write_opt_natural(x.position),
{
    broadcast use {lemma_lookup_after_put, lemma_lookup_empty};
    spell_total();
    spell_position();
}

/// A record of holds that is well formed, written and read again, is the same
/// record of holds.
pub proof fn lemma_holds_round_trip(x: HoldsView, field: Seq<char>)
    requires
        holds_wf(x),
    ensures
        decode_holds(encode_holds(x), field) == Ok::<HoldsView, Fault>(x),
{
    lemma_holds_members(x);
    let m = holds_members(x);
    assert(read_opt_natural(m, "total"@) == Ok::<Option<usize>, Fault>(x.total));
    assert(read_opt_natural(m, "position"@) == Ok::<Option<usize>, Fault>(x.position));
}

/// What the members of an object give as a record of holds is well formed.
pub proof fn lemma_holds_from_members_wf(m: Seq<(Seq<char>, Doc)>)
    ensures
        holds_from_members(m) matches Ok(x) ==> holds_wf(x),
{
}

/// What is read as a record of holds is well formed.
pub proof fn lemma_decode_holds_wf(d: Doc, field: Seq<char>)
    ensures
        decode_holds(d, field) matches Ok(x) ==> holds_wf(x),
{
    if let Doc::Object(m) = d {
        lemma_holds_from_members_wf(m);
    }
}

/// A record of holds that was read, in whatever spelling, is read again as the
/// same record of holds from its written form.
pub proof fn lemma_holds_reread(d: Doc, field: Seq<char>)
    ensures
        decode_holds(d, field) matches Ok(x)
            ==> decode_holds(encode_holds(x), field) == Ok::<HoldsView, Fault>(x),
{
    lemma_decode_holds_wf(d, field);
    if let Ok(x) = decode_holds(d, field) {
        lemma_holds_round_trip(x, field);
    }
}

/// A record of holds that is well formed and whose written form nests no more
/// deeply than the ceiling is read back whole from that form.
pub proof fn lemma_holds_doc_round_trip(x: HoldsView)
    requires
        holds_wf(x),
        depth(encode_holds(x)) <= MAX_DEPTH,
    ensures
        holds_from_doc(encode_holds(x)) == Ok::<HoldsView, Fault>(x),
{
    lemma_holds_round_trip(x, ""@);
}

/// Information about a library's number of copies for a publication.
#[derive(Debug, PartialEq, Eq)]
pub struct Copies {
    pub total: Option<usize>,
    pub available: Option<usize>,
}

/// The mathematical model of a record of copies.
pub struct CopiesView {
    pub total: Option<usize>,
    pub available: Option<usize>,
}

/// The model of a record of copies.
pub open spec fn copies_view(x: Copies) -> CopiesView {
    CopiesView {
        total: x.total,
        available: x.available,
    }
}

impl View for Copies {
    type V = CopiesView;

    open spec fn view(&self) -> CopiesView {
        copies_view(*self)
    }
}

/// A record of copies is well formed when everything it holds is.
pub open spec fn copies_wf(x: CopiesView) -> bool {
    true
}

/// The members that a record of copies is written as: one for each field that
/// holds something, in the order of the fields.
pub open spec fn copies_members(x: CopiesView) -> Seq<(Seq<char>, Doc)> {
    let m = Seq::<(Seq<char>, Doc)>::empty();
    let m = put(m, "total"@, write_opt_natural(x.total));
    let m = put(m, "available"@, write_opt_natural(x.available));
    m
}

/// The written form of a record of copies: always the full object.
pub open spec fn encode_copies(x: CopiesView) -> Doc {
    Doc::Object(copies_members(x))
}

/// The record of copies that the members of an object stand for, or the error
/// of the first field, in the order of the fields, that cannot be read.
pub open spec fn copies_from_members(m: Seq<(Seq<char>, Doc)>) -> Result<CopiesView, Fault> {
    let total = read_opt_natural(m, "total"@);
    let available = read_opt_natural(m, "available"@);
    if total is Err {
        Err(total->Err_0)
    } else if available is Err {
        Err(available->Err_0)
    } else {
        Ok(CopiesView {
            total: total->Ok_0,
            available: available->Ok_0,
        })
    }
}

/// The record of copies that a value stands for: an object.
pub open spec fn decode_copies(d: Doc, field: Seq<char>) -> Result<CopiesView, Fault> {
    match d {
        Doc::Object(m) => copies_from_members(m),
        _ => Err(mismatch(field, record_shapes(), shape_of(d))),
    }
}

/// What reading a whole document as a record of copies gives: an error where
/// arrays and objects nest more deeply than the ceiling.
pub open spec fn copies_from_doc(d: Doc) -> Result<CopiesView, Fault> {
    if depth(d) > MAX_DEPTH {
        Err(Fault::RecursionLimitExceeded(MAX_DEPTH))
    } else {
        decode_copies(d, ""@)
    }
}

impl Copies {
    /// Reads a record of copies from the members of an object.
    pub fn from_members(members: &Vec<(String, Value)>) -> (r: Result<Copies, ParseError>)
        ensures
            parsed(r) == copies_from_members(members_of(members@)),
            r matches Ok(x) ==> copies_wf(x@),
    {
        let total = match get_opt_natural(members, "total") {
            Ok(x) => x,
            Err(e) => {
                return Err(e);
            },
        };
        let available = match get_opt_natural(members, "available") {
            Ok(x) => x,
            Err(e) => {
                return Err(e);
            },
        };
        Ok(Copies { total, available })
    }

    /// Reads a record of copies from a value found under `field`.
    pub fn parse(v: &Value, field: &str) -> (r: Result<Copies, ParseError>)
        ensures
            parsed(r) == decode_copies(v@, field@),
            r matches Ok(x) ==> copies_wf(x@),
    {
        match v {
            Value::Object(members) => {
                Copies::from_members(members)
            },
            _ => Err(wrong_shape(field, shapes1(Shape::Object), v)),
        }
    }

    /// Reads a whole document as a record of copies. A document in which arrays
    /// and objects nest more deeply than [`MAX_DEPTH`] is refused before
    /// anything is read from it.
    pub fn from_value(v: &Value) -> (r: Result<Copies, ParseError>)
        ensures
            parsed(r) == copies_from_doc(v@),
            r matches Ok(x) ==> copies_wf(x@),
    {
        if !v.within_depth(MAX_DEPTH) {
            return Err(ParseError::RecursionLimitExceeded(MAX_DEPTH));
        }
        Copies::parse(v, "")
    }

    /// Writes the members of this record of copies.
    pub fn to_members(&self) -> (members: Vec<(String, Value)>)
        ensures
            members_of(members@) == copies_members(self@),
    {
        let mut m: Vec<(String, Value)> = Vec::new();
        assert(members_of(m@) =~= Seq::<(Seq<char>, Doc)>::empty());
        put_member(&mut m, "total", make_opt_natural(&self.total));
        put_member(&mut m, "available", make_opt_natural(&self.available));
        m
    }

    /// Writes this record of copies as a value: always the full object.
    pub fn to_value(&self) -> (v: Value)
        ensures
            v@ == encode_copies(self@),
    {
        Value::Object(self.to_members())
    }
}

/// A copy of a record of copies.
pub(crate) fn copy_copies(x: &Copies) -> (r: Copies)
    ensures
        r@ == x@,
{
    Copies {
        total: x.total,
        available: x.available,
    }
}

impl Clone for Copies {
    /// A copy that holds the same.
    fn clone(&self) -> (r: Copies)
        ensures
            r@ == self@,
    {
        copy_copies(self)
    }
}

/// In the written form of a record of copies, each field's name leads to what
/// that field wrote.
pub proof fn lemma_copies_members(x: CopiesView)
    ensures
        lookup(copies_members(x), "total"@) == write_opt_natural(x.total),
        lookup(copies_members(x), "available"@) == write_opt_natural(x.available),
{
    broadcast use {lemma_lookup_after_put, lemma_lookup_empty};
    spell_total();
    spell_available();
}

/// A record of copies that is well formed, written and read again, is the same
/// record of copies.
pub proof fn lemma_copies_round_trip(x: CopiesView, field: Seq<char>)
    requires
        copies_wf(x),
    ensures
        decode_copies(encode_copies(x), field) == Ok::<CopiesView, Fault>(x),
{
    lemma_copies_members(x);
    let m = copies_members(x);
    assert(read_opt_natural(m, "total"@) == Ok::<Option<usize>, Fault>(x.total));
    assert(read_opt_natural(m, "available"@) == Ok::<Option<usize>, Fault>(x.available));
}

/// What the members of an object give as a record of copies is well formed.
pub proof fn lemma_copies_from_members_wf(m: Seq<(Seq<char>, Doc)>)
    ensures
        copies_from_members(m) matches Ok(x) ==> copies_wf(x),
{
}

/// What is read as a record of copies is well formed.
pub proof fn lemma_decode_copies_wf(d: Doc, field: Seq<char>)
    ensures
        decode_copies(d, field) matches Ok(x) ==> copies_wf(x),
{
    if let Doc::Object(m) = d {
        lemma_copies_from_members_wf(m);
    }
}

/// A record of copies that was read, in whatever spelling, is read again as the
/// same record of copies from its written form.
pub proof fn lemma_copies_reread(d: Doc, field: Seq<char>)
    ensures
        decode_copies(d, field) matches Ok(x)
            ==> decode_copies(encode_copies(x), field) == Ok::<CopiesView, Fault>(x),
{
    lemma_decode_copies_wf(d, field);
    if let Ok(x) = decode_copies(d, field) {
        lemma_copies_round_trip(x, field);
    }
}

/// A record of copies that is well formed and whose written form nests no more
/// deeply than the ceiling is read back whole from that form.
pub proof fn lemma_copies_doc_round_trip(x: CopiesView)
    requires
        copies_wf(x),
        depth(encode_copies(x)) <= MAX_DEPTH,
    ensures
        copies_from_doc(encode_copies(x)) == Ok::<CopiesView, Fault>(x),
{
    lemma_copies_round_trip(x, ""@);
}

/// A resource's availability.
#[derive(Debug, PartialEq, Eq)]
pub struct Availability {
    /// The current state of the resource.
    pub state: AvailabilityState,
    /// Timestamp for when the state change occurred.
    pub since: Option<String>,
    /// Timestamp for when the next state change will occur.
    pub until: Option<String>,
}

/// The mathematical model of an availability.
pub struct AvailabilityView {
    pub state: AvailabilityState,
    pub since: Option<Seq<char>>,
    pub until: Option<Seq<char>>,
}

/// The model of an availability.
pub open spec fn availability_view(x: Availability) -> AvailabilityView {
    AvailabilityView {
        state: x.state,
        since: opt_text(x.since),
        until: opt_text(x.until),
    }
}

impl View for Availability {
    type V = AvailabilityView;

    open spec fn view(&self) -> AvailabilityView {
        availability_view(*self)
    }
}

/// An availability is well formed when everything it holds is.
pub open spec fn availability_wf(x: AvailabilityView) -> bool {
    true
}

/// The members that an availability is written as: one for each field that
/// holds something, in the order of the fields.
pub open spec fn availability_members(x: AvailabilityView) -> Seq<(Seq<char>, Doc)> {
    let m = Seq::<(Seq<char>, Doc)>::empty();
    let m = put(m, "state"@, write_availability_state(x.state));
    let m = put(m, "since"@, write_opt_text(x.since));
    let m = put(m, "until"@, write_opt_text(x.until));
    m
}

/// The written form of an availability: always the full object.
pub open spec fn encode_availability(x: AvailabilityView) -> Doc {
    Doc::Object(availability_members(x))
}

/// The availability that the members of an object stand for, or the error of
/// the first field, in the order of the fields, that cannot be read.
pub open spec fn availability_from_members(
    m: Seq<(Seq<char>, Doc)>,
) -> Result<AvailabilityView, Fault> {
    let state = read_availability_state(m, "state"@);
    let since = read_opt_text(m, "since"@);
    let until = read_opt_text(m, "until"@);
    if state is Err {
        Err(state->Err_0)
    } else if since is Err {
        Err(since->Err_0)
    } else if until is Err {
        Err(until->Err_0)
    } else {
        Ok(AvailabilityView {
            state: state->Ok_0,
            since: since->Ok_0,
            until: until->Ok_0,
        })
    }
}

/// The availability that a value stands for: an object.
pub open spec fn decode_availability(d: Doc, field: Seq<char>) -> Result<AvailabilityView, Fault> {
    match d {
        Doc::Object(m) => availability_from_members(m),
        _ => Err(mismatch(field, record_shapes(), shape_of(d))),
    }
}

/// What reading a whole document as an availability gives: an error where
/// arrays and objects nest more deeply than the ceiling.
pub open spec fn availability_from_doc(d: Doc) -> Result<AvailabilityView, Fault> {
    if depth(d) > MAX_DEPTH {
        Err(Fault::RecursionLimitExceeded(MAX_DEPTH))
    } else {
        decode_availability(d, ""@)
    }
}

impl Availability {
    /// Reads an availability from the members of an object.
    pub fn from_members(members: &Vec<(String, Value)>) -> (r: Result<Availability, ParseError>)
        ensures
            parsed(r) == availability_from_members(members_of(members@)),
            r matches Ok(x) ==> availability_wf(x@),
    {
        let state = match get_availability_state(members, "state") {
            Ok(x) => x,
            Err(e) => {
                return Err(e);
            },
        };
        let since = match get_opt_text(members, "since") {
            Ok(x) => x,
            Err(e) => {
                return Err(e);
            },
        };
        let until = match get_opt_text(members, "until") {
            Ok(x) => x,
            Err(e) => {
                return Err(e);
            },
        };
        Ok(Availability { state, since, until })
    }

    /// Reads an availability from a value found under `field`.
    pub fn parse(v: &Value, field: &str) -> (r: Result<Availability, ParseError>)
        ensures
            parsed(r) == decode_availability(v@, field@),
            r matches Ok(x) ==> availability_wf(x@),
    {
        match v {
            Value::Object(members) => {
                Availability::from_members(members)
            },
            _ => Err(wrong_shape(field, shapes1(Shape::Object), v)),
        }
    }

    /// Reads a whole document as an availability. A document in which arrays
    /// and objects nest more deeply than [`MAX_DEPTH`] is refused before
    /// anything is read from it.
    pub fn from_value(v: &Value) -> (r: Result<Availability, ParseError>)
        ensures
            parsed(r) == availability_from_doc(v@),
            r matches Ok(x) ==> availability_wf(x@),
    {
        if !v.within_depth(MAX_DEPTH) {
            return Err(ParseError::RecursionLimitExceeded(MAX_DEPTH));
        }
        Availability::parse(v, "")
    }

    /// Writes the members of this availability.
    pub fn to_members(&self) -> (members: Vec<(String, Value)>)
        ensures
            members_of(members@) == availability_members(self@),
    {
        let mut m: Vec<(String, Value)> = Vec::new();
        assert(members_of(m@) =~= Seq::<(Seq<char>, Doc)>::empty());
        put_member(&mut m, "state", make_availability_state(self.state));
        put_member(&mut m, "since", make_opt_text(&self.since));
        put_member(&mut m, "until", make_opt_text(&self.until));
        m
    }

    /// Writes this availability as a value: always the full object.
    pub fn to_value(&self) -> (v: Value)
        ensures
            v@ == encode_availability(self@),
    {
        Value::Object(self.to_members())
    }
}

/// A copy of an availability.
pub(crate) fn copy_availability(x: &Availability) -> (r: Availability)
    ensures
        r@ == x@,
{
    Availability {
        state: x.state,
        since: copy_opt_text(&x.since),
        until: copy_opt_text(&x.until),
    }
}

impl Clone for Availability {
    /// A copy that holds the same.
    fn clone(&self) -> (r: Availability)
        ensures
            r@ == self@,
    {
        copy_availability(self)
    }
}

/// In the written form of an availability, each field's name leads to what that
/// field wrote.
pub proof fn lemma_availability_members(x: AvailabilityView)
    ensures
        lookup(availability_members(x), "state"@) == write_availability_state(x.state),
        lookup(availability_members(x), "since"@) == write_opt_text(x.since),
        lookup(availability_members(x), "until"@) == write_opt_text(x.until),
{
    broadcast use {lemma_lookup_after_put, lemma_lookup_empty};
    spell_state();
    spell_since();
    spell_until();
}

/// An availability that is well formed, written and read again, is the same
/// availability.
pub proof fn lemma_availability_round_trip(x: AvailabilityView, field: Seq<char>)
    requires
        availability_wf(x),
    ensures
        decode_availability(encode_availability(x), field) == Ok::<AvailabilityView, Fault>(x),
{
    lemma_availability_members(x);
    let m = availability_members(x);
    assert(read_availability_state(m, "state"@) == Ok::<AvailabilityState, Fault>(x.state)) by {
        lemma_availability_state_round_trip(x.state);
    }
    assert(read_opt_text(m, "since"@) == Ok::<Option<Seq<char>>, Fault>(x.since));
    assert(read_opt_text(m, "until"@) == Ok::<Option<Seq<char>>, Fault>(x.until));
}

/// What the members of an object give as an availability is well formed.
pub proof fn lemma_availability_from_members_wf(m: Seq<(Seq<char>, Doc)>)
    ensures
        availability_from_members(m) matches Ok(x) ==> availability_wf(x),
{
}

/// What is read as an availability is well formed.
pub proof fn lemma_decode_availability_wf(d: Doc, field: Seq<char>)
    ensures
        decode_availability(d, field) matches Ok(x) ==> availability_wf(x),
{
    if let Doc::Object(m) = d {
        lemma_availability_from_members_wf(m);
    }
}

/// An availability that was read, in whatever spelling, is read again as the
/// same availability from its written form.
pub proof fn lemma_availability_reread(d: Doc, field: Seq<char>)
    ensures
        decode_availability(d, field) matches Ok(x)
            ==> decode_availability(encode_availability(x), field)
                == Ok::<AvailabilityView, Fault>(x),
{
    lemma_decode_availability_wf(d, field);
    if let Ok(x) = decode_availability(d, field) {
        lemma_availability_round_trip(x, field);
    }
}

/// An availability that is well formed and whose written form nests no more
/// deeply than the ceiling is read back whole from that form.
pub proof fn lemma_availability_doc_round_trip(x: AvailabilityView)
    requires
        availability_wf(x),
        depth(encode_availability(x)) <= MAX_DEPTH,
    ensures
        availability_from_doc(encode_availability(x)) == Ok::<AvailabilityView, Fault>(x),
{
    lemma_availability_round_trip(x, ""@);
}

/// An OPDS acquisition object.
#[derive(Debug, PartialEq, Eq)]
pub struct Acquisition {
    /// The MIME type that will be acquired.
    pub mime: String,
    /// An additional layer of indirection for further acquisition objects.
    pub child: Vec<Acquisition>,
}

/// The mathematical model of an acquisition object.
pub struct AcquisitionView {
    pub mime: Seq<char>,
    pub child: Seq<AcquisitionView>,
}

/// The model of an acquisition object.
pub open spec fn acquisition_view(x: Acquisition) -> AcquisitionView
    decreases x,
{
    AcquisitionView {
        mime: x.mime@,
        child: acquisition_views(x.child@),
    }
}

impl View for Acquisition {
    type V = AcquisitionView;

    open spec fn view(&self) -> AcquisitionView {
        acquisition_view(*self)
    }
}

/// An acquisition object is well formed when everything it holds is.
pub open spec fn acquisition_wf(x: AcquisitionView) -> bool
    decreases x,
{
    &&& acquisition_seq_wf(x.child)
}

/// The members that an acquisition object is written as: one for each field
/// that holds something, in the order of the fields.
pub open spec fn acquisition_members(x: AcquisitionView) -> Seq<(Seq<char>, Doc)>
    decreases x, 1int,
{
    let m = Seq::<(Seq<char>, Doc)>::empty();
    let m = put(m, "type"@, write_text(x.mime));
    let m = put(m, "child"@, write_acquisition_list(x.child));
    m
}

/// The written form of an acquisition object: always the full object.
pub open spec fn encode_acquisition(x: AcquisitionView) -> Doc
    decreases x, 2int,
{
    Doc::Object(acquisition_members(x))
}

/// The acquisition object that the members of an object stand for, or the error
/// of the first field, in the order of the fields, that cannot be read.
pub open spec fn acquisition_from_members(
    m: Seq<(Seq<char>, Doc)>,
) -> Result<AcquisitionView, Fault>
    decreases m, 1int,
{
    let mime = read_text(m, "type"@);
    let child = read_acquisition_list(m, "child"@);
    if mime is Err {
        Err(mime->Err_0)
    } else if child is Err {
        Err(child->Err_0)
    } else {
        Ok(AcquisitionView {
            mime: mime->Ok_0,
            child: child->Ok_0,
        })
    }
}

/// The acquisition object that a value stands for: an object.
pub open spec fn decode_acquisition(d: Doc, field: Seq<char>) -> Result<AcquisitionView, Fault>
    decreases d, 0int,
{
    match d {
        Doc::Object(m) => acquisition_from_members(m),
        _ => Err(mismatch(field, record_shapes(), shape_of(d))),
    }
}

/// What reading a whole document as an acquisition object gives: an error where
/// arrays and objects nest more deeply than the ceiling.
pub open spec fn acquisition_from_doc(d: Doc) -> Result<AcquisitionView, Fault> {
    if depth(d) > MAX_DEPTH {
        Err(Fault::RecursionLimitExceeded(MAX_DEPTH))
    } else {
        decode_acquisition(d, ""@)
    }
}

impl Acquisition {
    /// Reads an acquisition object from the members of an object.
    pub fn from_members(members: &Vec<(String, Value)>) -> (r: Result<Acquisition, ParseError>)
        ensures
            parsed(r) == acquisition_from_members(members_of(members@)),
            r matches Ok(x) ==> acquisition_wf(x@),
        decreases members, 1int,
    {
        let mime = match get_text(members, "type") {
            Ok(x) => x,
            Err(e) => {
                return Err(e);
            },
        };
        let child = match get_acquisition_list(members, "child") {
            Ok(x) => x,
            Err(e) => {
                return Err(e);
            },
        };
        Ok(Acquisition { mime, child })
    }

    /// Reads an acquisition object from a value found under `field`.
    pub fn parse(v: &Value, field: &str) -> (r: Result<Acquisition, ParseError>)
        ensures
            parsed(r) == decode_acquisition(v@, field@),
            r matches Ok(x) ==> acquisition_wf(x@),
        decreases v, 0int,
    {
        match v {
            Value::Object(members) => {
                proof {
                    assert(decreases_to!(v => v->Object_0));
                }
                Acquisition::from_members(members)
            },
            _ => Err(wrong_shape(field, shapes1(Shape::Object), v)),
        }
    }

    /// Reads a whole document as an acquisition object. A document in which
    /// arrays and objects nest more deeply than [`MAX_DEPTH`] is refused before
    /// anything is read from it.
    pub fn from_value(v: &Value) -> (r: Result<Acquisition, ParseError>)
        ensures
            parsed(r) == acquisition_from_doc(v@),
            r matches Ok(x) ==> acquisition_wf(x@),
    {
        if !v.within_depth(MAX_DEPTH) {
            return Err(ParseError::RecursionLimitExceeded(MAX_DEPTH));
        }
        Acquisition::parse(v, "")
    }

    /// Writes the members of this acquisition object.
    pub fn to_members(&self) -> (members: Vec<(String, Value)>)
        ensures
            members_of(members@) == acquisition_members(self@),
        decreases self, 1int,
    {
        let mut m: Vec<(String, Value)> = Vec::new();
        assert(members_of(m@) =~= Seq::<(Seq<char>, Doc)>::empty());
        put_member(&mut m, "type", make_text(&self.mime));
        put_member(&mut m, "child", make_acquisition_list(&self.child));
        m
    }

    /// Writes this acquisition object as a value: always the full object.
    pub fn to_value(&self) -> (v: Value)
        ensures
            v@ == encode_acquisition(self@),
        decreases self, 2int,
    {
        Value::Object(self.to_members())
    }
}

/// A copy of an acquisition object.
pub(crate) fn copy_acquisition(x: &Acquisition) -> (r: Acquisition)
    ensures
        r@ == x@,
    decreases x, 1int,
{
    Acquisition {
        mime: x.mime.clone(),
        child: copy_acquisition_seq(&x.child),
    }
}

impl Clone for Acquisition {
    /// A copy that holds the same.
    fn clone(&self) -> (r: Acquisition)
        ensures
            r@ == self@,
    {
        copy_acquisition(self)
    }
}

/// In the written form of an acquisition object, each field's name leads to
/// what that field wrote.
pub proof fn lemma_acquisition_members(x: AcquisitionView)
    ensures
        lookup(acquisition_members(x), "type"@) == write_text(x.mime),
        lookup(acquisition_members(x), "child"@) == write_acquisition_list(x.child),
{
    broadcast use {lemma_lookup_after_put, lemma_lookup_empty};
    spell_type();
    spell_child();
}

/// An acquisition object that is well formed, written and read again, is the
/// same acquisition object.
pub proof fn lemma_acquisition_round_trip(x: AcquisitionView, field: Seq<char>)
    requires
        acquisition_wf(x),
    ensures
        decode_acquisition(encode_acquisition(x), field) == Ok::<AcquisitionView, Fault>(x),
    decreases x, 2int,
{
    lemma_acquisition_members(x);
    let m = acquisition_members(x);
    assert(read_text(m, "type"@) == Ok::<Seq<char>, Fault>(x.mime));
    assert(read_acquisition_list(m, "child"@) == Ok::<Seq<AcquisitionView>, Fault>(x.child)) by {
        lemma_acquisition_list_round_trip(x.child, m, "child"@);
    }
}

/// What the members of an object give as an acquisition object is well formed.
pub proof fn lemma_acquisition_from_members_wf(m: Seq<(Seq<char>, Doc)>)
    ensures
        acquisition_from_members(m) matches Ok(x) ==> acquisition_wf(x),
    decreases m, 1int,
{
    lemma_read_acquisition_list_wf(m, "child"@);
}

/// What is read as an acquisition object is well formed.
pub proof fn lemma_decode_acquisition_wf(d: Doc, field: Seq<char>)
    ensures
        decode_acquisition(d, field) matches Ok(x) ==> acquisition_wf(x),
    decreases d, 0int,
{
    if let Doc::Object(m) = d {
        lemma_acquisition_from_members_wf(m);
    }
}

/// An acquisition object that was read, in whatever spelling, is read again as
/// the same acquisition object from its written form.
pub proof fn lemma_acquisition_reread(d: Doc, field: Seq<char>)
    ensures
        decode_acquisition(d, field) matches Ok(x)
            ==> decode_acquisition(encode_acquisition(x), field) == Ok::<AcquisitionView, Fault>(x),
{
    lemma_decode_acquisition_wf(d, field);
    if let Ok(x) = decode_acquisition(d, field) {
        lemma_acquisition_round_trip(x, field);
    }
}

/// An acquisition object that is well formed and whose written form nests no
/// more deeply than the ceiling is read back whole from that form.
pub proof fn lemma_acquisition_doc_round_trip(x: AcquisitionView)
    requires
        acquisition_wf(x),
        depth(encode_acquisition(x)) <= MAX_DEPTH,
    ensures
        acquisition_from_doc(encode_acquisition(x)) == Ok::<AcquisitionView, Fault>(x),
{
    lemma_acquisition_round_trip(x, ""@);
}

/// Properties of an OPDS link object.
#[derive(Debug, PartialEq, Eq)]
#[non_exhaustive]
pub struct LinkProperties {
    /// A hint about the expected number of items returned.
    pub count: Option<usize>,
    /// How the linked resource is displayed in a reading environment that shows
    /// synthetic spreads.
    pub page: Option<PageDisplay>,
    /// The availability of a given resource.
    pub availability: Option<Availability>,
    /// The price of the publication, tied to its acquisition link.
    pub price: Option<Price>,
    /// A hint for the expected media type that will be acquired after
    /// additional steps.
    pub indirect_acquisition: Vec<Acquisition>,
    /// Library-specific feature for unavailable books that support a hold list.
    pub holds: Option<Holds>,
    /// Library-specific feature that contains information about the copies that
    /// a library has acquired.
    pub copies: Option<Copies>,
}

/// The mathematical model of a set of link properties.
pub struct LinkPropertiesView {
    pub count: Option<usize>,
    pub page: Option<PageDisplay>,
    pub availability: Option<AvailabilityView>,
    pub price: Option<PriceView>,
    pub indirect_acquisition: Seq<AcquisitionView>,
    pub holds: Option<HoldsView>,
    pub copies: Option<CopiesView>,
}

/// The model of a set of link properties.
pub open spec fn link_properties_view(x: LinkProperties) -> LinkPropertiesView {
    LinkPropertiesView {
        count: x.count,
        page: x.page,
        availability: opt_availability(x.availability),
        price: opt_price(x.price),
        indirect_acquisition: acquisition_views(x.indirect_acquisition@),
        holds: opt_holds(x.holds),
        copies: opt_copies(x.copies),
    }
}

impl View for LinkProperties {
    type V = LinkPropertiesView;

    open spec fn view(&self) -> LinkPropertiesView {
        link_properties_view(*self)
    }
}

/// A set of link properties is well formed when everything it holds is.
pub open spec fn link_properties_wf(x: LinkPropertiesView) -> bool {
    &&& opt_availability_wf(x.availability)
    &&& opt_price_wf(x.price)
    &&& acquisition_seq_wf(x.indirect_acquisition)
    &&& opt_holds_wf(x.holds)
    &&& opt_copies_wf(x.copies)
}

/// The set of link properties that holds nothing.
pub open spec fn link_properties_default() -> LinkPropertiesView {
    LinkPropertiesView {
        count: None,
        page: None,
        availability: None,
        price: None,
        indirect_acquisition: Seq::empty(),
        holds: None,
        copies: None,
    }
}

/// Whether a set of link properties holds nothing.
pub open spec fn link_properties_is_empty(x: LinkPropertiesView) -> bool {
    &&& x.count is None
    &&& x.page is None
    &&& x.availability is None
    &&& x.price is None
    &&& x.indirect_acquisition.len() == 0
    &&& x.holds is None
    &&& x.copies is None
}

/// The members that a set of link properties is written as: one for each field
/// that holds something, in the order of the fields.
pub open spec fn link_properties_members(x: LinkPropertiesView) -> Seq<(Seq<char>, Doc)> {
    let m = Seq::<(Seq<char>, Doc)>::empty();
    let m = put(m, "numberOfItems"@, write_opt_natural(x.count));
    let m = put(m, "page"@, write_opt_page_display(x.page));
    let m = put(m, "availability"@, write_opt_availability(x.availability));
    let m = put(m, "price"@, write_opt_price(x.price));
    let m = put(m, "indirectAcquisition"@, write_acquisition_list(x.indirect_acquisition));
    let m = put(m, "holds"@, write_opt_holds(x.holds));
    let m = put(m, "copies"@, write_opt_copies(x.copies));
    m
}

/// The written form of a set of link properties: always the full object.
pub open spec fn encode_link_properties(x: LinkPropertiesView) -> Doc {
    Doc::Object(link_properties_members(x))
}

/// The set of link properties that the members of an object stand for, or the
/// error of the first field, in the order of the fields, that cannot be read.
pub open spec fn link_properties_from_members(
    m: Seq<(Seq<char>, Doc)>,
) -> Result<LinkPropertiesView, Fault> {
    let count = read_opt_natural(m, "numberOfItems"@);
    let page = read_opt_page_display(m, "page"@);
    let availability = read_opt_availability(m, "availability"@);
    let price = read_opt_price(m, "price"@);
    let indirect_acquisition = read_acquisition_list(m, "indirectAcquisition"@);
    let holds = read_opt_holds(m, "holds"@);
    let copies = read_opt_copies(m, "copies"@);
    if count is Err {
        Err(count->Err_0)
    } else if page is Err {
        Err(page->Err_0)
    } else if availability is Err {
        Err(availability->Err_0)
    } else if price is Err {
        Err(price->Err_0)
    } else if indirect_acquisition is Err {
        Err(indirect_acquisition->Err_0)
    } else if holds is Err {
        Err(holds->Err_0)
    } else if copies is Err {
        Err(copies->Err_0)
    } else {
        Ok(LinkPropertiesView {
            count: count->Ok_0,
            page: page->Ok_0,
            availability: availability->Ok_0,
            price: price->Ok_0,
            indirect_acquisition: indirect_acquisition->Ok_0,
            holds: holds->Ok_0,
            copies: copies->Ok_0,
        })
    }
}

/// The set of link properties that a value stands for: an object.
pub open spec fn decode_link_properties(
    d: Doc,
    field: Seq<char>,
) -> Result<LinkPropertiesView, Fault> {
    match d {
        Doc::Object(m) => link_properties_from_members(m),
        _ => Err(mismatch(field, record_shapes(), shape_of(d))),
    }
}

/// What reading a whole document as a set of link properties gives: an error
/// where arrays and objects nest more deeply than the ceiling.
pub open spec fn link_properties_from_doc(d: Doc) -> Result<LinkPropertiesView, Fault> {
    if depth(d) > MAX_DEPTH {
        Err(Fault::RecursionLimitExceeded(MAX_DEPTH))
    } else {
        decode_link_properties(d, ""@)
    }
}

impl LinkProperties {
    /// Whether this set of link properties holds nothing.
    pub fn is_empty(&self) -> (r: bool)
        ensures
            r == link_properties_is_empty(self@),
    {
        self.count.is_none()
            && self.page.is_none()
            && self.availability.is_none()
            && self.price.is_none()
            && self.indirect_acquisition.len() == 0
            && self.holds.is_none()
            && self.copies.is_none()
    }

    /// Reads a set of link properties from the members of an object.
    pub fn from_members(members: &Vec<(String, Value)>) -> (r: Result<LinkProperties, ParseError>)
        ensures
            parsed(r) == link_properties_from_members(members_of(members@)),
            r matches Ok(x) ==> link_properties_wf(x@),
    {
        let count = match get_opt_natural(members, "numberOfItems") {
            Ok(x) => x,
            Err(e) => {
                return Err(e);
            },
        };
        let page = match get_opt_page_display(members, "page") {
            Ok(x) => x,
            Err(e) => {
                return Err(e);
            },
        };
        let availability = match get_opt_availability(members, "availability") {
            Ok(x) => x,
            Err(e) => {
                return Err(e);
            },
        };
        let price = match get_opt_price(members, "price") {
            Ok(x) => x,
            Err(e) => {
                return Err(e);
            },
        };
        let indirect_acquisition = match get_acquisition_list(members, "indirectAcquisition") {
            Ok(x) => x,
            Err(e) => {
                return Err(e);
            },
        };
        let holds = match get_opt_holds(members, "holds") {
            Ok(x) => x,
            Err(e) => {
                return Err(e);
            },
        };
        let copies = match get_opt_copies(members, "copies") {
            Ok(x) => x,
            Err(e) => {
                return Err(e);
            },
        };
        Ok(LinkProperties { count, page, availability, price, indirect_acquisition, holds, copies })
    }

    /// Reads a set of link properties from a value found under `field`.
    pub fn parse(v: &Value, field: &str) -> (r: Result<LinkProperties, ParseError>)
        ensures
            parsed(r) == decode_link_properties(v@, field@),
            r matches Ok(x) ==> link_properties_wf(x@),
    {
        match v {
            Value::Object(members) => {
                LinkProperties::from_members(members)
            },
            _ => Err(wrong_shape(field, shapes1(Shape::Object), v)),
        }
    }

    /// Reads a whole document as a set of link properties. A document in which
    /// arrays and objects nest more deeply than [`MAX_DEPTH`] is refused before
    /// anything is read from it.
    pub fn from_value(v: &Value) -> (r: Result<LinkProperties, ParseError>)
        ensures
            parsed(r) == link_properties_from_doc(v@),
            r matches Ok(x) ==> link_properties_wf(x@),
    {
        if !v.within_depth(MAX_DEPTH) {
            return Err(ParseError::RecursionLimitExceeded(MAX_DEPTH));
        }
        LinkProperties::parse(v, "")
    }

    /// Writes the members of this set of link properties.
    pub fn to_members(&self) -> (members: Vec<(String, Value)>)
        ensures
            members_of(members@) == link_properties_members(self@),
    {
        let mut m: Vec<(String, Value)> = Vec::new();
        assert(members_of(m@) =~= Seq::<(Seq<char>, Doc)>::empty());
        put_member(&mut m, "numberOfItems", make_opt_natural(&self.count));
        put_member(&mut m, "page", make_opt_page_display(&self.page));
        put_member(&mut m, "availability", make_opt_availability(&self.availability));
        put_member(&mut m, "price", make_opt_price(&self.price));
        put_member(&mut m, "indirectAcquisition", make_acquisition_list(&self.indirect_acquisition));
        put_member(&mut m, "holds", make_opt_holds(&self.holds));
        put_member(&mut m, "copies", make_opt_copies(&self.copies));
        m
    }

    /// Writes this set of link properties as a value: always the full object.
    pub fn to_value(&self) -> (v: Value)
        ensures
            v@ == encode_link_properties(self@),
    {
        Value::Object(self.to_members())
    }
}

/// A copy of a set of link properties.
pub(crate) fn copy_link_properties(x: &LinkProperties) -> (r: LinkProperties)
    ensures
        r@ == x@,
{
    LinkProperties {
        count: x.count,
        page: x.page,
        availability: copy_opt_availability(&x.availability),
        price: copy_opt_price(&x.price),
        indirect_acquisition: copy_acquisition_seq(&x.indirect_acquisition),
        holds: copy_opt_holds(&x.holds),
        copies: copy_opt_copies(&x.copies),
    }
}

impl Clone for LinkProperties {
    /// A copy that holds the same.
    fn clone(&self) -> (r: LinkProperties)
        ensures
            r@ == self@,
    {
        copy_link_properties(self)
    }
}

impl Default for LinkProperties {
    /// The set of link properties that holds nothing.
    fn default() -> (r: LinkProperties)
        ensures
            r@ == link_properties_default(),
            link_properties_wf(r@),
    {
        let indirect_acquisition: Vec<Acquisition> = Vec::new();
        proof {
            assert(acquisition_views(indirect_acquisition@) =~= Seq::<AcquisitionView>::empty());
        }
        LinkProperties {
            count: None,
            page: None,
            availability: None,
            price: None,
            indirect_acquisition,
            holds: None,
            copies: None,
        }
    }
}

/// What a field holds that is a set of link properties: one that holds nothing
/// where the field is absent.
pub open spec fn read_link_properties_or_default(
    m: Seq<(Seq<char>, Doc)>,
    key: Seq<char>,
) -> Result<LinkPropertiesView, Fault> {
    let i = index_of(m, key);
    if 0 <= i < m.len() {
        decode_link_properties(m[i].1, key)
    } else {
        Ok(link_properties_default())
    }
}

/// The written form of such a field: left out where it holds nothing.
pub open spec fn write_link_properties_or_default(x: LinkPropertiesView) -> Option<Doc> {
    if link_properties_is_empty(x) {
        None
    } else {
        Some(encode_link_properties(x))
    }
}

/// Reads a field that is a set of link properties.
pub fn get_link_properties_or_default(
    members: &Vec<(String, Value)>,
    key: &str,
) -> (r: Result<LinkProperties, ParseError>)
    ensures
        match r {
            Ok(x) => read_link_properties_or_default(members_of(members@), key@)
                == Ok::<LinkPropertiesView, Fault>(x@),
            Err(e) => read_link_properties_or_default(members_of(members@), key@)
                == Err::<LinkPropertiesView, Fault>(e@),
        },
        r matches Ok(x) ==> link_properties_wf(x@),
{
    match position(members, key) {
        None => Ok(LinkProperties::default()),
        Some(i) => {
            proof {
                assert(members_of(members@)[i as int].1 == members@[i as int].1@);
            }
            LinkProperties::parse(&members[i].1, key)
        },
    }
}

/// Writes such a field.
pub fn make_link_properties_or_default(x: &LinkProperties) -> (r: Option<Value>)
    ensures
        opt_doc(r) == write_link_properties_or_default(x@),
{
    if x.is_empty() {
        None
    } else {
        Some(x.to_value())
    }
}

/// What such a field gives is well formed.
pub proof fn lemma_read_link_properties_or_default_wf(m: Seq<(Seq<char>, Doc)>, key: Seq<char>)
    ensures
        read_link_properties_or_default(m, key) matches Ok(x) ==> link_properties_wf(x),
{
    lemma_index_of(m, key);
    let i = index_of(m, key);
    if 0 <= i < m.len() {
        lemma_decode_link_properties_wf(m[i].1, key);
    }
}

/// Such a field, written and read again, holds the same.
pub proof fn lemma_link_properties_or_default_round_trip(
    x: LinkPropertiesView,
    m: Seq<(Seq<char>, Doc)>,
    key: Seq<char>,
)
    requires
        link_properties_wf(x),
        lookup(m, key) == write_link_properties_or_default(x),
    ensures
        read_link_properties_or_default(m, key) == Ok::<LinkPropertiesView, Fault>(x),
{
    lemma_lookup_index(m, key);
    if link_properties_is_empty(x) {
        assert(x.indirect_acquisition =~= Seq::<AcquisitionView>::empty());
    } else {
        lemma_link_properties_round_trip(x, key);
    }
}

/// In the written form of a set of link properties, each field's name leads to
/// what that field wrote.
pub proof fn lemma_link_properties_members(x: LinkPropertiesView)
    ensures
        lookup(link_properties_members(x), "numberOfItems"@) == write_opt_natural(x.count),
        lookup(link_properties_members(x), "page"@) == write_opt_page_display(x.page),
        lookup(link_properties_members(x), "availability"@)
            == write_opt_availability(x.availability),
        lookup(link_properties_members(x), "price"@) == write_opt_price(x.price),
        lookup(link_properties_members(x), "indirectAcquisition"@)
            == write_acquisition_list(x.indirect_acquisition),
        lookup(link_properties_members(x), "holds"@) == write_opt_holds(x.holds),
        lookup(link_properties_members(x), "copies"@) == write_opt_copies(x.copies),
{
    broadcast use {lemma_lookup_after_put, lemma_lookup_empty};
    spell_number_of_items();
    spell_page();
    spell_availability();
    spell_price();
    spell_indirect_acquisition();
    spell_holds();
    spell_copies();
}

/// A set of link properties that is well formed, written and read again, is the
/// same set of link properties.
pub proof fn lemma_link_properties_round_trip(x: LinkPropertiesView, field: Seq<char>)
    requires
        link_properties_wf(x),
    ensures
        decode_link_properties(encode_link_properties(x), field)
            == Ok::<LinkPropertiesView, Fault>(x),
{
    lemma_link_properties_members(x);
    let m = link_properties_members(x);
    assert(read_opt_natural(m, "numberOfItems"@) == Ok::<Option<usize>, Fault>(x.count));
    assert(read_opt_page_display(m, "page"@) == Ok::<Option<PageDisplay>, Fault>(x.page)) by {
        if let Some(it) = x.page {
        lemma_page_display_round_trip(it);
        }
    }
    assert(read_opt_availability(m, "availability"@)
        == Ok::<Option<AvailabilityView>, Fault>(x.availability)) by {
        lemma_opt_availability_round_trip(x.availability, m, "availability"@);
    }
    assert(read_opt_price(m, "price"@) == Ok::<Option<PriceView>, Fault>(x.price)) by {
        lemma_opt_price_round_trip(x.price, m, "price"@);
    }
    assert(read_acquisition_list(m, "indirectAcquisition"@)
        == Ok::<Seq<AcquisitionView>, Fault>(x.indirect_acquisition)) by {
        lemma_acquisition_list_round_trip(x.indirect_acquisition, m, "indirectAcquisition"@);
    }
    assert(read_opt_holds(m, "holds"@) == Ok::<Option<HoldsView>, Fault>(x.holds)) by {
        lemma_opt_holds_round_trip(x.holds, m, "holds"@);
    }
    assert(read_opt_copies(m, "copies"@) == Ok::<Option<CopiesView>, Fault>(x.copies)) by {
        lemma_opt_copies_round_trip(x.copies, m, "copies"@);
    }
}

/// What the members of an object give as a set of link properties is well
/// formed.
pub proof fn lemma_link_properties_from_members_wf(m: Seq<(Seq<char>, Doc)>)
    ensures
        link_properties_from_members(m) matches Ok(x) ==> link_properties_wf(x),
{
    lemma_read_opt_availability_wf(m, "availability"@);
    lemma_read_opt_price_wf(m, "price"@);
    lemma_read_acquisition_list_wf(m, "indirectAcquisition"@);
    lemma_read_opt_holds_wf(m, "holds"@);
    lemma_read_opt_copies_wf(m, "copies"@);
}

/// What is read as a set of link properties is well formed.
pub proof fn lemma_decode_link_properties_wf(d: Doc, field: Seq<char>)
    ensures
        decode_link_properties(d, field) matches Ok(x) ==> link_properties_wf(x),
{
    if let Doc::Object(m) = d {
        lemma_link_properties_from_members_wf(m);
    }
}

/// A set of link properties that was read, in whatever spelling, is read again
/// as the same set of link properties from its written form.
pub proof fn lemma_link_properties_reread(d: Doc, field: Seq<char>)
    ensures
        decode_link_properties(d, field) matches Ok(x)
            ==> decode_link_properties(encode_link_properties(x), field)
                == Ok::<LinkPropertiesView, Fault>(x),
{
    lemma_decode_link_properties_wf(d, field);
    if let Ok(x) = decode_link_properties(d, field) {
        lemma_link_properties_round_trip(x, field);
    }
}

/// A set of link properties that is well formed and whose written form nests no
/// more deeply than the ceiling is read back whole from that form.
pub proof fn lemma_link_properties_doc_round_trip(x: LinkPropertiesView)
    requires
        link_properties_wf(x),
        depth(encode_link_properties(x)) <= MAX_DEPTH,
    ensures
        link_properties_from_doc(encode_link_properties(x)) == Ok::<LinkPropertiesView, Fault>(x),
{
    lemma_link_properties_round_trip(x, ""@);
}

/// The model of an optional price.
pub open spec fn opt_price(o: Option<Price>) -> Option<PriceView> {
    match o {
        Some(x) => Some(price_view(x)),
        None => None,
    }
}

/// Whether an optional price is well formed.
pub open spec fn opt_price_wf(o: Option<PriceView>) -> bool {
    o matches Some(x) ==> price_wf(x)
}

/// A copy of an optional price.
pub(crate) fn copy_opt_price(o: &Option<Price>) -> (r: Option<Price>)
    ensures
        opt_price(r) == opt_price(*o),
{
    match o {
        Some(x) => Some(copy_price(x)),
        None => None,
    }
}

/// What a field gives that may be a price is well formed.
pub proof fn lemma_read_opt_price_wf(m: Seq<(Seq<char>, Doc)>, key: Seq<char>)
    ensures
        read_opt_price(m, key) matches Ok(o) ==> opt_price_wf(o),
{
    lemma_index_of(m, key);
    let i = index_of(m, key);
    if 0 <= i < m.len() {
        lemma_decode_price_wf(m[i].1, key);
    }
}

/// What a field holds that may be a price: nothing where it is
/// absent or null.
pub open spec fn read_opt_price(
    m: Seq<(Seq<char>, Doc)>,
    key: Seq<char>,
) -> Result<Option<PriceView>, Fault> {
    let i = index_of(m, key);
    if 0 <= i < m.len() {
        if m[i].1 is Null {
            Ok(None)
        } else {
            match decode_price(m[i].1, key) {
                Ok(x) => Ok(Some(x)),
                Err(e) => Err(e),
            }
        }
    } else {
        Ok(None)
    }
}

/// The written form of such a field: left out where there is nothing.
pub open spec fn write_opt_price(o: Option<PriceView>) -> Option<Doc> {
    match o {
        Some(x) => Some(encode_price(x)),
        None => None,
    }
}

/// Reads a field that may be a price.
pub fn get_opt_price(
    members: &Vec<(String, Value)>,
    key: &str,
) -> (r: Result<Option<Price>, ParseError>)
    ensures
        match r {
            Ok(o) => read_opt_price(members_of(members@), key@)
                == Ok::<Option<PriceView>, Fault>(opt_price(o)),
            Err(e) => read_opt_price(members_of(members@), key@)
                == Err::<Option<PriceView>, Fault>(e@),
        },
        r matches Ok(o) ==> opt_price_wf(opt_price(o)),
{
    match position(members, key) {
        None => Ok(None),
        Some(i) => {
            proof {
                assert(members_of(members@)[i as int].1 == members@[i as int].1@);
            }
            match &members[i].1 {
                Value::Null => Ok(None),
                v => match Price::parse(v, key) {
                    Ok(x) => Ok(Some(x)),
                    Err(e) => Err(e),
                },
            }
        },
    }
}

/// Writes such a field.
pub fn make_opt_price(o: &Option<Price>) -> (r: Option<Value>)
    ensures
        opt_doc(r) == write_opt_price(opt_price(*o)),
{
    match o {
        Some(x) => Some(x.to_value()),
        None => None,
    }
}

/// Such a field, written and read again, holds the same.
pub proof fn lemma_opt_price_round_trip(
    o: Option<PriceView>,
    m: Seq<(Seq<char>, Doc)>,
    key: Seq<char>,
)
    requires
        opt_price_wf(o),
        lookup(m, key) == write_opt_price(o),
    ensures
        read_opt_price(m, key) == Ok::<Option<PriceView>, Fault>(o),
{
    lemma_lookup_index(m, key);
    if let Some(x) = o {
        lemma_price_round_trip(x, key);
    }
}

/// The model of an optional record of holds.
pub open spec fn opt_holds(o: Option<Holds>) -> Option<HoldsView> {
    match o {
        Some(x) => Some(holds_view(x)),
        None => None,
    }
}

/// Whether an optional record of holds is well formed.
pub open spec fn opt_holds_wf(o: Option<HoldsView>) -> bool {
    o matches Some(x) ==> holds_wf(x)
}

/// A copy of an optional record of holds.
pub(crate) fn copy_opt_holds(o: &Option<Holds>) -> (r: Option<Holds>)
    ensures
        opt_holds(r) == opt_holds(*o),
{
    match o {
        Some(x) => Some(copy_holds(x)),
        None => None,
    }
}

/// What a field gives that may be a record of holds is well formed.
pub proof fn lemma_read_opt_holds_wf(m: Seq<(Seq<char>, Doc)>, key: Seq<char>)
    ensures
        read_opt_holds(m, key) matches Ok(o) ==> opt_holds_wf(o),
{
    lemma_index_of(m, key);
    let i = index_of(m, key);
    if 0 <= i < m.len() {
        lemma_decode_holds_wf(m[i].1, key);
    }
}

/// What a field holds that may be a record of holds: nothing where it is
/// absent or null.
pub open spec fn read_opt_holds(
    m: Seq<(Seq<char>, Doc)>,
    key: Seq<char>,
) -> Result<Option<HoldsView>, Fault> {
    let i = index_of(m, key);
    if 0 <= i < m.len() {
        if m[i].1 is Null {
            Ok(None)
        } else {
            match decode_holds(m[i].1, key) {
                Ok(x) => Ok(Some(x)),
                Err(e) => Err(e),
            }
        }
    } else {
        Ok(None)
    }
}

/// The written form of such a field: left out where there is nothing.
pub open spec fn write_opt_holds(o: Option<HoldsView>) -> Option<Doc> {
    match o {
        Some(x) => Some(encode_holds(x)),
        None => None,
    }
}

/// Reads a field that may be a record of holds.
pub fn get_opt_holds(
    members: &Vec<(String, Value)>,
    key: &str,
) -> (r: Result<Option<Holds>, ParseError>)
    ensures
        match r {
            Ok(o) => read_opt_holds(members_of(members@), key@)
                == Ok::<Option<HoldsView>, Fault>(opt_holds(o)),
            Err(e) => read_opt_holds(members_of(members@), key@)
                == Err::<Option<HoldsView>, Fault>(e@),
        },
        r matches Ok(o) ==> opt_holds_wf(opt_holds(o)),
{
    match position(members, key) {
        None => Ok(None),
        Some(i) => {
            proof {
                assert(members_of(members@)[i as int].1 == members@[i as int].1@);
            }
            match &members[i].1 {
                Value::Null => Ok(None),
                v => match Holds::parse(v, key) {
                    Ok(x) => Ok(Some(x)),
                    Err(e) => Err(e),
                },
            }
        },
    }
}

/// Writes such a field.
pub fn make_opt_holds(o: &Option<Holds>) -> (r: Option<Value>)
    ensures
        opt_doc(r) == write_opt_holds(opt_holds(*o)),
{
    match o {
        Some(x) => Some(x.to_value()),
        None => None,
    }
}

/// Such a field, written and read again, holds the same.
pub proof fn lemma_opt_holds_round_trip(
    o: Option<HoldsView>,
    m: Seq<(Seq<char>, Doc)>,
    key: Seq<char>,
)
    requires
        opt_holds_wf(o),
        lookup(m, key) == write_opt_holds(o),
    ensures
        read_opt_holds(m, key) == Ok::<Option<HoldsView>, Fault>(o),
{
    lemma_lookup_index(m, key);
    if let Some(x) = o {
        lemma_holds_round_trip(x, key);
    }
}

/// The model of an optional record of copies.
pub open spec fn opt_copies(o: Option<Copies>) -> Option<CopiesView> {
    match o {
        Some(x) => Some(copies_view(x)),
        None => None,
    }
}

/// Whether an optional record of copies is well formed.
pub open spec fn opt_copies_wf(o: Option<CopiesView>) -> bool {
    o matches Some(x) ==> copies_wf(x)
}

/// A copy of an optional record of copies.
pub(crate) fn copy_opt_copies(o: &Option<Copies>) -> (r: Option<Copies>)
    ensures
        opt_copies(r) == opt_copies(*o),
{
    match o {
        Some(x) => Some(copy_copies(x)),
        None => None,
    }
}

/// What a field gives that may be a record of copies is well formed.
pub proof fn lemma_read_opt_copies_wf(m: Seq<(Seq<char>, Doc)>, key: Seq<char>)
    ensures
        read_opt_copies(m, key) matches Ok(o) ==> opt_copies_wf(o),
{
    lemma_index_of(m, key);
    let i = index_of(m, key);
    if 0 <= i < m.len() {
        lemma_decode_copies_wf(m[i].1, key);
    }
}

/// What a field holds that may be a record of copies: nothing where it is
/// absent or null.
pub open spec fn read_opt_copies(
    m: Seq<(Seq<char>, Doc)>,
    key: Seq<char>,
) -> Result<Option<CopiesView>, Fault> {
    let i = index_of(m, key);
    if 0 <= i < m.len() {
        if m[i].1 is Null {
            Ok(None)
        } else {
            match decode_copies(m[i].1, key) {
                Ok(x) => Ok(Some(x)),
                Err(e) => Err(e),
            }
        }
    } else {
        Ok(None)
    }
}

/// The written form of such a field: left out where there is nothing.
pub open spec fn write_opt_copies(o: Option<CopiesView>) -> Option<Doc> {
    match o {
        Some(x) => Some(encode_copies(x)),
        None => None,
    }
}

/// Reads a field that may be a record of copies.
pub fn get_opt_copies(
    members: &Vec<(String, Value)>,
    key: &str,
) -> (r: Result<Option<Copies>, ParseError>)
    ensures
        match r {
            Ok(o) => read_opt_copies(members_of(members@), key@)
                == Ok::<Option<CopiesView>, Fault>(opt_copies(o)),
            Err(e) => read_opt_copies(members_of(members@), key@)
                == Err::<Option<CopiesView>, Fault>(e@),
        },
        r matches Ok(o) ==> opt_copies_wf(opt_copies(o)),
{
    match position(members, key) {
        None => Ok(None),
        Some(i) => {
            proof {
                assert(members_of(members@)[i as int].1 == members@[i as int].1@);
            }
            match &members[i].1 {
                Value::Null => Ok(None),
                v => match Copies::parse(v, key) {
                    Ok(x) => Ok(Some(x)),
                    Err(e) => Err(e),
                },
            }
        },
    }
}

/// Writes such a field.
pub fn make_opt_copies(o: &Option<Copies>) -> (r: Option<Value>)
    ensures
        opt_doc(r) == write_opt_copies(opt_copies(*o)),
{
    match o {
        Some(x) => Some(x.to_value()),
        None => None,
    }
}

/// Such a field, written and read again, holds the same.
pub proof fn lemma_opt_copies_round_trip(
    o: Option<CopiesView>,
    m: Seq<(Seq<char>, Doc)>,
    key: Seq<char>,
)
    requires
        opt_copies_wf(o),
        lookup(m, key) == write_opt_copies(o),
    ensures
        read_opt_copies(m, key) == Ok::<Option<CopiesView>, Fault>(o),
{
    lemma_lookup_index(m, key);
    if let Some(x) = o {
        lemma_copies_round_trip(x, key);
    }
}

/// The model of an optional availability.
pub open spec fn opt_availability(o: Option<Availability>) -> Option<AvailabilityView> {
    match o {
        Some(x) => Some(availability_view(x)),
        None => None,
    }
}

/// Whether an optional availability is well formed.
pub open spec fn opt_availability_wf(o: Option<AvailabilityView>) -> bool {
    o matches Some(x) ==> availability_wf(x)
}

/// A copy of an optional availability.
pub(crate) fn copy_opt_availability(o: &Option<Availability>) -> (r: Option<Availability>)
    ensures
        opt_availability(r) == opt_availability(*o),
{
    match o {
        Some(x) => Some(copy_availability(x)),
        None => None,
    }
}

/// What a field gives that may be an availability is well formed.
pub proof fn lemma_read_opt_availability_wf(m: Seq<(Seq<char>, Doc)>, key: Seq<char>)
    ensures
        read_opt_availability(m, key) matches Ok(o) ==> opt_availability_wf(o),
{
    lemma_index_of(m, key);
    let i = index_of(m, key);
    if 0 <= i < m.len() {
        lemma_decode_availability_wf(m[i].1, key);
    }
}

/// What a field holds that may be an availability: nothing where it is
/// absent or null.
pub open spec fn read_opt_availability(
    m: Seq<(Seq<char>, Doc)>,
    key: Seq<char>,
) -> Result<Option<AvailabilityView>, Fault> {
    let i = index_of(m, key);
    if 0 <= i < m.len() {
        if m[i].1 is Null {
            Ok(None)
        } else {
            match decode_availability(m[i].1, key) {
                Ok(x) => Ok(Some(x)),
                Err(e) => Err(e),
            }
        }
    } else {
        Ok(None)
    }
}

/// The written form of such a field: left out where there is nothing.
pub open spec fn write_opt_availability(o: Option<AvailabilityView>) -> Option<Doc> {
    match o {
        Some(x) => Some(encode_availability(x)),
        None => None,
    }
}

/// Reads a field that may be an availability.
pub fn get_opt_availability(
    members: &Vec<(String, Value)>,
    key: &str,
) -> (r: Result<Option<Availability>, ParseError>)
    ensures
        match r {
            Ok(o) => read_opt_availability(members_of(members@), key@)
                == Ok::<Option<AvailabilityView>, Fault>(opt_availability(o)),
            Err(e) => read_opt_availability(members_of(members@), key@)
                == Err::<Option<AvailabilityView>, Fault>(e@),
        },
        r matches Ok(o) ==> opt_availability_wf(opt_availability(o)),
{
    match position(members, key) {
        None => Ok(None),
        Some(i) => {
            proof {
                assert(members_of(members@)[i as int].1 == members@[i as int].1@);
            }
            match &members[i].1 {
                Value::Null => Ok(None),
                v => match Availability::parse(v, key) {
                    Ok(x) => Ok(Some(x)),
                    Err(e) => Err(e),
                },
            }
        },
    }
}

/// Writes such a field.
pub fn make_opt_availability(o: &Option<Availability>) -> (r: Option<Value>)
    ensures
        opt_doc(r) == write_opt_availability(opt_availability(*o)),
{
    match o {
        Some(x) => Some(x.to_value()),
        None => None,
    }
}

/// Such a field, written and read again, holds the same.
pub proof fn lemma_opt_availability_round_trip(
    o: Option<AvailabilityView>,
    m: Seq<(Seq<char>, Doc)>,
    key: Seq<char>,
)
    requires
        opt_availability_wf(o),
        lookup(m, key) == write_opt_availability(o),
    ensures
        read_opt_availability(m, key) == Ok::<Option<AvailabilityView>, Fault>(o),
{
    lemma_lookup_index(m, key);
    if let Some(x) = o {
        lemma_availability_round_trip(x, key);
    }
}

/// The models of a run of acquisition objects.
pub open spec fn acquisition_views(xs: Seq<Acquisition>) -> Seq<AcquisitionView>
    decreases xs,
{
    Seq::new(
        xs.len(),
        |i: int|
            if 0 <= i < xs.len() {
                acquisition_view(xs[i])
            } else {
                arbitrary()
            },
    )
}

/// Whether every acquisition object of a run is well formed.
pub open spec fn acquisition_seq_wf(xs: Seq<AcquisitionView>) -> bool
    decreases xs,
{
    forall|i: int| 0 <= i < xs.len() ==> acquisition_wf((#[trigger] xs[i]))
}

/// The acquisition objects that the items of a sequence stand for, or the error
/// of the first item that stands for none.
pub open spec fn decode_acquisition_seq(
    items: Seq<Doc>,
    field: Seq<char>,
) -> Result<Seq<AcquisitionView>, Fault>
    decreases items, 0int,
{
    if items.len() == 0 {
        Ok(Seq::empty())
    } else {
        match decode_acquisition_seq(items.drop_last(), field) {
            Err(e) => Err(e),
            Ok(init) => match decode_acquisition(items.last(), field) {
                Err(e) => Err(e),
                Ok(x) => Ok(init.push(x)),
            },
        }
    }
}

/// The written forms of a run of acquisition objects.
pub open spec fn encode_acquisition_seq(xs: Seq<AcquisitionView>) -> Seq<Doc>
    decreases xs, 0int,
{
    Seq::new(
        xs.len(),
        |i: int|
            if 0 <= i < xs.len() {
                encode_acquisition(xs[i])
            } else {
                Doc::Null
            },
    )
}

/// Where the items before `i` can be read and item `i` cannot, the
/// sequence gives the error of item `i`.
pub proof fn lemma_acquisition_seq_fails(items: Seq<Doc>, field: Seq<char>, i: int)
    requires
        0 <= i < items.len(),
        decode_acquisition_seq(items.take(i), field) is Ok,
        decode_acquisition(items[i], field) is Err,
    ensures
        decode_acquisition_seq(items, field)
            == Err::<Seq<AcquisitionView>, Fault>(decode_acquisition(items[i], field)->Err_0),
    decreases items.len(),
{
    if i == items.len() - 1 {
        assert(items.take(i) =~= items.drop_last());
    } else {
        assert(items.drop_last().take(i) =~= items.take(i));
        lemma_acquisition_seq_fails(items.drop_last(), field, i);
    }
}

/// Reads the items of a sequence as acquisition objects.
pub fn parse_acquisition_seq(
    items: &Vec<Value>,
    field: &str,
) -> (r: Result<Vec<Acquisition>, ParseError>)
    ensures
        match r {
            Ok(xs) => decode_acquisition_seq(docs_of(items@), field@)
                == Ok::<Seq<AcquisitionView>, Fault>(acquisition_views(xs@)),
            Err(e) => decode_acquisition_seq(docs_of(items@), field@)
                == Err::<Seq<AcquisitionView>, Fault>(e@),
        },
        r matches Ok(xs) ==> acquisition_seq_wf(acquisition_views(xs@)),
    decreases items, 0int,
{
    let mut out: Vec<Acquisition> = Vec::new();
    let mut i: usize = 0;
    proof {
        assert(acquisition_views(out@) =~= Seq::<AcquisitionView>::empty());
    }
    while i < items.len()
        invariant
            i <= items.len(),
            decode_acquisition_seq(docs_of(items@).take(i as int), field@)
                == Ok::<Seq<AcquisitionView>, Fault>(
                acquisition_views(out@),
            ),
            acquisition_seq_wf(acquisition_views(out@)),
        decreases items.len() - i,
    {
        let ghost all = docs_of(items@);
        let ghost before = out@;
        proof {
            assert(all.take(i + 1).drop_last() =~= all.take(i as int));
            assert(all.take(i + 1).last() == items@[i as int]@);
            assert(decreases_to!(*items => items@));
            assert(decreases_to!(items@ => items@[i as int]));
        }
        match Acquisition::parse(&items[i], field) {
            Ok(x) => {
                let ghost one = acquisition_view(x);
                out.push(x);
                proof {
                    assert(acquisition_views(out@) =~= acquisition_views(before).push(one));
                }
            },
            Err(e) => {
                proof {
                    lemma_acquisition_seq_fails(all, field@, i as int);
                }
                return Err(e);
            },
        }
        i += 1;
    }
    proof {
        assert(docs_of(items@).take(i as int) =~= docs_of(items@));
    }
    Ok(out)
}

/// Writes a run of acquisition objects.
pub fn emit_acquisition_seq(xs: &Vec<Acquisition>) -> (out: Vec<Value>)
    ensures
        docs_of(out@) == encode_acquisition_seq(acquisition_views(xs@)),
    decreases xs, 0int,
{
    let mut out: Vec<Value> = Vec::new();
    let mut i: usize = 0;
    while i < xs.len()
        invariant
            i <= xs.len(),
            out@.len() == i,
            forall|j: int| 0 <= j < i
                ==> (#[trigger] out@[j])@ == encode_acquisition(acquisition_view(xs@[j])),
        decreases xs.len() - i,
    {
        proof {
            assert(decreases_to!(*xs => xs@));
            assert(decreases_to!(xs@ => xs@[i as int]));
        }
        out.push(xs[i].to_value());
        i += 1;
    }
    proof {
        assert(docs_of(out@) =~= encode_acquisition_seq(acquisition_views(xs@)));
    }
    out
}

/// A run of well-formed acquisition objects written and read again is the same
/// run.
pub proof fn lemma_acquisition_seq_round_trip(xs: Seq<AcquisitionView>, field: Seq<char>)
    requires
        acquisition_seq_wf(xs),
    ensures
        decode_acquisition_seq(encode_acquisition_seq(xs), field)
            == Ok::<Seq<AcquisitionView>, Fault>(xs),
    decreases xs, 0int,
{
    if xs.len() > 0 {
        let docs = encode_acquisition_seq(xs);
        assert(docs.drop_last() =~= encode_acquisition_seq(xs.drop_last()));
        assert(acquisition_seq_wf(xs.drop_last())) by {
            assert forall|i: int| 0 <= i < xs.drop_last().len()
                implies acquisition_wf((#[trigger] xs.drop_last()[i])) by {
                assert(xs.drop_last()[i] == xs[i]);
            }
        }
        lemma_acquisition_seq_round_trip(xs.drop_last(), field);
        assert(acquisition_wf(xs.last()));
        lemma_acquisition_round_trip(xs.last(), field);
        assert(xs.drop_last().push(xs.last()) =~= xs);
    } else {
        assert(xs =~= Seq::<AcquisitionView>::empty());
    }
}

/// A copy of a run of acquisition objects.
pub(crate) fn copy_acquisition_seq(xs: &Vec<Acquisition>) -> (out: Vec<Acquisition>)
    ensures
        acquisition_views(out@) == acquisition_views(xs@),
    decreases xs, 0int,
{
    let mut out: Vec<Acquisition> = Vec::new();
    let mut i: usize = 0;
    while i < xs.len()
        invariant
            i <= xs.len(),
            out@.len() == i,
            forall|j: int| 0 <= j < i
                ==> acquisition_view((#[trigger] out@[j])) == acquisition_view(xs@[j]),
        decreases xs.len() - i,
    {
        proof {
            assert(decreases_to!(*xs => xs@));
            assert(decreases_to!(xs@ => xs@[i as int]));
        }
        out.push(copy_acquisition(&xs[i]));
        i += 1;
    }
    proof {
        assert(acquisition_views(out@) =~= acquisition_views(xs@));
    }
    out
}

/// What the items of a sequence give as acquisition objects is well formed.
pub proof fn lemma_decode_acquisition_seq_wf(items: Seq<Doc>, field: Seq<char>)
    ensures
        decode_acquisition_seq(items, field) matches Ok(xs) ==> acquisition_seq_wf(xs),
    decreases items, 0int,
{
    if items.len() > 0 {
        lemma_decode_acquisition_seq_wf(items.drop_last(), field);
        lemma_decode_acquisition_wf(items.last(), field);
        if let Ok(init) = decode_acquisition_seq(items.drop_last(), field) {
            if let Ok(x) = decode_acquisition(items.last(), field) {
                let xs = init.push(x);
                assert forall|i: int| 0 <= i < xs.len()
                    implies acquisition_wf((#[trigger] xs[i])) by {
                    if i < init.len() {
                        assert(xs[i] == init[i]);
                    }
                }
            }
        }
    }
}

/// What a list field of acquisition objects gives is well formed.
pub proof fn lemma_read_acquisition_list_wf(m: Seq<(Seq<char>, Doc)>, key: Seq<char>)
    ensures
        read_acquisition_list(m, key) matches Ok(xs) ==> acquisition_seq_wf(xs),
    decreases m, 0int,
{
    lemma_index_of(m, key);
    let i = index_of(m, key);
    if 0 <= i < m.len() {
        assert(decreases_to!(m => m[i]));
        assert(decreases_to!(m[i] => m[i].1));
        if let Doc::Array(items) = m[i].1 {
            assert(decreases_to!(m[i].1 => m[i].1->Array_0));
            lemma_decode_acquisition_seq_wf(items, key);
        }
    }
}

/// What a list field of acquisition objects holds: nothing where it is absent.
pub open spec fn read_acquisition_list(
    m: Seq<(Seq<char>, Doc)>,
    key: Seq<char>,
) -> Result<Seq<AcquisitionView>, Fault>
    decreases m, 0int,
{
    let i = index_of(m, key);
    if 0 <= i < m.len() {
        match m[i].1 {
            Doc::Array(items) => decode_acquisition_seq(items, key),
            _ => Err(mismatch(key, list_shapes(), shape_of(m[i].1))),
        }
    } else {
        Ok(Seq::empty())
    }
}

/// The written form of such a field: left out where the list is empty.
pub open spec fn write_acquisition_list(xs: Seq<AcquisitionView>) -> Option<Doc>
    decreases xs, 1int,
{
    listed(encode_acquisition_seq(xs))
}

/// Reads a list field of acquisition objects.
pub fn get_acquisition_list(
    members: &Vec<(String, Value)>,
    key: &str,
) -> (r: Result<Vec<Acquisition>, ParseError>)
    ensures
        match r {
            Ok(xs) => read_acquisition_list(members_of(members@), key@)
                == Ok::<Seq<AcquisitionView>, Fault>(acquisition_views(xs@)),
            Err(e) => read_acquisition_list(members_of(members@), key@)
                == Err::<Seq<AcquisitionView>, Fault>(e@),
        },
        r matches Ok(xs) ==> acquisition_seq_wf(acquisition_views(xs@)),
    decreases members, 0int,
{
    match position(members, key) {
        None => {
            let xs: Vec<Acquisition> = Vec::new();
            proof {
                assert(acquisition_views(xs@) =~= Seq::<AcquisitionView>::empty());
            }
            Ok(xs)
        },
        Some(i) => {
            proof {
                assert(members_of(members@)[i as int].1 == members@[i as int].1@);
                assert(decreases_to!(*members => members@));
                assert(decreases_to!(members@ => members@[i as int]));
                assert(decreases_to!(members@[i as int] => members@[i as int].1));
            }
            match &members[i].1 {
                Value::Array(items) => {
                    proof {
                        assert(decreases_to!(members@[i as int].1 => members@[i as int].1->Array_0));
                    }
                    parse_acquisition_seq(items, key)
                },
                v => Err(wrong_shape(key, shapes1(Shape::Array), v)),
            }
        },
    }
}

/// Writes a list field of acquisition objects.
pub fn make_acquisition_list(xs: &Vec<Acquisition>) -> (r: Option<Value>)
    ensures
        opt_doc(r) == write_acquisition_list(acquisition_views(xs@)),
    decreases xs, 1int,
{
    plain(emit_acquisition_seq(xs))
}

/// A list field of well-formed acquisition objects, written and read again,
/// holds the same acquisition objects.
pub proof fn lemma_acquisition_list_round_trip(
    xs: Seq<AcquisitionView>,
    m: Seq<(Seq<char>, Doc)>,
    key: Seq<char>,
)
    requires
        acquisition_seq_wf(xs),
        lookup(m, key) == write_acquisition_list(xs),
    ensures
        read_acquisition_list(m, key) == Ok::<Seq<AcquisitionView>, Fault>(xs),
    decreases xs, 1int,
{
    lemma_lookup_index(m, key);
    if xs.len() == 0 {
        assert(xs =~= Seq::<AcquisitionView>::empty());
    } else {
        lemma_acquisition_seq_round_trip(xs, key);
    }
}

} // verus!
