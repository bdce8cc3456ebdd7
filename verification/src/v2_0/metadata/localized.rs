//! Text for display: one string, or a choice of strings by language.
//!
//! The two forms are kept apart: a single string is read and written as a
//! string, a choice by language as an object from language tag to string.
//! The choices are held ordered by tag, one for each tag.
use vstd::prelude::*;
use vstd::std_specs::convert::FromSpecImpl;
use crate::error::{mismatch, named_shapes, text_shapes, Fault, ParseError};
use crate::helpers::{shapes1, shapes2, wrong_shape};
use crate::v2_0::metadata::language::{
    compare_tags, is_language_tag, language_tag_ok, lemma_tag_before_chain, lemma_tag_order_turns,
    tag_before, tag_order,
};
use crate::value::{members_of, shape_of, Doc, Shape, Value};

verus! {

/// A map of per-language choices, where each key is a language tag.
#[derive(Debug, PartialEq, Eq)]
pub struct TaggedStrings {
    /// The choices, each a tag and the text in that language.
    pub choices: Vec<(String, String)>,
}

/// Either a single string, or a map of per-language choices.
#[derive(Debug, PartialEq, Eq)]
pub enum StringWithAlternates {
    Always(String),
    Variants(TaggedStrings),
}

/// The mathematical model of a [`StringWithAlternates`].
pub enum Localized {
    Always(Seq<char>),
    Variants(Seq<(Seq<char>, Seq<char>)>),
}

/// The models of a run of choices.
pub open spec fn choices_of(s: Seq<(String, String)>) -> Seq<(Seq<char>, Seq<char>)> {
    Seq::new(s.len(), |i: int| (s[i].0@, s[i].1@))
}

impl View for TaggedStrings {
    type V = Seq<(Seq<char>, Seq<char>)>;

    open spec fn view(&self) -> Seq<(Seq<char>, Seq<char>)> {
        choices_of(self.choices@)
    }
}

impl View for StringWithAlternates {
    type V = Localized;

    open spec fn view(&self) -> Localized {
        match self {
            StringWithAlternates::Always(s) => Localized::Always(s@),
            StringWithAlternates::Variants(t) => Localized::Variants(t@),
        }
    }
}

/// The model of an optional display text.
pub open spec fn opt_localized(o: Option<StringWithAlternates>) -> Option<Localized> {
    match o {
        Some(x) => Some(x@),
        None => None,
    }
}

/// The models of a run of display texts.
pub open spec fn localized_views(xs: Seq<StringWithAlternates>) -> Seq<Localized> {
    Seq::new(xs.len(), |i: int| xs[i]@)
}

/// Choices are well formed when every key is a language tag and the keys
/// stand in the order of tags, each before all that follow.
pub open spec fn choices_wf(c: Seq<(Seq<char>, Seq<char>)>) -> bool {
    &&& forall|i: int| 0 <= i < c.len() ==> language_tag_ok((#[trigger] c[i]).0)
    &&& forall|i: int, j: int| 0 <= i < j < c.len()
        ==> tag_before((#[trigger] c[i]).0, (#[trigger] c[j]).0)
}

/// A display text is well formed when its choices are, if it has any.
pub open spec fn localized_wf(x: Localized) -> bool {
    x matches Localized::Variants(c) ==> choices_wf(c)
}

/// Whether an optional display text is well formed.
pub open spec fn opt_localized_wf(o: Option<Localized>) -> bool {
    o matches Some(x) ==> localized_wf(x)
}

/// Whether every display text of a run is well formed.
pub open spec fn localized_seq_wf(xs: Seq<Localized>) -> bool {
    forall|i: int| 0 <= i < xs.len() ==> localized_wf(#[trigger] xs[i])
}

/// The first position from `i` on whose tag does not come before `tag`,
/// or the number of choices where there is none.
pub open spec fn slot_from(c: Seq<(Seq<char>, Seq<char>)>, tag: Seq<char>, i: int) -> int
    decreases c.len() - i,
{
    if i < 0 || i >= c.len() {
        c.len() as int
    } else if tag_before(c[i].0, tag) {
        slot_from(c, tag, i + 1)
    } else {
        i
    }
}

/// Where a choice for `tag` belongs among ordered choices.
pub open spec fn slot(c: Seq<(Seq<char>, Seq<char>)>, tag: Seq<char>) -> int {
    slot_from(c, tag, 0)
}

/// The choices with `text` as the choice for `tag`: in place of the text
/// of a choice with the same tag, whose key stays, else as a new choice
/// where the order of tags puts it.
pub open spec fn with_choice(
    c: Seq<(Seq<char>, Seq<char>)>,
    tag: Seq<char>,
    text: Seq<char>,
) -> Seq<
    (Seq<char>, Seq<char>),
> {
    let p = slot(c, tag);
    if 0 <= p < c.len() && tag_order(c[p].0, tag) == 0 {
        c.update(p, (c[p].0, text))
    } else {
        c.insert(p, (tag, text))
    }
}

/// The choices that an object's members stand for, taken one after the
/// other: each key has to be a language tag and each value text.
pub open spec fn decode_choices(
    m: Seq<(Seq<char>, Doc)>,
) -> Result<Seq<(Seq<char>, Seq<char>)>, Fault>
    decreases m.len(),
{
    if m.len() == 0 {
        Ok(Seq::empty())
    } else {
        match decode_choices(m.drop_last()) {
            Err(e) => Err(e),
            Ok(c) => if !language_tag_ok(m.last().0) {
                Err(Fault::InvalidLanguageTag(m.last().0))
            } else {
                match m.last().1 {
                    Doc::String(s) => Ok(with_choice(c, m.last().0, s)),
                    d => Err(mismatch(m.last().0, text_shapes(), shape_of(d))),
                }
            },
        }
    }
}

/// The members that choices are written as, in their order.
pub open spec fn encode_choices(c: Seq<(Seq<char>, Seq<char>)>) -> Seq<(Seq<char>, Doc)> {
    Seq::new(c.len(), |i: int| (c[i].0, Doc::String(c[i].1)))
}

/// The display text that a value stands for: a string as it is, an object
/// as choices by language.
pub open spec fn decode_localized(d: Doc, field: Seq<char>) -> Result<Localized, Fault> {
    match d {
        Doc::String(s) => Ok(Localized::Always(s)),
        Doc::Object(m) => match decode_choices(m) {
            Ok(c) => Ok(Localized::Variants(c)),
            Err(e) => Err(e),
        },
        _ => Err(mismatch(field, named_shapes(), shape_of(d))),
    }
}

/// The written form of a display text: a string for a single string, an
/// object for choices by language.
pub open spec fn encode_localized(x: Localized) -> Doc {
    match x {
        Localized::Always(s) => Doc::String(s),
        Localized::Variants(c) => Doc::Object(encode_choices(c)),
    }
}

/// `slot_from` answers with a position from `i` on, before which, from `i`
/// on, every tag comes before `tag`, and at which the tag does not.
pub proof fn lemma_slot_from(c: Seq<(Seq<char>, Seq<char>)>, tag: Seq<char>, i: int)
    requires
        0 <= i <= c.len(),
    ensures
        i <= slot_from(c, tag, i) <= c.len(),
        forall|j: int| i <= j < slot_from(c, tag, i) ==> tag_before((#[trigger] c[j]).0, tag),
        slot_from(c, tag, i) < c.len() ==> !tag_before(c[slot_from(c, tag, i)].0, tag),
    decreases c.len() - i,
{
    if i < c.len() && tag_before(c[i].0, tag) {
        lemma_slot_from(c, tag, i + 1);
    }
}

/// Where every tag from `i` on comes before `tag`, the slot is at the
/// end.
pub proof fn lemma_slot_at_end(c: Seq<(Seq<char>, Seq<char>)>, tag: Seq<char>, i: int)
    requires
        0 <= i <= c.len(),
        forall|j: int| i <= j < c.len() ==> tag_before((#[trigger] c[j]).0, tag),
    ensures
        slot_from(c, tag, i) == c.len(),
    decreases c.len() - i,
{
    if i < c.len() {
        lemma_slot_at_end(c, tag, i + 1);
    }
}

/// Well-formed choices stay well formed when a choice for a language tag
/// is put among them.
pub proof fn lemma_with_choice_wf(c: Seq<(Seq<char>, Seq<char>)>, tag: Seq<char>, text: Seq<char>)
    requires
        choices_wf(c),
        language_tag_ok(tag),
    ensures
        choices_wf(with_choice(c, tag, text)),
{
    let p = slot(c, tag);
    lemma_slot_from(c, tag, 0);
    let after = with_choice(c, tag, text);
    if 0 <= p < c.len() && tag_order(c[p].0, tag) == 0 {
        assert forall|i: int, j: int| 0 <= i < j < after.len() implies tag_before(
            (#[trigger] after[i]).0,
            (#[trigger] after[j]).0,
        ) by {
            assert(after[i].0 == c[i].0);
            assert(after[j].0 == c[j].0);
        }
        assert forall|i: int| 0 <= i < after.len()
            implies language_tag_ok((#[trigger] after[i]).0) by {
            assert(after[i].0 == c[i].0);
        }
    } else {
        assert forall|i: int| 0 <= i < after.len()
            implies language_tag_ok((#[trigger] after[i]).0) by {
            if i < p {
                assert(after[i] == c[i]);
            } else if i > p {
                assert(after[i] == c[i - 1]);
            }
        }
        assert forall|i: int, j: int| 0 <= i < j < after.len() implies tag_before(
            (#[trigger] after[i]).0,
            (#[trigger] after[j]).0,
        ) by {
            if i < p {
                assert(after[i] == c[i]);
            } else if i > p {
                assert(after[i] == c[i - 1]);
            }
            if j < p {
                assert(after[j] == c[j]);
            } else if j > p {
                assert(after[j] == c[j - 1]);
            }
            if j == p {
                assert(tag_before(c[i].0, tag));
            } else if i == p {
                // the tag at the slot does not come before `tag` and is not the same
                lemma_tag_order_turns(c[p].0, tag);
                assert(tag_before(tag, c[p].0));
                if j - 1 > p {
                    assert(tag_before(c[p].0, c[j - 1].0));
                    lemma_tag_before_chain(tag, c[p].0, c[j - 1].0);
                }
            }
        }
    }
}

/// What an object's members give as choices is well formed.
pub proof fn lemma_decode_choices_wf(m: Seq<(Seq<char>, Doc)>)
    ensures
        decode_choices(m) matches Ok(c) ==> choices_wf(c),
    decreases m.len(),
{
    if m.len() > 0 {
        lemma_decode_choices_wf(m.drop_last());
        if let Ok(c) = decode_choices(m.drop_last()) {
            if language_tag_ok(m.last().0) {
                if let Doc::String(s) = m.last().1 {
                    lemma_with_choice_wf(c, m.last().0, s);
                }
            }
        }
    }
}

/// Well-formed choices written and read again are the same choices, in
/// the same order.
pub proof fn lemma_choices_round_trip(c: Seq<(Seq<char>, Seq<char>)>)
    requires
        choices_wf(c),
    ensures
        decode_choices(encode_choices(c)) == Ok::<Seq<(Seq<char>, Seq<char>)>, Fault>(c),
    decreases c.len(),
{
    if c.len() == 0 {
        assert(c =~= Seq::<(Seq<char>, Seq<char>)>::empty());
    } else {
        let m = encode_choices(c);
        let init = c.drop_last();
        assert(m.drop_last() =~= encode_choices(init));
        assert(choices_wf(init)) by {
            assert forall|i: int| 0 <= i < init.len()
                implies language_tag_ok((#[trigger] init[i]).0) by {
                assert(init[i] == c[i]);
            }
            assert forall|i: int, j: int| 0 <= i < j < init.len() implies tag_before(
                (#[trigger] init[i]).0,
                (#[trigger] init[j]).0,
            ) by {
                assert(init[i] == c[i]);
                assert(init[j] == c[j]);
            }
        }
        lemma_choices_round_trip(init);
        let last = c.last();
        assert(m.last() == (last.0, Doc::String(last.1)));
        assert(language_tag_ok(last.0));
        assert forall|j: int| 0 <= j < init.len()
            implies tag_before((#[trigger] init[j]).0, last.0) by {
            assert(init[j] == c[j]);
        }
        lemma_slot_at_end(init, last.0, 0);
        assert(with_choice(init, last.0, last.1) =~= c);
    }
}

/// A well-formed display text written and read again is the same text.
pub proof fn lemma_localized_round_trip(x: Localized, field: Seq<char>)
    requires
        localized_wf(x),
    ensures
        decode_localized(encode_localized(x), field) == Ok::<Localized, Fault>(x),
{
    if let Localized::Variants(c) = x {
        lemma_choices_round_trip(c);
    }
}

/// What reading gives as a display text is well formed.
pub proof fn lemma_decode_localized_wf(d: Doc, field: Seq<char>)
    ensures
        decode_localized(d, field) matches Ok(x) ==> localized_wf(x),
{
    if let Doc::Object(m) = d {
        lemma_decode_choices_wf(m);
    }
}

impl TaggedStrings {
    /// No choices.
    pub fn new() -> (r: TaggedStrings)
        ensures
            r@ == Seq::<(Seq<char>, Seq<char>)>::empty(),
            choices_wf(r@),
    {
        let r = TaggedStrings { choices: Vec::new() };
        assert(r@ =~= Seq::<(Seq<char>, Seq<char>)>::empty());
        r
    }

    /// The given choices, in the order given.
    pub fn from_static(choices: &[(&'static str, &'static str)]) -> (r: TaggedStrings)
        ensures
            r@.len() == choices@.len(),
            forall|i: int| 0 <= i < choices@.len() ==> r@[i] == (choices@[i].0@, choices@[i].1@),
    {
        let mut out: Vec<(String, String)> = Vec::new();
        let mut i: usize = 0;
        while i < choices.len()
            invariant
                i <= choices@.len(),
                out@.len() == i,
                forall|j: int|
                    0 <= j < i
                        ==> (#[trigger] out@[j]).0@ == choices@[j].0@ && out@[j].1@ == choices@[j].1@,
            decreases choices@.len() - i,
        {
            out.push((choices[i].0.to_owned(), choices[i].1.to_owned()));
            i += 1;
        }
        TaggedStrings { choices: out }
    }

    /// Where a choice for `tag` belongs.
    fn slot(&self, tag: &str) -> (p: usize)
        ensures
            p == slot(self@, tag@),
            p <= self.choices.len(),
    {
        let mut i: usize = 0;
        proof {
            lemma_slot_from(self@, tag@, 0);
        }
        while i < self.choices.len()
            invariant
                i <= self.choices.len(),
                slot(self@, tag@) == slot_from(self@, tag@, i as int),
            decreases self.choices.len() - i,
        {
            if compare_tags(self.choices[i].0.as_str(), tag) < 0 {
                i += 1;
            } else {
                return i;
            }
        }
        i
    }

    /// Makes `text` the choice for `tag`: in place of the text of a choice
    /// with the same tag, else as a new choice where the order of tags
    /// puts it. Answers `false`, and changes nothing, where `tag` is no
    /// language tag.
    pub fn insert(&mut self, tag: &str, text: String) -> (done: bool)
        ensures
            done == language_tag_ok(tag@),
            done ==> final(self)@ == with_choice(old(self)@, tag@, text@),
            !done ==> final(self)@ == old(self)@,
            choices_wf(old(self)@) ==> choices_wf(final(self)@),
    {
        if !is_language_tag(tag) {
            return false;
        }
        proof {
            if choices_wf(self@) {
                lemma_with_choice_wf(self@, tag@, text@);
            }
        }
        let p = self.slot(tag);
        let ghost before = self@;
        if p < self.choices.len() && compare_tags(self.choices[p].0.as_str(), tag) == 0 {
            let key = self.choices[p].0.clone();
            self.choices.set(p, (key, text));
            assert(self@ =~= with_choice(before, tag@, text@));
        } else {
            self.choices.insert(p, (tag.to_owned(), text));
            assert(self@ =~= with_choice(before, tag@, text@));
        }
        true
    }

    /// Reads choices from the members of an object.
    pub fn from_members(members: &Vec<(String, Value)>) -> (r: Result<TaggedStrings, ParseError>)
        ensures
            match r {
                Ok(t) => decode_choices(members_of(members@))
                    == Ok::<Seq<(Seq<char>, Seq<char>)>, Fault>(t@),
                Err(e) => decode_choices(members_of(members@))
                    == Err::<Seq<(Seq<char>, Seq<char>)>, Fault>(e@),
            },
            r matches Ok(t) ==> choices_wf(t@),
    {
        let mut out = TaggedStrings::new();
        let mut i: usize = 0;
        while i < members.len()
            invariant
                i <= members.len(),
                decode_choices(members_of(members@).take(i as int))
                    == Ok::<Seq<(Seq<char>, Seq<char>)>, Fault>(
                    out@,
                ),
                choices_wf(out@),
            decreases members.len() - i,
        {
            let ghost all = members_of(members@);
            proof {
                assert(all.take(i + 1).drop_last() =~= all.take(i as int));
                assert(all.take(i + 1).last() == all[i as int]);
            }
            let tag = members[i].0.as_str();
            if !is_language_tag(tag) {
                proof {
                    lemma_choices_fail(all, i as int);
                }
                return Err(ParseError::InvalidLanguageTag(members[i].0.clone()));
            }
            match &members[i].1 {
                Value::String(s) => {
                    let done = out.insert(tag, s.clone());
                    assert(done);
                },
                other => {
                    proof {
                        lemma_choices_fail(all, i as int);
                    }
                    return Err(wrong_shape(tag, shapes1(Shape::String), other));
                },
            }
            i += 1;
        }
        proof {
            assert(members_of(members@).take(i as int) =~= members_of(members@));
        }
        Ok(out)
    }

    /// Writes the choices as the members of an object, in their order.
    pub fn to_members(&self) -> (out: Vec<(String, Value)>)
        ensures
            members_of(out@) == encode_choices(self@),
    {
        let mut out: Vec<(String, Value)> = Vec::new();
        let mut i: usize = 0;
        while i < self.choices.len()
            invariant
                i <= self.choices.len(),
                out@.len() == i,
                forall|j: int|
                    0 <= j < i
                        ==> (#[trigger] out@[j]).0@ == self.choices@[j].0@ && out@[j].1@ == Doc::String(
                        self.choices@[j].1@,
                    ),
            decreases self.choices.len() - i,
        {
            out.push((self.choices[i].0.clone(), Value::String(self.choices[i].1.clone())));
            i += 1;
        }
        proof {
            assert(members_of(out@) =~= encode_choices(self@));
        }
        out
    }
}

/// One step of reading choices: the error that member `i` gives where the
/// members before it can be read and it cannot.
pub open spec fn choice_fault(m: Seq<(Seq<char>, Doc)>, i: int) -> Option<Fault> {
    if !language_tag_ok(m[i].0) {
        Some(Fault::InvalidLanguageTag(m[i].0))
    } else {
        match m[i].1 {
            Doc::String(_) => None,
            d => Some(mismatch(m[i].0, text_shapes(), shape_of(d))),
        }
    }
}

/// Where the members before `i` can be read as choices and member `i`
/// cannot, the members give the error of member `i`.
pub proof fn lemma_choices_fail(m: Seq<(Seq<char>, Doc)>, i: int)
    requires
        0 <= i < m.len(),
        decode_choices(m.take(i)) is Ok,
        choice_fault(m, i) is Some,
    ensures
        decode_choices(m) == Err::<Seq<(Seq<char>, Seq<char>)>, Fault>(choice_fault(m, i)->Some_0),
    decreases m.len(),
{
    if i == m.len() - 1 {
        assert(m.take(i) =~= m.drop_last());
    } else {
        assert(m.drop_last().take(i) =~= m.take(i));
        lemma_choices_fail(m.drop_last(), i);
    }
}

/// The model of what reading a display text gave.
pub open spec fn parsed_localized(
    r: Result<StringWithAlternates, ParseError>,
) -> Result<Localized, Fault> {
    match r {
        Ok(x) => Ok(x@),
        Err(e) => Err(e@),
    }
}

impl StringWithAlternates {
    /// Reads a display text from a value found under `field`.
    pub fn parse(v: &Value, field: &str) -> (r: Result<StringWithAlternates, ParseError>)
        ensures
            parsed_localized(r) == decode_localized(v@, field@),
            r matches Ok(x) ==> localized_wf(x@),
    {
        match v {
            Value::String(s) => Ok(StringWithAlternates::Always(s.clone())),
            Value::Object(members) => match TaggedStrings::from_members(members) {
                Ok(t) => Ok(StringWithAlternates::Variants(t)),
                Err(e) => Err(e),
            },
            _ => Err(wrong_shape(field, shapes2(Shape::String, Shape::Object), v)),
        }
    }

    /// Writes this display text as a value.
    pub fn to_value(&self) -> (v: Value)
        ensures
            v@ == encode_localized(self@),
    {
        match self {
            StringWithAlternates::Always(s) => Value::String(s.clone()),
            StringWithAlternates::Variants(t) => Value::Object(t.to_members()),
        }
    }
}

impl Clone for TaggedStrings {
    /// The same choices.
    fn clone(&self) -> (r: TaggedStrings)
        ensures
            r@ == self@,
    {
        let mut out: Vec<(String, String)> = Vec::new();
        let mut i: usize = 0;
        while i < self.choices.len()
            invariant
                i <= self.choices.len(),
                out@.len() == i,
                forall|j: int|
                    0 <= j < i ==> (#[trigger] out@[j]).0@ == self.choices@[j].0@ && out@[j].1@
                        == self.choices@[j].1@,
            decreases self.choices.len() - i,
        {
            out.push((self.choices[i].0.clone(), self.choices[i].1.clone()));
            i += 1;
        }
        proof {
            assert(choices_of(out@) =~= choices_of(self.choices@));
        }
        TaggedStrings { choices: out }
    }
}

impl Clone for StringWithAlternates {
    /// The same display text.
    fn clone(&self) -> (r: StringWithAlternates)
        ensures
            r@ == self@,
    {
        match self {
            StringWithAlternates::Always(s) => StringWithAlternates::Always(s.clone()),
            StringWithAlternates::Variants(t) => StringWithAlternates::Variants(t.clone()),
        }
    }
}

impl FromSpecImpl<String> for StringWithAlternates {
    open spec fn obeys_from_spec() -> bool {
        true
    }

    open spec fn from_spec(s: String) -> Self {
        StringWithAlternates::Always(s)
    }
}

impl From<String> for StringWithAlternates {
    /// The single string.
    fn from(s: String) -> (r: StringWithAlternates)
        ensures
            r@ == Localized::Always(s@),
    {
        StringWithAlternates::Always(s)
    }
}

impl<'a> FromSpecImpl<&'a str> for StringWithAlternates {
    open spec fn obeys_from_spec() -> bool {
        false
    }

    open spec fn from_spec(s: &'a str) -> Self {
        arbitrary()
    }
}

impl<'a> From<&'a str> for StringWithAlternates {
    /// The single string.
    fn from(s: &'a str) -> (r: StringWithAlternates)
        ensures
            r@ == Localized::Always(s@),
    {
        StringWithAlternates::Always(s.to_owned())
    }
}

} // verus!
