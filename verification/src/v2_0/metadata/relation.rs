//! Relations between a link and what holds it, and how their names resolve.
//!
//! A relation's name is looked for among the well-known relations first,
//! then among the ways to acquire a publication; a name found in neither
//! table is kept as it is, as a custom relation.
use vstd::prelude::*;
use vstd::std_specs::convert::FromSpecImpl;
use crate::error::{flat_text_shapes, mismatch, parsed, text_shapes, Fault, ParseError};
use crate::helpers::{collapse, collapsed, shapes1, shapes2, wrong_shape, FlattenedVec};
use crate::text::same_text;
use crate::value::{docs_of, find, lookup, members_of, opt_doc, shape_of, Doc, Shape, Value};

verus! {

/// A way to acquire a publication.
#[derive(Clone, Copy, Debug, PartialEq, Eq, Structural)]
#[non_exhaustive]
pub enum AcquisitionKind {
    /// Fallback where no other relation says how the publication is obtained.
    Fallback,
    /// The publication is freely accessible, with no requirement.
    OpenAccess,
    /// The publication can be purchased for a given price.
    Buy,
    /// A part of the publication is freely accessible.
    Sample,
    /// The publication can be subscribed to.
    Subscribe,
    /// A preview of the publication is freely accessible.
    Preview,
}

/// A relationship between a resource and a link.
#[derive(Debug, PartialEq, Eq)]
#[non_exhaustive]
pub enum Relation {
    /// The resource itself.
    Myself,
    /// A substitute for the link's context.
    Alternate,
    /// A table of contents.
    Contents,
    /// The cover of a publication.
    Cover,
    /// A web application manifest.
    Manifest,
    /// A user's profile.
    Profile,
    /// The first resource in a collection of resources.
    First,
    /// The resource before the link's context in a collection.
    Previous,
    /// The resource after the link's context in a collection.
    Next,
    /// The last resource in a collection of resources.
    Last,
    /// The same resource as the link's context.
    Current,
    /// A URI or a URI template for performing a search.
    Search,
    /// A subsection of the link's context.
    Subsection,
    /// The same publications, newest first.
    SortNew,
    /// The same publications, most popular first.
    SortPopular,
    /// A way to acquire the publication.
    Acquisition(AcquisitionKind),
    /// A relation that is in neither table, under its own name.
    Custom(String),
}

/// The mathematical model of a [`Relation`].
pub enum RelationView {
    Myself,
    Alternate,
    Contents,
    Cover,
    Manifest,
    Profile,
    First,
    Previous,
    Next,
    Last,
    Current,
    Search,
    Subsection,
    SortNew,
    SortPopular,
    Acquisition(AcquisitionKind),
    Custom(Seq<char>),
}

impl View for Relation {
    type V = RelationView;

    open spec fn view(&self) -> RelationView {
        match self {
            Relation::Myself => RelationView::Myself,
            Relation::Alternate => RelationView::Alternate,
            Relation::Contents => RelationView::Contents,
            Relation::Cover => RelationView::Cover,
            Relation::Manifest => RelationView::Manifest,
            Relation::Profile => RelationView::Profile,
            Relation::First => RelationView::First,
            Relation::Previous => RelationView::Previous,
            Relation::Next => RelationView::Next,
            Relation::Last => RelationView::Last,
            Relation::Current => RelationView::Current,
            Relation::Search => RelationView::Search,
            Relation::Subsection => RelationView::Subsection,
            Relation::SortNew => RelationView::SortNew,
            Relation::SortPopular => RelationView::SortPopular,
            Relation::Acquisition(k) => RelationView::Acquisition(*k),
            Relation::Custom(s) => RelationView::Custom(s@),
        }
    }
}

/// The models of a run of relations.
pub open spec fn relation_views(xs: Seq<Relation>) -> Seq<RelationView> {
    Seq::new(xs.len(), |i: int| xs[i]@)
}

/// The well-known relation of that name, if there is one.
pub open spec fn fixed_relation(s: Seq<char>) -> Option<RelationView> {
    if s == "self"@ {
        Some(RelationView::Myself)
    } else if s == "alternate"@ {
        Some(RelationView::Alternate)
    } else if s == "contents"@ {
        Some(RelationView::Contents)
    } else if s == "cover"@ {
        Some(RelationView::Cover)
    } else if s == "manifest"@ {
        Some(RelationView::Manifest)
    } else if s == "profile"@ {
        Some(RelationView::Profile)
    } else if s == "first"@ {
        Some(RelationView::First)
    } else if s == "previous"@ {
        Some(RelationView::Previous)
    } else if s == "next"@ {
        Some(RelationView::Next)
    } else if s == "last"@ {
        Some(RelationView::Last)
    } else if s == "current"@ {
        Some(RelationView::Current)
    } else if s == "search"@ {
        Some(RelationView::Search)
    } else if s == "subsection"@ {
        Some(RelationView::Subsection)
    } else if s == "http://opds-spec.org/sort/new"@ {
        Some(RelationView::SortNew)
    } else if s == "http://opds-spec.org/sort/popular"@ {
        Some(RelationView::SortPopular)
    } else {
        None
    }
}

/// The way of acquiring of that name, if there is one.
pub open spec fn acquisition_named(s: Seq<char>) -> Option<AcquisitionKind> {
    if s == "http://opds-spec.org/acquisition"@ {
        Some(AcquisitionKind::Fallback)
    } else if s == "http://opds-spec.org/acquisition/open-access"@ {
        Some(AcquisitionKind::OpenAccess)
    } else if s == "http://opds-spec.org/acquisition/buy"@ {
        Some(AcquisitionKind::Buy)
    } else if s == "http://opds-spec.org/acquisition/sample"@ {
        Some(AcquisitionKind::Sample)
    } else if s == "http://opds-spec.org/acquisition/subscribe"@ {
        Some(AcquisitionKind::Subscribe)
    } else if s == "preview"@ {
        Some(AcquisitionKind::Preview)
    } else {
        None
    }
}

/// The relation that a name resolves to: the well-known relation of that
/// name, else the way of acquiring of that name, else a custom relation
/// that keeps the name.
pub open spec fn resolve(s: Seq<char>) -> RelationView {
    match fixed_relation(s) {
        Some(r) => r,
        None => match acquisition_named(s) {
            Some(k) => RelationView::Acquisition(k),
            None => RelationView::Custom(s),
        },
    }
}

/// The name of a way of acquiring.
pub open spec fn acquisition_name(k: AcquisitionKind) -> Seq<char> {
    match k {
        AcquisitionKind::Fallback => "http://opds-spec.org/acquisition"@,
        AcquisitionKind::OpenAccess => "http://opds-spec.org/acquisition/open-access"@,
        AcquisitionKind::Buy => "http://opds-spec.org/acquisition/buy"@,
        AcquisitionKind::Sample => "http://opds-spec.org/acquisition/sample"@,
        AcquisitionKind::Subscribe => "http://opds-spec.org/acquisition/subscribe"@,
        AcquisitionKind::Preview => "preview"@,
    }
}

/// The name of a relation.
pub open spec fn relation_name(r: RelationView) -> Seq<char> {
    match r {
        RelationView::Myself => "self"@,
        RelationView::Alternate => "alternate"@,
        RelationView::Contents => "contents"@,
        RelationView::Cover => "cover"@,
        RelationView::Manifest => "manifest"@,
        RelationView::Profile => "profile"@,
        RelationView::First => "first"@,
        RelationView::Previous => "previous"@,
        RelationView::Next => "next"@,
        RelationView::Last => "last"@,
        RelationView::Current => "current"@,
        RelationView::Search => "search"@,
        RelationView::Subsection => "subsection"@,
        RelationView::SortNew => "http://opds-spec.org/sort/new"@,
        RelationView::SortPopular => "http://opds-spec.org/sort/popular"@,
        RelationView::Acquisition(k) => acquisition_name(k),
        RelationView::Custom(s) => s,
    }
}

/// A relation is well formed when its name resolves to it: a custom
/// relation holds no name of either table.
pub open spec fn relation_wf(r: RelationView) -> bool {
    r matches RelationView::Custom(s) ==> resolve(s) == r
}

/// Whether every relation of a run is well formed.
pub open spec fn relations_wf(xs: Seq<RelationView>) -> bool {
    forall|i: int| 0 <= i < xs.len() ==> relation_wf(#[trigger] xs[i])
}

/// The relation that a value stands for: the value has to be text.
pub open spec fn decode_relation(d: Doc, field: Seq<char>) -> Result<RelationView, Fault> {
    match d {
        Doc::String(s) => Ok(resolve(s)),
        _ => Err(mismatch(field, text_shapes(), shape_of(d))),
    }
}

/// The written form of a relation: its name.
pub open spec fn encode_relation(r: RelationView) -> Doc {
    Doc::String(relation_name(r))
}

/// The relations that the items of a sequence stand for, or the error of
/// the first item that stands for none.
pub open spec fn decode_relation_seq(
    items: Seq<Doc>,
    field: Seq<char>,
) -> Result<Seq<RelationView>, Fault>
    decreases items.len(),
{
    if items.len() == 0 {
        Ok(Seq::empty())
    } else {
        match decode_relation_seq(items.drop_last(), field) {
            Err(e) => Err(e),
            Ok(init) => match decode_relation(items.last(), field) {
                Err(e) => Err(e),
                Ok(x) => Ok(init.push(x)),
            },
        }
    }
}

/// The written forms of a run of relations.
pub open spec fn encode_relation_seq(xs: Seq<RelationView>) -> Seq<Doc> {
    Seq::new(xs.len(), |i: int| encode_relation(xs[i]))
}

/// What a field of relations holds: nothing where it is absent, the items
/// of a sequence, or the one relation that stands there bare.
pub open spec fn read_relation_flat(
    m: Seq<(Seq<char>, Doc)>,
    key: Seq<char>,
) -> Result<Seq<RelationView>, Fault> {
    match lookup(m, key) {
        None => Ok(Seq::empty()),
        Some(Doc::Array(items)) => decode_relation_seq(items, key),
        Some(Doc::String(s)) => Ok(seq![resolve(s)]),
        Some(d) => Err(mismatch(key, flat_text_shapes(), shape_of(d))),
    }
}

/// The written form of a field of relations: left out when empty, bare
/// when there is one, a sequence otherwise.
pub open spec fn write_relation_flat(xs: Seq<RelationView>) -> Option<Doc> {
    collapsed(encode_relation_seq(xs))
}

/// The model of what reading a run of relations gave.
pub open spec fn parsed_relations(
    r: Result<Vec<Relation>, ParseError>,
) -> Result<Seq<RelationView>, Fault> {
    match r {
        Ok(xs) => Ok(relation_views(xs@)),
        Err(e) => Err(e@),
    }
}

impl AcquisitionKind {
    /// The name under which this way of acquiring is written.
    pub fn name(&self) -> (s: &'static str)
        ensures
            s@ == acquisition_name(*self),
    {
        match self {
            AcquisitionKind::Fallback => "http://opds-spec.org/acquisition",
            AcquisitionKind::OpenAccess => "http://opds-spec.org/acquisition/open-access",
            AcquisitionKind::Buy => "http://opds-spec.org/acquisition/buy",
            AcquisitionKind::Sample => "http://opds-spec.org/acquisition/sample",
            AcquisitionKind::Subscribe => "http://opds-spec.org/acquisition/subscribe",
            AcquisitionKind::Preview => "preview",
        }
    }

    /// The way of acquiring that a name stands for.
    pub fn from_name(s: &str) -> (r: Option<AcquisitionKind>)
        ensures
            r == acquisition_named(s@),
    {
        if same_text(s, "http://opds-spec.org/acquisition") {
            Some(AcquisitionKind::Fallback)
        } else if same_text(s, "http://opds-spec.org/acquisition/open-access") {
            Some(AcquisitionKind::OpenAccess)
        } else if same_text(s, "http://opds-spec.org/acquisition/buy") {
            Some(AcquisitionKind::Buy)
        } else if same_text(s, "http://opds-spec.org/acquisition/sample") {
            Some(AcquisitionKind::Sample)
        } else if same_text(s, "http://opds-spec.org/acquisition/subscribe") {
            Some(AcquisitionKind::Subscribe)
        } else if same_text(s, "preview") {
            Some(AcquisitionKind::Preview)
        } else {
            None
        }
    }
}

impl Relation {
    /// The well-known relation of that name, if there is one.
    fn fixed(s: &str) -> (r: Option<Relation>)
        ensures
            match r {
                Some(x) => fixed_relation(s@) == Some(x@),
                None => fixed_relation(s@) is None,
            },
    {
        if same_text(s, "self") {
            Some(Relation::Myself)
        } else if same_text(s, "alternate") {
            Some(Relation::Alternate)
        } else if same_text(s, "contents") {
            Some(Relation::Contents)
        } else if same_text(s, "cover") {
            Some(Relation::Cover)
        } else if same_text(s, "manifest") {
            Some(Relation::Manifest)
        } else if same_text(s, "profile") {
            Some(Relation::Profile)
        } else if same_text(s, "first") {
            Some(Relation::First)
        } else if same_text(s, "previous") {
            Some(Relation::Previous)
        } else if same_text(s, "next") {
            Some(Relation::Next)
        } else if same_text(s, "last") {
            Some(Relation::Last)
        } else if same_text(s, "current") {
            Some(Relation::Current)
        } else if same_text(s, "search") {
            Some(Relation::Search)
        } else if same_text(s, "subsection") {
            Some(Relation::Subsection)
        } else if same_text(s, "http://opds-spec.org/sort/new") {
            Some(Relation::SortNew)
        } else if same_text(s, "http://opds-spec.org/sort/popular") {
            Some(Relation::SortPopular)
        } else {
            None
        }
    }

    /// Resolves a relation's name: a well-known relation first, then a way
    /// of acquiring, else a custom relation that keeps the name unchanged.
    pub fn resolve(s: &str) -> (r: Relation)
        ensures
            r@ == resolve(s@),
            relation_wf(r@),
    {
        match Relation::fixed(s) {
            Some(r) => r,
            None => match AcquisitionKind::from_name(s) {
                Some(k) => Relation::Acquisition(k),
                None => Relation::Custom(s.to_owned()),
            },
        }
    }

    /// The name under which this relation is written.
    pub fn name(&self) -> (s: String)
        ensures
            s@ == relation_name(self@),
    {
        match self {
            Relation::Myself => "self".to_owned(),
            Relation::Alternate => "alternate".to_owned(),
            Relation::Contents => "contents".to_owned(),
            Relation::Cover => "cover".to_owned(),
            Relation::Manifest => "manifest".to_owned(),
            Relation::Profile => "profile".to_owned(),
            Relation::First => "first".to_owned(),
            Relation::Previous => "previous".to_owned(),
            Relation::Next => "next".to_owned(),
            Relation::Last => "last".to_owned(),
            Relation::Current => "current".to_owned(),
            Relation::Search => "search".to_owned(),
            Relation::Subsection => "subsection".to_owned(),
            Relation::SortNew => "http://opds-spec.org/sort/new".to_owned(),
            Relation::SortPopular => "http://opds-spec.org/sort/popular".to_owned(),
            Relation::Acquisition(k) => k.name().to_owned(),
            Relation::Custom(s) => s.clone(),
        }
    }

    /// The way of acquiring that this relation names, if it names one.
    pub fn as_acquisition(&self) -> (r: Option<AcquisitionKind>)
        ensures
            r == match self@ {
                RelationView::Acquisition(k) => Some(k),
                _ => None,
            },
    {
        if let Relation::Acquisition(kind) = self {
            Some(*kind)
        } else {
            None
        }
    }

    /// Reads a relation from a value found under `field`.
    pub fn parse(v: &Value, field: &str) -> (r: Result<Relation, ParseError>)
        ensures
            parsed(r) == decode_relation(v@, field@),
            r matches Ok(x) ==> relation_wf(x@),
    {
        match v {
            Value::String(s) => Ok(Relation::resolve(s.as_str())),
            _ => Err(wrong_shape(field, shapes1(Shape::String), v)),
        }
    }

    /// Writes this relation as a value.
    pub fn to_value(&self) -> (v: Value)
        ensures
            v@ == encode_relation(self@),
    {
        Value::String(self.name())
    }
}

impl Clone for Relation {
    /// The same relation.
    fn clone(&self) -> (r: Relation)
        ensures
            r@ == self@,
    {
        match self {
            Relation::Myself => Relation::Myself,
            Relation::Alternate => Relation::Alternate,
            Relation::Contents => Relation::Contents,
            Relation::Cover => Relation::Cover,
            Relation::Manifest => Relation::Manifest,
            Relation::Profile => Relation::Profile,
            Relation::First => Relation::First,
            Relation::Previous => Relation::Previous,
            Relation::Next => Relation::Next,
            Relation::Last => Relation::Last,
            Relation::Current => Relation::Current,
            Relation::Search => Relation::Search,
            Relation::Subsection => Relation::Subsection,
            Relation::SortNew => Relation::SortNew,
            Relation::SortPopular => Relation::SortPopular,
            Relation::Acquisition(k) => Relation::Acquisition(*k),
            Relation::Custom(s) => Relation::Custom(s.clone()),
        }
    }
}

/// A copy of a run of relations.
pub(crate) fn copy_relation_seq(xs: &Vec<Relation>) -> (out: Vec<Relation>)
    ensures
        relation_views(out@) == relation_views(xs@),
{
    let mut out: Vec<Relation> = Vec::new();
    let mut i: usize = 0;
    while i < xs.len()
        invariant
            i <= xs.len(),
            out@.len() == i,
            forall|j: int| 0 <= j < i ==> (#[trigger] out@[j])@ == xs@[j]@,
        decreases xs.len() - i,
    {
        out.push(xs[i].clone());
        i += 1;
    }
    proof {
        assert(relation_views(out@) =~= relation_views(xs@));
    }
    out
}

impl FromSpecImpl<String> for Relation {
    open spec fn obeys_from_spec() -> bool {
        false
    }

    open spec fn from_spec(name: String) -> Self {
        Relation::Custom(name)
    }
}

impl From<String> for Relation {
    /// The relation that the name resolves to.
    fn from(name: String) -> (r: Relation)
        ensures
            r@ == resolve(name@),
            relation_wf(r@),
    {
        Relation::resolve(name.as_str())
    }
}

/// Where the items before `i` can be read and item `i` cannot, the sequence
/// gives the error of item `i`.
pub proof fn lemma_relation_seq_fails(items: Seq<Doc>, field: Seq<char>, i: int)
    requires
        0 <= i < items.len(),
        decode_relation_seq(items.take(i), field) is Ok,
        decode_relation(items[i], field) is Err,
    ensures
        decode_relation_seq(items, field) == Err::<Seq<RelationView>, Fault>(
            decode_relation(items[i], field)->Err_0,
        ),
    decreases items.len(),
{
    if i == items.len() - 1 {
        assert(items.take(i) =~= items.drop_last());
    } else {
        assert(items.drop_last().take(i) =~= items.take(i));
        lemma_relation_seq_fails(items.drop_last(), field, i);
    }
}

/// Reads the items of a sequence as relations.
pub fn parse_relation_seq(items: &Vec<Value>, field: &str) -> (r: Result<Vec<Relation>, ParseError>)
    ensures
        parsed_relations(r) == decode_relation_seq(docs_of(items@), field@),
        r matches Ok(xs) ==> relations_wf(relation_views(xs@)),
{
    let mut out: Vec<Relation> = Vec::new();
    let mut i: usize = 0;
    proof {
        assert(relation_views(out@) =~= Seq::<RelationView>::empty());
    }
    while i < items.len()
        invariant
            i <= items.len(),
            decode_relation_seq(docs_of(items@).take(i as int), field@)
                == Ok::<Seq<RelationView>, Fault>(
                relation_views(out@),
            ),
            relations_wf(relation_views(out@)),
        decreases items.len() - i,
    {
        let ghost all = docs_of(items@);
        let ghost before = out@;
        proof {
            assert(all.take(i + 1).drop_last() =~= all.take(i as int));
            assert(all.take(i + 1).last() == items@[i as int]@);
        }
        match Relation::parse(&items[i], field) {
            Ok(x) => {
                out.push(x);
                proof {
                    assert(relation_views(out@) =~= relation_views(before).push(x@));
                }
            },
            Err(e) => {
                proof {
                    lemma_relation_seq_fails(all, field@, i as int);
                }
                return Err(e);
            },
        }
        i += 1;
    }
    proof {
        assert(docs_of(items@).take(i as int) =~= docs_of(items@));
    }
    Ok(out)
}

/// Reads a field of relations.
pub fn get_relation_flat(
    members: &Vec<(String, Value)>,
    key: &str,
) -> (r: Result<Vec<Relation>, ParseError>)
    ensures
        parsed_relations(r) == read_relation_flat(members_of(members@), key@),
        r matches Ok(xs) ==> relations_wf(relation_views(xs@)),
{
    match find(members, key) {
        None => {
            let xs: Vec<Relation> = Vec::new();
            proof {
                assert(relation_views(xs@) =~= Seq::<RelationView>::empty());
            }
            Ok(xs)
        },
        Some(v) => {
            let given = match v {
                Value::Array(items) => match parse_relation_seq(items, key) {
                    Ok(xs) => FlattenedVec::Vec(xs),
                    Err(e) => {
                        return Err(e);
                    },
                },
                Value::String(s) => FlattenedVec::Singleton(Relation::resolve(s.as_str())),
                _ => {
                    return Err(wrong_shape(key, shapes2(Shape::String, Shape::Array), v));
                },
            };
            let xs = given.into_vec();
            proof {
                if v is String {
                    assert(relation_views(xs@) =~= seq![resolve(v->String_0@)]);
                }
            }
            Ok(xs)
        },
    }
}

/// Writes a field of relations.
pub fn make_relation_flat(xs: &Vec<Relation>) -> (r: Option<Value>)
    ensures
        opt_doc(r) == write_relation_flat(relation_views(xs@)),
{
    let mut out: Vec<Value> = Vec::new();
    let mut i: usize = 0;
    while i < xs.len()
        invariant
            i <= xs.len(),
            out@.len() == i,
            forall|j: int| 0 <= j < i ==> (#[trigger] out@[j])@ == encode_relation(xs@[j]@),
        decreases xs.len() - i,
    {
        out.push(xs[i].to_value());
        i += 1;
    }
    proof {
        assert(docs_of(out@) =~= encode_relation_seq(relation_views(xs@)));
    }
    collapse(out)
}

/// Each name of the two tables resolves to the relation it is the name
/// of.
pub proof fn lemma_resolve_known(r: RelationView)
    requires
        r !is Custom,
    ensures
        resolve(relation_name(r)) == r,
{
    reveal_strlit("self");
    reveal_strlit("alternate");
    reveal_strlit("contents");
    reveal_strlit("cover");
    reveal_strlit("manifest");
    reveal_strlit("profile");
    reveal_strlit("first");
    reveal_strlit("previous");
    reveal_strlit("next");
    reveal_strlit("last");
    reveal_strlit("current");
    reveal_strlit("search");
    reveal_strlit("subsection");
    reveal_strlit("http://opds-spec.org/sort/new");
    reveal_strlit("http://opds-spec.org/sort/popular");
    reveal_strlit("http://opds-spec.org/acquisition");
    reveal_strlit("http://opds-spec.org/acquisition/open-access");
    reveal_strlit("http://opds-spec.org/acquisition/buy");
    reveal_strlit("http://opds-spec.org/acquisition/sample");
    reveal_strlit("http://opds-spec.org/acquisition/subscribe");
    reveal_strlit("preview");
    assert("self"@.len() == 4 && "self"@[0] == 's' && "self"@[1] == 'e' && "self"@[2] == 'l'
        && "self"@[3] == 'f');
    assert("alternate"@.len() == 9 && "alternate"@[0] == 'a' && "alternate"@[1] == 'l'
        && "alternate"@[2] == 't' && "alternate"@[3] == 'e' && "alternate"@[4] == 'r'
        && "alternate"@[5] == 'n' && "alternate"@[6] == 'a' && "alternate"@[7] == 't'
        && "alternate"@[8] == 'e');
    assert("contents"@.len() == 8 && "contents"@[0] == 'c' && "contents"@[1] == 'o'
        && "contents"@[2] == 'n' && "contents"@[3] == 't' && "contents"@[4] == 'e'
        && "contents"@[5] == 'n' && "contents"@[6] == 't' && "contents"@[7] == 's');
    assert("cover"@.len() == 5 && "cover"@[0] == 'c' && "cover"@[1] == 'o' && "cover"@[2] == 'v'
        && "cover"@[3] == 'e' && "cover"@[4] == 'r');
    assert("manifest"@.len() == 8 && "manifest"@[0] == 'm' && "manifest"@[1] == 'a'
        && "manifest"@[2] == 'n' && "manifest"@[3] == 'i' && "manifest"@[4] == 'f'
        && "manifest"@[5] == 'e' && "manifest"@[6] == 's' && "manifest"@[7] == 't');
    assert("profile"@.len() == 7 && "profile"@[0] == 'p' && "profile"@[1] == 'r'
        && "profile"@[2] == 'o' && "profile"@[3] == 'f' && "profile"@[4] == 'i'
        && "profile"@[5] == 'l' && "profile"@[6] == 'e');
    assert("first"@.len() == 5 && "first"@[0] == 'f' && "first"@[1] == 'i' && "first"@[2] == 'r'
        && "first"@[3] == 's' && "first"@[4] == 't');
    assert("previous"@.len() == 8 && "previous"@[0] == 'p' && "previous"@[1] == 'r'
        && "previous"@[2] == 'e' && "previous"@[3] == 'v' && "previous"@[4] == 'i'
        && "previous"@[5] == 'o' && "previous"@[6] == 'u' && "previous"@[7] == 's');
    assert("next"@.len() == 4 && "next"@[0] == 'n' && "next"@[1] == 'e' && "next"@[2] == 'x'
        && "next"@[3] == 't');
    assert("last"@.len() == 4 && "last"@[0] == 'l' && "last"@[1] == 'a' && "last"@[2] == 's'
        && "last"@[3] == 't');
    assert("current"@.len() == 7 && "current"@[0] == 'c' && "current"@[1] == 'u'
        && "current"@[2] == 'r' && "current"@[3] == 'r' && "current"@[4] == 'e'
        && "current"@[5] == 'n' && "current"@[6] == 't');
    assert("search"@.len() == 6 && "search"@[0] == 's' && "search"@[1] == 'e' && "search"@[2] == 'a'
        && "search"@[3] == 'r' && "search"@[4] == 'c' && "search"@[5] == 'h');
    assert("subsection"@.len() == 10 && "subsection"@[0] == 's' && "subsection"@[1] == 'u'
        && "subsection"@[2] == 'b' && "subsection"@[3] == 's' && "subsection"@[4] == 'e'
        && "subsection"@[5] == 'c' && "subsection"@[6] == 't' && "subsection"@[7] == 'i'
        && "subsection"@[8] == 'o' && "subsection"@[9] == 'n');
    assert("http://opds-spec.org/sort/new"@.len() == 29
        && "http://opds-spec.org/sort/new"@[0] == 'h' && "http://opds-spec.org/sort/new"@[1] == 't'
        && "http://opds-spec.org/sort/new"@[2] == 't' && "http://opds-spec.org/sort/new"@[3] == 'p'
        && "http://opds-spec.org/sort/new"@[4] == ':' && "http://opds-spec.org/sort/new"@[5] == '/'
        && "http://opds-spec.org/sort/new"@[6] == '/' && "http://opds-spec.org/sort/new"@[7] == 'o'
        && "http://opds-spec.org/sort/new"@[8] == 'p' && "http://opds-spec.org/sort/new"@[9] == 'd'
        && "http://opds-spec.org/sort/new"@[10] == 's'
        && "http://opds-spec.org/sort/new"@[11] == '-'
        && "http://opds-spec.org/sort/new"@[12] == 's'
        && "http://opds-spec.org/sort/new"@[13] == 'p'
        && "http://opds-spec.org/sort/new"@[14] == 'e'
        && "http://opds-spec.org/sort/new"@[15] == 'c'
        && "http://opds-spec.org/sort/new"@[16] == '.'
        && "http://opds-spec.org/sort/new"@[17] == 'o'
        && "http://opds-spec.org/sort/new"@[18] == 'r'
        && "http://opds-spec.org/sort/new"@[19] == 'g'
        && "http://opds-spec.org/sort/new"@[20] == '/'
        && "http://opds-spec.org/sort/new"@[21] == 's'
        && "http://opds-spec.org/sort/new"@[22] == 'o'
        && "http://opds-spec.org/sort/new"@[23] == 'r'
        && "http://opds-spec.org/sort/new"@[24] == 't'
        && "http://opds-spec.org/sort/new"@[25] == '/'
        && "http://opds-spec.org/sort/new"@[26] == 'n'
        && "http://opds-spec.org/sort/new"@[27] == 'e'
        && "http://opds-spec.org/sort/new"@[28] == 'w');
    assert("http://opds-spec.org/sort/popular"@.len() == 33
        && "http://opds-spec.org/sort/popular"@[0] == 'h'
        && "http://opds-spec.org/sort/popular"@[1] == 't'
        && "http://opds-spec.org/sort/popular"@[2] == 't'
        && "http://opds-spec.org/sort/popular"@[3] == 'p'
        && "http://opds-spec.org/sort/popular"@[4] == ':'
        && "http://opds-spec.org/sort/popular"@[5] == '/'
        && "http://opds-spec.org/sort/popular"@[6] == '/'
        && "http://opds-spec.org/sort/popular"@[7] == 'o'
        && "http://opds-spec.org/sort/popular"@[8] == 'p'
        && "http://opds-spec.org/sort/popular"@[9] == 'd'
        && "http://opds-spec.org/sort/popular"@[10] == 's'
        && "http://opds-spec.org/sort/popular"@[11] == '-'
        && "http://opds-spec.org/sort/popular"@[12] == 's'
        && "http://opds-spec.org/sort/popular"@[13] == 'p'
        && "http://opds-spec.org/sort/popular"@[14] == 'e'
        && "http://opds-spec.org/sort/popular"@[15] == 'c'
        && "http://opds-spec.org/sort/popular"@[16] == '.'
        && "http://opds-spec.org/sort/popular"@[17] == 'o'
        && "http://opds-spec.org/sort/popular"@[18] == 'r'
        && "http://opds-spec.org/sort/popular"@[19] == 'g'
        && "http://opds-spec.org/sort/popular"@[20] == '/'
        && "http://opds-spec.org/sort/popular"@[21] == 's'
        && "http://opds-spec.org/sort/popular"@[22] == 'o'
        && "http://opds-spec.org/sort/popular"@[23] == 'r'
        && "http://opds-spec.org/sort/popular"@[24] == 't'
        && "http://opds-spec.org/sort/popular"@[25] == '/'
        && "http://opds-spec.org/sort/popular"@[26] == 'p'
        && "http://opds-spec.org/sort/popular"@[27] == 'o'
        && "http://opds-spec.org/sort/popular"@[28] == 'p'
        && "http://opds-spec.org/sort/popular"@[29] == 'u'
        && "http://opds-spec.org/sort/popular"@[30] == 'l'
        && "http://opds-spec.org/sort/popular"@[31] == 'a'
        && "http://opds-spec.org/sort/popular"@[32] == 'r');
    assert("http://opds-spec.org/acquisition"@.len() == 32
        && "http://opds-spec.org/acquisition"@[0] == 'h'
        && "http://opds-spec.org/acquisition"@[1] == 't'
        && "http://opds-spec.org/acquisition"@[2] == 't'
        && "http://opds-spec.org/acquisition"@[3] == 'p'
        && "http://opds-spec.org/acquisition"@[4] == ':'
        && "http://opds-spec.org/acquisition"@[5] == '/'
        && "http://opds-spec.org/acquisition"@[6] == '/'
        && "http://opds-spec.org/acquisition"@[7] == 'o'
        && "http://opds-spec.org/acquisition"@[8] == 'p'
        && "http://opds-spec.org/acquisition"@[9] == 'd'
        && "http://opds-spec.org/acquisition"@[10] == 's'
        && "http://opds-spec.org/acquisition"@[11] == '-'
        && "http://opds-spec.org/acquisition"@[12] == 's'
        && "http://opds-spec.org/acquisition"@[13] == 'p'
        && "http://opds-spec.org/acquisition"@[14] == 'e'
        && "http://opds-spec.org/acquisition"@[15] == 'c'
        && "http://opds-spec.org/acquisition"@[16] == '.'
        && "http://opds-spec.org/acquisition"@[17] == 'o'
        && "http://opds-spec.org/acquisition"@[18] == 'r'
        && "http://opds-spec.org/acquisition"@[19] == 'g'
        && "http://opds-spec.org/acquisition"@[20] == '/'
        && "http://opds-spec.org/acquisition"@[21] == 'a'
        && "http://opds-spec.org/acquisition"@[22] == 'c'
        && "http://opds-spec.org/acquisition"@[23] == 'q'
        && "http://opds-spec.org/acquisition"@[24] == 'u'
        && "http://opds-spec.org/acquisition"@[25] == 'i'
        && "http://opds-spec.org/acquisition"@[26] == 's'
        && "http://opds-spec.org/acquisition"@[27] == 'i'
        && "http://opds-spec.org/acquisition"@[28] == 't'
        && "http://opds-spec.org/acquisition"@[29] == 'i'
        && "http://opds-spec.org/acquisition"@[30] == 'o'
        && "http://opds-spec.org/acquisition"@[31] == 'n');
    assert("http://opds-spec.org/acquisition/open-access"@.len() == 44
        && "http://opds-spec.org/acquisition/open-access"@[0] == 'h'
        && "http://opds-spec.org/acquisition/open-access"@[1] == 't'
        && "http://opds-spec.org/acquisition/open-access"@[2] == 't'
        && "http://opds-spec.org/acquisition/open-access"@[3] == 'p'
        && "http://opds-spec.org/acquisition/open-access"@[4] == ':'
        && "http://opds-spec.org/acquisition/open-access"@[5] == '/'
        && "http://opds-spec.org/acquisition/open-access"@[6] == '/'
        && "http://opds-spec.org/acquisition/open-access"@[7] == 'o'
        && "http://opds-spec.org/acquisition/open-access"@[8] == 'p'
        && "http://opds-spec.org/acquisition/open-access"@[9] == 'd'
        && "http://opds-spec.org/acquisition/open-access"@[10] == 's'
        && "http://opds-spec.org/acquisition/open-access"@[11] == '-'
        && "http://opds-spec.org/acquisition/open-access"@[12] == 's'
        && "http://opds-spec.org/acquisition/open-access"@[13] == 'p'
        && "http://opds-spec.org/acquisition/open-access"@[14] == 'e'
        && "http://opds-spec.org/acquisition/open-access"@[15] == 'c'
        && "http://opds-spec.org/acquisition/open-access"@[16] == '.'
        && "http://opds-spec.org/acquisition/open-access"@[17] == 'o'
        && "http://opds-spec.org/acquisition/open-access"@[18] == 'r'
        && "http://opds-spec.org/acquisition/open-access"@[19] == 'g'
        && "http://opds-spec.org/acquisition/open-access"@[20] == '/'
        && "http://opds-spec.org/acquisition/open-access"@[21] == 'a'
        && "http://opds-spec.org/acquisition/open-access"@[22] == 'c'
        && "http://opds-spec.org/acquisition/open-access"@[23] == 'q'
        && "http://opds-spec.org/acquisition/open-access"@[24] == 'u'
        && "http://opds-spec.org/acquisition/open-access"@[25] == 'i'
        && "http://opds-spec.org/acquisition/open-access"@[26] == 's'
        && "http://opds-spec.org/acquisition/open-access"@[27] == 'i'
        && "http://opds-spec.org/acquisition/open-access"@[28] == 't'
        && "http://opds-spec.org/acquisition/open-access"@[29] == 'i'
        && "http://opds-spec.org/acquisition/open-access"@[30] == 'o'
        && "http://opds-spec.org/acquisition/open-access"@[31] == 'n'
        && "http://opds-spec.org/acquisition/open-access"@[32] == '/'
        && "http://opds-spec.org/acquisition/open-access"@[33] == 'o'
        && "http://opds-spec.org/acquisition/open-access"@[34] == 'p'
        && "http://opds-spec.org/acquisition/open-access"@[35] == 'e'
        && "http://opds-spec.org/acquisition/open-access"@[36] == 'n'
        && "http://opds-spec.org/acquisition/open-access"@[37] == '-'
        && "http://opds-spec.org/acquisition/open-access"@[38] == 'a'
        && "http://opds-spec.org/acquisition/open-access"@[39] == 'c'
        && "http://opds-spec.org/acquisition/open-access"@[40] == 'c'
        && "http://opds-spec.org/acquisition/open-access"@[41] == 'e'
        && "http://opds-spec.org/acquisition/open-access"@[42] == 's'
        && "http://opds-spec.org/acquisition/open-access"@[43] == 's');
    assert("http://opds-spec.org/acquisition/buy"@.len() == 36
        && "http://opds-spec.org/acquisition/buy"@[0] == 'h'
        && "http://opds-spec.org/acquisition/buy"@[1] == 't'
        && "http://opds-spec.org/acquisition/buy"@[2] == 't'
        && "http://opds-spec.org/acquisition/buy"@[3] == 'p'
        && "http://opds-spec.org/acquisition/buy"@[4] == ':'
        && "http://opds-spec.org/acquisition/buy"@[5] == '/'
        && "http://opds-spec.org/acquisition/buy"@[6] == '/'
        && "http://opds-spec.org/acquisition/buy"@[7] == 'o'
        && "http://opds-spec.org/acquisition/buy"@[8] == 'p'
        && "http://opds-spec.org/acquisition/buy"@[9] == 'd'
        && "http://opds-spec.org/acquisition/buy"@[10] == 's'
        && "http://opds-spec.org/acquisition/buy"@[11] == '-'
        && "http://opds-spec.org/acquisition/buy"@[12] == 's'
        && "http://opds-spec.org/acquisition/buy"@[13] == 'p'
        && "http://opds-spec.org/acquisition/buy"@[14] == 'e'
        && "http://opds-spec.org/acquisition/buy"@[15] == 'c'
        && "http://opds-spec.org/acquisition/buy"@[16] == '.'
        && "http://opds-spec.org/acquisition/buy"@[17] == 'o'
        && "http://opds-spec.org/acquisition/buy"@[18] == 'r'
        && "http://opds-spec.org/acquisition/buy"@[19] == 'g'
        && "http://opds-spec.org/acquisition/buy"@[20] == '/'
        && "http://opds-spec.org/acquisition/buy"@[21] == 'a'
        && "http://opds-spec.org/acquisition/buy"@[22] == 'c'
        && "http://opds-spec.org/acquisition/buy"@[23] == 'q'
        && "http://opds-spec.org/acquisition/buy"@[24] == 'u'
        && "http://opds-spec.org/acquisition/buy"@[25] == 'i'
        && "http://opds-spec.org/acquisition/buy"@[26] == 's'
        && "http://opds-spec.org/acquisition/buy"@[27] == 'i'
        && "http://opds-spec.org/acquisition/buy"@[28] == 't'
        && "http://opds-spec.org/acquisition/buy"@[29] == 'i'
        && "http://opds-spec.org/acquisition/buy"@[30] == 'o'
        && "http://opds-spec.org/acquisition/buy"@[31] == 'n'
        && "http://opds-spec.org/acquisition/buy"@[32] == '/'
        && "http://opds-spec.org/acquisition/buy"@[33] == 'b'
        && "http://opds-spec.org/acquisition/buy"@[34] == 'u'
        && "http://opds-spec.org/acquisition/buy"@[35] == 'y');
    assert("http://opds-spec.org/acquisition/sample"@.len() == 39
        && "http://opds-spec.org/acquisition/sample"@[0] == 'h'
        && "http://opds-spec.org/acquisition/sample"@[1] == 't'
        && "http://opds-spec.org/acquisition/sample"@[2] == 't'
        && "http://opds-spec.org/acquisition/sample"@[3] == 'p'
        && "http://opds-spec.org/acquisition/sample"@[4] == ':'
        && "http://opds-spec.org/acquisition/sample"@[5] == '/'
        && "http://opds-spec.org/acquisition/sample"@[6] == '/'
        && "http://opds-spec.org/acquisition/sample"@[7] == 'o'
        && "http://opds-spec.org/acquisition/sample"@[8] == 'p'
        && "http://opds-spec.org/acquisition/sample"@[9] == 'd'
        && "http://opds-spec.org/acquisition/sample"@[10] == 's'
        && "http://opds-spec.org/acquisition/sample"@[11] == '-'
        && "http://opds-spec.org/acquisition/sample"@[12] == 's'
        && "http://opds-spec.org/acquisition/sample"@[13] == 'p'
        && "http://opds-spec.org/acquisition/sample"@[14] == 'e'
        && "http://opds-spec.org/acquisition/sample"@[15] == 'c'
        && "http://opds-spec.org/acquisition/sample"@[16] == '.'
        && "http://opds-spec.org/acquisition/sample"@[17] == 'o'
        && "http://opds-spec.org/acquisition/sample"@[18] == 'r'
        && "http://opds-spec.org/acquisition/sample"@[19] == 'g'
        && "http://opds-spec.org/acquisition/sample"@[20] == '/'
        && "http://opds-spec.org/acquisition/sample"@[21] == 'a'
        && "http://opds-spec.org/acquisition/sample"@[22] == 'c'
        && "http://opds-spec.org/acquisition/sample"@[23] == 'q'
        && "http://opds-spec.org/acquisition/sample"@[24] == 'u'
        && "http://opds-spec.org/acquisition/sample"@[25] == 'i'
        && "http://opds-spec.org/acquisition/sample"@[26] == 's'
        && "http://opds-spec.org/acquisition/sample"@[27] == 'i'
        && "http://opds-spec.org/acquisition/sample"@[28] == 't'
        && "http://opds-spec.org/acquisition/sample"@[29] == 'i'
        && "http://opds-spec.org/acquisition/sample"@[30] == 'o'
        && "http://opds-spec.org/acquisition/sample"@[31] == 'n'
        && "http://opds-spec.org/acquisition/sample"@[32] == '/'
        && "http://opds-spec.org/acquisition/sample"@[33] == 's'
        && "http://opds-spec.org/acquisition/sample"@[34] == 'a'
        && "http://opds-spec.org/acquisition/sample"@[35] == 'm'
        && "http://opds-spec.org/acquisition/sample"@[36] == 'p'
        && "http://opds-spec.org/acquisition/sample"@[37] == 'l'
        && "http://opds-spec.org/acquisition/sample"@[38] == 'e');
    assert("http://opds-spec.org/acquisition/subscribe"@.len() == 42
        && "http://opds-spec.org/acquisition/subscribe"@[0] == 'h'
        && "http://opds-spec.org/acquisition/subscribe"@[1] == 't'
        && "http://opds-spec.org/acquisition/subscribe"@[2] == 't'
        && "http://opds-spec.org/acquisition/subscribe"@[3] == 'p'
        && "http://opds-spec.org/acquisition/subscribe"@[4] == ':'
        && "http://opds-spec.org/acquisition/subscribe"@[5] == '/'
        && "http://opds-spec.org/acquisition/subscribe"@[6] == '/'
        && "http://opds-spec.org/acquisition/subscribe"@[7] == 'o'
        && "http://opds-spec.org/acquisition/subscribe"@[8] == 'p'
        && "http://opds-spec.org/acquisition/subscribe"@[9] == 'd'
        && "http://opds-spec.org/acquisition/subscribe"@[10] == 's'
        && "http://opds-spec.org/acquisition/subscribe"@[11] == '-'
        && "http://opds-spec.org/acquisition/subscribe"@[12] == 's'
        && "http://opds-spec.org/acquisition/subscribe"@[13] == 'p'
        && "http://opds-spec.org/acquisition/subscribe"@[14] == 'e'
        && "http://opds-spec.org/acquisition/subscribe"@[15] == 'c'
        && "http://opds-spec.org/acquisition/subscribe"@[16] == '.'
        && "http://opds-spec.org/acquisition/subscribe"@[17] == 'o'
        && "http://opds-spec.org/acquisition/subscribe"@[18] == 'r'
        && "http://opds-spec.org/acquisition/subscribe"@[19] == 'g'
        && "http://opds-spec.org/acquisition/subscribe"@[20] == '/'
        && "http://opds-spec.org/acquisition/subscribe"@[21] == 'a'
        && "http://opds-spec.org/acquisition/subscribe"@[22] == 'c'
        && "http://opds-spec.org/acquisition/subscribe"@[23] == 'q'
        && "http://opds-spec.org/acquisition/subscribe"@[24] == 'u'
        && "http://opds-spec.org/acquisition/subscribe"@[25] == 'i'
        && "http://opds-spec.org/acquisition/subscribe"@[26] == 's'
        && "http://opds-spec.org/acquisition/subscribe"@[27] == 'i'
        && "http://opds-spec.org/acquisition/subscribe"@[28] == 't'
        && "http://opds-spec.org/acquisition/subscribe"@[29] == 'i'
        && "http://opds-spec.org/acquisition/subscribe"@[30] == 'o'
        && "http://opds-spec.org/acquisition/subscribe"@[31] == 'n'
        && "http://opds-spec.org/acquisition/subscribe"@[32] == '/'
        && "http://opds-spec.org/acquisition/subscribe"@[33] == 's'
        && "http://opds-spec.org/acquisition/subscribe"@[34] == 'u'
        && "http://opds-spec.org/acquisition/subscribe"@[35] == 'b'
        && "http://opds-spec.org/acquisition/subscribe"@[36] == 's'
        && "http://opds-spec.org/acquisition/subscribe"@[37] == 'c'
        && "http://opds-spec.org/acquisition/subscribe"@[38] == 'r'
        && "http://opds-spec.org/acquisition/subscribe"@[39] == 'i'
        && "http://opds-spec.org/acquisition/subscribe"@[40] == 'b'
        && "http://opds-spec.org/acquisition/subscribe"@[41] == 'e');
    assert("preview"@.len() == 7 && "preview"@[0] == 'p' && "preview"@[1] == 'r'
        && "preview"@[2] == 'e' && "preview"@[3] == 'v' && "preview"@[4] == 'i'
        && "preview"@[5] == 'e' && "preview"@[6] == 'w');
}

/// A name that is in neither table resolves to the custom relation of
/// that name, with the name unchanged.
pub proof fn lemma_resolve_unknown(s: Seq<char>)
    requires
        forall|r: RelationView| r !is Custom ==> #[trigger] relation_name(r) != s,
    ensures
        resolve(s) == RelationView::Custom(s),
{
    assert(relation_name(RelationView::Myself) != s);
    assert(relation_name(RelationView::Alternate) != s);
    assert(relation_name(RelationView::Contents) != s);
    assert(relation_name(RelationView::Cover) != s);
    assert(relation_name(RelationView::Manifest) != s);
    assert(relation_name(RelationView::Profile) != s);
    assert(relation_name(RelationView::First) != s);
    assert(relation_name(RelationView::Previous) != s);
    assert(relation_name(RelationView::Next) != s);
    assert(relation_name(RelationView::Last) != s);
    assert(relation_name(RelationView::Current) != s);
    assert(relation_name(RelationView::Search) != s);
    assert(relation_name(RelationView::Subsection) != s);
    assert(relation_name(RelationView::SortNew) != s);
    assert(relation_name(RelationView::SortPopular) != s);
    assert(relation_name(RelationView::Acquisition(AcquisitionKind::Fallback)) != s);
    assert(relation_name(RelationView::Acquisition(AcquisitionKind::OpenAccess)) != s);
    assert(relation_name(RelationView::Acquisition(AcquisitionKind::Buy)) != s);
    assert(relation_name(RelationView::Acquisition(AcquisitionKind::Sample)) != s);
    assert(relation_name(RelationView::Acquisition(AcquisitionKind::Subscribe)) != s);
    assert(relation_name(RelationView::Acquisition(AcquisitionKind::Preview)) != s);
}

/// What the items of a sequence give as relations is well formed.
pub proof fn lemma_decode_relation_seq_wf(items: Seq<Doc>, field: Seq<char>)
    ensures
        decode_relation_seq(items, field) matches Ok(xs) ==> relations_wf(xs),
    decreases items.len(),
{
    if items.len() > 0 {
        lemma_decode_relation_seq_wf(items.drop_last(), field);
        if let Ok(init) = decode_relation_seq(items.drop_last(), field) {
            if let Ok(x) = decode_relation(items.last(), field) {
                let xs = init.push(x);
                assert forall|i: int| 0 <= i < xs.len() implies relation_wf(#[trigger] xs[i]) by {
                    if i < init.len() {
                        assert(xs[i] == init[i]);
                    }
                }
            }
        }
    }
}

/// What a field of relations gives is well formed.
pub proof fn lemma_read_relation_flat_wf(m: Seq<(Seq<char>, Doc)>, key: Seq<char>)
    ensures
        read_relation_flat(m, key) matches Ok(xs) ==> relations_wf(xs),
{
    if let Some(Doc::Array(items)) = lookup(m, key) {
        lemma_decode_relation_seq_wf(items, key);
    }
}

/// A well-formed relation written and read again is the same relation.
pub proof fn lemma_relation_round_trip(r: RelationView, field: Seq<char>)
    requires
        relation_wf(r),
    ensures
        decode_relation(encode_relation(r), field) == Ok::<RelationView, Fault>(r),
{
    if r !is Custom {
        lemma_resolve_known(r);
    }
}

/// A run of well-formed relations written and read again is the same run.
pub proof fn lemma_relation_seq_round_trip(xs: Seq<RelationView>, field: Seq<char>)
    requires
        relations_wf(xs),
    ensures
        decode_relation_seq(encode_relation_seq(xs), field) == Ok::<Seq<RelationView>, Fault>(xs),
    decreases xs.len(),
{
    if xs.len() > 0 {
        let docs = encode_relation_seq(xs);
        assert(docs.drop_last() =~= encode_relation_seq(xs.drop_last()));
        lemma_relation_seq_round_trip(xs.drop_last(), field);
        lemma_relation_round_trip(xs.last(), field);
        assert(xs.drop_last().push(xs.last()) =~= xs);
    } else {
        assert(xs =~= Seq::<RelationView>::empty());
    }
}

/// A field of well-formed relations that is written and read again holds
/// the same relations.
pub proof fn lemma_relation_flat_round_trip(
    xs: Seq<RelationView>,
    m: Seq<(Seq<char>, Doc)>,
    key: Seq<char>,
)
    requires
        relations_wf(xs),
        lookup(m, key) == write_relation_flat(xs),
    ensures
        read_relation_flat(m, key) == Ok::<Seq<RelationView>, Fault>(xs),
{
    if xs.len() == 0 {
        assert(xs =~= Seq::<RelationView>::empty());
    } else if xs.len() == 1 {
        lemma_relation_round_trip(xs[0], key);
        assert(seq![xs[0]] =~= xs);
    } else {
        lemma_relation_seq_round_trip(xs, key);
    }
}

} // verus!
