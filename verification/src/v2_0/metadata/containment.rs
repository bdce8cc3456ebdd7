//! What a publication may belong to or contain, as far as these hold none of
//! their own kind.
use vstd::prelude::*;
use crate::error::{
    Fault, ParseError, flat_named_shapes, flat_numbered_shapes, mismatch, named_shapes,
    numbered_shapes, parsed,
};
use crate::helpers::{
    FlattenedVec, NumlikeObject, StringyObject, collapse, collapsed, get_natural, get_opt_natural,
    get_opt_text, make_natural, make_opt_natural, make_opt_text, read_natural, read_opt_natural,
    read_opt_text, shapes2, shapes3, write_natural, write_opt_natural, write_opt_text,
    wrong_shape,
};
use crate::text::{copy_opt_text, opt_text};
use crate::v2_0::link::{
    Link, LinkView, copy_link_seq, get_link_list, lemma_link_list_round_trip,
    lemma_read_link_list_wf, link_seq_wf, link_views, make_link_list, read_link_list,
    write_link_list,
};
use crate::v2_0::metadata::identifier::{
    Identifier, IdentifierView, copy_opt_identifier, get_opt_identifier,
    lemma_read_opt_identifier_wf, make_opt_identifier, opt_identifier, opt_identifier_wf,
    read_opt_identifier, write_opt_identifier,
};
use crate::v2_0::metadata::localized::{
    Localized, StringWithAlternates, localized_wf, opt_localized, opt_localized_wf,
};
use crate::v2_0::metadata::localized_fields::{
    copy_opt_localized, get_localized, get_opt_localized, lemma_localized_field_round_trip,
    lemma_opt_localized_round_trip, lemma_read_localized_wf, lemma_read_opt_localized_wf,
    make_localized, make_opt_localized, read_localized, read_opt_localized, write_localized,
    write_opt_localized,
};
use crate::v2_0::metadata::naming::{
    AltIdentifier, AltIdentifierView, alt_identifier_seq_wf, alt_identifier_views,
    copy_alt_identifier_seq, get_alt_identifier_flat, lemma_alt_identifier_flat_round_trip,
    lemma_read_alt_identifier_flat_wf, make_alt_identifier_flat, read_alt_identifier_flat,
    write_alt_identifier_flat,
};
use crate::v2_0::metadata::nesting::{
    Issue, IssueView, Volume, VolumeView, copy_issue_seq, copy_volume_seq, get_issue_flat,
    get_volume_flat, issue_seq_wf, issue_views, lemma_issue_flat_round_trip,
    lemma_read_issue_flat_wf, lemma_read_volume_flat_wf, lemma_volume_flat_round_trip,
    make_issue_flat, make_volume_flat, read_issue_flat, read_volume_flat, volume_seq_wf,
    volume_views, write_issue_flat, write_volume_flat,
};
use crate::v2_0::metadata::people::{
    Contributor, ContributorView, contributor_seq_wf, contributor_views, copy_contributor_seq,
    get_contributor_flat, lemma_contributor_flat_round_trip, lemma_read_contributor_flat_wf,
    make_contributor_flat, read_contributor_flat, write_contributor_flat,
};
use crate::v2_0::spelling::{
    spell_alt_identifier, spell_artist, spell_author, spell_contributor, spell_description,
    spell_editor, spell_identifier, spell_illustrator, spell_issue, spell_links, spell_name,
    spell_number_of_pages, spell_position, spell_sort_as, spell_translator, spell_volume,
};
use crate::value::{
    Doc, MAX_DEPTH, Number, Shape, Value, depth, docs_of, index_of, lemma_index_of,
    lemma_lookup_after_put, lemma_lookup_empty, lemma_lookup_index, lookup, members_of, natural,
    natural_of, opt_doc, position, put, put_member, shape_of,
};
use vstd::std_specs::convert::FromSpecImpl;

verus! {

/// A collection of related publications.
#[derive(Debug, PartialEq, Eq)]
pub struct Collection {
    /// The name.
    pub name: StringWithAlternates,
    /// The name in the form by which it is sorted.
    pub sort_as: Option<StringWithAlternates>,
    /// An identifier: a URL or a URN.
    pub identifier: Option<Identifier>,
    /// Alternates to the identifier.
    pub alt_identifier: Vec<AltIdentifier>,
    /// The position among its like.
    pub position: Option<usize>,
    /// Links that belong to it.
    pub links: Vec<Link>,
}

/// The mathematical model of a collection.
pub struct CollectionView {
    pub name: Localized,
    pub sort_as: Option<Localized>,
    pub identifier: Option<IdentifierView>,
    pub alt_identifier: Seq<AltIdentifierView>,
    pub position: Option<usize>,
    pub links: Seq<LinkView>,
}

/// The model of a collection.
pub open spec fn collection_view(x: Collection) -> CollectionView {
    CollectionView {
        name: x.name@,
        sort_as: opt_localized(x.sort_as),
        identifier: opt_identifier(x.identifier),
        alt_identifier: alt_identifier_views(x.alt_identifier@),
        position: x.position,
        links: link_views(x.links@),
    }
}

impl View for Collection {
    type V = CollectionView;

    open spec fn view(&self) -> CollectionView {
        collection_view(*self)
    }
}

/// A collection is well formed when everything it holds is.
pub open spec fn collection_wf(x: CollectionView) -> bool {
    &&& localized_wf(x.name)
    &&& opt_localized_wf(x.sort_as)
    &&& opt_identifier_wf(x.identifier)
    &&& alt_identifier_seq_wf(x.alt_identifier)
    &&& link_seq_wf(x.links)
}

/// The collection made from its name, with nothing else in it.
pub open spec fn collection_new(name: Localized) -> CollectionView {
    CollectionView {
        name,
        sort_as: None,
        identifier: None,
        alt_identifier: Seq::empty(),
        position: None,
        links: Seq::empty(),
    }
}

/// The members that a collection is written as: one for each field that holds
/// something, in the order of the fields.
pub open spec fn collection_members(x: CollectionView) -> Seq<(Seq<char>, Doc)> {
    let m = Seq::<(Seq<char>, Doc)>::empty();
    let m = put(m, "name"@, write_localized(x.name));
    let m = put(m, "sortAs"@, write_opt_localized(x.sort_as));
    let m = put(m, "identifier"@, write_opt_identifier(x.identifier));
    let m = put(m, "altIdentifier"@, write_alt_identifier_flat(x.alt_identifier));
    let m = put(m, "position"@, write_opt_natural(x.position));
    let m = put(m, "links"@, write_link_list(x.links));
    m
}

/// The written form of a collection: always the full object.
pub open spec fn encode_collection(x: CollectionView) -> Doc {
    Doc::Object(collection_members(x))
}

/// The collection that the members of an object stand for, or the error of the
/// first field, in the order of the fields, that cannot be read.
pub open spec fn collection_from_members(
    m: Seq<(Seq<char>, Doc)>,
) -> Result<CollectionView, Fault> {
    let name = read_localized(m, "name"@);
    let sort_as = read_opt_localized(m, "sortAs"@);
    let identifier = read_opt_identifier(m, "identifier"@);
    let alt_identifier = read_alt_identifier_flat(m, "altIdentifier"@);
    let position = read_opt_natural(m, "position"@);
    let links = read_link_list(m, "links"@);
    if name is Err {
        Err(name->Err_0)
    } else if sort_as is Err {
        Err(sort_as->Err_0)
    } else if identifier is Err {
        Err(identifier->Err_0)
    } else if alt_identifier is Err {
        Err(alt_identifier->Err_0)
    } else if position is Err {
        Err(position->Err_0)
    } else if links is Err {
        Err(links->Err_0)
    } else {
        Ok(CollectionView {
            name: name->Ok_0,
            sort_as: sort_as->Ok_0,
            identifier: identifier->Ok_0,
            alt_identifier: alt_identifier->Ok_0,
            position: position->Ok_0,
            links: links->Ok_0,
        })
    }
}

/// The collection that a value stands for: an object, or the text that is its
/// name.
pub open spec fn decode_collection(d: Doc, field: Seq<char>) -> Result<CollectionView, Fault> {
    match d {
        Doc::Object(m) => collection_from_members(m),
        Doc::String(s) => Ok(collection_new(Localized::Always(s))),
        _ => Err(mismatch(field, named_shapes(), shape_of(d))),
    }
}

/// What reading a whole document as a collection gives: an error where arrays
/// and objects nest more deeply than the ceiling.
pub open spec fn collection_from_doc(d: Doc) -> Result<CollectionView, Fault> {
    if depth(d) > MAX_DEPTH {
        Err(Fault::RecursionLimitExceeded(MAX_DEPTH))
    } else {
        decode_collection(d, ""@)
    }
}

impl Collection {
    /// A collection of that name, with nothing else in it.
    pub fn new(name: StringWithAlternates) -> (r: Collection)
        ensures
            r@ == collection_new(name@),
            localized_wf(name@) ==> collection_wf(r@),
    {
        let alt_identifier: Vec<AltIdentifier> = Vec::new();
        let links: Vec<Link> = Vec::new();
        proof {
            assert(alt_identifier_views(alt_identifier@) =~= Seq::<AltIdentifierView>::empty());
            assert(link_views(links@) =~= Seq::<LinkView>::empty());
        }
        Collection {
            name,
            sort_as: None,
            identifier: None,
            alt_identifier,
            position: None,
            links,
        }
    }

    /// Reads a collection from the members of an object.
    pub fn from_members(members: &Vec<(String, Value)>) -> (r: Result<Collection, ParseError>)
        ensures
            parsed(r) == collection_from_members(members_of(members@)),
            r matches Ok(x) ==> collection_wf(x@),
    {
        let name = match get_localized(members, "name") {
            Ok(x) => x,
            Err(e) => {
                return Err(e);
            },
        };
        let sort_as = match get_opt_localized(members, "sortAs") {
            Ok(x) => x,
            Err(e) => {
                return Err(e);
            },
        };
        let identifier = match get_opt_identifier(members, "identifier") {
            Ok(x) => x,
            Err(e) => {
                return Err(e);
            },
        };
        let alt_identifier = match get_alt_identifier_flat(members, "altIdentifier") {
            Ok(x) => x,
            Err(e) => {
                return Err(e);
            },
        };
        let position = match get_opt_natural(members, "position") {
            Ok(x) => x,
            Err(e) => {
                return Err(e);
            },
        };
        let links = match get_link_list(members, "links") {
            Ok(x) => x,
            Err(e) => {
                return Err(e);
            },
        };
        Ok(Collection { name, sort_as, identifier, alt_identifier, position, links })
    }

    /// Reads a collection from a value found under `field`.
    pub fn parse(v: &Value, field: &str) -> (r: Result<Collection, ParseError>)
        ensures
            parsed(r) == decode_collection(v@, field@),
            r matches Ok(x) ==> collection_wf(x@),
    {
        let given = match v {
            Value::Object(members) => {
                match Collection::from_members(members) {
                    Ok(x) => StringyObject::Object(x),
                    Err(e) => {
                        return Err(e);
                    },
                }
            },
            Value::String(s) => StringyObject::String(s.clone()),
            _ => {
                return Err(wrong_shape(field, shapes2(Shape::String, Shape::Object), v));
            },
        };
        Ok(given.into_inner())
    }

    /// Reads a whole document as a collection. A document in which arrays and
    /// objects nest more deeply than [`MAX_DEPTH`] is refused before anything
    /// is read from it.
    pub fn from_value(v: &Value) -> (r: Result<Collection, ParseError>)
        ensures
            parsed(r) == collection_from_doc(v@),
            r matches Ok(x) ==> collection_wf(x@),
    {
        if !v.within_depth(MAX_DEPTH) {
            return Err(ParseError::RecursionLimitExceeded(MAX_DEPTH));
        }
        Collection::parse(v, "")
    }

    /// Writes the members of this collection.
    pub fn to_members(&self) -> (members: Vec<(String, Value)>)
        ensures
            members_of(members@) == collection_members(self@),
    {
        let mut m: Vec<(String, Value)> = Vec::new();
        assert(members_of(m@) =~= Seq::<(Seq<char>, Doc)>::empty());
        put_member(&mut m, "name", make_localized(&self.name));
        put_member(&mut m, "sortAs", make_opt_localized(&self.sort_as));
        put_member(&mut m, "identifier", make_opt_identifier(&self.identifier));
        put_member(&mut m, "altIdentifier", make_alt_identifier_flat(&self.alt_identifier));
        put_member(&mut m, "position", make_opt_natural(&self.position));
        put_member(&mut m, "links", make_link_list(&self.links));
        m
    }

    /// Writes this collection as a value: always the full object.
    pub fn to_value(&self) -> (v: Value)
        ensures
            v@ == encode_collection(self@),
    {
        Value::Object(self.to_members())
    }
}

/// A copy of a collection.
pub(crate) fn copy_collection(x: &Collection) -> (r: Collection)
    ensures
        r@ == x@,
{
    Collection {
        name: x.name.clone(),
        sort_as: copy_opt_localized(&x.sort_as),
        identifier: copy_opt_identifier(&x.identifier),
        alt_identifier: copy_alt_identifier_seq(&x.alt_identifier),
        position: x.position,
        links: copy_link_seq(&x.links),
    }
}

impl Clone for Collection {
    /// A copy that holds the same.
    fn clone(&self) -> (r: Collection)
        ensures
            r@ == self@,
    {
        copy_collection(self)
    }
}

impl FromSpecImpl<String> for Collection {
    open spec fn obeys_from_spec() -> bool {
        false
    }

    open spec fn from_spec(name: String) -> Self {
        arbitrary()
    }
}

impl From<String> for Collection {
    /// The collection that has the text as its name, and nothing else.
    fn from(name: String) -> (r: Collection)
        ensures
            r@ == collection_new(Localized::Always(name@)),
            collection_wf(r@),
    {
        Collection::new(StringWithAlternates::Always(name))
    }
}

/// In the written form of a collection, each field's name leads to what that
/// field wrote.
pub proof fn lemma_collection_members(x: CollectionView)
    ensures
        lookup(collection_members(x), "name"@) == write_localized(x.name),
        lookup(collection_members(x), "sortAs"@) == write_opt_localized(x.sort_as),
        lookup(collection_members(x), "identifier"@) == write_opt_identifier(x.identifier),
        lookup(collection_members(x), "altIdentifier"@)
            == write_alt_identifier_flat(x.alt_identifier),
        lookup(collection_members(x), "position"@) == write_opt_natural(x.position),
        lookup(collection_members(x), "links"@) == write_link_list(x.links),
{
    broadcast use {lemma_lookup_after_put, lemma_lookup_empty};
    spell_name();
    spell_sort_as();
    spell_identifier();
    spell_alt_identifier();
    spell_position();
    spell_links();
}

/// A collection that is well formed, written and read again, is the same
/// collection.
pub proof fn lemma_collection_round_trip(x: CollectionView, field: Seq<char>)
    requires
        collection_wf(x),
    ensures
        decode_collection(encode_collection(x), field) == Ok::<CollectionView, Fault>(x),
{
    lemma_collection_members(x);
    let m = collection_members(x);
    assert(read_localized(m, "name"@) == Ok::<Localized, Fault>(x.name)) by {
        lemma_localized_field_round_trip(x.name, m, "name"@);
    }
    assert(read_opt_localized(m, "sortAs"@) == Ok::<Option<Localized>, Fault>(x.sort_as)) by {
        lemma_opt_localized_round_trip(x.sort_as, m, "sortAs"@);
    }
    assert(read_opt_identifier(m, "identifier"@)
        == Ok::<Option<IdentifierView>, Fault>(x.identifier));
    assert(read_alt_identifier_flat(m, "altIdentifier"@)
        == Ok::<Seq<AltIdentifierView>, Fault>(x.alt_identifier)) by {
        lemma_alt_identifier_flat_round_trip(x.alt_identifier, m, "altIdentifier"@);
    }
    assert(read_opt_natural(m, "position"@) == Ok::<Option<usize>, Fault>(x.position));
    assert(read_link_list(m, "links"@) == Ok::<Seq<LinkView>, Fault>(x.links)) by {
        lemma_link_list_round_trip(x.links, m, "links"@);
    }
}

/// What the members of an object give as a collection is well formed.
pub proof fn lemma_collection_from_members_wf(m: Seq<(Seq<char>, Doc)>)
    ensures
        collection_from_members(m) matches Ok(x) ==> collection_wf(x),
{
    lemma_read_localized_wf(m, "name"@);
    lemma_read_opt_localized_wf(m, "sortAs"@);
    lemma_read_opt_identifier_wf(m, "identifier"@);
    lemma_read_alt_identifier_flat_wf(m, "altIdentifier"@);
    lemma_read_link_list_wf(m, "links"@);
}

/// What is read as a collection is well formed.
pub proof fn lemma_decode_collection_wf(d: Doc, field: Seq<char>)
    ensures
        decode_collection(d, field) matches Ok(x) ==> collection_wf(x),
{
    if let Doc::Object(m) = d {
        lemma_collection_from_members_wf(m);
    }
}

/// A collection that was read, in whatever spelling, is read again as the same
/// collection from its written form.
pub proof fn lemma_collection_reread(d: Doc, field: Seq<char>)
    ensures
        decode_collection(d, field) matches Ok(x)
            ==> decode_collection(encode_collection(x), field) == Ok::<CollectionView, Fault>(x),
{
    lemma_decode_collection_wf(d, field);
    if let Ok(x) = decode_collection(d, field) {
        lemma_collection_round_trip(x, field);
    }
}

/// A collection that is well formed and whose written form nests no more deeply
/// than the ceiling is read back whole from that form.
pub proof fn lemma_collection_doc_round_trip(x: CollectionView)
    requires
        collection_wf(x),
        depth(encode_collection(x)) <= MAX_DEPTH,
    ensures
        collection_from_doc(encode_collection(x)) == Ok::<CollectionView, Fault>(x),
{
    lemma_collection_round_trip(x, ""@);
}

/// A periodical that may contain multiple publications.
#[derive(Debug, PartialEq, Eq)]
pub struct Periodical {
    /// The name.
    pub name: StringWithAlternates,
    /// The name in the form by which it is sorted.
    pub sort_as: Option<StringWithAlternates>,
    /// An identifier: a URL or a URN.
    pub identifier: Option<Identifier>,
    /// Alternates to the identifier.
    pub alt_identifier: Vec<AltIdentifier>,
    /// The position among its like.
    pub position: Option<usize>,
    /// Links that belong to it.
    pub links: Vec<Link>,
    pub issue: Vec<Issue>,
    pub volume: Vec<Volume>,
}

/// The mathematical model of a periodical.
pub struct PeriodicalView {
    pub name: Localized,
    pub sort_as: Option<Localized>,
    pub identifier: Option<IdentifierView>,
    pub alt_identifier: Seq<AltIdentifierView>,
    pub position: Option<usize>,
    pub links: Seq<LinkView>,
    pub issue: Seq<IssueView>,
    pub volume: Seq<VolumeView>,
}

/// The model of a periodical.
pub open spec fn periodical_view(x: Periodical) -> PeriodicalView {
    PeriodicalView {
        name: x.name@,
        sort_as: opt_localized(x.sort_as),
        identifier: opt_identifier(x.identifier),
        alt_identifier: alt_identifier_views(x.alt_identifier@),
        position: x.position,
        links: link_views(x.links@),
        issue: issue_views(x.issue@),
        volume: volume_views(x.volume@),
    }
}

impl View for Periodical {
    type V = PeriodicalView;

    open spec fn view(&self) -> PeriodicalView {
        periodical_view(*self)
    }
}

/// A periodical is well formed when everything it holds is.
pub open spec fn periodical_wf(x: PeriodicalView) -> bool {
    &&& localized_wf(x.name)
    &&& opt_localized_wf(x.sort_as)
    &&& opt_identifier_wf(x.identifier)
    &&& alt_identifier_seq_wf(x.alt_identifier)
    &&& link_seq_wf(x.links)
    &&& issue_seq_wf(x.issue)
    &&& volume_seq_wf(x.volume)
}

/// The periodical made from its name, with nothing else in it.
pub open spec fn periodical_new(name: Localized) -> PeriodicalView {
    PeriodicalView {
        name,
        sort_as: None,
        identifier: None,
        alt_identifier: Seq::empty(),
        position: None,
        links: Seq::empty(),
        issue: Seq::empty(),
        volume: Seq::empty(),
    }
}

/// The members that a periodical is written as: one for each field that holds
/// something, in the order of the fields.
pub open spec fn periodical_members(x: PeriodicalView) -> Seq<(Seq<char>, Doc)> {
    let m = Seq::<(Seq<char>, Doc)>::empty();
    let m = put(m, "name"@, write_localized(x.name));
    let m = put(m, "sortAs"@, write_opt_localized(x.sort_as));
    let m = put(m, "identifier"@, write_opt_identifier(x.identifier));
    let m = put(m, "altIdentifier"@, write_alt_identifier_flat(x.alt_identifier));
    let m = put(m, "position"@, write_opt_natural(x.position));
    let m = put(m, "links"@, write_link_list(x.links));
    let m = put(m, "issue"@, write_issue_flat(x.issue));
    let m = put(m, "volume"@, write_volume_flat(x.volume));
    m
}

/// The written form of a periodical: always the full object.
pub open spec fn encode_periodical(x: PeriodicalView) -> Doc {
    Doc::Object(periodical_members(x))
}

/// The periodical that the members of an object stand for, or the error of the
/// first field, in the order of the fields, that cannot be read.
pub open spec fn periodical_from_members(
    m: Seq<(Seq<char>, Doc)>,
) -> Result<PeriodicalView, Fault> {
    let name = read_localized(m, "name"@);
    let sort_as = read_opt_localized(m, "sortAs"@);
    let identifier = read_opt_identifier(m, "identifier"@);
    let alt_identifier = read_alt_identifier_flat(m, "altIdentifier"@);
    let position = read_opt_natural(m, "position"@);
    let links = read_link_list(m, "links"@);
    let issue = read_issue_flat(m, "issue"@);
    let volume = read_volume_flat(m, "volume"@);
    if name is Err {
        Err(name->Err_0)
    } else if sort_as is Err {
        Err(sort_as->Err_0)
    } else if identifier is Err {
        Err(identifier->Err_0)
    } else if alt_identifier is Err {
        Err(alt_identifier->Err_0)
    } else if position is Err {
        Err(position->Err_0)
    } else if links is Err {
        Err(links->Err_0)
    } else if issue is Err {
        Err(issue->Err_0)
    } else if volume is Err {
        Err(volume->Err_0)
    } else {
        Ok(PeriodicalView {
            name: name->Ok_0,
            sort_as: sort_as->Ok_0,
            identifier: identifier->Ok_0,
            alt_identifier: alt_identifier->Ok_0,
            position: position->Ok_0,
            links: links->Ok_0,
            issue: issue->Ok_0,
            volume: volume->Ok_0,
        })
    }
}

/// The periodical that a value stands for: an object, or the text that is its
/// name.
pub open spec fn decode_periodical(d: Doc, field: Seq<char>) -> Result<PeriodicalView, Fault> {
    match d {
        Doc::Object(m) => periodical_from_members(m),
        Doc::String(s) => Ok(periodical_new(Localized::Always(s))),
        _ => Err(mismatch(field, named_shapes(), shape_of(d))),
    }
}

/// What reading a whole document as a periodical gives: an error where arrays
/// and objects nest more deeply than the ceiling.
pub open spec fn periodical_from_doc(d: Doc) -> Result<PeriodicalView, Fault> {
    if depth(d) > MAX_DEPTH {
        Err(Fault::RecursionLimitExceeded(MAX_DEPTH))
    } else {
        decode_periodical(d, ""@)
    }
}

impl Periodical {
    /// A periodical of that name, with nothing else in it.
    pub fn new(name: StringWithAlternates) -> (r: Periodical)
        ensures
            r@ == periodical_new(name@),
            localized_wf(name@) ==> periodical_wf(r@),
    {
        let alt_identifier: Vec<AltIdentifier> = Vec::new();
        let links: Vec<Link> = Vec::new();
        let issue: Vec<Issue> = Vec::new();
        let volume: Vec<Volume> = Vec::new();
        proof {
            assert(alt_identifier_views(alt_identifier@) =~= Seq::<AltIdentifierView>::empty());
            assert(link_views(links@) =~= Seq::<LinkView>::empty());
            assert(issue_views(issue@) =~= Seq::<IssueView>::empty());
            assert(volume_views(volume@) =~= Seq::<VolumeView>::empty());
        }
        Periodical {
            name,
            sort_as: None,
            identifier: None,
            alt_identifier,
            position: None,
            links,
            issue,
            volume,
        }
    }

    /// Reads a periodical from the members of an object.
    pub fn from_members(members: &Vec<(String, Value)>) -> (r: Result<Periodical, ParseError>)
        ensures
            parsed(r) == periodical_from_members(members_of(members@)),
            r matches Ok(x) ==> periodical_wf(x@),
    {
        let name = match get_localized(members, "name") {
            Ok(x) => x,
            Err(e) => {
                return Err(e);
            },
        };
        let sort_as = match get_opt_localized(members, "sortAs") {
            Ok(x) => x,
            Err(e) => {
                return Err(e);
            },
        };
        let identifier = match get_opt_identifier(members, "identifier") {
            Ok(x) => x,
            Err(e) => {
                return Err(e);
            },
        };
        let alt_identifier = match get_alt_identifier_flat(members, "altIdentifier") {
            Ok(x) => x,
            Err(e) => {
                return Err(e);
            },
        };
        let position = match get_opt_natural(members, "position") {
            Ok(x) => x,
            Err(e) => {
                return Err(e);
            },
        };
        let links = match get_link_list(members, "links") {
            Ok(x) => x,
            Err(e) => {
                return Err(e);
            },
        };
        let issue = match get_issue_flat(members, "issue") {
            Ok(x) => x,
            Err(e) => {
                return Err(e);
            },
        };
        let volume = match get_volume_flat(members, "volume") {
            Ok(x) => x,
            Err(e) => {
                return Err(e);
            },
        };
        Ok(Periodical { name, sort_as, identifier, alt_identifier, position, links, issue, volume })
    }

    /// Reads a periodical from a value found under `field`.
    pub fn parse(v: &Value, field: &str) -> (r: Result<Periodical, ParseError>)
        ensures
            parsed(r) == decode_periodical(v@, field@),
            r matches Ok(x) ==> periodical_wf(x@),
    {
        let given = match v {
            Value::Object(members) => {
                match Periodical::from_members(members) {
                    Ok(x) => StringyObject::Object(x),
                    Err(e) => {
                        return Err(e);
                    },
                }
            },
            Value::String(s) => StringyObject::String(s.clone()),
            _ => {
                return Err(wrong_shape(field, shapes2(Shape::String, Shape::Object), v));
            },
        };
        Ok(given.into_inner())
    }

    /// Reads a whole document as a periodical. A document in which arrays and
    /// objects nest more deeply than [`MAX_DEPTH`] is refused before anything
    /// is read from it.
    pub fn from_value(v: &Value) -> (r: Result<Periodical, ParseError>)
        ensures
            parsed(r) == periodical_from_doc(v@),
            r matches Ok(x) ==> periodical_wf(x@),
    {
        if !v.within_depth(MAX_DEPTH) {
            return Err(ParseError::RecursionLimitExceeded(MAX_DEPTH));
        }
        Periodical::parse(v, "")
    }

    /// Writes the members of this periodical.
    pub fn to_members(&self) -> (members: Vec<(String, Value)>)
        ensures
            members_of(members@) == periodical_members(self@),
    {
        let mut m: Vec<(String, Value)> = Vec::new();
        assert(members_of(m@) =~= Seq::<(Seq<char>, Doc)>::empty());
        put_member(&mut m, "name", make_localized(&self.name));
        put_member(&mut m, "sortAs", make_opt_localized(&self.sort_as));
        put_member(&mut m, "identifier", make_opt_identifier(&self.identifier));
        put_member(&mut m, "altIdentifier", make_alt_identifier_flat(&self.alt_identifier));
        put_member(&mut m, "position", make_opt_natural(&self.position));
        put_member(&mut m, "links", make_link_list(&self.links));
        put_member(&mut m, "issue", make_issue_flat(&self.issue));
        put_member(&mut m, "volume", make_volume_flat(&self.volume));
        m
    }

    /// Writes this periodical as a value: always the full object.
    pub fn to_value(&self) -> (v: Value)
        ensures
            v@ == encode_periodical(self@),
    {
        Value::Object(self.to_members())
    }
}

/// A copy of a periodical.
pub(crate) fn copy_periodical(x: &Periodical) -> (r: Periodical)
    ensures
        r@ == x@,
{
    Periodical {
        name: x.name.clone(),
        sort_as: copy_opt_localized(&x.sort_as),
        identifier: copy_opt_identifier(&x.identifier),
        alt_identifier: copy_alt_identifier_seq(&x.alt_identifier),
        position: x.position,
        links: copy_link_seq(&x.links),
        issue: copy_issue_seq(&x.issue),
        volume: copy_volume_seq(&x.volume),
    }
}

impl Clone for Periodical {
    /// A copy that holds the same.
    fn clone(&self) -> (r: Periodical)
        ensures
            r@ == self@,
    {
        copy_periodical(self)
    }
}

impl FromSpecImpl<String> for Periodical {
    open spec fn obeys_from_spec() -> bool {
        false
    }

    open spec fn from_spec(name: String) -> Self {
        arbitrary()
    }
}

impl From<String> for Periodical {
    /// The periodical that has the text as its name, and nothing else.
    fn from(name: String) -> (r: Periodical)
        ensures
            r@ == periodical_new(Localized::Always(name@)),
            periodical_wf(r@),
    {
        Periodical::new(StringWithAlternates::Always(name))
    }
}

/// In the written form of a periodical, each field's name leads to what that
/// field wrote.
pub proof fn lemma_periodical_members(x: PeriodicalView)
    ensures
        lookup(periodical_members(x), "name"@) == write_localized(x.name),
        lookup(periodical_members(x), "sortAs"@) == write_opt_localized(x.sort_as),
        lookup(periodical_members(x), "identifier"@) == write_opt_identifier(x.identifier),
        lookup(periodical_members(x), "altIdentifier"@)
            == write_alt_identifier_flat(x.alt_identifier),
        lookup(periodical_members(x), "position"@) == write_opt_natural(x.position),
        lookup(periodical_members(x), "links"@) == write_link_list(x.links),
        lookup(periodical_members(x), "issue"@) == write_issue_flat(x.issue),
        lookup(periodical_members(x), "volume"@) == write_volume_flat(x.volume),
{
    broadcast use {lemma_lookup_after_put, lemma_lookup_empty};
    spell_name();
    spell_sort_as();
    spell_identifier();
    spell_alt_identifier();
    spell_position();
    spell_links();
    spell_issue();
    spell_volume();
}

/// A periodical that is well formed, written and read again, is the same
/// periodical.
pub proof fn lemma_periodical_round_trip(x: PeriodicalView, field: Seq<char>)
    requires
        periodical_wf(x),
    ensures
        decode_periodical(encode_periodical(x), field) == Ok::<PeriodicalView, Fault>(x),
{
    lemma_periodical_members(x);
    let m = periodical_members(x);
    assert(read_localized(m, "name"@) == Ok::<Localized, Fault>(x.name)) by {
        lemma_localized_field_round_trip(x.name, m, "name"@);
    }
    assert(read_opt_localized(m, "sortAs"@) == Ok::<Option<Localized>, Fault>(x.sort_as)) by {
        lemma_opt_localized_round_trip(x.sort_as, m, "sortAs"@);
    }
    assert(read_opt_identifier(m, "identifier"@)
        == Ok::<Option<IdentifierView>, Fault>(x.identifier));
    assert(read_alt_identifier_flat(m, "altIdentifier"@)
        == Ok::<Seq<AltIdentifierView>, Fault>(x.alt_identifier)) by {
        lemma_alt_identifier_flat_round_trip(x.alt_identifier, m, "altIdentifier"@);
    }
    assert(read_opt_natural(m, "position"@) == Ok::<Option<usize>, Fault>(x.position));
    assert(read_link_list(m, "links"@) == Ok::<Seq<LinkView>, Fault>(x.links)) by {
        lemma_link_list_round_trip(x.links, m, "links"@);
    }
    assert(read_issue_flat(m, "issue"@) == Ok::<Seq<IssueView>, Fault>(x.issue)) by {
        lemma_issue_flat_round_trip(x.issue, m, "issue"@);
    }
    assert(read_volume_flat(m, "volume"@) == Ok::<Seq<VolumeView>, Fault>(x.volume)) by {
        lemma_volume_flat_round_trip(x.volume, m, "volume"@);
    }
}

/// What the members of an object give as a periodical is well formed.
pub proof fn lemma_periodical_from_members_wf(m: Seq<(Seq<char>, Doc)>)
    ensures
        periodical_from_members(m) matches Ok(x) ==> periodical_wf(x),
{
    lemma_read_localized_wf(m, "name"@);
    lemma_read_opt_localized_wf(m, "sortAs"@);
    lemma_read_opt_identifier_wf(m, "identifier"@);
    lemma_read_alt_identifier_flat_wf(m, "altIdentifier"@);
    lemma_read_link_list_wf(m, "links"@);
    lemma_read_issue_flat_wf(m, "issue"@);
    lemma_read_volume_flat_wf(m, "volume"@);
}

/// What is read as a periodical is well formed.
pub proof fn lemma_decode_periodical_wf(d: Doc, field: Seq<char>)
    ensures
        decode_periodical(d, field) matches Ok(x) ==> periodical_wf(x),
{
    if let Doc::Object(m) = d {
        lemma_periodical_from_members_wf(m);
    }
}

/// A periodical that was read, in whatever spelling, is read again as the same
/// periodical from its written form.
pub proof fn lemma_periodical_reread(d: Doc, field: Seq<char>)
    ensures
        decode_periodical(d, field) matches Ok(x)
            ==> decode_periodical(encode_periodical(x), field) == Ok::<PeriodicalView, Fault>(x),
{
    lemma_decode_periodical_wf(d, field);
    if let Ok(x) = decode_periodical(d, field) {
        lemma_periodical_round_trip(x, field);
    }
}

/// A periodical that is well formed and whose written form nests no more deeply
/// than the ceiling is read back whole from that form.
pub proof fn lemma_periodical_doc_round_trip(x: PeriodicalView)
    requires
        periodical_wf(x),
        depth(encode_periodical(x)) <= MAX_DEPTH,
    ensures
        periodical_from_doc(encode_periodical(x)) == Ok::<PeriodicalView, Fault>(x),
{
    lemma_periodical_round_trip(x, ""@);
}

/// An episode of a show, podcast, or other episodic content.
#[derive(Debug, PartialEq, Eq)]
pub struct Episode {
    /// The name.
    pub name: Option<StringWithAlternates>,
    /// The name in the form by which it is sorted.
    pub sort_as: Option<StringWithAlternates>,
    /// An identifier: a URL or a URN.
    pub identifier: Option<Identifier>,
    /// Alternates to the identifier.
    pub alt_identifier: Vec<AltIdentifier>,
    /// The position among its like.
    pub position: usize,
    /// Links that belong to it.
    pub links: Vec<Link>,
}

/// The mathematical model of an episode.
pub struct EpisodeView {
    pub name: Option<Localized>,
    pub sort_as: Option<Localized>,
    pub identifier: Option<IdentifierView>,
    pub alt_identifier: Seq<AltIdentifierView>,
    pub position: usize,
    pub links: Seq<LinkView>,
}

/// The model of an episode.
pub open spec fn episode_view(x: Episode) -> EpisodeView {
    EpisodeView {
        name: opt_localized(x.name),
        sort_as: opt_localized(x.sort_as),
        identifier: opt_identifier(x.identifier),
        alt_identifier: alt_identifier_views(x.alt_identifier@),
        position: x.position,
        links: link_views(x.links@),
    }
}

impl View for Episode {
    type V = EpisodeView;

    open spec fn view(&self) -> EpisodeView {
        episode_view(*self)
    }
}

/// An episode is well formed when everything it holds is.
pub open spec fn episode_wf(x: EpisodeView) -> bool {
    &&& opt_localized_wf(x.name)
    &&& opt_localized_wf(x.sort_as)
    &&& opt_identifier_wf(x.identifier)
    &&& alt_identifier_seq_wf(x.alt_identifier)
    &&& link_seq_wf(x.links)
}

/// The episode made from its position, with nothing else in it.
pub open spec fn episode_new(position: usize) -> EpisodeView {
    EpisodeView {
        name: None,
        sort_as: None,
        identifier: None,
        alt_identifier: Seq::empty(),
        position,
        links: Seq::empty(),
    }
}

/// The members that an episode is written as: one for each field that holds
/// something, in the order of the fields.
pub open spec fn episode_members(x: EpisodeView) -> Seq<(Seq<char>, Doc)> {
    let m = Seq::<(Seq<char>, Doc)>::empty();
    let m = put(m, "name"@, write_opt_localized(x.name));
    let m = put(m, "sortAs"@, write_opt_localized(x.sort_as));
    let m = put(m, "identifier"@, write_opt_identifier(x.identifier));
    let m = put(m, "altIdentifier"@, write_alt_identifier_flat(x.alt_identifier));
    let m = put(m, "position"@, write_natural(x.position));
    let m = put(m, "links"@, write_link_list(x.links));
    m
}

/// The written form of an episode: always the full object.
pub open spec fn encode_episode(x: EpisodeView) -> Doc {
    Doc::Object(episode_members(x))
}

/// The episode that the members of an object stand for, or the error of the
/// first field, in the order of the fields, that cannot be read.
pub open spec fn episode_from_members(m: Seq<(Seq<char>, Doc)>) -> Result<EpisodeView, Fault> {
    let name = read_opt_localized(m, "name"@);
    let sort_as = read_opt_localized(m, "sortAs"@);
    let identifier = read_opt_identifier(m, "identifier"@);
    let alt_identifier = read_alt_identifier_flat(m, "altIdentifier"@);
    let position = read_natural(m, "position"@);
    let links = read_link_list(m, "links"@);
    if name is Err {
        Err(name->Err_0)
    } else if sort_as is Err {
        Err(sort_as->Err_0)
    } else if identifier is Err {
        Err(identifier->Err_0)
    } else if alt_identifier is Err {
        Err(alt_identifier->Err_0)
    } else if position is Err {
        Err(position->Err_0)
    } else if links is Err {
        Err(links->Err_0)
    } else {
        Ok(EpisodeView {
            name: name->Ok_0,
            sort_as: sort_as->Ok_0,
            identifier: identifier->Ok_0,
            alt_identifier: alt_identifier->Ok_0,
            position: position->Ok_0,
            links: links->Ok_0,
        })
    }
}

/// The episode that a value stands for: an object, or the number that is its
/// position.
pub open spec fn decode_episode(d: Doc, field: Seq<char>) -> Result<EpisodeView, Fault> {
    match d {
        Doc::Object(m) => episode_from_members(m),
        Doc::Number(n) => match natural_of(n) {
            Some(k) => Ok(episode_new(k)),
            None => Err(mismatch(field, numbered_shapes(), shape_of(d))),
        },
        _ => Err(mismatch(field, numbered_shapes(), shape_of(d))),
    }
}

/// What reading a whole document as an episode gives: an error where arrays and
/// objects nest more deeply than the ceiling.
pub open spec fn episode_from_doc(d: Doc) -> Result<EpisodeView, Fault> {
    if depth(d) > MAX_DEPTH {
        Err(Fault::RecursionLimitExceeded(MAX_DEPTH))
    } else {
        decode_episode(d, ""@)
    }
}

impl Episode {
    /// An episode at that position, with nothing else in it.
    pub fn new(position: usize) -> (r: Episode)
        ensures
            r@ == episode_new(position),
            episode_wf(r@),
    {
        let alt_identifier: Vec<AltIdentifier> = Vec::new();
        let links: Vec<Link> = Vec::new();
        proof {
            assert(alt_identifier_views(alt_identifier@) =~= Seq::<AltIdentifierView>::empty());
            assert(link_views(links@) =~= Seq::<LinkView>::empty());
        }
        Episode {
            name: None,
            sort_as: None,
            identifier: None,
            alt_identifier,
            position,
            links,
        }
    }

    /// Reads an episode from the members of an object.
    pub fn from_members(members: &Vec<(String, Value)>) -> (r: Result<Episode, ParseError>)
        ensures
            parsed(r) == episode_from_members(members_of(members@)),
            r matches Ok(x) ==> episode_wf(x@),
    {
        let name = match get_opt_localized(members, "name") {
            Ok(x) => x,
            Err(e) => {
                return Err(e);
            },
        };
        let sort_as = match get_opt_localized(members, "sortAs") {
            Ok(x) => x,
            Err(e) => {
                return Err(e);
            },
        };
        let identifier = match get_opt_identifier(members, "identifier") {
            Ok(x) => x,
            Err(e) => {
                return Err(e);
            },
        };
        let alt_identifier = match get_alt_identifier_flat(members, "altIdentifier") {
            Ok(x) => x,
            Err(e) => {
                return Err(e);
            },
        };
        let position = match get_natural(members, "position") {
            Ok(x) => x,
            Err(e) => {
                return Err(e);
            },
        };
        let links = match get_link_list(members, "links") {
            Ok(x) => x,
            Err(e) => {
                return Err(e);
            },
        };
        Ok(Episode { name, sort_as, identifier, alt_identifier, position, links })
    }

    /// Reads an episode from a value found under `field`.
    pub fn parse(v: &Value, field: &str) -> (r: Result<Episode, ParseError>)
        ensures
            parsed(r) == decode_episode(v@, field@),
            r matches Ok(x) ==> episode_wf(x@),
    {
        let given = match v {
            Value::Object(members) => {
                match Episode::from_members(members) {
                    Ok(x) => NumlikeObject::Object(x),
                    Err(e) => {
                        return Err(e);
                    },
                }
            },
            Value::Number(n) => match natural(*n) {
                Some(k) => NumlikeObject::Number(k),
                None => {
                    return Err(wrong_shape(field, shapes2(Shape::Natural, Shape::Object), v));
                },
            },
            _ => {
                return Err(wrong_shape(field, shapes2(Shape::Natural, Shape::Object), v));
            },
        };
        Ok(given.into_inner())
    }

    /// Reads a whole document as an episode. A document in which arrays and
    /// objects nest more deeply than [`MAX_DEPTH`] is refused before anything
    /// is read from it.
    pub fn from_value(v: &Value) -> (r: Result<Episode, ParseError>)
        ensures
            parsed(r) == episode_from_doc(v@),
            r matches Ok(x) ==> episode_wf(x@),
    {
        if !v.within_depth(MAX_DEPTH) {
            return Err(ParseError::RecursionLimitExceeded(MAX_DEPTH));
        }
        Episode::parse(v, "")
    }

    /// Writes the members of this episode.
    pub fn to_members(&self) -> (members: Vec<(String, Value)>)
        ensures
            members_of(members@) == episode_members(self@),
    {
        let mut m: Vec<(String, Value)> = Vec::new();
        assert(members_of(m@) =~= Seq::<(Seq<char>, Doc)>::empty());
        put_member(&mut m, "name", make_opt_localized(&self.name));
        put_member(&mut m, "sortAs", make_opt_localized(&self.sort_as));
        put_member(&mut m, "identifier", make_opt_identifier(&self.identifier));
        put_member(&mut m, "altIdentifier", make_alt_identifier_flat(&self.alt_identifier));
        put_member(&mut m, "position", make_natural(self.position));
        put_member(&mut m, "links", make_link_list(&self.links));
        m
    }

    /// Writes this episode as a value: always the full object.
    pub fn to_value(&self) -> (v: Value)
        ensures
            v@ == encode_episode(self@),
    {
        Value::Object(self.to_members())
    }
}

/// A copy of an episode.
pub(crate) fn copy_episode(x: &Episode) -> (r: Episode)
    ensures
        r@ == x@,
{
    Episode {
        name: copy_opt_localized(&x.name),
        sort_as: copy_opt_localized(&x.sort_as),
        identifier: copy_opt_identifier(&x.identifier),
        alt_identifier: copy_alt_identifier_seq(&x.alt_identifier),
        position: x.position,
        links: copy_link_seq(&x.links),
    }
}

impl Clone for Episode {
    /// A copy that holds the same.
    fn clone(&self) -> (r: Episode)
        ensures
            r@ == self@,
    {
        copy_episode(self)
    }
}

impl FromSpecImpl<usize> for Episode {
    open spec fn obeys_from_spec() -> bool {
        false
    }

    open spec fn from_spec(position: usize) -> Self {
        arbitrary()
    }
}

impl From<usize> for Episode {
    /// The episode that has the number as its position, and nothing else.
    fn from(position: usize) -> (r: Episode)
        ensures
            r@ == episode_new(position),
            episode_wf(r@),
    {
        Episode::new(position)
    }
}

/// In the written form of an episode, each field's name leads to what that
/// field wrote.
pub proof fn lemma_episode_members(x: EpisodeView)
    ensures
        lookup(episode_members(x), "name"@) == write_opt_localized(x.name),
        lookup(episode_members(x), "sortAs"@) == write_opt_localized(x.sort_as),
        lookup(episode_members(x), "identifier"@) == write_opt_identifier(x.identifier),
        lookup(episode_members(x), "altIdentifier"@) == write_alt_identifier_flat(x.alt_identifier),
        lookup(episode_members(x), "position"@) == write_natural(x.position),
        lookup(episode_members(x), "links"@) == write_link_list(x.links),
{
    broadcast use {lemma_lookup_after_put, lemma_lookup_empty};
    spell_name();
    spell_sort_as();
    spell_identifier();
    spell_alt_identifier();
    spell_position();
    spell_links();
}

/// An episode that is well formed, written and read again, is the same episode.
pub proof fn lemma_episode_round_trip(x: EpisodeView, field: Seq<char>)
    requires
        episode_wf(x),
    ensures
        decode_episode(encode_episode(x), field) == Ok::<EpisodeView, Fault>(x),
{
    lemma_episode_members(x);
    let m = episode_members(x);
    assert(read_opt_localized(m, "name"@) == Ok::<Option<Localized>, Fault>(x.name)) by {
        lemma_opt_localized_round_trip(x.name, m, "name"@);
    }
    assert(read_opt_localized(m, "sortAs"@) == Ok::<Option<Localized>, Fault>(x.sort_as)) by {
        lemma_opt_localized_round_trip(x.sort_as, m, "sortAs"@);
    }
    assert(read_opt_identifier(m, "identifier"@)
        == Ok::<Option<IdentifierView>, Fault>(x.identifier));
    assert(read_alt_identifier_flat(m, "altIdentifier"@)
        == Ok::<Seq<AltIdentifierView>, Fault>(x.alt_identifier)) by {
        lemma_alt_identifier_flat_round_trip(x.alt_identifier, m, "altIdentifier"@);
    }
    assert(read_natural(m, "position"@) == Ok::<usize, Fault>(x.position));
    assert(read_link_list(m, "links"@) == Ok::<Seq<LinkView>, Fault>(x.links)) by {
        lemma_link_list_round_trip(x.links, m, "links"@);
    }
}

/// What the members of an object give as an episode is well formed.
pub proof fn lemma_episode_from_members_wf(m: Seq<(Seq<char>, Doc)>)
    ensures
        episode_from_members(m) matches Ok(x) ==> episode_wf(x),
{
    lemma_read_opt_localized_wf(m, "name"@);
    lemma_read_opt_localized_wf(m, "sortAs"@);
    lemma_read_opt_identifier_wf(m, "identifier"@);
    lemma_read_alt_identifier_flat_wf(m, "altIdentifier"@);
    lemma_read_link_list_wf(m, "links"@);
}

/// What is read as an episode is well formed.
pub proof fn lemma_decode_episode_wf(d: Doc, field: Seq<char>)
    ensures
        decode_episode(d, field) matches Ok(x) ==> episode_wf(x),
{
    if let Doc::Object(m) = d {
        lemma_episode_from_members_wf(m);
    }
}

/// An episode that was read, in whatever spelling, is read again as the same
/// episode from its written form.
pub proof fn lemma_episode_reread(d: Doc, field: Seq<char>)
    ensures
        decode_episode(d, field) matches Ok(x)
            ==> decode_episode(encode_episode(x), field) == Ok::<EpisodeView, Fault>(x),
{
    lemma_decode_episode_wf(d, field);
    if let Ok(x) = decode_episode(d, field) {
        lemma_episode_round_trip(x, field);
    }
}

/// An episode that is well formed and whose written form nests no more deeply
/// than the ceiling is read back whole from that form.
pub proof fn lemma_episode_doc_round_trip(x: EpisodeView)
    requires
        episode_wf(x),
        depth(encode_episode(x)) <= MAX_DEPTH,
    ensures
        episode_from_doc(encode_episode(x)) == Ok::<EpisodeView, Fault>(x),
{
    lemma_episode_round_trip(x, ""@);
}

/// An article.
#[derive(Debug, PartialEq, Eq)]
pub struct Article {
    /// The name.
    pub name: StringWithAlternates,
    /// The name in the form by which it is sorted.
    pub sort_as: Option<StringWithAlternates>,
    /// An identifier: a URL or a URN.
    pub identifier: Option<Identifier>,
    /// Alternates to the identifier.
    pub alt_identifier: Vec<AltIdentifier>,
    pub author: Vec<Contributor>,
    pub translator: Vec<Contributor>,
    pub editor: Vec<Contributor>,
    pub artist: Vec<Contributor>,
    pub illustrator: Vec<Contributor>,
    pub contributor: Vec<Contributor>,
    pub description: Option<String>,
    pub number_of_pages: Option<usize>,
    /// The position among its like.
    pub position: Option<usize>,
    /// Links that belong to it.
    pub links: Vec<Link>,
}

/// The mathematical model of an article.
pub struct ArticleView {
    pub name: Localized,
    pub sort_as: Option<Localized>,
    pub identifier: Option<IdentifierView>,
    pub alt_identifier: Seq<AltIdentifierView>,
    pub author: Seq<ContributorView>,
    pub translator: Seq<ContributorView>,
    pub editor: Seq<ContributorView>,
    pub artist: Seq<ContributorView>,
    pub illustrator: Seq<ContributorView>,
    pub contributor: Seq<ContributorView>,
    pub description: Option<Seq<char>>,
    pub number_of_pages: Option<usize>,
    pub position: Option<usize>,
    pub links: Seq<LinkView>,
}

/// The model of an article.
pub open spec fn article_view(x: Article) -> ArticleView {
    ArticleView {
        name: x.name@,
        sort_as: opt_localized(x.sort_as),
        identifier: opt_identifier(x.identifier),
        alt_identifier: alt_identifier_views(x.alt_identifier@),
        author: contributor_views(x.author@),
        translator: contributor_views(x.translator@),
        editor: contributor_views(x.editor@),
        artist: contributor_views(x.artist@),
        illustrator: contributor_views(x.illustrator@),
        contributor: contributor_views(x.contributor@),
        description: opt_text(x.description),
        number_of_pages: x.number_of_pages,
        position: x.position,
        links: link_views(x.links@),
    }
}

impl View for Article {
    type V = ArticleView;

    open spec fn view(&self) -> ArticleView {
        article_view(*self)
    }
}

/// An article is well formed when everything it holds is.
pub open spec fn article_wf(x: ArticleView) -> bool {
    &&& localized_wf(x.name)
    &&& opt_localized_wf(x.sort_as)
    &&& opt_identifier_wf(x.identifier)
    &&& alt_identifier_seq_wf(x.alt_identifier)
    &&& contributor_seq_wf(x.author)
    &&& contributor_seq_wf(x.translator)
    &&& contributor_seq_wf(x.editor)
    &&& contributor_seq_wf(x.artist)
    &&& contributor_seq_wf(x.illustrator)
    &&& contributor_seq_wf(x.contributor)
    &&& link_seq_wf(x.links)
}

/// The article made from its name, with nothing else in it.
pub open spec fn article_new(name: Localized) -> ArticleView {
    ArticleView {
        name,
        sort_as: None,
        identifier: None,
        alt_identifier: Seq::empty(),
        author: Seq::empty(),
        translator: Seq::empty(),
        editor: Seq::empty(),
        artist: Seq::empty(),
        illustrator: Seq::empty(),
        contributor: Seq::empty(),
        description: None,
        number_of_pages: None,
        position: None,
        links: Seq::empty(),
    }
}

/// The members that an article is written as: one for each field that holds
/// something, in the order of the fields.
pub open spec fn article_members(x: ArticleView) -> Seq<(Seq<char>, Doc)> {
    let m = Seq::<(Seq<char>, Doc)>::empty();
    let m = put(m, "name"@, write_localized(x.name));
    let m = put(m, "sortAs"@, write_opt_localized(x.sort_as));
    let m = put(m, "identifier"@, write_opt_identifier(x.identifier));
    let m = put(m, "altIdentifier"@, write_alt_identifier_flat(x.alt_identifier));
    let m = put(m, "author"@, write_contributor_flat(x.author));
    let m = put(m, "translator"@, write_contributor_flat(x.translator));
    let m = put(m, "editor"@, write_contributor_flat(x.editor));
    let m = put(m, "artist"@, write_contributor_flat(x.artist));
    let m = put(m, "illustrator"@, write_contributor_flat(x.illustrator));
    let m = put(m, "contributor"@, write_contributor_flat(x.contributor));
    let m = put(m, "description"@, write_opt_text(x.description));
    let m = put(m, "numberOfPages"@, write_opt_natural(x.number_of_pages));
    let m = put(m, "position"@, write_opt_natural(x.position));
    let m = put(m, "links"@, write_link_list(x.links));
    m
}

/// The written form of an article: always the full object.
pub open spec fn encode_article(x: ArticleView) -> Doc {
    Doc::Object(article_members(x))
}

/// The article that the members of an object stand for, or the error of the
/// first field, in the order of the fields, that cannot be read.
pub open spec fn article_from_members(m: Seq<(Seq<char>, Doc)>) -> Result<ArticleView, Fault> {
    let name = read_localized(m, "name"@);
    let sort_as = read_opt_localized(m, "sortAs"@);
    let identifier = read_opt_identifier(m, "identifier"@);
    let alt_identifier = read_alt_identifier_flat(m, "altIdentifier"@);
    let author = read_contributor_flat(m, "author"@);
    let translator = read_contributor_flat(m, "translator"@);
    let editor = read_contributor_flat(m, "editor"@);
    let artist = read_contributor_flat(m, "artist"@);
    let illustrator = read_contributor_flat(m, "illustrator"@);
    let contributor = read_contributor_flat(m, "contributor"@);
    let description = read_opt_text(m, "description"@);
    let number_of_pages = read_opt_natural(m, "numberOfPages"@);
    let position = read_opt_natural(m, "position"@);
    let links = read_link_list(m, "links"@);
    if name is Err {
        Err(name->Err_0)
    } else if sort_as is Err {
        Err(sort_as->Err_0)
    } else if identifier is Err {
        Err(identifier->Err_0)
    } else if alt_identifier is Err {
        Err(alt_identifier->Err_0)
    } else if author is Err {
        Err(author->Err_0)
    } else if translator is Err {
        Err(translator->Err_0)
    } else if editor is Err {
        Err(editor->Err_0)
    } else if artist is Err {
        Err(artist->Err_0)
    } else if illustrator is Err {
        Err(illustrator->Err_0)
    } else if contributor is Err {
        Err(contributor->Err_0)
    } else if description is Err {
        Err(description->Err_0)
    } else if number_of_pages is Err {
        Err(number_of_pages->Err_0)
    } else if position is Err {
        Err(position->Err_0)
    } else if links is Err {
        Err(links->Err_0)
    } else {
        Ok(ArticleView {
            name: name->Ok_0,
            sort_as: sort_as->Ok_0,
            identifier: identifier->Ok_0,
            alt_identifier: alt_identifier->Ok_0,
            author: author->Ok_0,
            translator: translator->Ok_0,
            editor: editor->Ok_0,
            artist: artist->Ok_0,
            illustrator: illustrator->Ok_0,
            contributor: contributor->Ok_0,
            description: description->Ok_0,
            number_of_pages: number_of_pages->Ok_0,
            position: position->Ok_0,
            links: links->Ok_0,
        })
    }
}

/// The article that a value stands for: an object, or the text that is its
/// name.
pub open spec fn decode_article(d: Doc, field: Seq<char>) -> Result<ArticleView, Fault> {
    match d {
        Doc::Object(m) => article_from_members(m),
        Doc::String(s) => Ok(article_new(Localized::Always(s))),
        _ => Err(mismatch(field, named_shapes(), shape_of(d))),
    }
}

/// What reading a whole document as an article gives: an error where arrays and
/// objects nest more deeply than the ceiling.
pub open spec fn article_from_doc(d: Doc) -> Result<ArticleView, Fault> {
    if depth(d) > MAX_DEPTH {
        Err(Fault::RecursionLimitExceeded(MAX_DEPTH))
    } else {
        decode_article(d, ""@)
    }
}

impl Article {
    /// An article of that name, with nothing else in it.
    pub fn new(name: StringWithAlternates) -> (r: Article)
        ensures
            r@ == article_new(name@),
            localized_wf(name@) ==> article_wf(r@),
    {
        let alt_identifier: Vec<AltIdentifier> = Vec::new();
        let author: Vec<Contributor> = Vec::new();
        let translator: Vec<Contributor> = Vec::new();
        let editor: Vec<Contributor> = Vec::new();
        let artist: Vec<Contributor> = Vec::new();
        let illustrator: Vec<Contributor> = Vec::new();
        let contributor: Vec<Contributor> = Vec::new();
        let links: Vec<Link> = Vec::new();
        proof {
            assert(alt_identifier_views(alt_identifier@) =~= Seq::<AltIdentifierView>::empty());
            assert(contributor_views(author@) =~= Seq::<ContributorView>::empty());
            assert(contributor_views(translator@) =~= Seq::<ContributorView>::empty());
            assert(contributor_views(editor@) =~= Seq::<ContributorView>::empty());
            assert(contributor_views(artist@) =~= Seq::<ContributorView>::empty());
            assert(contributor_views(illustrator@) =~= Seq::<ContributorView>::empty());
            assert(contributor_views(contributor@) =~= Seq::<ContributorView>::empty());
            assert(link_views(links@) =~= Seq::<LinkView>::empty());
        }
        Article {
            name,
            sort_as: None,
            identifier: None,
            alt_identifier,
            author,
            translator,
            editor,
            artist,
            illustrator,
            contributor,
            description: None,
            number_of_pages: None,
            position: None,
            links,
        }
    }

    /// Reads an article from the members of an object.
    pub fn from_members(members: &Vec<(String, Value)>) -> (r: Result<Article, ParseError>)
        ensures
            parsed(r) == article_from_members(members_of(members@)),
            r matches Ok(x) ==> article_wf(x@),
    {
        let name = match get_localized(members, "name") {
            Ok(x) => x,
            Err(e) => {
                return Err(e);
            },
        };
        let sort_as = match get_opt_localized(members, "sortAs") {
            Ok(x) => x,
            Err(e) => {
                return Err(e);
            },
        };
        let identifier = match get_opt_identifier(members, "identifier") {
            Ok(x) => x,
            Err(e) => {
                return Err(e);
            },
        };
        let alt_identifier = match get_alt_identifier_flat(members, "altIdentifier") {
            Ok(x) => x,
            Err(e) => {
                return Err(e);
            },
        };
        let author = match get_contributor_flat(members, "author") {
            Ok(x) => x,
            Err(e) => {
                return Err(e);
            },
        };
        let translator = match get_contributor_flat(members, "translator") {
            Ok(x) => x,
            Err(e) => {
                return Err(e);
            },
        };
        let editor = match get_contributor_flat(members, "editor") {
            Ok(x) => x,
            Err(e) => {
                return Err(e);
            },
        };
        let artist = match get_contributor_flat(members, "artist") {
            Ok(x) => x,
            Err(e) => {
                return Err(e);
            },
        };
        let illustrator = match get_contributor_flat(members, "illustrator") {
            Ok(x) => x,
            Err(e) => {
                return Err(e);
            },
        };
        let contributor = match get_contributor_flat(members, "contributor") {
            Ok(x) => x,
            Err(e) => {
                return Err(e);
            },
        };
        let description = match get_opt_text(members, "description") {
            Ok(x) => x,
            Err(e) => {
                return Err(e);
            },
        };
        let number_of_pages = match get_opt_natural(members, "numberOfPages") {
            Ok(x) => x,
            Err(e) => {
                return Err(e);
            },
        };
        let position = match get_opt_natural(members, "position") {
            Ok(x) => x,
            Err(e) => {
                return Err(e);
            },
        };
        let links = match get_link_list(members, "links") {
            Ok(x) => x,
            Err(e) => {
                return Err(e);
            },
        };
        Ok(Article {
            name,
            sort_as,
            identifier,
            alt_identifier,
            author,
            translator,
            editor,
            artist,
            illustrator,
            contributor,
            description,
            number_of_pages,
            position,
            links,
        })
    }

    /// Reads an article from a value found under `field`.
    pub fn parse(v: &Value, field: &str) -> (r: Result<Article, ParseError>)
        ensures
            parsed(r) == decode_article(v@, field@),
            r matches Ok(x) ==> article_wf(x@),
    {
        let given = match v {
            Value::Object(members) => {
                match Article::from_members(members) {
                    Ok(x) => StringyObject::Object(x),
                    Err(e) => {
                        return Err(e);
                    },
                }
            },
            Value::String(s) => StringyObject::String(s.clone()),
            _ => {
                return Err(wrong_shape(field, shapes2(Shape::String, Shape::Object), v));
            },
        };
        Ok(given.into_inner())
    }

    /// Reads a whole document as an article. A document in which arrays and
    /// objects nest more deeply than [`MAX_DEPTH`] is refused before anything
    /// is read from it.
    pub fn from_value(v: &Value) -> (r: Result<Article, ParseError>)
        ensures
            parsed(r) == article_from_doc(v@),
            r matches Ok(x) ==> article_wf(x@),
    {
        if !v.within_depth(MAX_DEPTH) {
            return Err(ParseError::RecursionLimitExceeded(MAX_DEPTH));
        }
        Article::parse(v, "")
    }

    /// Writes the members of this article.
    pub fn to_members(&self) -> (members: Vec<(String, Value)>)
        ensures
            members_of(members@) == article_members(self@),
    {
        let mut m: Vec<(String, Value)> = Vec::new();
        assert(members_of(m@) =~= Seq::<(Seq<char>, Doc)>::empty());
        put_member(&mut m, "name", make_localized(&self.name));
        put_member(&mut m, "sortAs", make_opt_localized(&self.sort_as));
        put_member(&mut m, "identifier", make_opt_identifier(&self.identifier));
        put_member(&mut m, "altIdentifier", make_alt_identifier_flat(&self.alt_identifier));
        put_member(&mut m, "author", make_contributor_flat(&self.author));
        put_member(&mut m, "translator", make_contributor_flat(&self.translator));
        put_member(&mut m, "editor", make_contributor_flat(&self.editor));
        put_member(&mut m, "artist", make_contributor_flat(&self.artist));
        put_member(&mut m, "illustrator", make_contributor_flat(&self.illustrator));
        put_member(&mut m, "contributor", make_contributor_flat(&self.contributor));
        put_member(&mut m, "description", make_opt_text(&self.description));
        put_member(&mut m, "numberOfPages", make_opt_natural(&self.number_of_pages));
        put_member(&mut m, "position", make_opt_natural(&self.position));
        put_member(&mut m, "links", make_link_list(&self.links));
        m
    }

    /// Writes this article as a value: always the full object.
    pub fn to_value(&self) -> (v: Value)
        ensures
            v@ == encode_article(self@),
    {
        Value::Object(self.to_members())
    }
}

/// A copy of an article.
pub(crate) fn copy_article(x: &Article) -> (r: Article)
    ensures
        r@ == x@,
{
    Article {
        name: x.name.clone(),
        sort_as: copy_opt_localized(&x.sort_as),
        identifier: copy_opt_identifier(&x.identifier),
        alt_identifier: copy_alt_identifier_seq(&x.alt_identifier),
        author: copy_contributor_seq(&x.author),
        translator: copy_contributor_seq(&x.translator),
        editor: copy_contributor_seq(&x.editor),
        artist: copy_contributor_seq(&x.artist),
        illustrator: copy_contributor_seq(&x.illustrator),
        contributor: copy_contributor_seq(&x.contributor),
        description: copy_opt_text(&x.description),
        number_of_pages: x.number_of_pages,
        position: x.position,
        links: copy_link_seq(&x.links),
    }
}

impl Clone for Article {
    /// A copy that holds the same.
    fn clone(&self) -> (r: Article)
        ensures
            r@ == self@,
    {
        copy_article(self)
    }
}

impl FromSpecImpl<String> for Article {
    open spec fn obeys_from_spec() -> bool {
        false
    }

    open spec fn from_spec(name: String) -> Self {
        arbitrary()
    }
}

impl From<String> for Article {
    /// The article that has the text as its name, and nothing else.
    fn from(name: String) -> (r: Article)
        ensures
            r@ == article_new(Localized::Always(name@)),
            article_wf(r@),
    {
        Article::new(StringWithAlternates::Always(name))
    }
}

/// In the written form of an article, each field's name leads to what that
/// field wrote.
#[verifier::rlimit(40)]
pub proof fn lemma_article_members(x: ArticleView)
    ensures
        lookup(article_members(x), "name"@) == write_localized(x.name),
        lookup(article_members(x), "sortAs"@) == write_opt_localized(x.sort_as),
        lookup(article_members(x), "identifier"@) == write_opt_identifier(x.identifier),
        lookup(article_members(x), "altIdentifier"@) == write_alt_identifier_flat(x.alt_identifier),
        lookup(article_members(x), "author"@) == write_contributor_flat(x.author),
        lookup(article_members(x), "translator"@) == write_contributor_flat(x.translator),
        lookup(article_members(x), "editor"@) == write_contributor_flat(x.editor),
        lookup(article_members(x), "artist"@) == write_contributor_flat(x.artist),
        lookup(article_members(x), "illustrator"@) == write_contributor_flat(x.illustrator),
        lookup(article_members(x), "contributor"@) == write_contributor_flat(x.contributor),
        lookup(article_members(x), "description"@) == write_opt_text(x.description),
        lookup(article_members(x), "numberOfPages"@) == write_opt_natural(x.number_of_pages),
        lookup(article_members(x), "position"@) == write_opt_natural(x.position),
        lookup(article_members(x), "links"@) == write_link_list(x.links),
{
    broadcast use {lemma_lookup_after_put, lemma_lookup_empty};
    spell_name();
    spell_sort_as();
    spell_identifier();
    spell_alt_identifier();
    spell_author();
    spell_translator();
    spell_editor();
    spell_artist();
    spell_illustrator();
    spell_contributor();
    spell_description();
    spell_number_of_pages();
    spell_position();
    spell_links();
}

/// An article that is well formed, written and read again, is the same article.
#[verifier::rlimit(40)]
pub proof fn lemma_article_round_trip(x: ArticleView, field: Seq<char>)
    requires
        article_wf(x),
    ensures
        decode_article(encode_article(x), field) == Ok::<ArticleView, Fault>(x),
{
    lemma_article_members(x);
    let m = article_members(x);
    assert(read_localized(m, "name"@) == Ok::<Localized, Fault>(x.name)) by {
        lemma_localized_field_round_trip(x.name, m, "name"@);
    }
    assert(read_opt_localized(m, "sortAs"@) == Ok::<Option<Localized>, Fault>(x.sort_as)) by {
        lemma_opt_localized_round_trip(x.sort_as, m, "sortAs"@);
    }
    assert(read_opt_identifier(m, "identifier"@)
        == Ok::<Option<IdentifierView>, Fault>(x.identifier));
    assert(read_alt_identifier_flat(m, "altIdentifier"@)
        == Ok::<Seq<AltIdentifierView>, Fault>(x.alt_identifier)) by {
        lemma_alt_identifier_flat_round_trip(x.alt_identifier, m, "altIdentifier"@);
    }
    assert(read_contributor_flat(m, "author"@) == Ok::<Seq<ContributorView>, Fault>(x.author)) by {
        lemma_contributor_flat_round_trip(x.author, m, "author"@);
    }
    assert(read_contributor_flat(m, "translator"@)
        == Ok::<Seq<ContributorView>, Fault>(x.translator)) by {
        lemma_contributor_flat_round_trip(x.translator, m, "translator"@);
    }
    assert(read_contributor_flat(m, "editor"@) == Ok::<Seq<ContributorView>, Fault>(x.editor)) by {
        lemma_contributor_flat_round_trip(x.editor, m, "editor"@);
    }
    assert(read_contributor_flat(m, "artist"@) == Ok::<Seq<ContributorView>, Fault>(x.artist)) by {
        lemma_contributor_flat_round_trip(x.artist, m, "artist"@);
    }
    assert(read_contributor_flat(m, "illustrator"@)
        == Ok::<Seq<ContributorView>, Fault>(x.illustrator)) by {
        lemma_contributor_flat_round_trip(x.illustrator, m, "illustrator"@);
    }
    assert(read_contributor_flat(m, "contributor"@)
        == Ok::<Seq<ContributorView>, Fault>(x.contributor)) by {
        lemma_contributor_flat_round_trip(x.contributor, m, "contributor"@);
    }
    assert(read_opt_text(m, "description"@) == Ok::<Option<Seq<char>>, Fault>(x.description));
    assert(read_opt_natural(m, "numberOfPages"@) == Ok::<Option<usize>, Fault>(x.number_of_pages));
    assert(read_opt_natural(m, "position"@) == Ok::<Option<usize>, Fault>(x.position));
    assert(read_link_list(m, "links"@) == Ok::<Seq<LinkView>, Fault>(x.links)) by {
        lemma_link_list_round_trip(x.links, m, "links"@);
    }
}

/// What the members of an object give as an article is well formed.
pub proof fn lemma_article_from_members_wf(m: Seq<(Seq<char>, Doc)>)
    ensures
        article_from_members(m) matches Ok(x) ==> article_wf(x),
{
    lemma_read_localized_wf(m, "name"@);
    lemma_read_opt_localized_wf(m, "sortAs"@);
    lemma_read_opt_identifier_wf(m, "identifier"@);
    lemma_read_alt_identifier_flat_wf(m, "altIdentifier"@);
    lemma_read_contributor_flat_wf(m, "author"@);
    lemma_read_contributor_flat_wf(m, "translator"@);
    lemma_read_contributor_flat_wf(m, "editor"@);
    lemma_read_contributor_flat_wf(m, "artist"@);
    lemma_read_contributor_flat_wf(m, "illustrator"@);
    lemma_read_contributor_flat_wf(m, "contributor"@);
    lemma_read_link_list_wf(m, "links"@);
}

/// What is read as an article is well formed.
pub proof fn lemma_decode_article_wf(d: Doc, field: Seq<char>)
    ensures
        decode_article(d, field) matches Ok(x) ==> article_wf(x),
{
    if let Doc::Object(m) = d {
        lemma_article_from_members_wf(m);
    }
}

/// An article that was read, in whatever spelling, is read again as the same
/// article from its written form.
pub proof fn lemma_article_reread(d: Doc, field: Seq<char>)
    ensures
        decode_article(d, field) matches Ok(x)
            ==> decode_article(encode_article(x), field) == Ok::<ArticleView, Fault>(x),
{
    lemma_decode_article_wf(d, field);
    if let Ok(x) = decode_article(d, field) {
        lemma_article_round_trip(x, field);
    }
}

/// An article that is well formed and whose written form nests no more deeply
/// than the ceiling is read back whole from that form.
pub proof fn lemma_article_doc_round_trip(x: ArticleView)
    requires
        article_wf(x),
        depth(encode_article(x)) <= MAX_DEPTH,
    ensures
        article_from_doc(encode_article(x)) == Ok::<ArticleView, Fault>(x),
{
    lemma_article_round_trip(x, ""@);
}

/// The models of a run of collections.
pub open spec fn collection_views(xs: Seq<Collection>) -> Seq<CollectionView> {
    Seq::new(
        xs.len(),
        |i: int|
            if 0 <= i < xs.len() {
                collection_view(xs[i])
            } else {
                arbitrary()
            },
    )
}

/// Whether every collection of a run is well formed.
pub open spec fn collection_seq_wf(xs: Seq<CollectionView>) -> bool {
    forall|i: int| 0 <= i < xs.len() ==> collection_wf((#[trigger] xs[i]))
}

/// The collections that the items of a sequence stand for, or the error
/// of the first item that stands for none.
pub open spec fn decode_collection_seq(
    items: Seq<Doc>,
    field: Seq<char>,
) -> Result<Seq<CollectionView>, Fault>
    decreases items.len(),
{
    if items.len() == 0 {
        Ok(Seq::empty())
    } else {
        match decode_collection_seq(items.drop_last(), field) {
            Err(e) => Err(e),
            Ok(init) => match decode_collection(items.last(), field) {
                Err(e) => Err(e),
                Ok(x) => Ok(init.push(x)),
            },
        }
    }
}

/// The written forms of a run of collections.
pub open spec fn encode_collection_seq(xs: Seq<CollectionView>) -> Seq<Doc> {
    Seq::new(
        xs.len(),
        |i: int|
            if 0 <= i < xs.len() {
                encode_collection(xs[i])
            } else {
                Doc::Null
            },
    )
}

/// Where the items before `i` can be read and item `i` cannot, the
/// sequence gives the error of item `i`.
pub proof fn lemma_collection_seq_fails(items: Seq<Doc>, field: Seq<char>, i: int)
    requires
        0 <= i < items.len(),
        decode_collection_seq(items.take(i), field) is Ok,
        decode_collection(items[i], field) is Err,
    ensures
        decode_collection_seq(items, field)
            == Err::<Seq<CollectionView>, Fault>(decode_collection(items[i], field)->Err_0),
    decreases items.len(),
{
    if i == items.len() - 1 {
        assert(items.take(i) =~= items.drop_last());
    } else {
        assert(items.drop_last().take(i) =~= items.take(i));
        lemma_collection_seq_fails(items.drop_last(), field, i);
    }
}

/// Reads the items of a sequence as collections.
pub fn parse_collection_seq(
    items: &Vec<Value>,
    field: &str,
) -> (r: Result<Vec<Collection>, ParseError>)
    ensures
        match r {
            Ok(xs) => decode_collection_seq(docs_of(items@), field@)
                == Ok::<Seq<CollectionView>, Fault>(collection_views(xs@)),
            Err(e) => decode_collection_seq(docs_of(items@), field@)
                == Err::<Seq<CollectionView>, Fault>(e@),
        },
        r matches Ok(xs) ==> collection_seq_wf(collection_views(xs@)),
{
    let mut out: Vec<Collection> = Vec::new();
    let mut i: usize = 0;
    proof {
        assert(collection_views(out@) =~= Seq::<CollectionView>::empty());
    }
    while i < items.len()
        invariant
            i <= items.len(),
            decode_collection_seq(docs_of(items@).take(i as int), field@)
                == Ok::<Seq<CollectionView>, Fault>(
                collection_views(out@),
            ),
            collection_seq_wf(collection_views(out@)),
        decreases items.len() - i,
    {
        let ghost all = docs_of(items@);
        let ghost before = out@;
        proof {
            assert(all.take(i + 1).drop_last() =~= all.take(i as int));
            assert(all.take(i + 1).last() == items@[i as int]@);
        }
        match Collection::parse(&items[i], field) {
            Ok(x) => {
                let ghost one = collection_view(x);
                out.push(x);
                proof {
                    assert(collection_views(out@) =~= collection_views(before).push(one));
                }
            },
            Err(e) => {
                proof {
                    lemma_collection_seq_fails(all, field@, i as int);
                }
                return Err(e);
            },
        }
        i += 1;
    }
    proof {
        assert(docs_of(items@).take(i as int) =~= docs_of(items@));
    }
    Ok(out)
}

/// Writes a run of collections.
pub fn emit_collection_seq(xs: &Vec<Collection>) -> (out: Vec<Value>)
    ensures
        docs_of(out@) == encode_collection_seq(collection_views(xs@)),
{
    let mut out: Vec<Value> = Vec::new();
    let mut i: usize = 0;
    while i < xs.len()
        invariant
            i <= xs.len(),
            out@.len() == i,
            forall|j: int| 0 <= j < i
                ==> (#[trigger] out@[j])@ == encode_collection(collection_view(xs@[j])),
        decreases xs.len() - i,
    {
        out.push(xs[i].to_value());
        i += 1;
    }
    proof {
        assert(docs_of(out@) =~= encode_collection_seq(collection_views(xs@)));
    }
    out
}

/// A run of well-formed collections written and read again is the same
/// run.
pub proof fn lemma_collection_seq_round_trip(xs: Seq<CollectionView>, field: Seq<char>)
    requires
        collection_seq_wf(xs),
    ensures
        decode_collection_seq(encode_collection_seq(xs), field)
            == Ok::<Seq<CollectionView>, Fault>(xs),
    decreases xs.len(),
{
    if xs.len() > 0 {
        let docs = encode_collection_seq(xs);
        assert(docs.drop_last() =~= encode_collection_seq(xs.drop_last()));
        assert(collection_seq_wf(xs.drop_last())) by {
            assert forall|i: int| 0 <= i < xs.drop_last().len()
                implies collection_wf((#[trigger] xs.drop_last()[i])) by {
                assert(xs.drop_last()[i] == xs[i]);
            }
        }
        lemma_collection_seq_round_trip(xs.drop_last(), field);
        assert(collection_wf(xs.last()));
        lemma_collection_round_trip(xs.last(), field);
        assert(xs.drop_last().push(xs.last()) =~= xs);
    } else {
        assert(xs =~= Seq::<CollectionView>::empty());
    }
}

/// A copy of a run of collections.
pub(crate) fn copy_collection_seq(xs: &Vec<Collection>) -> (out: Vec<Collection>)
    ensures
        collection_views(out@) == collection_views(xs@),
{
    let mut out: Vec<Collection> = Vec::new();
    let mut i: usize = 0;
    while i < xs.len()
        invariant
            i <= xs.len(),
            out@.len() == i,
            forall|j: int| 0 <= j < i
                ==> collection_view((#[trigger] out@[j])) == collection_view(xs@[j]),
        decreases xs.len() - i,
    {
        out.push(copy_collection(&xs[i]));
        i += 1;
    }
    proof {
        assert(collection_views(out@) =~= collection_views(xs@));
    }
    out
}

/// What the items of a sequence give as collections is well formed.
pub proof fn lemma_decode_collection_seq_wf(items: Seq<Doc>, field: Seq<char>)
    ensures
        decode_collection_seq(items, field) matches Ok(xs) ==> collection_seq_wf(xs),
    decreases items.len(),
{
    if items.len() > 0 {
        lemma_decode_collection_seq_wf(items.drop_last(), field);
        lemma_decode_collection_wf(items.last(), field);
        if let Ok(init) = decode_collection_seq(items.drop_last(), field) {
            if let Ok(x) = decode_collection(items.last(), field) {
                let xs = init.push(x);
                assert forall|i: int| 0 <= i < xs.len()
                    implies collection_wf((#[trigger] xs[i])) by {
                    if i < init.len() {
                        assert(xs[i] == init[i]);
                    }
                }
            }
        }
    }
}

/// What a field of collections gives that may be written as one bare
/// collection is well formed.
pub proof fn lemma_read_collection_flat_wf(m: Seq<(Seq<char>, Doc)>, key: Seq<char>)
    ensures
        read_collection_flat(m, key) matches Ok(xs) ==> collection_seq_wf(xs),
{
    lemma_index_of(m, key);
    let i = index_of(m, key);
    if 0 <= i < m.len() {
        if let Doc::Array(items) = m[i].1 {
            lemma_decode_collection_seq_wf(items, key);
        } else {
            lemma_decode_collection_wf(m[i].1, key);
        }
    }
}

/// What a field of collections holds that may be written as one bare
/// collection: nothing where it is absent, the items of a sequence, or the
/// one collection that stands there.
pub open spec fn read_collection_flat(
    m: Seq<(Seq<char>, Doc)>,
    key: Seq<char>,
) -> Result<Seq<CollectionView>, Fault> {
    let i = index_of(m, key);
    if 0 <= i < m.len() {
        match m[i].1 {
            Doc::Array(items) => decode_collection_seq(items, key),
            _ => if shape_of(m[i].1) == Shape::String || shape_of(m[i].1) == Shape::Object {
                match decode_collection(m[i].1, key) {
                    Ok(x) => Ok(seq![x]),
                    Err(e) => Err(e),
                }
            } else {
                Err(mismatch(key, flat_named_shapes(), shape_of(m[i].1)))
            },
        }
    } else {
        Ok(Seq::empty())
    }
}

/// The written form of such a field: left out where the list is empty,
/// the bare collection where there is one, a sequence otherwise.
pub open spec fn write_collection_flat(xs: Seq<CollectionView>) -> Option<Doc> {
    collapsed(encode_collection_seq(xs))
}

/// Reads a field of collections that may be written as one bare collection.
pub fn get_collection_flat(
    members: &Vec<(String, Value)>,
    key: &str,
) -> (r: Result<Vec<Collection>, ParseError>)
    ensures
        match r {
            Ok(xs) => read_collection_flat(members_of(members@), key@)
                == Ok::<Seq<CollectionView>, Fault>(collection_views(xs@)),
            Err(e) => read_collection_flat(members_of(members@), key@)
                == Err::<Seq<CollectionView>, Fault>(e@),
        },
        r matches Ok(xs) ==> collection_seq_wf(collection_views(xs@)),
{
    match position(members, key) {
        None => {
            let xs: Vec<Collection> = Vec::new();
            proof {
                assert(collection_views(xs@) =~= Seq::<CollectionView>::empty());
            }
            Ok(xs)
        },
        Some(i) => {
            proof {
                assert(members_of(members@)[i as int].1 == members@[i as int].1@);
            }
            match &members[i].1 {
                Value::Array(items) => {
                    match parse_collection_seq(items, key) {
                        Ok(xs) => Ok(FlattenedVec::Vec(xs).into_vec()),
                        Err(e) => Err(e),
                    }
                },
                v => {
                    let shape = v.shape();
                    if shape == Shape::String || shape == Shape::Object {
                        match Collection::parse(v, key) {
                            Ok(x) => {
                                let ghost one = collection_view(x);
                                let xs = FlattenedVec::Singleton(x).into_vec();
                                proof {
                                    assert(collection_views(xs@) =~= seq![one]);
                                }
                                Ok(xs)
                            },
                            Err(e) => Err(e),
                        }
                    } else {
                        Err(wrong_shape(key, shapes3(Shape::String, Shape::Object, Shape::Array), v))
                    }
                },
            }
        },
    }
}

/// Writes a field of collections that may be cut short.
pub fn make_collection_flat(xs: &Vec<Collection>) -> (r: Option<Value>)
    ensures
        opt_doc(r) == write_collection_flat(collection_views(xs@)),
{
    collapse(emit_collection_seq(xs))
}

/// A field of well-formed collections that may be cut short holds the same
/// collections when it is written and read again.
pub proof fn lemma_collection_flat_round_trip(
    xs: Seq<CollectionView>,
    m: Seq<(Seq<char>, Doc)>,
    key: Seq<char>,
)
    requires
        collection_seq_wf(xs),
        lookup(m, key) == write_collection_flat(xs),
    ensures
        read_collection_flat(m, key) == Ok::<Seq<CollectionView>, Fault>(xs),
{
    lemma_lookup_index(m, key);
    if xs.len() == 0 {
        assert(xs =~= Seq::<CollectionView>::empty());
    } else if xs.len() == 1 {
        assert(collection_wf(xs[0]));
        lemma_collection_round_trip(xs[0], key);
        assert(encode_collection_seq(xs)[0] == encode_collection(xs[0]));
        assert(seq![xs[0]] =~= xs);
    } else {
        lemma_collection_seq_round_trip(xs, key);
    }
}

/// The models of a run of periodicals.
pub open spec fn periodical_views(xs: Seq<Periodical>) -> Seq<PeriodicalView> {
    Seq::new(
        xs.len(),
        |i: int|
            if 0 <= i < xs.len() {
                periodical_view(xs[i])
            } else {
                arbitrary()
            },
    )
}

/// Whether every periodical of a run is well formed.
pub open spec fn periodical_seq_wf(xs: Seq<PeriodicalView>) -> bool {
    forall|i: int| 0 <= i < xs.len() ==> periodical_wf((#[trigger] xs[i]))
}

/// The periodicals that the items of a sequence stand for, or the error
/// of the first item that stands for none.
pub open spec fn decode_periodical_seq(
    items: Seq<Doc>,
    field: Seq<char>,
) -> Result<Seq<PeriodicalView>, Fault>
    decreases items.len(),
{
    if items.len() == 0 {
        Ok(Seq::empty())
    } else {
        match decode_periodical_seq(items.drop_last(), field) {
            Err(e) => Err(e),
            Ok(init) => match decode_periodical(items.last(), field) {
                Err(e) => Err(e),
                Ok(x) => Ok(init.push(x)),
            },
        }
    }
}

/// The written forms of a run of periodicals.
pub open spec fn encode_periodical_seq(xs: Seq<PeriodicalView>) -> Seq<Doc> {
    Seq::new(
        xs.len(),
        |i: int|
            if 0 <= i < xs.len() {
                encode_periodical(xs[i])
            } else {
                Doc::Null
            },
    )
}

/// Where the items before `i` can be read and item `i` cannot, the
/// sequence gives the error of item `i`.
pub proof fn lemma_periodical_seq_fails(items: Seq<Doc>, field: Seq<char>, i: int)
    requires
        0 <= i < items.len(),
        decode_periodical_seq(items.take(i), field) is Ok,
        decode_periodical(items[i], field) is Err,
    ensures
        decode_periodical_seq(items, field)
            == Err::<Seq<PeriodicalView>, Fault>(decode_periodical(items[i], field)->Err_0),
    decreases items.len(),
{
    if i == items.len() - 1 {
        assert(items.take(i) =~= items.drop_last());
    } else {
        assert(items.drop_last().take(i) =~= items.take(i));
        lemma_periodical_seq_fails(items.drop_last(), field, i);
    }
}

/// Reads the items of a sequence as periodicals.
pub fn parse_periodical_seq(
    items: &Vec<Value>,
    field: &str,
) -> (r: Result<Vec<Periodical>, ParseError>)
    ensures
        match r {
            Ok(xs) => decode_periodical_seq(docs_of(items@), field@)
                == Ok::<Seq<PeriodicalView>, Fault>(periodical_views(xs@)),
            Err(e) => decode_periodical_seq(docs_of(items@), field@)
                == Err::<Seq<PeriodicalView>, Fault>(e@),
        },
        r matches Ok(xs) ==> periodical_seq_wf(periodical_views(xs@)),
{
    let mut out: Vec<Periodical> = Vec::new();
    let mut i: usize = 0;
    proof {
        assert(periodical_views(out@) =~= Seq::<PeriodicalView>::empty());
    }
    while i < items.len()
        invariant
            i <= items.len(),
            decode_periodical_seq(docs_of(items@).take(i as int), field@)
                == Ok::<Seq<PeriodicalView>, Fault>(
                periodical_views(out@),
            ),
            periodical_seq_wf(periodical_views(out@)),
        decreases items.len() - i,
    {
        let ghost all = docs_of(items@);
        let ghost before = out@;
        proof {
            assert(all.take(i + 1).drop_last() =~= all.take(i as int));
            assert(all.take(i + 1).last() == items@[i as int]@);
        }
        match Periodical::parse(&items[i], field) {
            Ok(x) => {
                let ghost one = periodical_view(x);
                out.push(x);
                proof {
                    assert(periodical_views(out@) =~= periodical_views(before).push(one));
                }
            },
            Err(e) => {
                proof {
                    lemma_periodical_seq_fails(all, field@, i as int);
                }
                return Err(e);
            },
        }
        i += 1;
    }
    proof {
        assert(docs_of(items@).take(i as int) =~= docs_of(items@));
    }
    Ok(out)
}

/// Writes a run of periodicals.
pub fn emit_periodical_seq(xs: &Vec<Periodical>) -> (out: Vec<Value>)
    ensures
        docs_of(out@) == encode_periodical_seq(periodical_views(xs@)),
{
    let mut out: Vec<Value> = Vec::new();
    let mut i: usize = 0;
    while i < xs.len()
        invariant
            i <= xs.len(),
            out@.len() == i,
            forall|j: int| 0 <= j < i
                ==> (#[trigger] out@[j])@ == encode_periodical(periodical_view(xs@[j])),
        decreases xs.len() - i,
    {
        out.push(xs[i].to_value());
        i += 1;
    }
    proof {
        assert(docs_of(out@) =~= encode_periodical_seq(periodical_views(xs@)));
    }
    out
}

/// A run of well-formed periodicals written and read again is the same
/// run.
pub proof fn lemma_periodical_seq_round_trip(xs: Seq<PeriodicalView>, field: Seq<char>)
    requires
        periodical_seq_wf(xs),
    ensures
        decode_periodical_seq(encode_periodical_seq(xs), field)
            == Ok::<Seq<PeriodicalView>, Fault>(xs),
    decreases xs.len(),
{
    if xs.len() > 0 {
        let docs = encode_periodical_seq(xs);
        assert(docs.drop_last() =~= encode_periodical_seq(xs.drop_last()));
        assert(periodical_seq_wf(xs.drop_last())) by {
            assert forall|i: int| 0 <= i < xs.drop_last().len()
                implies periodical_wf((#[trigger] xs.drop_last()[i])) by {
                assert(xs.drop_last()[i] == xs[i]);
            }
        }
        lemma_periodical_seq_round_trip(xs.drop_last(), field);
        assert(periodical_wf(xs.last()));
        lemma_periodical_round_trip(xs.last(), field);
        assert(xs.drop_last().push(xs.last()) =~= xs);
    } else {
        assert(xs =~= Seq::<PeriodicalView>::empty());
    }
}

/// A copy of a run of periodicals.
pub(crate) fn copy_periodical_seq(xs: &Vec<Periodical>) -> (out: Vec<Periodical>)
    ensures
        periodical_views(out@) == periodical_views(xs@),
{
    let mut out: Vec<Periodical> = Vec::new();
    let mut i: usize = 0;
    while i < xs.len()
        invariant
            i <= xs.len(),
            out@.len() == i,
            forall|j: int| 0 <= j < i
                ==> periodical_view((#[trigger] out@[j])) == periodical_view(xs@[j]),
        decreases xs.len() - i,
    {
        out.push(copy_periodical(&xs[i]));
        i += 1;
    }
    proof {
        assert(periodical_views(out@) =~= periodical_views(xs@));
    }
    out
}

/// What the items of a sequence give as periodicals is well formed.
pub proof fn lemma_decode_periodical_seq_wf(items: Seq<Doc>, field: Seq<char>)
    ensures
        decode_periodical_seq(items, field) matches Ok(xs) ==> periodical_seq_wf(xs),
    decreases items.len(),
{
    if items.len() > 0 {
        lemma_decode_periodical_seq_wf(items.drop_last(), field);
        lemma_decode_periodical_wf(items.last(), field);
        if let Ok(init) = decode_periodical_seq(items.drop_last(), field) {
            if let Ok(x) = decode_periodical(items.last(), field) {
                let xs = init.push(x);
                assert forall|i: int| 0 <= i < xs.len()
                    implies periodical_wf((#[trigger] xs[i])) by {
                    if i < init.len() {
                        assert(xs[i] == init[i]);
                    }
                }
            }
        }
    }
}

/// What a field of periodicals gives that may be written as one bare
/// periodical is well formed.
pub proof fn lemma_read_periodical_flat_wf(m: Seq<(Seq<char>, Doc)>, key: Seq<char>)
    ensures
        read_periodical_flat(m, key) matches Ok(xs) ==> periodical_seq_wf(xs),
{
    lemma_index_of(m, key);
    let i = index_of(m, key);
    if 0 <= i < m.len() {
        if let Doc::Array(items) = m[i].1 {
            lemma_decode_periodical_seq_wf(items, key);
        } else {
            lemma_decode_periodical_wf(m[i].1, key);
        }
    }
}

/// What a field of periodicals holds that may be written as one bare
/// periodical: nothing where it is absent, the items of a sequence, or the
/// one periodical that stands there.
pub open spec fn read_periodical_flat(
    m: Seq<(Seq<char>, Doc)>,
    key: Seq<char>,
) -> Result<Seq<PeriodicalView>, Fault> {
    let i = index_of(m, key);
    if 0 <= i < m.len() {
        match m[i].1 {
            Doc::Array(items) => decode_periodical_seq(items, key),
            _ => if shape_of(m[i].1) == Shape::String || shape_of(m[i].1) == Shape::Object {
                match decode_periodical(m[i].1, key) {
                    Ok(x) => Ok(seq![x]),
                    Err(e) => Err(e),
                }
            } else {
                Err(mismatch(key, flat_named_shapes(), shape_of(m[i].1)))
            },
        }
    } else {
        Ok(Seq::empty())
    }
}

/// The written form of such a field: left out where the list is empty,
/// the bare periodical where there is one, a sequence otherwise.
pub open spec fn write_periodical_flat(xs: Seq<PeriodicalView>) -> Option<Doc> {
    collapsed(encode_periodical_seq(xs))
}

/// Reads a field of periodicals that may be written as one bare periodical.
pub fn get_periodical_flat(
    members: &Vec<(String, Value)>,
    key: &str,
) -> (r: Result<Vec<Periodical>, ParseError>)
    ensures
        match r {
            Ok(xs) => read_periodical_flat(members_of(members@), key@)
                == Ok::<Seq<PeriodicalView>, Fault>(periodical_views(xs@)),
            Err(e) => read_periodical_flat(members_of(members@), key@)
                == Err::<Seq<PeriodicalView>, Fault>(e@),
        },
        r matches Ok(xs) ==> periodical_seq_wf(periodical_views(xs@)),
{
    match position(members, key) {
        None => {
            let xs: Vec<Periodical> = Vec::new();
            proof {
                assert(periodical_views(xs@) =~= Seq::<PeriodicalView>::empty());
            }
            Ok(xs)
        },
        Some(i) => {
            proof {
                assert(members_of(members@)[i as int].1 == members@[i as int].1@);
            }
            match &members[i].1 {
                Value::Array(items) => {
                    match parse_periodical_seq(items, key) {
                        Ok(xs) => Ok(FlattenedVec::Vec(xs).into_vec()),
                        Err(e) => Err(e),
                    }
                },
                v => {
                    let shape = v.shape();
                    if shape == Shape::String || shape == Shape::Object {
                        match Periodical::parse(v, key) {
                            Ok(x) => {
                                let ghost one = periodical_view(x);
                                let xs = FlattenedVec::Singleton(x).into_vec();
                                proof {
                                    assert(periodical_views(xs@) =~= seq![one]);
                                }
                                Ok(xs)
                            },
                            Err(e) => Err(e),
                        }
                    } else {
                        Err(wrong_shape(key, shapes3(Shape::String, Shape::Object, Shape::Array), v))
                    }
                },
            }
        },
    }
}

/// Writes a field of periodicals that may be cut short.
pub fn make_periodical_flat(xs: &Vec<Periodical>) -> (r: Option<Value>)
    ensures
        opt_doc(r) == write_periodical_flat(periodical_views(xs@)),
{
    collapse(emit_periodical_seq(xs))
}

/// A field of well-formed periodicals that may be cut short holds the same
/// periodicals when it is written and read again.
pub proof fn lemma_periodical_flat_round_trip(
    xs: Seq<PeriodicalView>,
    m: Seq<(Seq<char>, Doc)>,
    key: Seq<char>,
)
    requires
        periodical_seq_wf(xs),
        lookup(m, key) == write_periodical_flat(xs),
    ensures
        read_periodical_flat(m, key) == Ok::<Seq<PeriodicalView>, Fault>(xs),
{
    lemma_lookup_index(m, key);
    if xs.len() == 0 {
        assert(xs =~= Seq::<PeriodicalView>::empty());
    } else if xs.len() == 1 {
        assert(periodical_wf(xs[0]));
        lemma_periodical_round_trip(xs[0], key);
        assert(encode_periodical_seq(xs)[0] == encode_periodical(xs[0]));
        assert(seq![xs[0]] =~= xs);
    } else {
        lemma_periodical_seq_round_trip(xs, key);
    }
}

/// The models of a run of episodes.
pub open spec fn episode_views(xs: Seq<Episode>) -> Seq<EpisodeView> {
    Seq::new(
        xs.len(),
        |i: int|
            if 0 <= i < xs.len() {
                episode_view(xs[i])
            } else {
                arbitrary()
            },
    )
}

/// Whether every episode of a run is well formed.
pub open spec fn episode_seq_wf(xs: Seq<EpisodeView>) -> bool {
    forall|i: int| 0 <= i < xs.len() ==> episode_wf((#[trigger] xs[i]))
}

/// The episodes that the items of a sequence stand for, or the error
/// of the first item that stands for none.
pub open spec fn decode_episode_seq(
    items: Seq<Doc>,
    field: Seq<char>,
) -> Result<Seq<EpisodeView>, Fault>
    decreases items.len(),
{
    if items.len() == 0 {
        Ok(Seq::empty())
    } else {
        match decode_episode_seq(items.drop_last(), field) {
            Err(e) => Err(e),
            Ok(init) => match decode_episode(items.last(), field) {
                Err(e) => Err(e),
                Ok(x) => Ok(init.push(x)),
            },
        }
    }
}

/// The written forms of a run of episodes.
pub open spec fn encode_episode_seq(xs: Seq<EpisodeView>) -> Seq<Doc> {
    Seq::new(
        xs.len(),
        |i: int|
            if 0 <= i < xs.len() {
                encode_episode(xs[i])
            } else {
                Doc::Null
            },
    )
}

/// Where the items before `i` can be read and item `i` cannot, the
/// sequence gives the error of item `i`.
pub proof fn lemma_episode_seq_fails(items: Seq<Doc>, field: Seq<char>, i: int)
    requires
        0 <= i < items.len(),
        decode_episode_seq(items.take(i), field) is Ok,
        decode_episode(items[i], field) is Err,
    ensures
        decode_episode_seq(items, field)
            == Err::<Seq<EpisodeView>, Fault>(decode_episode(items[i], field)->Err_0),
    decreases items.len(),
{
    if i == items.len() - 1 {
        assert(items.take(i) =~= items.drop_last());
    } else {
        assert(items.drop_last().take(i) =~= items.take(i));
        lemma_episode_seq_fails(items.drop_last(), field, i);
    }
}

/// Reads the items of a sequence as episodes.
pub fn parse_episode_seq(items: &Vec<Value>, field: &str) -> (r: Result<Vec<Episode>, ParseError>)
    ensures
        match r {
            Ok(xs) => decode_episode_seq(docs_of(items@), field@)
                == Ok::<Seq<EpisodeView>, Fault>(episode_views(xs@)),
            Err(e) => decode_episode_seq(docs_of(items@), field@)
                == Err::<Seq<EpisodeView>, Fault>(e@),
        },
        r matches Ok(xs) ==> episode_seq_wf(episode_views(xs@)),
{
    let mut out: Vec<Episode> = Vec::new();
    let mut i: usize = 0;
    proof {
        assert(episode_views(out@) =~= Seq::<EpisodeView>::empty());
    }
    while i < items.len()
        invariant
            i <= items.len(),
            decode_episode_seq(docs_of(items@).take(i as int), field@)
                == Ok::<Seq<EpisodeView>, Fault>(
                episode_views(out@),
            ),
            episode_seq_wf(episode_views(out@)),
        decreases items.len() - i,
    {
        let ghost all = docs_of(items@);
        let ghost before = out@;
        proof {
            assert(all.take(i + 1).drop_last() =~= all.take(i as int));
            assert(all.take(i + 1).last() == items@[i as int]@);
        }
        match Episode::parse(&items[i], field) {
            Ok(x) => {
                let ghost one = episode_view(x);
                out.push(x);
                proof {
                    assert(episode_views(out@) =~= episode_views(before).push(one));
                }
            },
            Err(e) => {
                proof {
                    lemma_episode_seq_fails(all, field@, i as int);
                }
                return Err(e);
            },
        }
        i += 1;
    }
    proof {
        assert(docs_of(items@).take(i as int) =~= docs_of(items@));
    }
    Ok(out)
}

/// Writes a run of episodes.
pub fn emit_episode_seq(xs: &Vec<Episode>) -> (out: Vec<Value>)
    ensures
        docs_of(out@) == encode_episode_seq(episode_views(xs@)),
{
    let mut out: Vec<Value> = Vec::new();
    let mut i: usize = 0;
    while i < xs.len()
        invariant
            i <= xs.len(),
            out@.len() == i,
            forall|j: int| 0 <= j < i
                ==> (#[trigger] out@[j])@ == encode_episode(episode_view(xs@[j])),
        decreases xs.len() - i,
    {
        out.push(xs[i].to_value());
        i += 1;
    }
    proof {
        assert(docs_of(out@) =~= encode_episode_seq(episode_views(xs@)));
    }
    out
}

/// A run of well-formed episodes written and read again is the same
/// run.
pub proof fn lemma_episode_seq_round_trip(xs: Seq<EpisodeView>, field: Seq<char>)
    requires
        episode_seq_wf(xs),
    ensures
        decode_episode_seq(encode_episode_seq(xs), field) == Ok::<Seq<EpisodeView>, Fault>(xs),
    decreases xs.len(),
{
    if xs.len() > 0 {
        let docs = encode_episode_seq(xs);
        assert(docs.drop_last() =~= encode_episode_seq(xs.drop_last()));
        assert(episode_seq_wf(xs.drop_last())) by {
            assert forall|i: int| 0 <= i < xs.drop_last().len()
                implies episode_wf((#[trigger] xs.drop_last()[i])) by {
                assert(xs.drop_last()[i] == xs[i]);
            }
        }
        lemma_episode_seq_round_trip(xs.drop_last(), field);
        assert(episode_wf(xs.last()));
        lemma_episode_round_trip(xs.last(), field);
        assert(xs.drop_last().push(xs.last()) =~= xs);
    } else {
        assert(xs =~= Seq::<EpisodeView>::empty());
    }
}

/// A copy of a run of episodes.
pub(crate) fn copy_episode_seq(xs: &Vec<Episode>) -> (out: Vec<Episode>)
    ensures
        episode_views(out@) == episode_views(xs@),
{
    let mut out: Vec<Episode> = Vec::new();
    let mut i: usize = 0;
    while i < xs.len()
        invariant
            i <= xs.len(),
            out@.len() == i,
            forall|j: int| 0 <= j < i
                ==> episode_view((#[trigger] out@[j])) == episode_view(xs@[j]),
        decreases xs.len() - i,
    {
        out.push(copy_episode(&xs[i]));
        i += 1;
    }
    proof {
        assert(episode_views(out@) =~= episode_views(xs@));
    }
    out
}

/// What the items of a sequence give as episodes is well formed.
pub proof fn lemma_decode_episode_seq_wf(items: Seq<Doc>, field: Seq<char>)
    ensures
        decode_episode_seq(items, field) matches Ok(xs) ==> episode_seq_wf(xs),
    decreases items.len(),
{
    if items.len() > 0 {
        lemma_decode_episode_seq_wf(items.drop_last(), field);
        lemma_decode_episode_wf(items.last(), field);
        if let Ok(init) = decode_episode_seq(items.drop_last(), field) {
            if let Ok(x) = decode_episode(items.last(), field) {
                let xs = init.push(x);
                assert forall|i: int| 0 <= i < xs.len() implies episode_wf((#[trigger] xs[i])) by {
                    if i < init.len() {
                        assert(xs[i] == init[i]);
                    }
                }
            }
        }
    }
}

/// What a field of episodes gives that may be written as one bare
/// episode is well formed.
pub proof fn lemma_read_episode_flat_wf(m: Seq<(Seq<char>, Doc)>, key: Seq<char>)
    ensures
        read_episode_flat(m, key) matches Ok(xs) ==> episode_seq_wf(xs),
{
    lemma_index_of(m, key);
    let i = index_of(m, key);
    if 0 <= i < m.len() {
        if let Doc::Array(items) = m[i].1 {
            lemma_decode_episode_seq_wf(items, key);
        } else {
            lemma_decode_episode_wf(m[i].1, key);
        }
    }
}

/// What a field of episodes holds that may be written as one bare
/// episode: nothing where it is absent, the items of a sequence, or the
/// one episode that stands there.
pub open spec fn read_episode_flat(
    m: Seq<(Seq<char>, Doc)>,
    key: Seq<char>,
) -> Result<Seq<EpisodeView>, Fault> {
    let i = index_of(m, key);
    if 0 <= i < m.len() {
        match m[i].1 {
            Doc::Array(items) => decode_episode_seq(items, key),
            _ => if shape_of(m[i].1) == Shape::Natural || shape_of(m[i].1) == Shape::Object {
                match decode_episode(m[i].1, key) {
                    Ok(x) => Ok(seq![x]),
                    Err(e) => Err(e),
                }
            } else {
                Err(mismatch(key, flat_numbered_shapes(), shape_of(m[i].1)))
            },
        }
    } else {
        Ok(Seq::empty())
    }
}

/// The written form of such a field: left out where the list is empty,
/// the bare episode where there is one, a sequence otherwise.
pub open spec fn write_episode_flat(xs: Seq<EpisodeView>) -> Option<Doc> {
    collapsed(encode_episode_seq(xs))
}

/// Reads a field of episodes that may be written as one bare episode.
pub fn get_episode_flat(
    members: &Vec<(String, Value)>,
    key: &str,
) -> (r: Result<Vec<Episode>, ParseError>)
    ensures
        match r {
            Ok(xs) => read_episode_flat(members_of(members@), key@)
                == Ok::<Seq<EpisodeView>, Fault>(episode_views(xs@)),
            Err(e) => read_episode_flat(members_of(members@), key@)
                == Err::<Seq<EpisodeView>, Fault>(e@),
        },
        r matches Ok(xs) ==> episode_seq_wf(episode_views(xs@)),
{
    match position(members, key) {
        None => {
            let xs: Vec<Episode> = Vec::new();
            proof {
                assert(episode_views(xs@) =~= Seq::<EpisodeView>::empty());
            }
            Ok(xs)
        },
        Some(i) => {
            proof {
                assert(members_of(members@)[i as int].1 == members@[i as int].1@);
            }
            match &members[i].1 {
                Value::Array(items) => {
                    match parse_episode_seq(items, key) {
                        Ok(xs) => Ok(FlattenedVec::Vec(xs).into_vec()),
                        Err(e) => Err(e),
                    }
                },
                v => {
                    let shape = v.shape();
                    if shape == Shape::Natural || shape == Shape::Object {
                        match Episode::parse(v, key) {
                            Ok(x) => {
                                let ghost one = episode_view(x);
                                let xs = FlattenedVec::Singleton(x).into_vec();
                                proof {
                                    assert(episode_views(xs@) =~= seq![one]);
                                }
                                Ok(xs)
                            },
                            Err(e) => Err(e),
                        }
                    } else {
                        Err(wrong_shape(key, shapes3(Shape::Natural, Shape::Object, Shape::Array), v))
                    }
                },
            }
        },
    }
}

/// Writes a field of episodes that may be cut short.
pub fn make_episode_flat(xs: &Vec<Episode>) -> (r: Option<Value>)
    ensures
        opt_doc(r) == write_episode_flat(episode_views(xs@)),
{
    collapse(emit_episode_seq(xs))
}

/// A field of well-formed episodes that may be cut short holds the same
/// episodes when it is written and read again.
pub proof fn lemma_episode_flat_round_trip(
    xs: Seq<EpisodeView>,
    m: Seq<(Seq<char>, Doc)>,
    key: Seq<char>,
)
    requires
        episode_seq_wf(xs),
        lookup(m, key) == write_episode_flat(xs),
    ensures
        read_episode_flat(m, key) == Ok::<Seq<EpisodeView>, Fault>(xs),
{
    lemma_lookup_index(m, key);
    if xs.len() == 0 {
        assert(xs =~= Seq::<EpisodeView>::empty());
    } else if xs.len() == 1 {
        assert(episode_wf(xs[0]));
        lemma_episode_round_trip(xs[0], key);
        assert(encode_episode_seq(xs)[0] == encode_episode(xs[0]));
        assert(seq![xs[0]] =~= xs);
    } else {
        lemma_episode_seq_round_trip(xs, key);
    }
}

/// The models of a run of articles.
pub open spec fn article_views(xs: Seq<Article>) -> Seq<ArticleView> {
    Seq::new(
        xs.len(),
        |i: int|
            if 0 <= i < xs.len() {
                article_view(xs[i])
            } else {
                arbitrary()
            },
    )
}

/// Whether every article of a run is well formed.
pub open spec fn article_seq_wf(xs: Seq<ArticleView>) -> bool {
    forall|i: int| 0 <= i < xs.len() ==> article_wf((#[trigger] xs[i]))
}

/// The articles that the items of a sequence stand for, or the error
/// of the first item that stands for none.
pub open spec fn decode_article_seq(
    items: Seq<Doc>,
    field: Seq<char>,
) -> Result<Seq<ArticleView>, Fault>
    decreases items.len(),
{
    if items.len() == 0 {
        Ok(Seq::empty())
    } else {
        match decode_article_seq(items.drop_last(), field) {
            Err(e) => Err(e),
            Ok(init) => match decode_article(items.last(), field) {
                Err(e) => Err(e),
                Ok(x) => Ok(init.push(x)),
            },
        }
    }
}

/// The written forms of a run of articles.
pub open spec fn encode_article_seq(xs: Seq<ArticleView>) -> Seq<Doc> {
    Seq::new(
        xs.len(),
        |i: int|
            if 0 <= i < xs.len() {
                encode_article(xs[i])
            } else {
                Doc::Null
            },
    )
}

/// Where the items before `i` can be read and item `i` cannot, the
/// sequence gives the error of item `i`.
pub proof fn lemma_article_seq_fails(items: Seq<Doc>, field: Seq<char>, i: int)
    requires
        0 <= i < items.len(),
        decode_article_seq(items.take(i), field) is Ok,
        decode_article(items[i], field) is Err,
    ensures
        decode_article_seq(items, field)
            == Err::<Seq<ArticleView>, Fault>(decode_article(items[i], field)->Err_0),
    decreases items.len(),
{
    if i == items.len() - 1 {
        assert(items.take(i) =~= items.drop_last());
    } else {
        assert(items.drop_last().take(i) =~= items.take(i));
        lemma_article_seq_fails(items.drop_last(), field, i);
    }
}

/// Reads the items of a sequence as articles.
pub fn parse_article_seq(items: &Vec<Value>, field: &str) -> (r: Result<Vec<Article>, ParseError>)
    ensures
        match r {
            Ok(xs) => decode_article_seq(docs_of(items@), field@)
                == Ok::<Seq<ArticleView>, Fault>(article_views(xs@)),
            Err(e) => decode_article_seq(docs_of(items@), field@)
                == Err::<Seq<ArticleView>, Fault>(e@),
        },
        r matches Ok(xs) ==> article_seq_wf(article_views(xs@)),
{
    let mut out: Vec<Article> = Vec::new();
    let mut i: usize = 0;
    proof {
        assert(article_views(out@) =~= Seq::<ArticleView>::empty());
    }
    while i < items.len()
        invariant
            i <= items.len(),
            decode_article_seq(docs_of(items@).take(i as int), field@)
                == Ok::<Seq<ArticleView>, Fault>(
                article_views(out@),
            ),
            article_seq_wf(article_views(out@)),
        decreases items.len() - i,
    {
        let ghost all = docs_of(items@);
        let ghost before = out@;
        proof {
            assert(all.take(i + 1).drop_last() =~= all.take(i as int));
            assert(all.take(i + 1).last() == items@[i as int]@);
        }
        match Article::parse(&items[i], field) {
            Ok(x) => {
                let ghost one = article_view(x);
                out.push(x);
                proof {
                    assert(article_views(out@) =~= article_views(before).push(one));
                }
            },
            Err(e) => {
                proof {
                    lemma_article_seq_fails(all, field@, i as int);
                }
                return Err(e);
            },
        }
        i += 1;
    }
    proof {
        assert(docs_of(items@).take(i as int) =~= docs_of(items@));
    }
    Ok(out)
}

/// Writes a run of articles.
pub fn emit_article_seq(xs: &Vec<Article>) -> (out: Vec<Value>)
    ensures
        docs_of(out@) == encode_article_seq(article_views(xs@)),
{
    let mut out: Vec<Value> = Vec::new();
    let mut i: usize = 0;
    while i < xs.len()
        invariant
            i <= xs.len(),
            out@.len() == i,
            forall|j: int| 0 <= j < i
                ==> (#[trigger] out@[j])@ == encode_article(article_view(xs@[j])),
        decreases xs.len() - i,
    {
        out.push(xs[i].to_value());
        i += 1;
    }
    proof {
        assert(docs_of(out@) =~= encode_article_seq(article_views(xs@)));
    }
    out
}

/// A run of well-formed articles written and read again is the same
/// run.
pub proof fn lemma_article_seq_round_trip(xs: Seq<ArticleView>, field: Seq<char>)
    requires
        article_seq_wf(xs),
    ensures
        decode_article_seq(encode_article_seq(xs), field) == Ok::<Seq<ArticleView>, Fault>(xs),
    decreases xs.len(),
{
    if xs.len() > 0 {
        let docs = encode_article_seq(xs);
        assert(docs.drop_last() =~= encode_article_seq(xs.drop_last()));
        assert(article_seq_wf(xs.drop_last())) by {
            assert forall|i: int| 0 <= i < xs.drop_last().len()
                implies article_wf((#[trigger] xs.drop_last()[i])) by {
                assert(xs.drop_last()[i] == xs[i]);
            }
        }
        lemma_article_seq_round_trip(xs.drop_last(), field);
        assert(article_wf(xs.last()));
        lemma_article_round_trip(xs.last(), field);
        assert(xs.drop_last().push(xs.last()) =~= xs);
    } else {
        assert(xs =~= Seq::<ArticleView>::empty());
    }
}

/// A copy of a run of articles.
pub(crate) fn copy_article_seq(xs: &Vec<Article>) -> (out: Vec<Article>)
    ensures
        article_views(out@) == article_views(xs@),
{
    let mut out: Vec<Article> = Vec::new();
    let mut i: usize = 0;
    while i < xs.len()
        invariant
            i <= xs.len(),
            out@.len() == i,
            forall|j: int| 0 <= j < i
                ==> article_view((#[trigger] out@[j])) == article_view(xs@[j]),
        decreases xs.len() - i,
    {
        out.push(copy_article(&xs[i]));
        i += 1;
    }
    proof {
        assert(article_views(out@) =~= article_views(xs@));
    }
    out
}

/// What the items of a sequence give as articles is well formed.
pub proof fn lemma_decode_article_seq_wf(items: Seq<Doc>, field: Seq<char>)
    ensures
        decode_article_seq(items, field) matches Ok(xs) ==> article_seq_wf(xs),
    decreases items.len(),
{
    if items.len() > 0 {
        lemma_decode_article_seq_wf(items.drop_last(), field);
        lemma_decode_article_wf(items.last(), field);
        if let Ok(init) = decode_article_seq(items.drop_last(), field) {
            if let Ok(x) = decode_article(items.last(), field) {
                let xs = init.push(x);
                assert forall|i: int| 0 <= i < xs.len() implies article_wf((#[trigger] xs[i])) by {
                    if i < init.len() {
                        assert(xs[i] == init[i]);
                    }
                }
            }
        }
    }
}

/// What a field of articles gives that may be written as one bare
/// article is well formed.
pub proof fn lemma_read_article_flat_wf(m: Seq<(Seq<char>, Doc)>, key: Seq<char>)
    ensures
        read_article_flat(m, key) matches Ok(xs) ==> article_seq_wf(xs),
{
    lemma_index_of(m, key);
    let i = index_of(m, key);
    if 0 <= i < m.len() {
        if let Doc::Array(items) = m[i].1 {
            lemma_decode_article_seq_wf(items, key);
        } else {
            lemma_decode_article_wf(m[i].1, key);
        }
    }
}

/// What a field of articles holds that may be written as one bare
/// article: nothing where it is absent, the items of a sequence, or the
/// one article that stands there.
pub open spec fn read_article_flat(
    m: Seq<(Seq<char>, Doc)>,
    key: Seq<char>,
) -> Result<Seq<ArticleView>, Fault> {
    let i = index_of(m, key);
    if 0 <= i < m.len() {
        match m[i].1 {
            Doc::Array(items) => decode_article_seq(items, key),
            _ => if shape_of(m[i].1) == Shape::String || shape_of(m[i].1) == Shape::Object {
                match decode_article(m[i].1, key) {
                    Ok(x) => Ok(seq![x]),
                    Err(e) => Err(e),
                }
            } else {
                Err(mismatch(key, flat_named_shapes(), shape_of(m[i].1)))
            },
        }
    } else {
        Ok(Seq::empty())
    }
}

/// The written form of such a field: left out where the list is empty,
/// the bare article where there is one, a sequence otherwise.
pub open spec fn write_article_flat(xs: Seq<ArticleView>) -> Option<Doc> {
    collapsed(encode_article_seq(xs))
}

/// Reads a field of articles that may be written as one bare article.
pub fn get_article_flat(
    members: &Vec<(String, Value)>,
    key: &str,
) -> (r: Result<Vec<Article>, ParseError>)
    ensures
        match r {
            Ok(xs) => read_article_flat(members_of(members@), key@)
                == Ok::<Seq<ArticleView>, Fault>(article_views(xs@)),
            Err(e) => read_article_flat(members_of(members@), key@)
                == Err::<Seq<ArticleView>, Fault>(e@),
        },
        r matches Ok(xs) ==> article_seq_wf(article_views(xs@)),
{
    match position(members, key) {
        None => {
            let xs: Vec<Article> = Vec::new();
            proof {
                assert(article_views(xs@) =~= Seq::<ArticleView>::empty());
            }
            Ok(xs)
        },
        Some(i) => {
            proof {
                assert(members_of(members@)[i as int].1 == members@[i as int].1@);
            }
            match &members[i].1 {
                Value::Array(items) => {
                    match parse_article_seq(items, key) {
                        Ok(xs) => Ok(FlattenedVec::Vec(xs).into_vec()),
                        Err(e) => Err(e),
                    }
                },
                v => {
                    let shape = v.shape();
                    if shape == Shape::String || shape == Shape::Object {
                        match Article::parse(v, key) {
                            Ok(x) => {
                                let ghost one = article_view(x);
                                let xs = FlattenedVec::Singleton(x).into_vec();
                                proof {
                                    assert(article_views(xs@) =~= seq![one]);
                                }
                                Ok(xs)
                            },
                            Err(e) => Err(e),
                        }
                    } else {
                        Err(wrong_shape(key, shapes3(Shape::String, Shape::Object, Shape::Array), v))
                    }
                },
            }
        },
    }
}

/// Writes a field of articles that may be cut short.
pub fn make_article_flat(xs: &Vec<Article>) -> (r: Option<Value>)
    ensures
        opt_doc(r) == write_article_flat(article_views(xs@)),
{
    collapse(emit_article_seq(xs))
}

/// A field of well-formed articles that may be cut short holds the same
/// articles when it is written and read again.
pub proof fn lemma_article_flat_round_trip(
    xs: Seq<ArticleView>,
    m: Seq<(Seq<char>, Doc)>,
    key: Seq<char>,
)
    requires
        article_seq_wf(xs),
        lookup(m, key) == write_article_flat(xs),
    ensures
        read_article_flat(m, key) == Ok::<Seq<ArticleView>, Fault>(xs),
{
    lemma_lookup_index(m, key);
    if xs.len() == 0 {
        assert(xs =~= Seq::<ArticleView>::empty());
    } else if xs.len() == 1 {
        assert(article_wf(xs[0]));
        lemma_article_round_trip(xs[0], key);
        assert(encode_article_seq(xs)[0] == encode_article(xs[0]));
        assert(seq![xs[0]] =~= xs);
    } else {
        lemma_article_seq_round_trip(xs, key);
    }
}

} // verus!
