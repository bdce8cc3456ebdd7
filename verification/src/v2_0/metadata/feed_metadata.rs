//! Metadata of a feed, a group or a facet.
use vstd::prelude::*;
use crate::error::{Fault, ParseError, mismatch, parsed, record_shapes};
use crate::helpers::{
    get_opt_natural, get_opt_text, make_opt_natural, make_opt_text, missing, read_opt_natural,
    read_opt_text, shapes1, write_opt_natural, write_opt_text, wrong_shape,
};
use crate::text::{copy_opt_text, opt_text};
use crate::v2_0::metadata::identifier::{
    get_opt_url, lemma_read_opt_url_wf, make_opt_url, opt_url_wf, read_opt_url, write_opt_url,
};
use crate::v2_0::metadata::localized::{
    Localized, StringWithAlternates, localized_seq_wf, localized_views, localized_wf,
};
use crate::v2_0::metadata::localized_fields::{
    copy_localized_seq, get_localized, get_localized_flat, lemma_localized_field_round_trip,
    lemma_localized_flat_round_trip, lemma_read_localized_flat_wf, lemma_read_localized_wf,
    make_localized, make_localized_flat, read_localized, read_localized_flat, write_localized,
    write_localized_flat,
};
use crate::v2_0::spelling::{
    spell_at_type, spell_current_page, spell_description, spell_identifier, spell_items_per_page,
    spell_modified, spell_number_of_items, spell_subtitle, spell_title,
};
use crate::value::{
    Doc, MAX_DEPTH, Shape, Value, depth, index_of, lemma_index_of, lemma_lookup_after_put,
    lemma_lookup_empty, lemma_lookup_index, lookup, members_of, opt_doc, position, put,
    put_member, shape_of,
};

verus! {

/// Metadata for an OPDS feed or facet.
#[derive(Debug, PartialEq, Eq)]
pub struct FeedMetadata {
    pub title: StringWithAlternates,
    pub subtitle: Vec<StringWithAlternates>,
    /// A URI to help identify this feed, as the canonical text of a URL.
    pub identifier: Option<String>,
    /// The schema to which this metadata adheres.
    pub schema: Option<String>,
    pub modified: Option<String>,
    pub description: Option<String>,
    pub items_per_page: Option<usize>,
    pub current_page: Option<usize>,
    pub number_of_items: Option<usize>,
}

/// The mathematical model of a set of feed metadata.
pub struct FeedMetadataView {
    pub title: Localized,
    pub subtitle: Seq<Localized>,
    pub identifier: Option<Seq<char>>,
    pub schema: Option<Seq<char>>,
    pub modified: Option<Seq<char>>,
    pub description: Option<Seq<char>>,
    pub items_per_page: Option<usize>,
    pub current_page: Option<usize>,
    pub number_of_items: Option<usize>,
}

/// The model of a set of feed metadata.
pub open spec fn feed_metadata_view(x: FeedMetadata) -> FeedMetadataView {
    FeedMetadataView {
        title: x.title@,
        subtitle: localized_views(x.subtitle@),
        identifier: opt_text(x.identifier),
        schema: opt_text(x.schema),
        modified: opt_text(x.modified),
        description: opt_text(x.description),
        items_per_page: x.items_per_page,
        current_page: x.current_page,
        number_of_items: x.number_of_items,
    }
}

impl View for FeedMetadata {
    type V = FeedMetadataView;

    open spec fn view(&self) -> FeedMetadataView {
        feed_metadata_view(*self)
    }
}

/// A set of feed metadata is well formed when everything it holds is.
pub open spec fn feed_metadata_wf(x: FeedMetadataView) -> bool {
    &&& localized_wf(x.title)
    &&& localized_seq_wf(x.subtitle)
    &&& opt_url_wf(x.identifier)
}

/// The feed metadata made from its title, with nothing else in it.
pub open spec fn feed_metadata_new(title: Localized) -> FeedMetadataView {
    FeedMetadataView {
        title,
        subtitle: Seq::empty(),
        identifier: None,
        schema: None,
        modified: None,
        description: None,
        items_per_page: None,
        current_page: None,
        number_of_items: None,
    }
}

/// The members that a set of feed metadata is written as: one for each field
/// that holds something, in the order of the fields.
pub open spec fn feed_metadata_members(x: FeedMetadataView) -> Seq<(Seq<char>, Doc)> {
    let m = Seq::<(Seq<char>, Doc)>::empty();
    let m = put(m, "title"@, write_localized(x.title));
    let m = put(m, "subtitle"@, write_localized_flat(x.subtitle));
    let m = put(m, "identifier"@, write_opt_url(x.identifier));
    let m = put(m, "@type"@, write_opt_text(x.schema));
    let m = put(m, "modified"@, write_opt_text(x.modified));
    let m = put(m, "description"@, write_opt_text(x.description));
    let m = put(m, "itemsPerPage"@, write_opt_natural(x.items_per_page));
    let m = put(m, "currentPage"@, write_opt_natural(x.current_page));
    let m = put(m, "numberOfItems"@, write_opt_natural(x.number_of_items));
    m
}

/// The written form of a set of feed metadata: always the full object.
pub open spec fn encode_feed_metadata(x: FeedMetadataView) -> Doc {
    Doc::Object(feed_metadata_members(x))
}

/// The set of feed metadata that the members of an object stand for, or the
/// error of the first field, in the order of the fields, that cannot be read.
pub open spec fn feed_metadata_from_members(
    m: Seq<(Seq<char>, Doc)>,
) -> Result<FeedMetadataView, Fault> {
    let title = read_localized(m, "title"@);
    let subtitle = read_localized_flat(m, "subtitle"@);
    let identifier = read_opt_url(m, "identifier"@);
    let schema = read_opt_text(m, "@type"@);
    let modified = read_opt_text(m, "modified"@);
    let description = read_opt_text(m, "description"@);
    let items_per_page = read_opt_natural(m, "itemsPerPage"@);
    let current_page = read_opt_natural(m, "currentPage"@);
    let number_of_items = read_opt_natural(m, "numberOfItems"@);
    if title is Err {
        Err(title->Err_0)
    } else if subtitle is Err {
        Err(subtitle->Err_0)
    } else if identifier is Err {
        Err(identifier->Err_0)
    } else if schema is Err {
        Err(schema->Err_0)
    } else if modified is Err {
        Err(modified->Err_0)
    } else if description is Err {
        Err(description->Err_0)
    } else if items_per_page is Err {
        Err(items_per_page->Err_0)
    } else if current_page is Err {
        Err(current_page->Err_0)
    } else if number_of_items is Err {
        Err(number_of_items->Err_0)
    } else {
        Ok(FeedMetadataView {
            title: title->Ok_0,
            subtitle: subtitle->Ok_0,
            identifier: identifier->Ok_0,
            schema: schema->Ok_0,
            modified: modified->Ok_0,
            description: description->Ok_0,
            items_per_page: items_per_page->Ok_0,
            current_page: current_page->Ok_0,
            number_of_items: number_of_items->Ok_0,
        })
    }
}

/// The set of feed metadata that a value stands for: an object.
pub open spec fn decode_feed_metadata(d: Doc, field: Seq<char>) -> Result<FeedMetadataView, Fault> {
    match d {
        Doc::Object(m) => feed_metadata_from_members(m),
        _ => Err(mismatch(field, record_shapes(), shape_of(d))),
    }
}

/// What reading a whole document as a set of feed metadata gives: an error
/// where arrays and objects nest more deeply than the ceiling.
pub open spec fn feed_metadata_from_doc(d: Doc) -> Result<FeedMetadataView, Fault> {
    if depth(d) > MAX_DEPTH {
        Err(Fault::RecursionLimitExceeded(MAX_DEPTH))
    } else {
        decode_feed_metadata(d, ""@)
    }
}

impl FeedMetadata {
    /// Metadata of that title, with nothing else in it.
    pub fn new(title: StringWithAlternates) -> (r: FeedMetadata)
        ensures
            r@ == feed_metadata_new(title@),
            localized_wf(title@) ==> feed_metadata_wf(r@),
    {
        let subtitle: Vec<StringWithAlternates> = Vec::new();
        proof {
            assert(localized_views(subtitle@) =~= Seq::<Localized>::empty());
        }
        FeedMetadata {
            title,
            subtitle,
            identifier: None,
            schema: None,
            modified: None,
            description: None,
            items_per_page: None,
            current_page: None,
            number_of_items: None,
        }
    }

    /// Reads a set of feed metadata from the members of an object.
    pub fn from_members(members: &Vec<(String, Value)>) -> (r: Result<FeedMetadata, ParseError>)
        ensures
            parsed(r) == feed_metadata_from_members(members_of(members@)),
            r matches Ok(x) ==> feed_metadata_wf(x@),
    {
        let title = match get_localized(members, "title") {
            Ok(x) => x,
            Err(e) => {
                return Err(e);
            },
        };
        let subtitle = match get_localized_flat(members, "subtitle") {
            Ok(x) => x,
            Err(e) => {
                return Err(e);
            },
        };
        let identifier = match get_opt_url(members, "identifier") {
            Ok(x) => x,
            Err(e) => {
                return Err(e);
            },
        };
        let schema = match get_opt_text(members, "@type") {
            Ok(x) => x,
            Err(e) => {
                return Err(e);
            },
        };
        let modified = match get_opt_text(members, "modified") {
            Ok(x) => x,
            Err(e) => {
                return Err(e);
            },
        };
        let description = match get_opt_text(members, "description") {
            Ok(x) => x,
            Err(e) => {
                return Err(e);
            },
        };
        let items_per_page = match get_opt_natural(members, "itemsPerPage") {
            Ok(x) => x,
            Err(e) => {
                return Err(e);
            },
        };
        let current_page = match get_opt_natural(members, "currentPage") {
            Ok(x) => x,
            Err(e) => {
                return Err(e);
            },
        };
        let number_of_items = match get_opt_natural(members, "numberOfItems") {
            Ok(x) => x,
            Err(e) => {
                return Err(e);
            },
        };
        Ok(FeedMetadata {
            title,
            subtitle,
            identifier,
            schema,
            modified,
            description,
            items_per_page,
            current_page,
            number_of_items,
        })
    }

    /// Reads a set of feed metadata from a value found under `field`.
    pub fn parse(v: &Value, field: &str) -> (r: Result<FeedMetadata, ParseError>)
        ensures
            parsed(r) == decode_feed_metadata(v@, field@),
            r matches Ok(x) ==> feed_metadata_wf(x@),
    {
        match v {
            Value::Object(members) => {
                FeedMetadata::from_members(members)
            },
            _ => Err(wrong_shape(field, shapes1(Shape::Object), v)),
        }
    }

    /// Reads a whole document as a set of feed metadata. A document in which
    /// arrays and objects nest more deeply than [`MAX_DEPTH`] is refused before
    /// anything is read from it.
    pub fn from_value(v: &Value) -> (r: Result<FeedMetadata, ParseError>)
        ensures
            parsed(r) == feed_metadata_from_doc(v@),
            r matches Ok(x) ==> feed_metadata_wf(x@),
    {
        if !v.within_depth(MAX_DEPTH) {
            return Err(ParseError::RecursionLimitExceeded(MAX_DEPTH));
        }
        FeedMetadata::parse(v, "")
    }

    /// Writes the members of this set of feed metadata.
    pub fn to_members(&self) -> (members: Vec<(String, Value)>)
        ensures
            members_of(members@) == feed_metadata_members(self@),
    {
        let mut m: Vec<(String, Value)> = Vec::new();
        assert(members_of(m@) =~= Seq::<(Seq<char>, Doc)>::empty());
        put_member(&mut m, "title", make_localized(&self.title));
        put_member(&mut m, "subtitle", make_localized_flat(&self.subtitle));
        put_member(&mut m, "identifier", make_opt_url(&self.identifier));
        put_member(&mut m, "@type", make_opt_text(&self.schema));
        put_member(&mut m, "modified", make_opt_text(&self.modified));
        put_member(&mut m, "description", make_opt_text(&self.description));
        put_member(&mut m, "itemsPerPage", make_opt_natural(&self.items_per_page));
        put_member(&mut m, "currentPage", make_opt_natural(&self.current_page));
        put_member(&mut m, "numberOfItems", make_opt_natural(&self.number_of_items));
        m
    }

    /// Writes this set of feed metadata as a value: always the full object.
    pub fn to_value(&self) -> (v: Value)
        ensures
            v@ == encode_feed_metadata(self@),
    {
        Value::Object(self.to_members())
    }
}

/// A copy of a set of feed metadata.
pub(crate) fn copy_feed_metadata(x: &FeedMetadata) -> (r: FeedMetadata)
    ensures
        r@ == x@,
{
    FeedMetadata {
        title: x.title.clone(),
        subtitle: copy_localized_seq(&x.subtitle),
        identifier: copy_opt_text(&x.identifier),
        schema: copy_opt_text(&x.schema),
        modified: copy_opt_text(&x.modified),
        description: copy_opt_text(&x.description),
        items_per_page: x.items_per_page,
        current_page: x.current_page,
        number_of_items: x.number_of_items,
    }
}

impl Clone for FeedMetadata {
    /// A copy that holds the same.
    fn clone(&self) -> (r: FeedMetadata)
        ensures
            r@ == self@,
    {
        copy_feed_metadata(self)
    }
}

/// In the written form of a set of feed metadata, each field's name leads to
/// what that field wrote.
pub proof fn lemma_feed_metadata_members(x: FeedMetadataView)
    ensures
        lookup(feed_metadata_members(x), "title"@) == write_localized(x.title),
        lookup(feed_metadata_members(x), "subtitle"@) == write_localized_flat(x.subtitle),
        lookup(feed_metadata_members(x), "identifier"@) == write_opt_url(x.identifier),
        lookup(feed_metadata_members(x), "@type"@) == write_opt_text(x.schema),
        lookup(feed_metadata_members(x), "modified"@) == write_opt_text(x.modified),
        lookup(feed_metadata_members(x), "description"@) == write_opt_text(x.description),
        lookup(feed_metadata_members(x), "itemsPerPage"@) == write_opt_natural(x.items_per_page),
        lookup(feed_metadata_members(x), "currentPage"@) == write_opt_natural(x.current_page),
        lookup(feed_metadata_members(x), "numberOfItems"@) == write_opt_natural(x.number_of_items),
{
    broadcast use {lemma_lookup_after_put, lemma_lookup_empty};
    spell_title();
    spell_subtitle();
    spell_identifier();
    spell_at_type();
    spell_modified();
    spell_description();
    spell_items_per_page();
    spell_current_page();
    spell_number_of_items();
}

/// A set of feed metadata that is well formed, written and read again, is the
/// same set of feed metadata.
pub proof fn lemma_feed_metadata_round_trip(x: FeedMetadataView, field: Seq<char>)
    requires
        feed_metadata_wf(x),
    ensures
        decode_feed_metadata(encode_feed_metadata(x), field) == Ok::<FeedMetadataView, Fault>(x),
{
    lemma_feed_metadata_members(x);
    let m = feed_metadata_members(x);
    assert(read_localized(m, "title"@) == Ok::<Localized, Fault>(x.title)) by {
        lemma_localized_field_round_trip(x.title, m, "title"@);
    }
    assert(read_localized_flat(m, "subtitle"@) == Ok::<Seq<Localized>, Fault>(x.subtitle)) by {
        lemma_localized_flat_round_trip(x.subtitle, m, "subtitle"@);
    }
    assert(read_opt_url(m, "identifier"@) == Ok::<Option<Seq<char>>, Fault>(x.identifier));
    assert(read_opt_text(m, "@type"@) == Ok::<Option<Seq<char>>, Fault>(x.schema));
    assert(read_opt_text(m, "modified"@) == Ok::<Option<Seq<char>>, Fault>(x.modified));
    assert(read_opt_text(m, "description"@) == Ok::<Option<Seq<char>>, Fault>(x.description));
    assert(read_opt_natural(m, "itemsPerPage"@) == Ok::<Option<usize>, Fault>(x.items_per_page));
    assert(read_opt_natural(m, "currentPage"@) == Ok::<Option<usize>, Fault>(x.current_page));
    assert(read_opt_natural(m, "numberOfItems"@) == Ok::<Option<usize>, Fault>(x.number_of_items));
}

/// What the members of an object give as a set of feed metadata is well formed.
pub proof fn lemma_feed_metadata_from_members_wf(m: Seq<(Seq<char>, Doc)>)
    ensures
        feed_metadata_from_members(m) matches Ok(x) ==> feed_metadata_wf(x),
{
    lemma_read_localized_wf(m, "title"@);
    lemma_read_localized_flat_wf(m, "subtitle"@);
    lemma_read_opt_url_wf(m, "identifier"@);
}

/// What is read as a set of feed metadata is well formed.
pub proof fn lemma_decode_feed_metadata_wf(d: Doc, field: Seq<char>)
    ensures
        decode_feed_metadata(d, field) matches Ok(x) ==> feed_metadata_wf(x),
{
    if let Doc::Object(m) = d {
        lemma_feed_metadata_from_members_wf(m);
    }
}

/// A set of feed metadata that was read, in whatever spelling, is read again as
/// the same set of feed metadata from its written form.
pub proof fn lemma_feed_metadata_reread(d: Doc, field: Seq<char>)
    ensures
        decode_feed_metadata(d, field) matches Ok(x)
            ==> decode_feed_metadata(encode_feed_metadata(x), field)
                == Ok::<FeedMetadataView, Fault>(x),
{
    lemma_decode_feed_metadata_wf(d, field);
    if let Ok(x) = decode_feed_metadata(d, field) {
        lemma_feed_metadata_round_trip(x, field);
    }
}

/// A set of feed metadata that is well formed and whose written form nests no
/// more deeply than the ceiling is read back whole from that form.
pub proof fn lemma_feed_metadata_doc_round_trip(x: FeedMetadataView)
    requires
        feed_metadata_wf(x),
        depth(encode_feed_metadata(x)) <= MAX_DEPTH,
    ensures
        feed_metadata_from_doc(encode_feed_metadata(x)) == Ok::<FeedMetadataView, Fault>(x),
{
    lemma_feed_metadata_round_trip(x, ""@);
}

/// What such a field gives is well formed.
pub proof fn lemma_read_feed_metadata_wf(m: Seq<(Seq<char>, Doc)>, key: Seq<char>)
    ensures
        read_feed_metadata(m, key) matches Ok(x) ==> feed_metadata_wf(x),
{
    lemma_index_of(m, key);
    let i = index_of(m, key);
    if 0 <= i < m.len() {
        lemma_decode_feed_metadata_wf(m[i].1, key);
    }
}

/// What a field holds that has to be a set of feed metadata.
pub open spec fn read_feed_metadata(
    m: Seq<(Seq<char>, Doc)>,
    key: Seq<char>,
) -> Result<FeedMetadataView, Fault> {
    let i = index_of(m, key);
    if 0 <= i < m.len() {
        decode_feed_metadata(m[i].1, key)
    } else {
        Err(Fault::MissingRequiredField(key))
    }
}

/// The written form of such a field.
pub open spec fn write_feed_metadata(x: FeedMetadataView) -> Option<Doc> {
    Some(encode_feed_metadata(x))
}

/// Reads a field that has to be a set of feed metadata.
pub fn get_feed_metadata(
    members: &Vec<(String, Value)>,
    key: &str,
) -> (r: Result<FeedMetadata, ParseError>)
    ensures
        match r {
            Ok(x) => read_feed_metadata(members_of(members@), key@)
                == Ok::<FeedMetadataView, Fault>(feed_metadata_view(x)),
            Err(e) => read_feed_metadata(members_of(members@), key@)
                == Err::<FeedMetadataView, Fault>(e@),
        },
        r matches Ok(x) ==> feed_metadata_wf(feed_metadata_view(x)),
{
    match position(members, key) {
        None => Err(missing(key)),
        Some(i) => {
            proof {
                assert(members_of(members@)[i as int].1 == members@[i as int].1@);
            }
            FeedMetadata::parse(&members[i].1, key)
        },
    }
}

/// Writes such a field.
pub fn make_feed_metadata(x: &FeedMetadata) -> (r: Option<Value>)
    ensures
        opt_doc(r) == write_feed_metadata(feed_metadata_view((*x))),
{
    Some(x.to_value())
}

/// Such a field, written and read again, holds the same set of feed metadata.
pub proof fn lemma_feed_metadata_field_round_trip(
    x: FeedMetadataView,
    m: Seq<(Seq<char>, Doc)>,
    key: Seq<char>,
)
    requires
        feed_metadata_wf(x),
        lookup(m, key) == write_feed_metadata(x),
    ensures
        read_feed_metadata(m, key) == Ok::<FeedMetadataView, Fault>(x),
{
    lemma_lookup_index(m, key);
    lemma_feed_metadata_round_trip(x, key);
}

} // verus!
