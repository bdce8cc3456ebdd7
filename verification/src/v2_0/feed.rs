//! Feeds, and the facets, publications and groups in them.
use vstd::prelude::*;
use crate::error::{Fault, ParseError, list_shapes, mismatch, parsed, record_shapes};
use crate::helpers::{listed, plain, shapes1, wrong_shape};
use crate::v2_0::link::{
    Link, LinkView, copy_link_seq, get_link_list, lemma_link_list_round_trip,
    lemma_read_link_list_wf, link_seq_wf, link_views, link_wf, make_link_list, read_link_list,
    write_link_list,
};
use crate::v2_0::metadata::feed_metadata::{
    FeedMetadata, FeedMetadataView, copy_feed_metadata, feed_metadata_new, feed_metadata_view,
    feed_metadata_wf, get_feed_metadata, lemma_feed_metadata_field_round_trip,
    lemma_read_feed_metadata_wf, make_feed_metadata, read_feed_metadata, write_feed_metadata,
};
use crate::v2_0::metadata::localized::{Localized, StringWithAlternates, localized_wf};
use crate::v2_0::metadata::publication_metadata::{
    PublicationMetadata, PublicationMetadataView, copy_publication_metadata,
    get_publication_metadata, lemma_publication_metadata_field_round_trip,
    lemma_read_publication_metadata_wf, make_publication_metadata, publication_metadata_view,
    publication_metadata_wf, read_publication_metadata, write_publication_metadata,
};
use crate::v2_0::spelling::{
    spell_facets, spell_groups, spell_images, spell_links, spell_metadata, spell_navigation,
    spell_publications,
};
use crate::value::{
    Doc, MAX_DEPTH, Shape, Value, depth, docs_of, index_of, lemma_index_of,
    lemma_lookup_after_put, lemma_lookup_empty, lemma_lookup_index, lookup, members_of, opt_doc,
    position, put, put_member, shape_of,
};

verus! {

/// An OPDS facet for helping to navigate a collection by viewing a subset or by
/// providing a specific sort.
#[derive(Debug, PartialEq, Eq)]
#[non_exhaustive]
pub struct Facet {
    pub metadata: FeedMetadata,
    pub links: Vec<Link>,
}

/// The mathematical model of a facet.
pub struct FacetView {
    pub metadata: FeedMetadataView,
    pub links: Seq<LinkView>,
}

/// The model of a facet.
pub open spec fn facet_view(x: Facet) -> FacetView {
    FacetView {
        metadata: feed_metadata_view(x.metadata),
        links: link_views(x.links@),
    }
}

impl View for Facet {
    type V = FacetView;

    open spec fn view(&self) -> FacetView {
        facet_view(*self)
    }
}

/// A facet is well formed when everything it holds is.
pub open spec fn facet_wf(x: FacetView) -> bool {
    &&& feed_metadata_wf(x.metadata)
    &&& link_seq_wf(x.links)
}

/// The facet of a title, with nothing else in it.
pub open spec fn facet_new(title: Localized) -> FacetView {
    FacetView {
        metadata: feed_metadata_new(title),
        links: Seq::empty(),
    }
}

/// The members that a facet is written as: one for each field that holds
/// something, in the order of the fields.
pub open spec fn facet_members(x: FacetView) -> Seq<(Seq<char>, Doc)> {
    let m = Seq::<(Seq<char>, Doc)>::empty();
    let m = put(m, "metadata"@, write_feed_metadata(x.metadata));
    let m = put(m, "links"@, write_link_list(x.links));
    m
}

/// The written form of a facet: always the full object.
pub open spec fn encode_facet(x: FacetView) -> Doc {
    Doc::Object(facet_members(x))
}

/// The facet that the members of an object stand for, or the error of the first
/// field, in the order of the fields, that cannot be read.
pub open spec fn facet_from_members(m: Seq<(Seq<char>, Doc)>) -> Result<FacetView, Fault> {
    let metadata = read_feed_metadata(m, "metadata"@);
    let links = read_link_list(m, "links"@);
    if metadata is Err {
        Err(metadata->Err_0)
    } else if links is Err {
        Err(links->Err_0)
    } else {
        Ok(FacetView {
            metadata: metadata->Ok_0,
            links: links->Ok_0,
        })
    }
}

/// The facet that a value stands for: an object.
pub open spec fn decode_facet(d: Doc, field: Seq<char>) -> Result<FacetView, Fault> {
    match d {
        Doc::Object(m) => facet_from_members(m),
        _ => Err(mismatch(field, record_shapes(), shape_of(d))),
    }
}

/// What reading a whole document as a facet gives: an error where arrays and
/// objects nest more deeply than the ceiling.
pub open spec fn facet_from_doc(d: Doc) -> Result<FacetView, Fault> {
    if depth(d) > MAX_DEPTH {
        Err(Fault::RecursionLimitExceeded(MAX_DEPTH))
    } else {
        decode_facet(d, ""@)
    }
}

impl Facet {
    /// A facet of that title, with nothing else in it.
    pub fn new(title: StringWithAlternates) -> (r: Facet)
        ensures
            r@ == facet_new(title@),
            localized_wf(title@) ==> facet_wf(r@),
    {
        let links: Vec<Link> = Vec::new();
        proof {
            assert(link_views(links@) =~= Seq::<LinkView>::empty());
        }
        Facet {
            metadata: FeedMetadata::new(title),
            links,
        }
    }

    /// Reads a facet from the members of an object.
    pub fn from_members(members: &Vec<(String, Value)>) -> (r: Result<Facet, ParseError>)
        ensures
            parsed(r) == facet_from_members(members_of(members@)),
            r matches Ok(x) ==> facet_wf(x@),
    {
        let metadata = match get_feed_metadata(members, "metadata") {
            Ok(x) => x,
            Err(e) => {
                return Err(e);
            },
        };
        let links = match get_link_list(members, "links") {
            Ok(x) => x,
            Err(e) => {
                return Err(e);
            },
        };
        Ok(Facet { metadata, links })
    }

    /// Reads a facet from a value found under `field`.
    pub fn parse(v: &Value, field: &str) -> (r: Result<Facet, ParseError>)
        ensures
            parsed(r) == decode_facet(v@, field@),
            r matches Ok(x) ==> facet_wf(x@),
    {
        match v {
            Value::Object(members) => {
                Facet::from_members(members)
            },
            _ => Err(wrong_shape(field, shapes1(Shape::Object), v)),
        }
    }

    /// Reads a whole document as a facet. A document in which arrays and
    /// objects nest more deeply than [`MAX_DEPTH`] is refused before anything
    /// is read from it.
    pub fn from_value(v: &Value) -> (r: Result<Facet, ParseError>)
        ensures
            parsed(r) == facet_from_doc(v@),
            r matches Ok(x) ==> facet_wf(x@),
    {
        if !v.within_depth(MAX_DEPTH) {
            return Err(ParseError::RecursionLimitExceeded(MAX_DEPTH));
        }
        Facet::parse(v, "")
    }

    /// Writes the members of this facet.
    pub fn to_members(&self) -> (members: Vec<(String, Value)>)
        ensures
            members_of(members@) == facet_members(self@),
    {
        let mut m: Vec<(String, Value)> = Vec::new();
        assert(members_of(m@) =~= Seq::<(Seq<char>, Doc)>::empty());
        put_member(&mut m, "metadata", make_feed_metadata(&self.metadata));
        put_member(&mut m, "links", make_link_list(&self.links));
        m
    }

    /// Writes this facet as a value: always the full object.
    pub fn to_value(&self) -> (v: Value)
        ensures
            v@ == encode_facet(self@),
    {
        Value::Object(self.to_members())
    }
}

/// A copy of a facet.
pub(crate) fn copy_facet(x: &Facet) -> (r: Facet)
    ensures
        r@ == x@,
{
    Facet {
        metadata: copy_feed_metadata(&x.metadata),
        links: copy_link_seq(&x.links),
    }
}

impl Clone for Facet {
    /// A copy that holds the same.
    fn clone(&self) -> (r: Facet)
        ensures
            r@ == self@,
    {
        copy_facet(self)
    }
}

/// In the written form of a facet, each field's name leads to what that field
/// wrote.
pub proof fn lemma_facet_members(x: FacetView)
    ensures
        lookup(facet_members(x), "metadata"@) == write_feed_metadata(x.metadata),
        lookup(facet_members(x), "links"@) == write_link_list(x.links),
{
    broadcast use {lemma_lookup_after_put, lemma_lookup_empty};
    spell_metadata();
    spell_links();
}

/// A facet that is well formed, written and read again, is the same facet.
pub proof fn lemma_facet_round_trip(x: FacetView, field: Seq<char>)
    requires
        facet_wf(x),
    ensures
        decode_facet(encode_facet(x), field) == Ok::<FacetView, Fault>(x),
{
    lemma_facet_members(x);
    let m = facet_members(x);
    assert(read_feed_metadata(m, "metadata"@) == Ok::<FeedMetadataView, Fault>(x.metadata)) by {
        lemma_feed_metadata_field_round_trip(x.metadata, m, "metadata"@);
    }
    assert(read_link_list(m, "links"@) == Ok::<Seq<LinkView>, Fault>(x.links)) by {
        lemma_link_list_round_trip(x.links, m, "links"@);
    }
}

/// What the members of an object give as a facet is well formed.
pub proof fn lemma_facet_from_members_wf(m: Seq<(Seq<char>, Doc)>)
    ensures
        facet_from_members(m) matches Ok(x) ==> facet_wf(x),
{
    lemma_read_feed_metadata_wf(m, "metadata"@);
    lemma_read_link_list_wf(m, "links"@);
}

/// What is read as a facet is well formed.
pub proof fn lemma_decode_facet_wf(d: Doc, field: Seq<char>)
    ensures
        decode_facet(d, field) matches Ok(x) ==> facet_wf(x),
{
    if let Doc::Object(m) = d {
        lemma_facet_from_members_wf(m);
    }
}

/// A facet that was read, in whatever spelling, is read again as the same facet
/// from its written form.
pub proof fn lemma_facet_reread(d: Doc, field: Seq<char>)
    ensures
        decode_facet(d, field) matches Ok(x)
            ==> decode_facet(encode_facet(x), field) == Ok::<FacetView, Fault>(x),
{
    lemma_decode_facet_wf(d, field);
    if let Ok(x) = decode_facet(d, field) {
        lemma_facet_round_trip(x, field);
    }
}

/// A facet that is well formed and whose written form nests no more deeply than
/// the ceiling is read back whole from that form.
pub proof fn lemma_facet_doc_round_trip(x: FacetView)
    requires
        facet_wf(x),
        depth(encode_facet(x)) <= MAX_DEPTH,
    ensures
        facet_from_doc(encode_facet(x)) == Ok::<FacetView, Fault>(x),
{
    lemma_facet_round_trip(x, ""@);
}

/// An OPDS Publication object.
#[derive(Debug, PartialEq, Eq)]
#[non_exhaustive]
pub struct Publication {
    pub metadata: PublicationMetadata,
    pub links: Vec<Link>,
    /// Links to preview images for a client to display when listing this
    /// publication. At least one of them should be of a type that clients
    /// commonly support: `image/jpeg`, `image/webp`, `image/avif`, `image/png`,
    /// `image/jxl` or `image/gif`.
    pub images: Vec<Link>,
}

/// The mathematical model of a publication.
pub struct PublicationView {
    pub metadata: PublicationMetadataView,
    pub links: Seq<LinkView>,
    pub images: Seq<LinkView>,
}

/// The model of a publication.
pub open spec fn publication_view(x: Publication) -> PublicationView {
    PublicationView {
        metadata: publication_metadata_view(x.metadata),
        links: link_views(x.links@),
        images: link_views(x.images@),
    }
}

impl View for Publication {
    type V = PublicationView;

    open spec fn view(&self) -> PublicationView {
        publication_view(*self)
    }
}

/// A publication is well formed when everything it holds is.
pub open spec fn publication_wf(x: PublicationView) -> bool {
    &&& publication_metadata_wf(x.metadata)
    &&& link_seq_wf(x.links)
    &&& link_seq_wf(x.images)
}

/// The members that a publication is written as: one for each field that holds
/// something, in the order of the fields.
pub open spec fn publication_members(x: PublicationView) -> Seq<(Seq<char>, Doc)> {
    let m = Seq::<(Seq<char>, Doc)>::empty();
    let m = put(m, "metadata"@, write_publication_metadata(x.metadata));
    let m = put(m, "links"@, write_link_list(x.links));
    let m = put(m, "images"@, write_link_list(x.images));
    m
}

/// The written form of a publication: always the full object.
pub open spec fn encode_publication(x: PublicationView) -> Doc {
    Doc::Object(publication_members(x))
}

/// The publication that the members of an object stand for, or the error of the
/// first field, in the order of the fields, that cannot be read.
pub open spec fn publication_from_members(
    m: Seq<(Seq<char>, Doc)>,
) -> Result<PublicationView, Fault> {
    let metadata = read_publication_metadata(m, "metadata"@);
    let links = read_link_list(m, "links"@);
    let images = read_link_list(m, "images"@);
    if metadata is Err {
        Err(metadata->Err_0)
    } else if links is Err {
        Err(links->Err_0)
    } else if images is Err {
        Err(images->Err_0)
    } else {
        Ok(PublicationView {
            metadata: metadata->Ok_0,
            links: links->Ok_0,
            images: images->Ok_0,
        })
    }
}

/// The publication that a value stands for: an object.
pub open spec fn decode_publication(d: Doc, field: Seq<char>) -> Result<PublicationView, Fault> {
    match d {
        Doc::Object(m) => publication_from_members(m),
        _ => Err(mismatch(field, record_shapes(), shape_of(d))),
    }
}

/// What reading a whole document as a publication gives: an error where arrays
/// and objects nest more deeply than the ceiling.
pub open spec fn publication_from_doc(d: Doc) -> Result<PublicationView, Fault> {
    if depth(d) > MAX_DEPTH {
        Err(Fault::RecursionLimitExceeded(MAX_DEPTH))
    } else {
        decode_publication(d, ""@)
    }
}

impl Publication {
    /// Reads a publication from the members of an object.
    pub fn from_members(members: &Vec<(String, Value)>) -> (r: Result<Publication, ParseError>)
        ensures
            parsed(r) == publication_from_members(members_of(members@)),
            r matches Ok(x) ==> publication_wf(x@),
    {
        let metadata = match get_publication_metadata(members, "metadata") {
            Ok(x) => x,
            Err(e) => {
                return Err(e);
            },
        };
        let links = match get_link_list(members, "links") {
            Ok(x) => x,
            Err(e) => {
                return Err(e);
            },
        };
        let images = match get_link_list(members, "images") {
            Ok(x) => x,
            Err(e) => {
                return Err(e);
            },
        };
        Ok(Publication { metadata, links, images })
    }

    /// Reads a publication from a value found under `field`.
    pub fn parse(v: &Value, field: &str) -> (r: Result<Publication, ParseError>)
        ensures
            parsed(r) == decode_publication(v@, field@),
            r matches Ok(x) ==> publication_wf(x@),
    {
        match v {
            Value::Object(members) => {
                Publication::from_members(members)
            },
            _ => Err(wrong_shape(field, shapes1(Shape::Object), v)),
        }
    }

    /// Reads a whole document as a publication. A document in which arrays and
    /// objects nest more deeply than [`MAX_DEPTH`] is refused before anything
    /// is read from it.
    pub fn from_value(v: &Value) -> (r: Result<Publication, ParseError>)
        ensures
            parsed(r) == publication_from_doc(v@),
            r matches Ok(x) ==> publication_wf(x@),
    {
        if !v.within_depth(MAX_DEPTH) {
            return Err(ParseError::RecursionLimitExceeded(MAX_DEPTH));
        }
        Publication::parse(v, "")
    }

    /// Writes the members of this publication.
    pub fn to_members(&self) -> (members: Vec<(String, Value)>)
        ensures
            members_of(members@) == publication_members(self@),
    {
        let mut m: Vec<(String, Value)> = Vec::new();
        assert(members_of(m@) =~= Seq::<(Seq<char>, Doc)>::empty());
        put_member(&mut m, "metadata", make_publication_metadata(&self.metadata));
        put_member(&mut m, "links", make_link_list(&self.links));
        put_member(&mut m, "images", make_link_list(&self.images));
        m
    }

    /// Writes this publication as a value: always the full object.
    pub fn to_value(&self) -> (v: Value)
        ensures
            v@ == encode_publication(self@),
    {
        Value::Object(self.to_members())
    }
}

/// A copy of a publication.
pub(crate) fn copy_publication(x: &Publication) -> (r: Publication)
    ensures
        r@ == x@,
{
    Publication {
        metadata: copy_publication_metadata(&x.metadata),
        links: copy_link_seq(&x.links),
        images: copy_link_seq(&x.images),
    }
}

impl Clone for Publication {
    /// A copy that holds the same.
    fn clone(&self) -> (r: Publication)
        ensures
            r@ == self@,
    {
        copy_publication(self)
    }
}

/// In the written form of a publication, each field's name leads to what that
/// field wrote.
pub proof fn lemma_publication_members(x: PublicationView)
    ensures
        lookup(publication_members(x), "metadata"@) == write_publication_metadata(x.metadata),
        lookup(publication_members(x), "links"@) == write_link_list(x.links),
        lookup(publication_members(x), "images"@) == write_link_list(x.images),
{
    broadcast use {lemma_lookup_after_put, lemma_lookup_empty};
    spell_metadata();
    spell_links();
    spell_images();
}

/// A publication that is well formed, written and read again, is the same
/// publication.
pub proof fn lemma_publication_round_trip(x: PublicationView, field: Seq<char>)
    requires
        publication_wf(x),
    ensures
        decode_publication(encode_publication(x), field) == Ok::<PublicationView, Fault>(x),
{
    lemma_publication_members(x);
    let m = publication_members(x);
    assert(read_publication_metadata(m, "metadata"@)
        == Ok::<PublicationMetadataView, Fault>(x.metadata)) by {
        lemma_publication_metadata_field_round_trip(x.metadata, m, "metadata"@);
    }
    assert(read_link_list(m, "links"@) == Ok::<Seq<LinkView>, Fault>(x.links)) by {
        lemma_link_list_round_trip(x.links, m, "links"@);
    }
    assert(read_link_list(m, "images"@) == Ok::<Seq<LinkView>, Fault>(x.images)) by {
        lemma_link_list_round_trip(x.images, m, "images"@);
    }
}

/// What the members of an object give as a publication is well formed.
pub proof fn lemma_publication_from_members_wf(m: Seq<(Seq<char>, Doc)>)
    ensures
        publication_from_members(m) matches Ok(x) ==> publication_wf(x),
{
    lemma_read_publication_metadata_wf(m, "metadata"@);
    lemma_read_link_list_wf(m, "links"@);
    lemma_read_link_list_wf(m, "images"@);
}

/// What is read as a publication is well formed.
pub proof fn lemma_decode_publication_wf(d: Doc, field: Seq<char>)
    ensures
        decode_publication(d, field) matches Ok(x) ==> publication_wf(x),
{
    if let Doc::Object(m) = d {
        lemma_publication_from_members_wf(m);
    }
}

/// A publication that was read, in whatever spelling, is read again as the same
/// publication from its written form.
pub proof fn lemma_publication_reread(d: Doc, field: Seq<char>)
    ensures
        decode_publication(d, field) matches Ok(x)
            ==> decode_publication(encode_publication(x), field) == Ok::<PublicationView, Fault>(x),
{
    lemma_decode_publication_wf(d, field);
    if let Ok(x) = decode_publication(d, field) {
        lemma_publication_round_trip(x, field);
    }
}

/// A publication that is well formed and whose written form nests no more
/// deeply than the ceiling is read back whole from that form.
pub proof fn lemma_publication_doc_round_trip(x: PublicationView)
    requires
        publication_wf(x),
        depth(encode_publication(x)) <= MAX_DEPTH,
    ensures
        publication_from_doc(encode_publication(x)) == Ok::<PublicationView, Fault>(x),
{
    lemma_publication_round_trip(x, ""@);
}

/// A group within an OPDS feed.
#[derive(Debug, PartialEq, Eq)]
#[non_exhaustive]
pub struct FeedGroup {
    pub metadata: FeedMetadata,
    pub links: Vec<Link>,
    /// Links for the client to show the end user in order to help browse the
    /// catalog.
    pub navigation: Vec<Link>,
    /// Publications for the client to show the end user they can download.
    pub publications: Vec<Publication>,
}

/// The mathematical model of a group.
pub struct FeedGroupView {
    pub metadata: FeedMetadataView,
    pub links: Seq<LinkView>,
    pub navigation: Seq<LinkView>,
    pub publications: Seq<PublicationView>,
}

/// The model of a group.
pub open spec fn feed_group_view(x: FeedGroup) -> FeedGroupView {
    FeedGroupView {
        metadata: feed_metadata_view(x.metadata),
        links: link_views(x.links@),
        navigation: link_views(x.navigation@),
        publications: publication_views(x.publications@),
    }
}

impl View for FeedGroup {
    type V = FeedGroupView;

    open spec fn view(&self) -> FeedGroupView {
        feed_group_view(*self)
    }
}

/// A group is well formed when everything it holds is.
pub open spec fn feed_group_wf(x: FeedGroupView) -> bool {
    &&& feed_metadata_wf(x.metadata)
    &&& link_seq_wf(x.links)
    &&& link_seq_wf(x.navigation)
    &&& publication_seq_wf(x.publications)
}

/// The group of a title, with nothing else in it.
pub open spec fn feed_group_new(title: Localized) -> FeedGroupView {
    FeedGroupView {
        metadata: feed_metadata_new(title),
        links: Seq::empty(),
        navigation: Seq::empty(),
        publications: Seq::empty(),
    }
}

/// The members that a group is written as: one for each field that holds
/// something, in the order of the fields.
pub open spec fn feed_group_members(x: FeedGroupView) -> Seq<(Seq<char>, Doc)> {
    let m = Seq::<(Seq<char>, Doc)>::empty();
    let m = put(m, "metadata"@, write_feed_metadata(x.metadata));
    let m = put(m, "links"@, write_link_list(x.links));
    let m = put(m, "navigation"@, write_link_list(x.navigation));
    let m = put(m, "publications"@, write_publication_list(x.publications));
    m
}

/// The written form of a group: always the full object.
pub open spec fn encode_feed_group(x: FeedGroupView) -> Doc {
    Doc::Object(feed_group_members(x))
}

/// The group that the members of an object stand for, or the error of the first
/// field, in the order of the fields, that cannot be read.
pub open spec fn feed_group_from_members(m: Seq<(Seq<char>, Doc)>) -> Result<FeedGroupView, Fault> {
    let metadata = read_feed_metadata(m, "metadata"@);
    let links = read_link_list(m, "links"@);
    let navigation = read_link_list(m, "navigation"@);
    let publications = read_publication_list(m, "publications"@);
    if metadata is Err {
        Err(metadata->Err_0)
    } else if links is Err {
        Err(links->Err_0)
    } else if navigation is Err {
        Err(navigation->Err_0)
    } else if publications is Err {
        Err(publications->Err_0)
    } else {
        Ok(FeedGroupView {
            metadata: metadata->Ok_0,
            links: links->Ok_0,
            navigation: navigation->Ok_0,
            publications: publications->Ok_0,
        })
    }
}

/// The group that a value stands for: an object.
pub open spec fn decode_feed_group(d: Doc, field: Seq<char>) -> Result<FeedGroupView, Fault> {
    match d {
        Doc::Object(m) => feed_group_from_members(m),
        _ => Err(mismatch(field, record_shapes(), shape_of(d))),
    }
}

/// What reading a whole document as a group gives: an error where arrays and
/// objects nest more deeply than the ceiling.
pub open spec fn feed_group_from_doc(d: Doc) -> Result<FeedGroupView, Fault> {
    if depth(d) > MAX_DEPTH {
        Err(Fault::RecursionLimitExceeded(MAX_DEPTH))
    } else {
        decode_feed_group(d, ""@)
    }
}

impl FeedGroup {
    /// A group of that title, with nothing else in it.
    pub fn new(title: StringWithAlternates) -> (r: FeedGroup)
        ensures
            r@ == feed_group_new(title@),
            localized_wf(title@) ==> feed_group_wf(r@),
    {
        let links: Vec<Link> = Vec::new();
        let navigation: Vec<Link> = Vec::new();
        let publications: Vec<Publication> = Vec::new();
        proof {
            assert(link_views(links@) =~= Seq::<LinkView>::empty());
            assert(link_views(navigation@) =~= Seq::<LinkView>::empty());
            assert(publication_views(publications@) =~= Seq::<PublicationView>::empty());
        }
        FeedGroup {
            metadata: FeedMetadata::new(title),
            links,
            navigation,
            publications,
        }
    }

    /// Reads a group from the members of an object.
    pub fn from_members(members: &Vec<(String, Value)>) -> (r: Result<FeedGroup, ParseError>)
        ensures
            parsed(r) == feed_group_from_members(members_of(members@)),
            r matches Ok(x) ==> feed_group_wf(x@),
    {
        let metadata = match get_feed_metadata(members, "metadata") {
            Ok(x) => x,
            Err(e) => {
                return Err(e);
            },
        };
        let links = match get_link_list(members, "links") {
            Ok(x) => x,
            Err(e) => {
                return Err(e);
            },
        };
        let navigation = match get_link_list(members, "navigation") {
            Ok(x) => x,
            Err(e) => {
                return Err(e);
            },
        };
        let publications = match get_publication_list(members, "publications") {
            Ok(x) => x,
            Err(e) => {
                return Err(e);
            },
        };
        Ok(FeedGroup { metadata, links, navigation, publications })
    }

    /// Reads a group from a value found under `field`.
    pub fn parse(v: &Value, field: &str) -> (r: Result<FeedGroup, ParseError>)
        ensures
            parsed(r) == decode_feed_group(v@, field@),
            r matches Ok(x) ==> feed_group_wf(x@),
    {
        match v {
            Value::Object(members) => {
                FeedGroup::from_members(members)
            },
            _ => Err(wrong_shape(field, shapes1(Shape::Object), v)),
        }
    }

    /// Reads a whole document as a group. A document in which arrays and
    /// objects nest more deeply than [`MAX_DEPTH`] is refused before anything
    /// is read from it.
    pub fn from_value(v: &Value) -> (r: Result<FeedGroup, ParseError>)
        ensures
            parsed(r) == feed_group_from_doc(v@),
            r matches Ok(x) ==> feed_group_wf(x@),
    {
        if !v.within_depth(MAX_DEPTH) {
            return Err(ParseError::RecursionLimitExceeded(MAX_DEPTH));
        }
        FeedGroup::parse(v, "")
    }

    /// Writes the members of this group.
    pub fn to_members(&self) -> (members: Vec<(String, Value)>)
        ensures
            members_of(members@) == feed_group_members(self@),
    {
        let mut m: Vec<(String, Value)> = Vec::new();
        assert(members_of(m@) =~= Seq::<(Seq<char>, Doc)>::empty());
        put_member(&mut m, "metadata", make_feed_metadata(&self.metadata));
        put_member(&mut m, "links", make_link_list(&self.links));
        put_member(&mut m, "navigation", make_link_list(&self.navigation));
        put_member(&mut m, "publications", make_publication_list(&self.publications));
        m
    }

    /// Writes this group as a value: always the full object.
    pub fn to_value(&self) -> (v: Value)
        ensures
            v@ == encode_feed_group(self@),
    {
        Value::Object(self.to_members())
    }
}

/// A copy of a group.
pub(crate) fn copy_feed_group(x: &FeedGroup) -> (r: FeedGroup)
    ensures
        r@ == x@,
{
    FeedGroup {
        metadata: copy_feed_metadata(&x.metadata),
        links: copy_link_seq(&x.links),
        navigation: copy_link_seq(&x.navigation),
        publications: copy_publication_seq(&x.publications),
    }
}

impl Clone for FeedGroup {
    /// A copy that holds the same.
    fn clone(&self) -> (r: FeedGroup)
        ensures
            r@ == self@,
    {
        copy_feed_group(self)
    }
}

/// In the written form of a group, each field's name leads to what that field
/// wrote.
pub proof fn lemma_feed_group_members(x: FeedGroupView)
    ensures
        lookup(feed_group_members(x), "metadata"@) == write_feed_metadata(x.metadata),
        lookup(feed_group_members(x), "links"@) == write_link_list(x.links),
        lookup(feed_group_members(x), "navigation"@) == write_link_list(x.navigation),
        lookup(feed_group_members(x), "publications"@) == write_publication_list(x.publications),
{
    broadcast use {lemma_lookup_after_put, lemma_lookup_empty};
    spell_metadata();
    spell_links();
    spell_navigation();
    spell_publications();
}

/// A group that is well formed, written and read again, is the same group.
pub proof fn lemma_feed_group_round_trip(x: FeedGroupView, field: Seq<char>)
    requires
        feed_group_wf(x),
    ensures
        decode_feed_group(encode_feed_group(x), field) == Ok::<FeedGroupView, Fault>(x),
{
    lemma_feed_group_members(x);
    let m = feed_group_members(x);
    assert(read_feed_metadata(m, "metadata"@) == Ok::<FeedMetadataView, Fault>(x.metadata)) by {
        lemma_feed_metadata_field_round_trip(x.metadata, m, "metadata"@);
    }
    assert(read_link_list(m, "links"@) == Ok::<Seq<LinkView>, Fault>(x.links)) by {
        lemma_link_list_round_trip(x.links, m, "links"@);
    }
    assert(read_link_list(m, "navigation"@) == Ok::<Seq<LinkView>, Fault>(x.navigation)) by {
        lemma_link_list_round_trip(x.navigation, m, "navigation"@);
    }
    assert(read_publication_list(m, "publications"@)
        == Ok::<Seq<PublicationView>, Fault>(x.publications)) by {
        lemma_publication_list_round_trip(x.publications, m, "publications"@);
    }
}

/// What the members of an object give as a group is well formed.
pub proof fn lemma_feed_group_from_members_wf(m: Seq<(Seq<char>, Doc)>)
    ensures
        feed_group_from_members(m) matches Ok(x) ==> feed_group_wf(x),
{
    lemma_read_feed_metadata_wf(m, "metadata"@);
    lemma_read_link_list_wf(m, "links"@);
    lemma_read_link_list_wf(m, "navigation"@);
    lemma_read_publication_list_wf(m, "publications"@);
}

/// What is read as a group is well formed.
pub proof fn lemma_decode_feed_group_wf(d: Doc, field: Seq<char>)
    ensures
        decode_feed_group(d, field) matches Ok(x) ==> feed_group_wf(x),
{
    if let Doc::Object(m) = d {
        lemma_feed_group_from_members_wf(m);
    }
}

/// A group that was read, in whatever spelling, is read again as the same group
/// from its written form.
pub proof fn lemma_feed_group_reread(d: Doc, field: Seq<char>)
    ensures
        decode_feed_group(d, field) matches Ok(x)
            ==> decode_feed_group(encode_feed_group(x), field) == Ok::<FeedGroupView, Fault>(x),
{
    lemma_decode_feed_group_wf(d, field);
    if let Ok(x) = decode_feed_group(d, field) {
        lemma_feed_group_round_trip(x, field);
    }
}

/// A group that is well formed and whose written form nests no more deeply than
/// the ceiling is read back whole from that form.
pub proof fn lemma_feed_group_doc_round_trip(x: FeedGroupView)
    requires
        feed_group_wf(x),
        depth(encode_feed_group(x)) <= MAX_DEPTH,
    ensures
        feed_group_from_doc(encode_feed_group(x)) == Ok::<FeedGroupView, Fault>(x),
{
    lemma_feed_group_round_trip(x, ""@);
}

/// The main OPDS feed.
#[derive(Debug, PartialEq, Eq)]
#[non_exhaustive]
pub struct Feed {
    pub metadata: FeedMetadata,
    pub links: Vec<Link>,
    /// Links for the client to show the end user in order to help browse the
    /// catalog.
    pub navigation: Vec<Link>,
    /// Links to views of a subset of publications within the catalog.
    pub facets: Vec<Facet>,
    /// Publications for the client to show the end user they can download.
    pub publications: Vec<Publication>,
    /// Groups to help provide a curated experience by grouping related
    /// publications or navigation links together.
    pub groups: Vec<FeedGroup>,
}

/// The mathematical model of a feed.
pub struct FeedView {
    pub metadata: FeedMetadataView,
    pub links: Seq<LinkView>,
    pub navigation: Seq<LinkView>,
    pub facets: Seq<FacetView>,
    pub publications: Seq<PublicationView>,
    pub groups: Seq<FeedGroupView>,
}

/// The model of a feed.
pub open spec fn feed_view(x: Feed) -> FeedView {
    FeedView {
        metadata: feed_metadata_view(x.metadata),
        links: link_views(x.links@),
        navigation: link_views(x.navigation@),
        facets: facet_views(x.facets@),
        publications: publication_views(x.publications@),
        groups: feed_group_views(x.groups@),
    }
}

impl View for Feed {
    type V = FeedView;

    open spec fn view(&self) -> FeedView {
        feed_view(*self)
    }
}

/// A feed is well formed when everything it holds is.
pub open spec fn feed_wf(x: FeedView) -> bool {
    &&& feed_metadata_wf(x.metadata)
    &&& link_seq_wf(x.links)
    &&& link_seq_wf(x.navigation)
    &&& facet_seq_wf(x.facets)
    &&& publication_seq_wf(x.publications)
    &&& feed_group_seq_wf(x.groups)
}

/// The feed of a title, with nothing else in it.
pub open spec fn feed_new(title: Localized) -> FeedView {
    FeedView {
        metadata: feed_metadata_new(title),
        links: Seq::empty(),
        navigation: Seq::empty(),
        facets: Seq::empty(),
        publications: Seq::empty(),
        groups: Seq::empty(),
    }
}

/// The members that a feed is written as: one for each field that holds
/// something, in the order of the fields.
pub open spec fn feed_members(x: FeedView) -> Seq<(Seq<char>, Doc)> {
    let m = Seq::<(Seq<char>, Doc)>::empty();
    let m = put(m, "metadata"@, write_feed_metadata(x.metadata));
    let m = put(m, "links"@, write_link_list(x.links));
    let m = put(m, "navigation"@, write_link_list(x.navigation));
    let m = put(m, "facets"@, write_facet_list(x.facets));
    let m = put(m, "publications"@, write_publication_list(x.publications));
    let m = put(m, "groups"@, write_feed_group_list(x.groups));
    m
}

/// The written form of a feed: always the full object.
pub open spec fn encode_feed(x: FeedView) -> Doc {
    Doc::Object(feed_members(x))
}

/// The feed that the members of an object stand for, or the error of the first
/// field, in the order of the fields, that cannot be read.
pub open spec fn feed_from_members(m: Seq<(Seq<char>, Doc)>) -> Result<FeedView, Fault> {
    let metadata = read_feed_metadata(m, "metadata"@);
    let links = read_link_list(m, "links"@);
    let navigation = read_link_list(m, "navigation"@);
    let facets = read_facet_list(m, "facets"@);
    let publications = read_publication_list(m, "publications"@);
    let groups = read_feed_group_list(m, "groups"@);
    if metadata is Err {
        Err(metadata->Err_0)
    } else if links is Err {
        Err(links->Err_0)
    } else if navigation is Err {
        Err(navigation->Err_0)
    } else if facets is Err {
        Err(facets->Err_0)
    } else if publications is Err {
        Err(publications->Err_0)
    } else if groups is Err {
        Err(groups->Err_0)
    } else {
        Ok(FeedView {
            metadata: metadata->Ok_0,
            links: links->Ok_0,
            navigation: navigation->Ok_0,
            facets: facets->Ok_0,
            publications: publications->Ok_0,
            groups: groups->Ok_0,
        })
    }
}

/// The feed that a value stands for: an object.
pub open spec fn decode_feed(d: Doc, field: Seq<char>) -> Result<FeedView, Fault> {
    match d {
        Doc::Object(m) => feed_from_members(m),
        _ => Err(mismatch(field, record_shapes(), shape_of(d))),
    }
}

/// What reading a whole document as a feed gives: an error where arrays and
/// objects nest more deeply than the ceiling.
pub open spec fn feed_from_doc(d: Doc) -> Result<FeedView, Fault> {
    if depth(d) > MAX_DEPTH {
        Err(Fault::RecursionLimitExceeded(MAX_DEPTH))
    } else {
        decode_feed(d, ""@)
    }
}

impl Feed {
    /// A feed of that title, with nothing else in it.
    pub fn new(title: StringWithAlternates) -> (r: Feed)
        ensures
            r@ == feed_new(title@),
            localized_wf(title@) ==> feed_wf(r@),
    {
        let links: Vec<Link> = Vec::new();
        let navigation: Vec<Link> = Vec::new();
        let facets: Vec<Facet> = Vec::new();
        let publications: Vec<Publication> = Vec::new();
        let groups: Vec<FeedGroup> = Vec::new();
        proof {
            assert(link_views(links@) =~= Seq::<LinkView>::empty());
            assert(link_views(navigation@) =~= Seq::<LinkView>::empty());
            assert(facet_views(facets@) =~= Seq::<FacetView>::empty());
            assert(publication_views(publications@) =~= Seq::<PublicationView>::empty());
            assert(feed_group_views(groups@) =~= Seq::<FeedGroupView>::empty());
        }
        Feed {
            metadata: FeedMetadata::new(title),
            links,
            navigation,
            facets,
            publications,
            groups,
        }
    }

    /// Reads a feed from the members of an object.
    pub fn from_members(members: &Vec<(String, Value)>) -> (r: Result<Feed, ParseError>)
        ensures
            parsed(r) == feed_from_members(members_of(members@)),
            r matches Ok(x) ==> feed_wf(x@),
    {
        let metadata = match get_feed_metadata(members, "metadata") {
            Ok(x) => x,
            Err(e) => {
                return Err(e);
            },
        };
        let links = match get_link_list(members, "links") {
            Ok(x) => x,
            Err(e) => {
                return Err(e);
            },
        };
        let navigation = match get_link_list(members, "navigation") {
            Ok(x) => x,
            Err(e) => {
                return Err(e);
            },
        };
        let facets = match get_facet_list(members, "facets") {
            Ok(x) => x,
            Err(e) => {
                return Err(e);
            },
        };
        let publications = match get_publication_list(members, "publications") {
            Ok(x) => x,
            Err(e) => {
                return Err(e);
            },
        };
        let groups = match get_feed_group_list(members, "groups") {
            Ok(x) => x,
            Err(e) => {
                return Err(e);
            },
        };
        Ok(Feed { metadata, links, navigation, facets, publications, groups })
    }

    /// Reads a feed from a value found under `field`.
    pub fn parse(v: &Value, field: &str) -> (r: Result<Feed, ParseError>)
        ensures
            parsed(r) == decode_feed(v@, field@),
            r matches Ok(x) ==> feed_wf(x@),
    {
        match v {
            Value::Object(members) => {
                Feed::from_members(members)
            },
            _ => Err(wrong_shape(field, shapes1(Shape::Object), v)),
        }
    }

    /// Reads a whole document as a feed. A document in which arrays and objects
    /// nest more deeply than [`MAX_DEPTH`] is refused before anything is read
    /// from it.
    pub fn from_value(v: &Value) -> (r: Result<Feed, ParseError>)
        ensures
            parsed(r) == feed_from_doc(v@),
            r matches Ok(x) ==> feed_wf(x@),
    {
        if !v.within_depth(MAX_DEPTH) {
            return Err(ParseError::RecursionLimitExceeded(MAX_DEPTH));
        }
        Feed::parse(v, "")
    }

    /// Writes the members of this feed.
    pub fn to_members(&self) -> (members: Vec<(String, Value)>)
        ensures
            members_of(members@) == feed_members(self@),
    {
        let mut m: Vec<(String, Value)> = Vec::new();
        assert(members_of(m@) =~= Seq::<(Seq<char>, Doc)>::empty());
        put_member(&mut m, "metadata", make_feed_metadata(&self.metadata));
        put_member(&mut m, "links", make_link_list(&self.links));
        put_member(&mut m, "navigation", make_link_list(&self.navigation));
        put_member(&mut m, "facets", make_facet_list(&self.facets));
        put_member(&mut m, "publications", make_publication_list(&self.publications));
        put_member(&mut m, "groups", make_feed_group_list(&self.groups));
        m
    }

    /// Writes this feed as a value: always the full object.
    pub fn to_value(&self) -> (v: Value)
        ensures
            v@ == encode_feed(self@),
    {
        Value::Object(self.to_members())
    }

    /// This feed with one more link, after those it has.
    pub fn with_link(self, link: Link) -> (r: Feed)
        ensures
            r@ == (FeedView { links: self@.links.push(link@), ..self@ }),
            feed_wf(self@) && link_wf(link@) ==> feed_wf(r@),
    {
        let mut feed = self;
        feed.links.push(link);
        proof {
            assert(link_views(feed.links@) =~= link_views(self.links@).push(link@));
        }
        feed
    }

    /// This feed with one more navigation link, after those it has.
    pub fn with_navigation(self, link: Link) -> (r: Feed)
        ensures
            r@ == (FeedView { navigation: self@.navigation.push(link@), ..self@ }),
            feed_wf(self@) && link_wf(link@) ==> feed_wf(r@),
    {
        let mut feed = self;
        feed.navigation.push(link);
        proof {
            assert(link_views(feed.navigation@) =~= link_views(self.navigation@).push(link@));
        }
        feed
    }

    /// This feed with one more facet, after those it has.
    pub fn with_facet(self, facet: Facet) -> (r: Feed)
        ensures
            r@ == (FeedView { facets: self@.facets.push(facet@), ..self@ }),
            feed_wf(self@) && facet_wf(facet@) ==> feed_wf(r@),
    {
        let mut feed = self;
        feed.facets.push(facet);
        proof {
            assert(facet_views(feed.facets@) =~= facet_views(self.facets@).push(facet@));
        }
        feed
    }

    /// This feed with one more publication, after those it has.
    pub fn with_publication(self, publication: Publication) -> (r: Feed)
        ensures
            r@ == (FeedView { publications: self@.publications.push(publication@), ..self@ }),
            feed_wf(self@) && publication_wf(publication@) ==> feed_wf(r@),
    {
        let mut feed = self;
        feed.publications.push(publication);
        proof {
            assert(publication_views(feed.publications@) =~= publication_views(self.publications@).push(publication@));
        }
        feed
    }

    /// This feed with one more group, after those it has.
    pub fn with_group(self, group: FeedGroup) -> (r: Feed)
        ensures
            r@ == (FeedView { groups: self@.groups.push(group@), ..self@ }),
            feed_wf(self@) && feed_group_wf(group@) ==> feed_wf(r@),
    {
        let mut feed = self;
        feed.groups.push(group);
        proof {
            assert(feed_group_views(feed.groups@) =~= feed_group_views(self.groups@).push(group@));
        }
        feed
    }
}

/// A copy of a feed.
pub(crate) fn copy_feed(x: &Feed) -> (r: Feed)
    ensures
        r@ == x@,
{
    Feed {
        metadata: copy_feed_metadata(&x.metadata),
        links: copy_link_seq(&x.links),
        navigation: copy_link_seq(&x.navigation),
        facets: copy_facet_seq(&x.facets),
        publications: copy_publication_seq(&x.publications),
        groups: copy_feed_group_seq(&x.groups),
    }
}

impl Clone for Feed {
    /// A copy that holds the same.
    fn clone(&self) -> (r: Feed)
        ensures
            r@ == self@,
    {
        copy_feed(self)
    }
}

/// In the written form of a feed, each field's name leads to what that field
/// wrote.
pub proof fn lemma_feed_members(x: FeedView)
    ensures
        lookup(feed_members(x), "metadata"@) == write_feed_metadata(x.metadata),
        lookup(feed_members(x), "links"@) == write_link_list(x.links),
        lookup(feed_members(x), "navigation"@) == write_link_list(x.navigation),
        lookup(feed_members(x), "facets"@) == write_facet_list(x.facets),
        lookup(feed_members(x), "publications"@) == write_publication_list(x.publications),
        lookup(feed_members(x), "groups"@) == write_feed_group_list(x.groups),
{
    broadcast use {lemma_lookup_after_put, lemma_lookup_empty};
    spell_metadata();
    spell_links();
    spell_navigation();
    spell_facets();
    spell_publications();
    spell_groups();
}

/// A feed that is well formed, written and read again, is the same feed.
pub proof fn lemma_feed_round_trip(x: FeedView, field: Seq<char>)
    requires
        feed_wf(x),
    ensures
        decode_feed(encode_feed(x), field) == Ok::<FeedView, Fault>(x),
{
    lemma_feed_members(x);
    let m = feed_members(x);
    assert(read_feed_metadata(m, "metadata"@) == Ok::<FeedMetadataView, Fault>(x.metadata)) by {
        lemma_feed_metadata_field_round_trip(x.metadata, m, "metadata"@);
    }
    assert(read_link_list(m, "links"@) == Ok::<Seq<LinkView>, Fault>(x.links)) by {
        lemma_link_list_round_trip(x.links, m, "links"@);
    }
    assert(read_link_list(m, "navigation"@) == Ok::<Seq<LinkView>, Fault>(x.navigation)) by {
        lemma_link_list_round_trip(x.navigation, m, "navigation"@);
    }
    assert(read_facet_list(m, "facets"@) == Ok::<Seq<FacetView>, Fault>(x.facets)) by {
        lemma_facet_list_round_trip(x.facets, m, "facets"@);
    }
    assert(read_publication_list(m, "publications"@)
        == Ok::<Seq<PublicationView>, Fault>(x.publications)) by {
        lemma_publication_list_round_trip(x.publications, m, "publications"@);
    }
    assert(read_feed_group_list(m, "groups"@) == Ok::<Seq<FeedGroupView>, Fault>(x.groups)) by {
        lemma_feed_group_list_round_trip(x.groups, m, "groups"@);
    }
}

/// What the members of an object give as a feed is well formed.
pub proof fn lemma_feed_from_members_wf(m: Seq<(Seq<char>, Doc)>)
    ensures
        feed_from_members(m) matches Ok(x) ==> feed_wf(x),
{
    lemma_read_feed_metadata_wf(m, "metadata"@);
    lemma_read_link_list_wf(m, "links"@);
    lemma_read_link_list_wf(m, "navigation"@);
    lemma_read_facet_list_wf(m, "facets"@);
    lemma_read_publication_list_wf(m, "publications"@);
    lemma_read_feed_group_list_wf(m, "groups"@);
}

/// What is read as a feed is well formed.
pub proof fn lemma_decode_feed_wf(d: Doc, field: Seq<char>)
    ensures
        decode_feed(d, field) matches Ok(x) ==> feed_wf(x),
{
    if let Doc::Object(m) = d {
        lemma_feed_from_members_wf(m);
    }
}

/// A feed that was read, in whatever spelling, is read again as the same feed
/// from its written form.
pub proof fn lemma_feed_reread(d: Doc, field: Seq<char>)
    ensures
        decode_feed(d, field) matches Ok(x)
            ==> decode_feed(encode_feed(x), field) == Ok::<FeedView, Fault>(x),
{
    lemma_decode_feed_wf(d, field);
    if let Ok(x) = decode_feed(d, field) {
        lemma_feed_round_trip(x, field);
    }
}

/// A feed that is well formed and whose written form nests no more deeply than
/// the ceiling is read back whole from that form.
pub proof fn lemma_feed_doc_round_trip(x: FeedView)
    requires
        feed_wf(x),
        depth(encode_feed(x)) <= MAX_DEPTH,
    ensures
        feed_from_doc(encode_feed(x)) == Ok::<FeedView, Fault>(x),
{
    lemma_feed_round_trip(x, ""@);
}

/// The models of a run of facets.
pub open spec fn facet_views(xs: Seq<Facet>) -> Seq<FacetView> {
    Seq::new(
        xs.len(),
        |i: int|
            if 0 <= i < xs.len() {
                facet_view(xs[i])
            } else {
                arbitrary()
            },
    )
}

/// Whether every facet of a run is well formed.
pub open spec fn facet_seq_wf(xs: Seq<FacetView>) -> bool {
    forall|i: int| 0 <= i < xs.len() ==> facet_wf((#[trigger] xs[i]))
}

/// The facets that the items of a sequence stand for, or the error
/// of the first item that stands for none.
pub open spec fn decode_facet_seq(
    items: Seq<Doc>,
    field: Seq<char>,
) -> Result<Seq<FacetView>, Fault>
    decreases items.len(),
{
    if items.len() == 0 {
        Ok(Seq::empty())
    } else {
        match decode_facet_seq(items.drop_last(), field) {
            Err(e) => Err(e),
            Ok(init) => match decode_facet(items.last(), field) {
                Err(e) => Err(e),
                Ok(x) => Ok(init.push(x)),
            },
        }
    }
}

/// The written forms of a run of facets.
pub open spec fn encode_facet_seq(xs: Seq<FacetView>) -> Seq<Doc> {
    Seq::new(
        xs.len(),
        |i: int|
            if 0 <= i < xs.len() {
                encode_facet(xs[i])
            } else {
                Doc::Null
            },
    )
}

/// Where the items before `i` can be read and item `i` cannot, the
/// sequence gives the error of item `i`.
pub proof fn lemma_facet_seq_fails(items: Seq<Doc>, field: Seq<char>, i: int)
    requires
        0 <= i < items.len(),
        decode_facet_seq(items.take(i), field) is Ok,
        decode_facet(items[i], field) is Err,
    ensures
        decode_facet_seq(items, field)
            == Err::<Seq<FacetView>, Fault>(decode_facet(items[i], field)->Err_0),
    decreases items.len(),
{
    if i == items.len() - 1 {
        assert(items.take(i) =~= items.drop_last());
    } else {
        assert(items.drop_last().take(i) =~= items.take(i));
        lemma_facet_seq_fails(items.drop_last(), field, i);
    }
}

/// Reads the items of a sequence as facets.
pub fn parse_facet_seq(items: &Vec<Value>, field: &str) -> (r: Result<Vec<Facet>, ParseError>)
    ensures
        match r {
            Ok(xs) => decode_facet_seq(docs_of(items@), field@)
                == Ok::<Seq<FacetView>, Fault>(facet_views(xs@)),
            Err(e) => decode_facet_seq(docs_of(items@), field@) == Err::<Seq<FacetView>, Fault>(e@),
        },
        r matches Ok(xs) ==> facet_seq_wf(facet_views(xs@)),
{
    let mut out: Vec<Facet> = Vec::new();
    let mut i: usize = 0;
    proof {
        assert(facet_views(out@) =~= Seq::<FacetView>::empty());
    }
    while i < items.len()
        invariant
            i <= items.len(),
            decode_facet_seq(docs_of(items@).take(i as int), field@) == Ok::<Seq<FacetView>, Fault>(
                facet_views(out@),
            ),
            facet_seq_wf(facet_views(out@)),
        decreases items.len() - i,
    {
        let ghost all = docs_of(items@);
        let ghost before = out@;
        proof {
            assert(all.take(i + 1).drop_last() =~= all.take(i as int));
            assert(all.take(i + 1).last() == items@[i as int]@);
        }
        match Facet::parse(&items[i], field) {
            Ok(x) => {
                let ghost one = facet_view(x);
                out.push(x);
                proof {
                    assert(facet_views(out@) =~= facet_views(before).push(one));
                }
            },
            Err(e) => {
                proof {
                    lemma_facet_seq_fails(all, field@, i as int);
                }
                return Err(e);
            },
        }
        i += 1;
    }
    proof {
        assert(docs_of(items@).take(i as int) =~= docs_of(items@));
    }
    Ok(out)
}

/// Writes a run of facets.
pub fn emit_facet_seq(xs: &Vec<Facet>) -> (out: Vec<Value>)
    ensures
        docs_of(out@) == encode_facet_seq(facet_views(xs@)),
{
    let mut out: Vec<Value> = Vec::new();
    let mut i: usize = 0;
    while i < xs.len()
        invariant
            i <= xs.len(),
            out@.len() == i,
            forall|j: int| 0 <= j < i ==> (#[trigger] out@[j])@ == encode_facet(facet_view(xs@[j])),
        decreases xs.len() - i,
    {
        out.push(xs[i].to_value());
        i += 1;
    }
    proof {
        assert(docs_of(out@) =~= encode_facet_seq(facet_views(xs@)));
    }
    out
}

/// A run of well-formed facets written and read again is the same
/// run.
pub proof fn lemma_facet_seq_round_trip(xs: Seq<FacetView>, field: Seq<char>)
    requires
        facet_seq_wf(xs),
    ensures
        decode_facet_seq(encode_facet_seq(xs), field) == Ok::<Seq<FacetView>, Fault>(xs),
    decreases xs.len(),
{
    if xs.len() > 0 {
        let docs = encode_facet_seq(xs);
        assert(docs.drop_last() =~= encode_facet_seq(xs.drop_last()));
        assert(facet_seq_wf(xs.drop_last())) by {
            assert forall|i: int| 0 <= i < xs.drop_last().len()
                implies facet_wf((#[trigger] xs.drop_last()[i])) by {
                assert(xs.drop_last()[i] == xs[i]);
            }
        }
        lemma_facet_seq_round_trip(xs.drop_last(), field);
        assert(facet_wf(xs.last()));
        lemma_facet_round_trip(xs.last(), field);
        assert(xs.drop_last().push(xs.last()) =~= xs);
    } else {
        assert(xs =~= Seq::<FacetView>::empty());
    }
}

/// A copy of a run of facets.
pub(crate) fn copy_facet_seq(xs: &Vec<Facet>) -> (out: Vec<Facet>)
    ensures
        facet_views(out@) == facet_views(xs@),
{
    let mut out: Vec<Facet> = Vec::new();
    let mut i: usize = 0;
    while i < xs.len()
        invariant
            i <= xs.len(),
            out@.len() == i,
            forall|j: int| 0 <= j < i ==> facet_view((#[trigger] out@[j])) == facet_view(xs@[j]),
        decreases xs.len() - i,
    {
        out.push(copy_facet(&xs[i]));
        i += 1;
    }
    proof {
        assert(facet_views(out@) =~= facet_views(xs@));
    }
    out
}

/// What the items of a sequence give as facets is well formed.
pub proof fn lemma_decode_facet_seq_wf(items: Seq<Doc>, field: Seq<char>)
    ensures
        decode_facet_seq(items, field) matches Ok(xs) ==> facet_seq_wf(xs),
    decreases items.len(),
{
    if items.len() > 0 {
        lemma_decode_facet_seq_wf(items.drop_last(), field);
        lemma_decode_facet_wf(items.last(), field);
        if let Ok(init) = decode_facet_seq(items.drop_last(), field) {
            if let Ok(x) = decode_facet(items.last(), field) {
                let xs = init.push(x);
                assert forall|i: int| 0 <= i < xs.len() implies facet_wf((#[trigger] xs[i])) by {
                    if i < init.len() {
                        assert(xs[i] == init[i]);
                    }
                }
            }
        }
    }
}

/// What a list field of facets gives is well formed.
pub proof fn lemma_read_facet_list_wf(m: Seq<(Seq<char>, Doc)>, key: Seq<char>)
    ensures
        read_facet_list(m, key) matches Ok(xs) ==> facet_seq_wf(xs),
{
    lemma_index_of(m, key);
    let i = index_of(m, key);
    if 0 <= i < m.len() {
        if let Doc::Array(items) = m[i].1 {
            lemma_decode_facet_seq_wf(items, key);
        }
    }
}

/// What a list field of facets holds: nothing where it is absent.
pub open spec fn read_facet_list(
    m: Seq<(Seq<char>, Doc)>,
    key: Seq<char>,
) -> Result<Seq<FacetView>, Fault> {
    let i = index_of(m, key);
    if 0 <= i < m.len() {
        match m[i].1 {
            Doc::Array(items) => decode_facet_seq(items, key),
            _ => Err(mismatch(key, list_shapes(), shape_of(m[i].1))),
        }
    } else {
        Ok(Seq::empty())
    }
}

/// The written form of such a field: left out where the list is empty.
pub open spec fn write_facet_list(xs: Seq<FacetView>) -> Option<Doc> {
    listed(encode_facet_seq(xs))
}

/// Reads a list field of facets.
pub fn get_facet_list(
    members: &Vec<(String, Value)>,
    key: &str,
) -> (r: Result<Vec<Facet>, ParseError>)
    ensures
        match r {
            Ok(xs) => read_facet_list(members_of(members@), key@)
                == Ok::<Seq<FacetView>, Fault>(facet_views(xs@)),
            Err(e) => read_facet_list(members_of(members@), key@)
                == Err::<Seq<FacetView>, Fault>(e@),
        },
        r matches Ok(xs) ==> facet_seq_wf(facet_views(xs@)),
{
    match position(members, key) {
        None => {
            let xs: Vec<Facet> = Vec::new();
            proof {
                assert(facet_views(xs@) =~= Seq::<FacetView>::empty());
            }
            Ok(xs)
        },
        Some(i) => {
            proof {
                assert(members_of(members@)[i as int].1 == members@[i as int].1@);
            }
            match &members[i].1 {
                Value::Array(items) => {
                    parse_facet_seq(items, key)
                },
                v => Err(wrong_shape(key, shapes1(Shape::Array), v)),
            }
        },
    }
}

/// Writes a list field of facets.
pub fn make_facet_list(xs: &Vec<Facet>) -> (r: Option<Value>)
    ensures
        opt_doc(r) == write_facet_list(facet_views(xs@)),
{
    plain(emit_facet_seq(xs))
}

/// A list field of well-formed facets, written and read again, holds
/// the same facets.
pub proof fn lemma_facet_list_round_trip(
    xs: Seq<FacetView>,
    m: Seq<(Seq<char>, Doc)>,
    key: Seq<char>,
)
    requires
        facet_seq_wf(xs),
        lookup(m, key) == write_facet_list(xs),
    ensures
        read_facet_list(m, key) == Ok::<Seq<FacetView>, Fault>(xs),
{
    lemma_lookup_index(m, key);
    if xs.len() == 0 {
        assert(xs =~= Seq::<FacetView>::empty());
    } else {
        lemma_facet_seq_round_trip(xs, key);
    }
}

/// The models of a run of publications.
pub open spec fn publication_views(xs: Seq<Publication>) -> Seq<PublicationView> {
    Seq::new(
        xs.len(),
        |i: int|
            if 0 <= i < xs.len() {
                publication_view(xs[i])
            } else {
                arbitrary()
            },
    )
}

/// Whether every publication of a run is well formed.
pub open spec fn publication_seq_wf(xs: Seq<PublicationView>) -> bool {
    forall|i: int| 0 <= i < xs.len() ==> publication_wf((#[trigger] xs[i]))
}

/// The publications that the items of a sequence stand for, or the error
/// of the first item that stands for none.
pub open spec fn decode_publication_seq(
    items: Seq<Doc>,
    field: Seq<char>,
) -> Result<Seq<PublicationView>, Fault>
    decreases items.len(),
{
    if items.len() == 0 {
        Ok(Seq::empty())
    } else {
        match decode_publication_seq(items.drop_last(), field) {
            Err(e) => Err(e),
            Ok(init) => match decode_publication(items.last(), field) {
                Err(e) => Err(e),
                Ok(x) => Ok(init.push(x)),
            },
        }
    }
}

/// The written forms of a run of publications.
pub open spec fn encode_publication_seq(xs: Seq<PublicationView>) -> Seq<Doc> {
    Seq::new(
        xs.len(),
        |i: int|
            if 0 <= i < xs.len() {
                encode_publication(xs[i])
            } else {
                Doc::Null
            },
    )
}

/// Where the items before `i` can be read and item `i` cannot, the
/// sequence gives the error of item `i`.
pub proof fn lemma_publication_seq_fails(items: Seq<Doc>, field: Seq<char>, i: int)
    requires
        0 <= i < items.len(),
        decode_publication_seq(items.take(i), field) is Ok,
        decode_publication(items[i], field) is Err,
    ensures
        decode_publication_seq(items, field)
            == Err::<Seq<PublicationView>, Fault>(decode_publication(items[i], field)->Err_0),
    decreases items.len(),
{
    if i == items.len() - 1 {
        assert(items.take(i) =~= items.drop_last());
    } else {
        assert(items.drop_last().take(i) =~= items.take(i));
        lemma_publication_seq_fails(items.drop_last(), field, i);
    }
}

/// Reads the items of a sequence as publications.
pub fn parse_publication_seq(
    items: &Vec<Value>,
    field: &str,
) -> (r: Result<Vec<Publication>, ParseError>)
    ensures
        match r {
            Ok(xs) => decode_publication_seq(docs_of(items@), field@)
                == Ok::<Seq<PublicationView>, Fault>(publication_views(xs@)),
            Err(e) => decode_publication_seq(docs_of(items@), field@)
                == Err::<Seq<PublicationView>, Fault>(e@),
        },
        r matches Ok(xs) ==> publication_seq_wf(publication_views(xs@)),
{
    let mut out: Vec<Publication> = Vec::new();
    let mut i: usize = 0;
    proof {
        assert(publication_views(out@) =~= Seq::<PublicationView>::empty());
    }
    while i < items.len()
        invariant
            i <= items.len(),
            decode_publication_seq(docs_of(items@).take(i as int), field@)
                == Ok::<Seq<PublicationView>, Fault>(
                publication_views(out@),
            ),
            publication_seq_wf(publication_views(out@)),
        decreases items.len() - i,
    {
        let ghost all = docs_of(items@);
        let ghost before = out@;
        proof {
            assert(all.take(i + 1).drop_last() =~= all.take(i as int));
            assert(all.take(i + 1).last() == items@[i as int]@);
        }
        match Publication::parse(&items[i], field) {
            Ok(x) => {
                let ghost one = publication_view(x);
                out.push(x);
                proof {
                    assert(publication_views(out@) =~= publication_views(before).push(one));
                }
            },
            Err(e) => {
                proof {
                    lemma_publication_seq_fails(all, field@, i as int);
                }
                return Err(e);
            },
        }
        i += 1;
    }
    proof {
        assert(docs_of(items@).take(i as int) =~= docs_of(items@));
    }
    Ok(out)
}

/// Writes a run of publications.
pub fn emit_publication_seq(xs: &Vec<Publication>) -> (out: Vec<Value>)
    ensures
        docs_of(out@) == encode_publication_seq(publication_views(xs@)),
{
    let mut out: Vec<Value> = Vec::new();
    let mut i: usize = 0;
    while i < xs.len()
        invariant
            i <= xs.len(),
            out@.len() == i,
            forall|j: int| 0 <= j < i
                ==> (#[trigger] out@[j])@ == encode_publication(publication_view(xs@[j])),
        decreases xs.len() - i,
    {
        out.push(xs[i].to_value());
        i += 1;
    }
    proof {
        assert(docs_of(out@) =~= encode_publication_seq(publication_views(xs@)));
    }
    out
}

/// A run of well-formed publications written and read again is the same
/// run.
pub proof fn lemma_publication_seq_round_trip(xs: Seq<PublicationView>, field: Seq<char>)
    requires
        publication_seq_wf(xs),
    ensures
        decode_publication_seq(encode_publication_seq(xs), field)
            == Ok::<Seq<PublicationView>, Fault>(xs),
    decreases xs.len(),
{
    if xs.len() > 0 {
        let docs = encode_publication_seq(xs);
        assert(docs.drop_last() =~= encode_publication_seq(xs.drop_last()));
        assert(publication_seq_wf(xs.drop_last())) by {
            assert forall|i: int| 0 <= i < xs.drop_last().len()
                implies publication_wf((#[trigger] xs.drop_last()[i])) by {
                assert(xs.drop_last()[i] == xs[i]);
            }
        }
        lemma_publication_seq_round_trip(xs.drop_last(), field);
        assert(publication_wf(xs.last()));
        lemma_publication_round_trip(xs.last(), field);
        assert(xs.drop_last().push(xs.last()) =~= xs);
    } else {
        assert(xs =~= Seq::<PublicationView>::empty());
    }
}

/// A copy of a run of publications.
pub(crate) fn copy_publication_seq(xs: &Vec<Publication>) -> (out: Vec<Publication>)
    ensures
        publication_views(out@) == publication_views(xs@),
{
    let mut out: Vec<Publication> = Vec::new();
    let mut i: usize = 0;
    while i < xs.len()
        invariant
            i <= xs.len(),
            out@.len() == i,
            forall|j: int| 0 <= j < i
                ==> publication_view((#[trigger] out@[j])) == publication_view(xs@[j]),
        decreases xs.len() - i,
    {
        out.push(copy_publication(&xs[i]));
        i += 1;
    }
    proof {
        assert(publication_views(out@) =~= publication_views(xs@));
    }
    out
}

/// What the items of a sequence give as publications is well formed.
pub proof fn lemma_decode_publication_seq_wf(items: Seq<Doc>, field: Seq<char>)
    ensures
        decode_publication_seq(items, field) matches Ok(xs) ==> publication_seq_wf(xs),
    decreases items.len(),
{
    if items.len() > 0 {
        lemma_decode_publication_seq_wf(items.drop_last(), field);
        lemma_decode_publication_wf(items.last(), field);
        if let Ok(init) = decode_publication_seq(items.drop_last(), field) {
            if let Ok(x) = decode_publication(items.last(), field) {
                let xs = init.push(x);
                assert forall|i: int| 0 <= i < xs.len()
                    implies publication_wf((#[trigger] xs[i])) by {
                    if i < init.len() {
                        assert(xs[i] == init[i]);
                    }
                }
            }
        }
    }
}

/// What a list field of publications gives is well formed.
pub proof fn lemma_read_publication_list_wf(m: Seq<(Seq<char>, Doc)>, key: Seq<char>)
    ensures
        read_publication_list(m, key) matches Ok(xs) ==> publication_seq_wf(xs),
{
    lemma_index_of(m, key);
    let i = index_of(m, key);
    if 0 <= i < m.len() {
        if let Doc::Array(items) = m[i].1 {
            lemma_decode_publication_seq_wf(items, key);
        }
    }
}

/// What a list field of publications holds: nothing where it is absent.
pub open spec fn read_publication_list(
    m: Seq<(Seq<char>, Doc)>,
    key: Seq<char>,
) -> Result<Seq<PublicationView>, Fault> {
    let i = index_of(m, key);
    if 0 <= i < m.len() {
        match m[i].1 {
            Doc::Array(items) => decode_publication_seq(items, key),
            _ => Err(mismatch(key, list_shapes(), shape_of(m[i].1))),
        }
    } else {
        Ok(Seq::empty())
    }
}

/// The written form of such a field: left out where the list is empty.
pub open spec fn write_publication_list(xs: Seq<PublicationView>) -> Option<Doc> {
    listed(encode_publication_seq(xs))
}

/// Reads a list field of publications.
pub fn get_publication_list(
    members: &Vec<(String, Value)>,
    key: &str,
) -> (r: Result<Vec<Publication>, ParseError>)
    ensures
        match r {
            Ok(xs) => read_publication_list(members_of(members@), key@)
                == Ok::<Seq<PublicationView>, Fault>(publication_views(xs@)),
            Err(e) => read_publication_list(members_of(members@), key@)
                == Err::<Seq<PublicationView>, Fault>(e@),
        },
        r matches Ok(xs) ==> publication_seq_wf(publication_views(xs@)),
{
    match position(members, key) {
        None => {
            let xs: Vec<Publication> = Vec::new();
            proof {
                assert(publication_views(xs@) =~= Seq::<PublicationView>::empty());
            }
            Ok(xs)
        },
        Some(i) => {
            proof {
                assert(members_of(members@)[i as int].1 == members@[i as int].1@);
            }
            match &members[i].1 {
                Value::Array(items) => {
                    parse_publication_seq(items, key)
                },
                v => Err(wrong_shape(key, shapes1(Shape::Array), v)),
            }
        },
    }
}

/// Writes a list field of publications.
pub fn make_publication_list(xs: &Vec<Publication>) -> (r: Option<Value>)
    ensures
        opt_doc(r) == write_publication_list(publication_views(xs@)),
{
    plain(emit_publication_seq(xs))
}

/// A list field of well-formed publications, written and read again, holds
/// the same publications.
pub proof fn lemma_publication_list_round_trip(
    xs: Seq<PublicationView>,
    m: Seq<(Seq<char>, Doc)>,
    key: Seq<char>,
)
    requires
        publication_seq_wf(xs),
        lookup(m, key) == write_publication_list(xs),
    ensures
        read_publication_list(m, key) == Ok::<Seq<PublicationView>, Fault>(xs),
{
    lemma_lookup_index(m, key);
    if xs.len() == 0 {
        assert(xs =~= Seq::<PublicationView>::empty());
    } else {
        lemma_publication_seq_round_trip(xs, key);
    }
}

/// The models of a run of groups.
pub open spec fn feed_group_views(xs: Seq<FeedGroup>) -> Seq<FeedGroupView> {
    Seq::new(
        xs.len(),
        |i: int|
            if 0 <= i < xs.len() {
                feed_group_view(xs[i])
            } else {
                arbitrary()
            },
    )
}

/// Whether every group of a run is well formed.
pub open spec fn feed_group_seq_wf(xs: Seq<FeedGroupView>) -> bool {
    forall|i: int| 0 <= i < xs.len() ==> feed_group_wf((#[trigger] xs[i]))
}

/// The groups that the items of a sequence stand for, or the error
/// of the first item that stands for none.
pub open spec fn decode_feed_group_seq(
    items: Seq<Doc>,
    field: Seq<char>,
) -> Result<Seq<FeedGroupView>, Fault>
    decreases items.len(),
{
    if items.len() == 0 {
        Ok(Seq::empty())
    } else {
        match decode_feed_group_seq(items.drop_last(), field) {
            Err(e) => Err(e),
            Ok(init) => match decode_feed_group(items.last(), field) {
                Err(e) => Err(e),
                Ok(x) => Ok(init.push(x)),
            },
        }
    }
}

/// The written forms of a run of groups.
pub open spec fn encode_feed_group_seq(xs: Seq<FeedGroupView>) -> Seq<Doc> {
    Seq::new(
        xs.len(),
        |i: int|
            if 0 <= i < xs.len() {
                encode_feed_group(xs[i])
            } else {
                Doc::Null
            },
    )
}

/// Where the items before `i` can be read and item `i` cannot, the
/// sequence gives the error of item `i`.
pub proof fn lemma_feed_group_seq_fails(items: Seq<Doc>, field: Seq<char>, i: int)
    requires
        0 <= i < items.len(),
        decode_feed_group_seq(items.take(i), field) is Ok,
        decode_feed_group(items[i], field) is Err,
    ensures
        decode_feed_group_seq(items, field)
            == Err::<Seq<FeedGroupView>, Fault>(decode_feed_group(items[i], field)->Err_0),
    decreases items.len(),
{
    if i == items.len() - 1 {
        assert(items.take(i) =~= items.drop_last());
    } else {
        assert(items.drop_last().take(i) =~= items.take(i));
        lemma_feed_group_seq_fails(items.drop_last(), field, i);
    }
}

/// Reads the items of a sequence as groups.
pub fn parse_feed_group_seq(
    items: &Vec<Value>,
    field: &str,
) -> (r: Result<Vec<FeedGroup>, ParseError>)
    ensures
        match r {
            Ok(xs) => decode_feed_group_seq(docs_of(items@), field@)
                == Ok::<Seq<FeedGroupView>, Fault>(feed_group_views(xs@)),
            Err(e) => decode_feed_group_seq(docs_of(items@), field@)
                == Err::<Seq<FeedGroupView>, Fault>(e@),
        },
        r matches Ok(xs) ==> feed_group_seq_wf(feed_group_views(xs@)),
{
    let mut out: Vec<FeedGroup> = Vec::new();
    let mut i: usize = 0;
    proof {
        assert(feed_group_views(out@) =~= Seq::<FeedGroupView>::empty());
    }
    while i < items.len()
        invariant
            i <= items.len(),
            decode_feed_group_seq(docs_of(items@).take(i as int), field@)
                == Ok::<Seq<FeedGroupView>, Fault>(
                feed_group_views(out@),
            ),
            feed_group_seq_wf(feed_group_views(out@)),
        decreases items.len() - i,
    {
        let ghost all = docs_of(items@);
        let ghost before = out@;
        proof {
            assert(all.take(i + 1).drop_last() =~= all.take(i as int));
            assert(all.take(i + 1).last() == items@[i as int]@);
        }
        match FeedGroup::parse(&items[i], field) {
            Ok(x) => {
                let ghost one = feed_group_view(x);
                out.push(x);
                proof {
                    assert(feed_group_views(out@) =~= feed_group_views(before).push(one));
                }
            },
            Err(e) => {
                proof {
                    lemma_feed_group_seq_fails(all, field@, i as int);
                }
                return Err(e);
            },
        }
        i += 1;
    }
    proof {
        assert(docs_of(items@).take(i as int) =~= docs_of(items@));
    }
    Ok(out)
}

/// Writes a run of groups.
pub fn emit_feed_group_seq(xs: &Vec<FeedGroup>) -> (out: Vec<Value>)
    ensures
        docs_of(out@) == encode_feed_group_seq(feed_group_views(xs@)),
{
    let mut out: Vec<Value> = Vec::new();
    let mut i: usize = 0;
    while i < xs.len()
        invariant
            i <= xs.len(),
            out@.len() == i,
            forall|j: int| 0 <= j < i
                ==> (#[trigger] out@[j])@ == encode_feed_group(feed_group_view(xs@[j])),
        decreases xs.len() - i,
    {
        out.push(xs[i].to_value());
        i += 1;
    }
    proof {
        assert(docs_of(out@) =~= encode_feed_group_seq(feed_group_views(xs@)));
    }
    out
}

/// A run of well-formed groups written and read again is the same
/// run.
pub proof fn lemma_feed_group_seq_round_trip(xs: Seq<FeedGroupView>, field: Seq<char>)
    requires
        feed_group_seq_wf(xs),
    ensures
        decode_feed_group_seq(encode_feed_group_seq(xs), field)
            == Ok::<Seq<FeedGroupView>, Fault>(xs),
    decreases xs.len(),
{
    if xs.len() > 0 {
        let docs = encode_feed_group_seq(xs);
        assert(docs.drop_last() =~= encode_feed_group_seq(xs.drop_last()));
        assert(feed_group_seq_wf(xs.drop_last())) by {
            assert forall|i: int| 0 <= i < xs.drop_last().len()
                implies feed_group_wf((#[trigger] xs.drop_last()[i])) by {
                assert(xs.drop_last()[i] == xs[i]);
            }
        }
        lemma_feed_group_seq_round_trip(xs.drop_last(), field);
        assert(feed_group_wf(xs.last()));
        lemma_feed_group_round_trip(xs.last(), field);
        assert(xs.drop_last().push(xs.last()) =~= xs);
    } else {
        assert(xs =~= Seq::<FeedGroupView>::empty());
    }
}

/// A copy of a run of groups.
pub(crate) fn copy_feed_group_seq(xs: &Vec<FeedGroup>) -> (out: Vec<FeedGroup>)
    ensures
        feed_group_views(out@) == feed_group_views(xs@),
{
    let mut out: Vec<FeedGroup> = Vec::new();
    let mut i: usize = 0;
    while i < xs.len()
        invariant
            i <= xs.len(),
            out@.len() == i,
            forall|j: int| 0 <= j < i
                ==> feed_group_view((#[trigger] out@[j])) == feed_group_view(xs@[j]),
        decreases xs.len() - i,
    {
        out.push(copy_feed_group(&xs[i]));
        i += 1;
    }
    proof {
        assert(feed_group_views(out@) =~= feed_group_views(xs@));
    }
    out
}

/// What the items of a sequence give as groups is well formed.
pub proof fn lemma_decode_feed_group_seq_wf(items: Seq<Doc>, field: Seq<char>)
    ensures
        decode_feed_group_seq(items, field) matches Ok(xs) ==> feed_group_seq_wf(xs),
    decreases items.len(),
{
    if items.len() > 0 {
        lemma_decode_feed_group_seq_wf(items.drop_last(), field);
        lemma_decode_feed_group_wf(items.last(), field);
        if let Ok(init) = decode_feed_group_seq(items.drop_last(), field) {
            if let Ok(x) = decode_feed_group(items.last(), field) {
                let xs = init.push(x);
                assert forall|i: int| 0 <= i < xs.len()
                    implies feed_group_wf((#[trigger] xs[i])) by {
                    if i < init.len() {
                        assert(xs[i] == init[i]);
                    }
                }
            }
        }
    }
}

/// What a list field of groups gives is well formed.
pub proof fn lemma_read_feed_group_list_wf(m: Seq<(Seq<char>, Doc)>, key: Seq<char>)
    ensures
        read_feed_group_list(m, key) matches Ok(xs) ==> feed_group_seq_wf(xs),
{
    lemma_index_of(m, key);
    let i = index_of(m, key);
    if 0 <= i < m.len() {
        if let Doc::Array(items) = m[i].1 {
            lemma_decode_feed_group_seq_wf(items, key);
        }
    }
}

/// What a list field of groups holds: nothing where it is absent.
pub open spec fn read_feed_group_list(
    m: Seq<(Seq<char>, Doc)>,
    key: Seq<char>,
) -> Result<Seq<FeedGroupView>, Fault> {
    let i = index_of(m, key);
    if 0 <= i < m.len() {
        match m[i].1 {
            Doc::Array(items) => decode_feed_group_seq(items, key),
            _ => Err(mismatch(key, list_shapes(), shape_of(m[i].1))),
        }
    } else {
        Ok(Seq::empty())
    }
}

/// The written form of such a field: left out where the list is empty.
pub open spec fn write_feed_group_list(xs: Seq<FeedGroupView>) -> Option<Doc> {
    listed(encode_feed_group_seq(xs))
}

/// Reads a list field of groups.
pub fn get_feed_group_list(
    members: &Vec<(String, Value)>,
    key: &str,
) -> (r: Result<Vec<FeedGroup>, ParseError>)
    ensures
        match r {
            Ok(xs) => read_feed_group_list(members_of(members@), key@)
                == Ok::<Seq<FeedGroupView>, Fault>(feed_group_views(xs@)),
            Err(e) => read_feed_group_list(members_of(members@), key@)
                == Err::<Seq<FeedGroupView>, Fault>(e@),
        },
        r matches Ok(xs) ==> feed_group_seq_wf(feed_group_views(xs@)),
{
    match position(members, key) {
        None => {
            let xs: Vec<FeedGroup> = Vec::new();
            proof {
                assert(feed_group_views(xs@) =~= Seq::<FeedGroupView>::empty());
            }
            Ok(xs)
        },
        Some(i) => {
            proof {
                assert(members_of(members@)[i as int].1 == members@[i as int].1@);
            }
            match &members[i].1 {
                Value::Array(items) => {
                    parse_feed_group_seq(items, key)
                },
                v => Err(wrong_shape(key, shapes1(Shape::Array), v)),
            }
        },
    }
}

/// Writes a list field of groups.
pub fn make_feed_group_list(xs: &Vec<FeedGroup>) -> (r: Option<Value>)
    ensures
        opt_doc(r) == write_feed_group_list(feed_group_views(xs@)),
{
    plain(emit_feed_group_seq(xs))
}

/// A list field of well-formed groups, written and read again, holds
/// the same groups.
pub proof fn lemma_feed_group_list_round_trip(
    xs: Seq<FeedGroupView>,
    m: Seq<(Seq<char>, Doc)>,
    key: Seq<char>,
)
    requires
        feed_group_seq_wf(xs),
        lookup(m, key) == write_feed_group_list(xs),
    ensures
        read_feed_group_list(m, key) == Ok::<Seq<FeedGroupView>, Fault>(xs),
{
    lemma_lookup_index(m, key);
    if xs.len() == 0 {
        assert(xs =~= Seq::<FeedGroupView>::empty());
    } else {
        lemma_feed_group_seq_round_trip(xs, key);
    }
}

} // verus!
