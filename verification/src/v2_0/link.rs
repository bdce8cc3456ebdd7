//! Links: where a resource is, what it is to the thing that links to it, and
//! what is known of it before it is fetched.
use vstd::prelude::*;
use crate::error::{Fault, ParseError, list_shapes, mismatch, parsed, record_shapes};
use crate::helpers::{
    get_flag, get_opt_natural, get_opt_number, get_opt_text, listed, make_flag, make_opt_natural,
    make_opt_number, make_opt_text, plain, read_flag, read_opt_natural, read_opt_number,
    read_opt_text, shapes1, write_flag, write_opt_natural, write_opt_number, write_opt_text,
    wrong_shape,
};
use crate::text::{copy_opt_text, copy_texts, opt_text, texts_of};
use crate::v2_0::metadata::language::{
    get_language_list, languages_wf, lemma_language_list_round_trip, lemma_read_language_list_wf,
    make_language_list, read_language_list, write_language_list,
};
use crate::v2_0::metadata::properties::{
    Acquisition, LinkProperties, LinkPropertiesView, copy_link_properties,
    get_link_properties_or_default, lemma_link_properties_or_default_round_trip,
    lemma_read_link_properties_or_default_wf, link_properties_default, link_properties_view,
    link_properties_wf, make_link_properties_or_default, read_link_properties_or_default,
    write_link_properties_or_default,
};
use crate::v2_0::metadata::relation::{
    AcquisitionKind, Relation, RelationView, copy_relation_seq, get_relation_flat,
    lemma_read_relation_flat_wf, lemma_relation_flat_round_trip, make_relation_flat,
    read_relation_flat, relation_views, relations_wf, write_relation_flat,
};
use crate::v2_0::spelling::{
    spell_alternate, spell_bitrate, spell_children, spell_duration, spell_height, spell_href,
    spell_language, spell_properties, spell_rel, spell_size, spell_templated, spell_title,
    spell_type, spell_width,
};
use crate::value::{
    Doc, MAX_DEPTH, Number, Shape, Value, depth, docs_of, index_of, lemma_index_of,
    lemma_lookup_after_put, lemma_lookup_empty, lemma_lookup_index, lookup, members_of, opt_doc,
    position, put, put_member, shape_of,
};

verus! {

/// An OPDS link object.
#[derive(Debug, PartialEq, Eq)]
#[non_exhaustive]
pub struct Link {
    /// Title of the linked resource.
    pub title: Option<String>,
    /// URI or URI template of the linked resource. Some catalogs leave it out
    /// for content that is unavailable.
    pub href: Option<String>,
    /// Indicates that a URI template is used in `href`.
    pub templated: bool,
    /// MIME type of the linked resource.
    pub mime: Option<String>,
    /// Relation between the linked resource and its containing collection.
    pub rel: Vec<Relation>,
    /// Properties associated to the linked resource.
    pub properties: LinkProperties,
    /// Height of the linked resource in pixels.
    pub height: Option<usize>,
    /// Width of the linked resource in pixels.
    pub width: Option<usize>,
    /// Original size of the resource in bytes, prior to any use of encryption
    /// or compression in an archive.
    pub size: Option<usize>,
    /// Bitrate of the linked resource in kbps.
    pub bitrate: Option<Number>,
    /// Length of the linked resource in seconds.
    pub duration: Option<Number>,
    /// Expected language of the linked resource, as language tags.
    pub language: Vec<String>,
    /// Alternate resources for the linked resource.
    pub alternate: Vec<Link>,
    /// Resources that are children of the linked resource, in the context of a
    /// given collection role.
    pub children: Vec<Link>,
}

/// The mathematical model of a link.
pub struct LinkView {
    pub title: Option<Seq<char>>,
    pub href: Option<Seq<char>>,
    pub templated: bool,
    pub mime: Option<Seq<char>>,
    pub rel: Seq<RelationView>,
    pub properties: LinkPropertiesView,
    pub height: Option<usize>,
    pub width: Option<usize>,
    pub size: Option<usize>,
    pub bitrate: Option<Number>,
    pub duration: Option<Number>,
    pub language: Seq<Seq<char>>,
    pub alternate: Seq<LinkView>,
    pub children: Seq<LinkView>,
}

/// The model of a link.
pub open spec fn link_view(x: Link) -> LinkView
    decreases x,
{
    LinkView {
        title: opt_text(x.title),
        href: opt_text(x.href),
        templated: x.templated,
        mime: opt_text(x.mime),
        rel: relation_views(x.rel@),
        properties: link_properties_view(x.properties),
        height: x.height,
        width: x.width,
        size: x.size,
        bitrate: x.bitrate,
        duration: x.duration,
        language: texts_of(x.language@),
        alternate: link_views(x.alternate@),
        children: link_views(x.children@),
    }
}

impl View for Link {
    type V = LinkView;

    open spec fn view(&self) -> LinkView {
        link_view(*self)
    }
}

/// A link is well formed when everything it holds is.
pub open spec fn link_wf(x: LinkView) -> bool
    decreases x,
{
    &&& relations_wf(x.rel)
    &&& link_properties_wf(x.properties)
    &&& languages_wf(x.language)
    &&& link_seq_wf(x.alternate)
    &&& link_seq_wf(x.children)
}

/// The link to an address, of a MIME type, with nothing else in it.
pub open spec fn link_new(href: Seq<char>, mime: Option<Seq<char>>) -> LinkView {
    LinkView {
        title: None,
        href: Some(href),
        templated: false,
        mime,
        rel: Seq::empty(),
        properties: link_properties_default(),
        height: None,
        width: None,
        size: None,
        bitrate: None,
        duration: None,
        language: Seq::empty(),
        alternate: Seq::empty(),
        children: Seq::empty(),
    }
}

/// The link whose address is a URI template, of a MIME type, with nothing else
/// in it.
pub open spec fn link_template(href: Seq<char>, mime: Option<Seq<char>>) -> LinkView {
    LinkView {
        title: None,
        href: Some(href),
        templated: true,
        mime,
        rel: Seq::empty(),
        properties: link_properties_default(),
        height: None,
        width: None,
        size: None,
        bitrate: None,
        duration: None,
        language: Seq::empty(),
        alternate: Seq::empty(),
        children: Seq::empty(),
    }
}

/// The members that a link is written as: one for each field that holds
/// something, in the order of the fields.
pub open spec fn link_members(x: LinkView) -> Seq<(Seq<char>, Doc)>
    decreases x, 1int,
{
    let m = Seq::<(Seq<char>, Doc)>::empty();
    let m = put(m, "title"@, write_opt_text(x.title));
    let m = put(m, "href"@, write_opt_text(x.href));
    let m = put(m, "templated"@, write_flag(x.templated));
    let m = put(m, "type"@, write_opt_text(x.mime));
    let m = put(m, "rel"@, write_relation_flat(x.rel));
    let m = put(m, "properties"@, write_link_properties_or_default(x.properties));
    let m = put(m, "height"@, write_opt_natural(x.height));
    let m = put(m, "width"@, write_opt_natural(x.width));
    let m = put(m, "size"@, write_opt_natural(x.size));
    let m = put(m, "bitrate"@, write_opt_number(x.bitrate));
    let m = put(m, "duration"@, write_opt_number(x.duration));
    let m = put(m, "language"@, write_language_list(x.language));
    let m = put(m, "alternate"@, write_link_list(x.alternate));
    let m = put(m, "children"@, write_link_list(x.children));
    m
}

/// The written form of a link: always the full object.
pub open spec fn encode_link(x: LinkView) -> Doc
    decreases x, 2int,
{
    Doc::Object(link_members(x))
}

/// The link that the members of an object stand for, or the error of the first
/// field, in the order of the fields, that cannot be read.
pub open spec fn link_from_members(m: Seq<(Seq<char>, Doc)>) -> Result<LinkView, Fault>
    decreases m, 1int,
{
    let title = read_opt_text(m, "title"@);
    let href = read_opt_text(m, "href"@);
    let templated = read_flag(m, "templated"@);
    let mime = read_opt_text(m, "type"@);
    let rel = read_relation_flat(m, "rel"@);
    let properties = read_link_properties_or_default(m, "properties"@);
    let height = read_opt_natural(m, "height"@);
    let width = read_opt_natural(m, "width"@);
    let size = read_opt_natural(m, "size"@);
    let bitrate = read_opt_number(m, "bitrate"@);
    let duration = read_opt_number(m, "duration"@);
    let language = read_language_list(m, "language"@);
    let alternate = read_link_list(m, "alternate"@);
    let children = read_link_list(m, "children"@);
    if title is Err {
        Err(title->Err_0)
    } else if href is Err {
        Err(href->Err_0)
    } else if templated is Err {
        Err(templated->Err_0)
    } else if mime is Err {
        Err(mime->Err_0)
    } else if rel is Err {
        Err(rel->Err_0)
    } else if properties is Err {
        Err(properties->Err_0)
    } else if height is Err {
        Err(height->Err_0)
    } else if width is Err {
        Err(width->Err_0)
    } else if size is Err {
        Err(size->Err_0)
    } else if bitrate is Err {
        Err(bitrate->Err_0)
    } else if duration is Err {
        Err(duration->Err_0)
    } else if language is Err {
        Err(language->Err_0)
    } else if alternate is Err {
        Err(alternate->Err_0)
    } else if children is Err {
        Err(children->Err_0)
    } else {
        Ok(LinkView {
            title: title->Ok_0,
            href: href->Ok_0,
            templated: templated->Ok_0,
            mime: mime->Ok_0,
            rel: rel->Ok_0,
            properties: properties->Ok_0,
            height: height->Ok_0,
            width: width->Ok_0,
            size: size->Ok_0,
            bitrate: bitrate->Ok_0,
            duration: duration->Ok_0,
            language: language->Ok_0,
            alternate: alternate->Ok_0,
            children: children->Ok_0,
        })
    }
}

/// The link that a value stands for: an object.
pub open spec fn decode_link(d: Doc, field: Seq<char>) -> Result<LinkView, Fault>
    decreases d, 0int,
{
    match d {
        Doc::Object(m) => link_from_members(m),
        _ => Err(mismatch(field, record_shapes(), shape_of(d))),
    }
}

/// What reading a whole document as a link gives: an error where arrays and
/// objects nest more deeply than the ceiling.
pub open spec fn link_from_doc(d: Doc) -> Result<LinkView, Fault> {
    if depth(d) > MAX_DEPTH {
        Err(Fault::RecursionLimitExceeded(MAX_DEPTH))
    } else {
        decode_link(d, ""@)
    }
}

/// The first way of acquiring that a run of relations names.
pub open spec fn first_acquisition(rels: Seq<RelationView>) -> Option<AcquisitionKind>
    decreases rels.len(),
{
    if rels.len() == 0 {
        None
    } else {
        match rels[0] {
            RelationView::Acquisition(k) => Some(k),
            _ => first_acquisition(rels.drop_first()),
        }
    }
}

impl Link {
    /// A link to that address, of that MIME type, with nothing else in it.
    pub fn new(href: String, mime: Option<String>) -> (r: Link)
        ensures
            r@ == link_new(href@, opt_text(mime)),
            link_wf(r@),
    {
        let rel: Vec<Relation> = Vec::new();
        let language: Vec<String> = Vec::new();
        let alternate: Vec<Link> = Vec::new();
        let children: Vec<Link> = Vec::new();
        proof {
            assert(relation_views(rel@) =~= Seq::<RelationView>::empty());
            assert(texts_of(language@) =~= Seq::<Seq<char>>::empty());
            assert(link_views(alternate@) =~= Seq::<LinkView>::empty());
            assert(link_views(children@) =~= Seq::<LinkView>::empty());
        }
        Link {
            title: None,
            href: Some(href),
            templated: false,
            mime,
            rel,
            properties: LinkProperties::default(),
            height: None,
            width: None,
            size: None,
            bitrate: None,
            duration: None,
            language,
            alternate,
            children,
        }
    }

    /// A link whose address is a URI template, of that MIME type, with nothing
    /// else in it.
    pub fn template(href: String, mime: Option<String>) -> (r: Link)
        ensures
            r@ == link_template(href@, opt_text(mime)),
            link_wf(r@),
    {
        let rel: Vec<Relation> = Vec::new();
        let language: Vec<String> = Vec::new();
        let alternate: Vec<Link> = Vec::new();
        let children: Vec<Link> = Vec::new();
        proof {
            assert(relation_views(rel@) =~= Seq::<RelationView>::empty());
            assert(texts_of(language@) =~= Seq::<Seq<char>>::empty());
            assert(link_views(alternate@) =~= Seq::<LinkView>::empty());
            assert(link_views(children@) =~= Seq::<LinkView>::empty());
        }
        Link {
            title: None,
            href: Some(href),
            templated: true,
            mime,
            rel,
            properties: LinkProperties::default(),
            height: None,
            width: None,
            size: None,
            bitrate: None,
            duration: None,
            language,
            alternate,
            children,
        }
    }

    /// Reads a link from the members of an object.
    pub fn from_members(members: &Vec<(String, Value)>) -> (r: Result<Link, ParseError>)
        ensures
            parsed(r) == link_from_members(members_of(members@)),
            r matches Ok(x) ==> link_wf(x@),
        decreases members, 1int,
    {
        let title = match get_opt_text(members, "title") {
            Ok(x) => x,
            Err(e) => {
                return Err(e);
            },
        };
        let href = match get_opt_text(members, "href") {
            Ok(x) => x,
            Err(e) => {
                return Err(e);
            },
        };
        let templated = match get_flag(members, "templated") {
            Ok(x) => x,
            Err(e) => {
                return Err(e);
            },
        };
        let mime = match get_opt_text(members, "type") {
            Ok(x) => x,
            Err(e) => {
                return Err(e);
            },
        };
        let rel = match get_relation_flat(members, "rel") {
            Ok(x) => x,
            Err(e) => {
                return Err(e);
            },
        };
        let properties = match get_link_properties_or_default(members, "properties") {
            Ok(x) => x,
            Err(e) => {
                return Err(e);
            },
        };
        let height = match get_opt_natural(members, "height") {
            Ok(x) => x,
            Err(e) => {
                return Err(e);
            },
        };
        let width = match get_opt_natural(members, "width") {
            Ok(x) => x,
            Err(e) => {
                return Err(e);
            },
        };
        let size = match get_opt_natural(members, "size") {
            Ok(x) => x,
            Err(e) => {
                return Err(e);
            },
        };
        let bitrate = match get_opt_number(members, "bitrate") {
            Ok(x) => x,
            Err(e) => {
                return Err(e);
            },
        };
        let duration = match get_opt_number(members, "duration") {
            Ok(x) => x,
            Err(e) => {
                return Err(e);
            },
        };
        let language = match get_language_list(members, "language") {
            Ok(x) => x,
            Err(e) => {
                return Err(e);
            },
        };
        let alternate = match get_link_list(members, "alternate") {
            Ok(x) => x,
            Err(e) => {
                return Err(e);
            },
        };
        let children = match get_link_list(members, "children") {
            Ok(x) => x,
            Err(e) => {
                return Err(e);
            },
        };
        Ok(Link {
            title,
            href,
            templated,
            mime,
            rel,
            properties,
            height,
            width,
            size,
            bitrate,
            duration,
            language,
            alternate,
            children,
        })
    }

    /// Reads a link from a value found under `field`.
    pub fn parse(v: &Value, field: &str) -> (r: Result<Link, ParseError>)
        ensures
            parsed(r) == decode_link(v@, field@),
            r matches Ok(x) ==> link_wf(x@),
        decreases v, 0int,
    {
        match v {
            Value::Object(members) => {
                proof {
                    assert(decreases_to!(v => v->Object_0));
                }
                Link::from_members(members)
            },
            _ => Err(wrong_shape(field, shapes1(Shape::Object), v)),
        }
    }

    /// Reads a whole document as a link. A document in which arrays and objects
    /// nest more deeply than [`MAX_DEPTH`] is refused before anything is read
    /// from it.
    pub fn from_value(v: &Value) -> (r: Result<Link, ParseError>)
        ensures
            parsed(r) == link_from_doc(v@),
            r matches Ok(x) ==> link_wf(x@),
    {
        if !v.within_depth(MAX_DEPTH) {
            return Err(ParseError::RecursionLimitExceeded(MAX_DEPTH));
        }
        Link::parse(v, "")
    }

    /// Writes the members of this link.
    pub fn to_members(&self) -> (members: Vec<(String, Value)>)
        ensures
            members_of(members@) == link_members(self@),
        decreases self, 1int,
    {
        let mut m: Vec<(String, Value)> = Vec::new();
        assert(members_of(m@) =~= Seq::<(Seq<char>, Doc)>::empty());
        put_member(&mut m, "title", make_opt_text(&self.title));
        put_member(&mut m, "href", make_opt_text(&self.href));
        put_member(&mut m, "templated", make_flag(self.templated));
        put_member(&mut m, "type", make_opt_text(&self.mime));
        put_member(&mut m, "rel", make_relation_flat(&self.rel));
        put_member(&mut m, "properties", make_link_properties_or_default(&self.properties));
        put_member(&mut m, "height", make_opt_natural(&self.height));
        put_member(&mut m, "width", make_opt_natural(&self.width));
        put_member(&mut m, "size", make_opt_natural(&self.size));
        put_member(&mut m, "bitrate", make_opt_number(&self.bitrate));
        put_member(&mut m, "duration", make_opt_number(&self.duration));
        put_member(&mut m, "language", make_language_list(&self.language));
        put_member(&mut m, "alternate", make_link_list(&self.alternate));
        put_member(&mut m, "children", make_link_list(&self.children));
        m
    }

    /// Writes this link as a value: always the full object.
    pub fn to_value(&self) -> (v: Value)
        ensures
            v@ == encode_link(self@),
        decreases self, 2int,
    {
        Value::Object(self.to_members())
    }

    /// The way of acquiring that this link names: that of the first of its
    /// relations that names one.
    pub fn get_acquisition(&self) -> (r: Option<AcquisitionKind>)
        ensures
            r == first_acquisition(self@.rel),
    {
        let ghost rels = relation_views(self.rel@);
        let mut i: usize = 0;
        proof {
            assert(rels.skip(0) =~= rels);
        }
        while i < self.rel.len()
            invariant
                i <= self.rel.len(),
                rels == relation_views(self.rel@),
                first_acquisition(rels) == first_acquisition(rels.skip(i as int)),
            decreases self.rel.len() - i,
        {
            proof {
                assert(rels.skip(i as int).drop_first() =~= rels.skip(i + 1));
                assert(rels.skip(i as int)[0] == self.rel@[i as int]@);
            }
            match self.rel[i].as_acquisition() {
                Some(k) => {
                    return Some(k);
                },
                None => {},
            }
            i += 1;
        }
        None
    }
}

/// A copy of a link.
pub(crate) fn copy_link(x: &Link) -> (r: Link)
    ensures
        r@ == x@,
    decreases x, 1int,
{
    Link {
        title: copy_opt_text(&x.title),
        href: copy_opt_text(&x.href),
        templated: x.templated,
        mime: copy_opt_text(&x.mime),
        rel: copy_relation_seq(&x.rel),
        properties: copy_link_properties(&x.properties),
        height: x.height,
        width: x.width,
        size: x.size,
        bitrate: x.bitrate,
        duration: x.duration,
        language: copy_texts(&x.language),
        alternate: copy_link_seq(&x.alternate),
        children: copy_link_seq(&x.children),
    }
}

impl Clone for Link {
    /// A copy that holds the same.
    fn clone(&self) -> (r: Link)
        ensures
            r@ == self@,
    {
        copy_link(self)
    }
}

/// In the written form of a link, each field's name leads to what that field
/// wrote.
#[verifier::rlimit(40)]
pub proof fn lemma_link_members(x: LinkView)
    ensures
        lookup(link_members(x), "title"@) == write_opt_text(x.title),
        lookup(link_members(x), "href"@) == write_opt_text(x.href),
        lookup(link_members(x), "templated"@) == write_flag(x.templated),
        lookup(link_members(x), "type"@) == write_opt_text(x.mime),
        lookup(link_members(x), "rel"@) == write_relation_flat(x.rel),
        lookup(link_members(x), "properties"@) == write_link_properties_or_default(x.properties),
        lookup(link_members(x), "height"@) == write_opt_natural(x.height),
        lookup(link_members(x), "width"@) == write_opt_natural(x.width),
        lookup(link_members(x), "size"@) == write_opt_natural(x.size),
        lookup(link_members(x), "bitrate"@) == write_opt_number(x.bitrate),
        lookup(link_members(x), "duration"@) == write_opt_number(x.duration),
        lookup(link_members(x), "language"@) == write_language_list(x.language),
        lookup(link_members(x), "alternate"@) == write_link_list(x.alternate),
        lookup(link_members(x), "children"@) == write_link_list(x.children),
{
    broadcast use {lemma_lookup_after_put, lemma_lookup_empty};
    spell_title();
    spell_href();
    spell_templated();
    spell_type();
    spell_rel();
    spell_properties();
    spell_height();
    spell_width();
    spell_size();
    spell_bitrate();
    spell_duration();
    spell_language();
    spell_alternate();
    spell_children();
}

/// A link that is well formed, written and read again, is the same link.
#[verifier::rlimit(40)]
pub proof fn lemma_link_round_trip(x: LinkView, field: Seq<char>)
    requires
        link_wf(x),
    ensures
        decode_link(encode_link(x), field) == Ok::<LinkView, Fault>(x),
    decreases x, 2int,
{
    lemma_link_members(x);
    let m = link_members(x);
    assert(read_opt_text(m, "title"@) == Ok::<Option<Seq<char>>, Fault>(x.title));
    assert(read_opt_text(m, "href"@) == Ok::<Option<Seq<char>>, Fault>(x.href));
    assert(read_flag(m, "templated"@) == Ok::<bool, Fault>(x.templated));
    assert(read_opt_text(m, "type"@) == Ok::<Option<Seq<char>>, Fault>(x.mime));
    assert(read_relation_flat(m, "rel"@) == Ok::<Seq<RelationView>, Fault>(x.rel)) by {
        lemma_relation_flat_round_trip(x.rel, m, "rel"@);
    }
    assert(read_link_properties_or_default(m, "properties"@)
        == Ok::<LinkPropertiesView, Fault>(x.properties)) by {
        lemma_link_properties_or_default_round_trip(x.properties, m, "properties"@);
    }
    assert(read_opt_natural(m, "height"@) == Ok::<Option<usize>, Fault>(x.height));
    assert(read_opt_natural(m, "width"@) == Ok::<Option<usize>, Fault>(x.width));
    assert(read_opt_natural(m, "size"@) == Ok::<Option<usize>, Fault>(x.size));
    assert(read_opt_number(m, "bitrate"@) == Ok::<Option<Number>, Fault>(x.bitrate));
    assert(read_opt_number(m, "duration"@) == Ok::<Option<Number>, Fault>(x.duration));
    assert(read_language_list(m, "language"@) == Ok::<Seq<Seq<char>>, Fault>(x.language)) by {
        lemma_language_list_round_trip(x.language, m, "language"@);
    }
    assert(read_link_list(m, "alternate"@) == Ok::<Seq<LinkView>, Fault>(x.alternate)) by {
        lemma_link_list_round_trip(x.alternate, m, "alternate"@);
    }
    assert(read_link_list(m, "children"@) == Ok::<Seq<LinkView>, Fault>(x.children)) by {
        lemma_link_list_round_trip(x.children, m, "children"@);
    }
}

/// What the members of an object give as a link is well formed.
pub proof fn lemma_link_from_members_wf(m: Seq<(Seq<char>, Doc)>)
    ensures
        link_from_members(m) matches Ok(x) ==> link_wf(x),
    decreases m, 1int,
{
    lemma_read_relation_flat_wf(m, "rel"@);
    lemma_read_link_properties_or_default_wf(m, "properties"@);
    lemma_read_language_list_wf(m, "language"@);
    lemma_read_link_list_wf(m, "alternate"@);
    lemma_read_link_list_wf(m, "children"@);
}

/// What is read as a link is well formed.
pub proof fn lemma_decode_link_wf(d: Doc, field: Seq<char>)
    ensures
        decode_link(d, field) matches Ok(x) ==> link_wf(x),
    decreases d, 0int,
{
    if let Doc::Object(m) = d {
        lemma_link_from_members_wf(m);
    }
}

/// A link that was read, in whatever spelling, is read again as the same link
/// from its written form.
pub proof fn lemma_link_reread(d: Doc, field: Seq<char>)
    ensures
        decode_link(d, field) matches Ok(x)
            ==> decode_link(encode_link(x), field) == Ok::<LinkView, Fault>(x),
{
    lemma_decode_link_wf(d, field);
    if let Ok(x) = decode_link(d, field) {
        lemma_link_round_trip(x, field);
    }
}

/// A link that is well formed and whose written form nests no more deeply than
/// the ceiling is read back whole from that form.
pub proof fn lemma_link_doc_round_trip(x: LinkView)
    requires
        link_wf(x),
        depth(encode_link(x)) <= MAX_DEPTH,
    ensures
        link_from_doc(encode_link(x)) == Ok::<LinkView, Fault>(x),
{
    lemma_link_round_trip(x, ""@);
}

/// The models of a run of links.
pub open spec fn link_views(xs: Seq<Link>) -> Seq<LinkView>
    decreases xs,
{
    Seq::new(
        xs.len(),
        |i: int|
            if 0 <= i < xs.len() {
                link_view(xs[i])
            } else {
                arbitrary()
            },
    )
}

/// Whether every link of a run is well formed.
pub open spec fn link_seq_wf(xs: Seq<LinkView>) -> bool
    decreases xs,
{
    forall|i: int| 0 <= i < xs.len() ==> link_wf((#[trigger] xs[i]))
}

/// The links that the items of a sequence stand for, or the error
/// of the first item that stands for none.
pub open spec fn decode_link_seq(items: Seq<Doc>, field: Seq<char>) -> Result<Seq<LinkView>, Fault>
    decreases items, 0int,
{
    if items.len() == 0 {
        Ok(Seq::empty())
    } else {
        match decode_link_seq(items.drop_last(), field) {
            Err(e) => Err(e),
            Ok(init) => match decode_link(items.last(), field) {
                Err(e) => Err(e),
                Ok(x) => Ok(init.push(x)),
            },
        }
    }
}

/// The written forms of a run of links.
pub open spec fn encode_link_seq(xs: Seq<LinkView>) -> Seq<Doc>
    decreases xs, 0int,
{
    Seq::new(
        xs.len(),
        |i: int|
            if 0 <= i < xs.len() {
                encode_link(xs[i])
            } else {
                Doc::Null
            },
    )
}

/// Where the items before `i` can be read and item `i` cannot, the
/// sequence gives the error of item `i`.
pub proof fn lemma_link_seq_fails(items: Seq<Doc>, field: Seq<char>, i: int)
    requires
        0 <= i < items.len(),
        decode_link_seq(items.take(i), field) is Ok,
        decode_link(items[i], field) is Err,
    ensures
        decode_link_seq(items, field)
            == Err::<Seq<LinkView>, Fault>(decode_link(items[i], field)->Err_0),
    decreases items.len(),
{
    if i == items.len() - 1 {
        assert(items.take(i) =~= items.drop_last());
    } else {
        assert(items.drop_last().take(i) =~= items.take(i));
        lemma_link_seq_fails(items.drop_last(), field, i);
    }
}

/// Reads the items of a sequence as links.
pub fn parse_link_seq(items: &Vec<Value>, field: &str) -> (r: Result<Vec<Link>, ParseError>)
    ensures
        match r {
            Ok(xs) => decode_link_seq(docs_of(items@), field@)
                == Ok::<Seq<LinkView>, Fault>(link_views(xs@)),
            Err(e) => decode_link_seq(docs_of(items@), field@) == Err::<Seq<LinkView>, Fault>(e@),
        },
        r matches Ok(xs) ==> link_seq_wf(link_views(xs@)),
    decreases items, 0int,
{
    let mut out: Vec<Link> = Vec::new();
    let mut i: usize = 0;
    proof {
        assert(link_views(out@) =~= Seq::<LinkView>::empty());
    }
    while i < items.len()
        invariant
            i <= items.len(),
            decode_link_seq(docs_of(items@).take(i as int), field@) == Ok::<Seq<LinkView>, Fault>(
                link_views(out@),
            ),
            link_seq_wf(link_views(out@)),
        decreases items.len() - i,
    {
        let ghost all = docs_of(items@);
        let ghost before = out@;
        proof {
            assert(all.take(i + 1).drop_last() =~= all.take(i as int));
            assert(all.take(i + 1).last() == items@[i as int]@);
            assert(decreases_to!(*items => items@));
            assert(decreases_to!(items@ => items@[i as int]));
        }
        match Link::parse(&items[i], field) {
            Ok(x) => {
                let ghost one = link_view(x);
                out.push(x);
                proof {
                    assert(link_views(out@) =~= link_views(before).push(one));
                }
            },
            Err(e) => {
                proof {
                    lemma_link_seq_fails(all, field@, i as int);
                }
                return Err(e);
            },
        }
        i += 1;
    }
    proof {
        assert(docs_of(items@).take(i as int) =~= docs_of(items@));
    }
    Ok(out)
}

/// Writes a run of links.
pub fn emit_link_seq(xs: &Vec<Link>) -> (out: Vec<Value>)
    ensures
        docs_of(out@) == encode_link_seq(link_views(xs@)),
    decreases xs, 0int,
{
    let mut out: Vec<Value> = Vec::new();
    let mut i: usize = 0;
    while i < xs.len()
        invariant
            i <= xs.len(),
            out@.len() == i,
            forall|j: int| 0 <= j < i ==> (#[trigger] out@[j])@ == encode_link(link_view(xs@[j])),
        decreases xs.len() - i,
    {
        proof {
            assert(decreases_to!(*xs => xs@));
            assert(decreases_to!(xs@ => xs@[i as int]));
        }
        out.push(xs[i].to_value());
        i += 1;
    }
    proof {
        assert(docs_of(out@) =~= encode_link_seq(link_views(xs@)));
    }
    out
}

/// A run of well-formed links written and read again is the same
/// run.
pub proof fn lemma_link_seq_round_trip(xs: Seq<LinkView>, field: Seq<char>)
    requires
        link_seq_wf(xs),
    ensures
        decode_link_seq(encode_link_seq(xs), field) == Ok::<Seq<LinkView>, Fault>(xs),
    decreases xs, 0int,
{
    if xs.len() > 0 {
        let docs = encode_link_seq(xs);
        assert(docs.drop_last() =~= encode_link_seq(xs.drop_last()));
        assert(link_seq_wf(xs.drop_last())) by {
            assert forall|i: int| 0 <= i < xs.drop_last().len()
                implies link_wf((#[trigger] xs.drop_last()[i])) by {
                assert(xs.drop_last()[i] == xs[i]);
            }
        }
        lemma_link_seq_round_trip(xs.drop_last(), field);
        assert(link_wf(xs.last()));
        lemma_link_round_trip(xs.last(), field);
        assert(xs.drop_last().push(xs.last()) =~= xs);
    } else {
        assert(xs =~= Seq::<LinkView>::empty());
    }
}

/// A copy of a run of links.
pub(crate) fn copy_link_seq(xs: &Vec<Link>) -> (out: Vec<Link>)
    ensures
        link_views(out@) == link_views(xs@),
    decreases xs, 0int,
{
    let mut out: Vec<Link> = Vec::new();
    let mut i: usize = 0;
    while i < xs.len()
        invariant
            i <= xs.len(),
            out@.len() == i,
            forall|j: int| 0 <= j < i ==> link_view((#[trigger] out@[j])) == link_view(xs@[j]),
        decreases xs.len() - i,
    {
        proof {
            assert(decreases_to!(*xs => xs@));
            assert(decreases_to!(xs@ => xs@[i as int]));
        }
        out.push(copy_link(&xs[i]));
        i += 1;
    }
    proof {
        assert(link_views(out@) =~= link_views(xs@));
    }
    out
}

/// What the items of a sequence give as links is well formed.
pub proof fn lemma_decode_link_seq_wf(items: Seq<Doc>, field: Seq<char>)
    ensures
        decode_link_seq(items, field) matches Ok(xs) ==> link_seq_wf(xs),
    decreases items, 0int,
{
    if items.len() > 0 {
        lemma_decode_link_seq_wf(items.drop_last(), field);
        lemma_decode_link_wf(items.last(), field);
        if let Ok(init) = decode_link_seq(items.drop_last(), field) {
            if let Ok(x) = decode_link(items.last(), field) {
                let xs = init.push(x);
                assert forall|i: int| 0 <= i < xs.len() implies link_wf((#[trigger] xs[i])) by {
                    if i < init.len() {
                        assert(xs[i] == init[i]);
                    }
                }
            }
        }
    }
}

/// What a list field of links gives is well formed.
pub proof fn lemma_read_link_list_wf(m: Seq<(Seq<char>, Doc)>, key: Seq<char>)
    ensures
        read_link_list(m, key) matches Ok(xs) ==> link_seq_wf(xs),
    decreases m, 0int,
{
    lemma_index_of(m, key);
    let i = index_of(m, key);
    if 0 <= i < m.len() {
        assert(decreases_to!(m => m[i]));
        assert(decreases_to!(m[i] => m[i].1));
        if let Doc::Array(items) = m[i].1 {
            assert(decreases_to!(m[i].1 => m[i].1->Array_0));
            lemma_decode_link_seq_wf(items, key);
        }
    }
}

/// What a list field of links holds: nothing where it is absent.
pub open spec fn read_link_list(
    m: Seq<(Seq<char>, Doc)>,
    key: Seq<char>,
) -> Result<Seq<LinkView>, Fault>
    decreases m, 0int,
{
    let i = index_of(m, key);
    if 0 <= i < m.len() {
        match m[i].1 {
            Doc::Array(items) => decode_link_seq(items, key),
            _ => Err(mismatch(key, list_shapes(), shape_of(m[i].1))),
        }
    } else {
        Ok(Seq::empty())
    }
}

/// The written form of such a field: left out where the list is empty.
pub open spec fn write_link_list(xs: Seq<LinkView>) -> Option<Doc>
    decreases xs, 1int,
{
    listed(encode_link_seq(xs))
}

/// Reads a list field of links.
pub fn get_link_list(
    members: &Vec<(String, Value)>,
    key: &str,
) -> (r: Result<Vec<Link>, ParseError>)
    ensures
        match r {
            Ok(xs) => read_link_list(members_of(members@), key@)
                == Ok::<Seq<LinkView>, Fault>(link_views(xs@)),
            Err(e) => read_link_list(members_of(members@), key@) == Err::<Seq<LinkView>, Fault>(e@),
        },
        r matches Ok(xs) ==> link_seq_wf(link_views(xs@)),
    decreases members, 0int,
{
    match position(members, key) {
        None => {
            let xs: Vec<Link> = Vec::new();
            proof {
                assert(link_views(xs@) =~= Seq::<LinkView>::empty());
            }
            Ok(xs)
        },
        Some(i) => {
            proof {
                assert(members_of(members@)[i as int].1 == members@[i as int].1@);
                assert(decreases_to!(*members => members@));
                assert(decreases_to!(members@ => members@[i as int]));
                assert(decreases_to!(members@[i as int] => members@[i as int].1));
            }
            match &members[i].1 {
                Value::Array(items) => {
                    proof {
                        assert(decreases_to!(members@[i as int].1 => members@[i as int].1->Array_0));
                    }
                    parse_link_seq(items, key)
                },
                v => Err(wrong_shape(key, shapes1(Shape::Array), v)),
            }
        },
    }
}

/// Writes a list field of links.
pub fn make_link_list(xs: &Vec<Link>) -> (r: Option<Value>)
    ensures
        opt_doc(r) == write_link_list(link_views(xs@)),
    decreases xs, 1int,
{
    plain(emit_link_seq(xs))
}

/// A list field of well-formed links, written and read again, holds
/// the same links.
pub proof fn lemma_link_list_round_trip(xs: Seq<LinkView>, m: Seq<(Seq<char>, Doc)>, key: Seq<char>)
    requires
        link_seq_wf(xs),
        lookup(m, key) == write_link_list(xs),
    ensures
        read_link_list(m, key) == Ok::<Seq<LinkView>, Fault>(xs),
    decreases xs, 1int,
{
    lemma_lookup_index(m, key);
    if xs.len() == 0 {
        assert(xs =~= Seq::<LinkView>::empty());
    } else {
        lemma_link_seq_round_trip(xs, key);
    }
}

} // verus!
