//! Who made a publication, and what it is about.
use vstd::prelude::*;
use crate::error::{
    Fault, ParseError, flat_named_shapes, list_shapes, mismatch, named_shapes, parsed,
    record_shapes,
};
use crate::helpers::{
    FlattenedVec, StringyObject, collapse, collapsed, get_opt_text, get_text_list,
    lemma_text_list_round_trip, listed, make_opt_text, make_text_list, plain, read_opt_text,
    read_text_list, shapes1, shapes2, shapes3, write_opt_text, write_text_list, wrong_shape,
};
use crate::text::{copy_opt_text, copy_texts, opt_text, texts_of};
use crate::v2_0::link::{
    Link, LinkView, copy_link_seq, get_link_list, lemma_link_list_round_trip,
    lemma_read_link_list_wf, link_seq_wf, link_views, make_link_list, read_link_list,
    write_link_list,
};
use crate::v2_0::metadata::identifier::{
    Identifier, IdentifierView, copy_opt_identifier, get_opt_identifier, get_opt_url,
    lemma_read_opt_identifier_wf, lemma_read_opt_url_wf, make_opt_identifier, make_opt_url,
    opt_identifier, opt_identifier_wf, opt_url_wf, read_opt_identifier, read_opt_url,
    write_opt_identifier, write_opt_url,
};
use crate::v2_0::metadata::localized::{
    Localized, StringWithAlternates, localized_wf, opt_localized, opt_localized_wf,
};
use crate::v2_0::metadata::localized_fields::{
    copy_opt_localized, get_localized, get_opt_localized, lemma_localized_field_round_trip,
    lemma_opt_localized_round_trip, lemma_read_localized_wf, lemma_read_opt_localized_wf,
    make_localized, make_opt_localized, read_localized, read_opt_localized, write_localized,
    write_opt_localized,
};
use crate::v2_0::metadata::naming::{
    AltIdentifier, AltIdentifierView, alt_identifier_seq_wf, alt_identifier_views,
    copy_alt_identifier_seq, get_alt_identifier_flat, lemma_alt_identifier_flat_round_trip,
    lemma_read_alt_identifier_flat_wf, make_alt_identifier_flat, read_alt_identifier_flat,
    write_alt_identifier_flat,
};
use crate::v2_0::spelling::{
    spell_alt_identifier, spell_code, spell_identifier, spell_links, spell_name, spell_role,
    spell_scheme, spell_sort_as,
};
use crate::value::{
    Doc, MAX_DEPTH, Shape, Value, depth, docs_of, index_of, lemma_index_of,
    lemma_lookup_after_put, lemma_lookup_empty, lemma_lookup_index, lookup, members_of, opt_doc,
    position, put, put_member, shape_of,
};
use vstd::std_specs::convert::FromSpecImpl;

verus! {

/// Information about a contributor to a publication.
#[derive(Debug, PartialEq, Eq)]
pub struct Contributor {
    /// The name.
    pub name: StringWithAlternates,
    /// The name in the form by which it is sorted.
    pub sort_as: Option<StringWithAlternates>,
    /// An identifier: a URL or a URN.
    pub identifier: Option<Identifier>,
    /// Alternates to the identifier.
    pub alt_identifier: Vec<AltIdentifier>,
    /// The roles in which the contributor worked.
    pub role: Vec<String>,
    /// Links that belong to the contributor.
    pub links: Vec<Link>,
}

/// The mathematical model of a contributor.
pub struct ContributorView {
    pub name: Localized,
    pub sort_as: Option<Localized>,
    pub identifier: Option<IdentifierView>,
    pub alt_identifier: Seq<AltIdentifierView>,
    pub role: Seq<Seq<char>>,
    pub links: Seq<LinkView>,
}

/// The model of a contributor.
pub open spec fn contributor_view(x: Contributor) -> ContributorView {
    ContributorView {
        name: x.name@,
        sort_as: opt_localized(x.sort_as),
        identifier: opt_identifier(x.identifier),
        alt_identifier: alt_identifier_views(x.alt_identifier@),
        role: texts_of(x.role@),
        links: link_views(x.links@),
    }
}

impl View for Contributor {
    type V = ContributorView;

    open spec fn view(&self) -> ContributorView {
        contributor_view(*self)
    }
}

/// A contributor is well formed when everything it holds is.
pub open spec fn contributor_wf(x: ContributorView) -> bool {
    &&& localized_wf(x.name)
    &&& opt_localized_wf(x.sort_as)
    &&& opt_identifier_wf(x.identifier)
    &&& alt_identifier_seq_wf(x.alt_identifier)
    &&& link_seq_wf(x.links)
}

/// The contributor made from its name, with nothing else in it.
pub open spec fn contributor_new(name: Localized) -> ContributorView {
    ContributorView {
        name,
        sort_as: None,
        identifier: None,
        alt_identifier: Seq::empty(),
        role: Seq::empty(),
        links: Seq::empty(),
    }
}

/// The members that a contributor is written as: one for each field that holds
/// something, in the order of the fields.
pub open spec fn contributor_members(x: ContributorView) -> Seq<(Seq<char>, Doc)> {
    let m = Seq::<(Seq<char>, Doc)>::empty();
    let m = put(m, "name"@, write_localized(x.name));
    let m = put(m, "sortAs"@, write_opt_localized(x.sort_as));
    let m = put(m, "identifier"@, write_opt_identifier(x.identifier));
    let m = put(m, "altIdentifier"@, write_alt_identifier_flat(x.alt_identifier));
    let m = put(m, "role"@, write_text_list(x.role));
    let m = put(m, "links"@, write_link_list(x.links));
    m
}

/// The written form of a contributor: always the full object.
pub open spec fn encode_contributor(x: ContributorView) -> Doc {
    Doc::Object(contributor_members(x))
}

/// The contributor that the members of an object stand for, or the error of the
/// first field, in the order of the fields, that cannot be read.
pub open spec fn contributor_from_members(
    m: Seq<(Seq<char>, Doc)>,
) -> Result<ContributorView, Fault> {
    let name = read_localized(m, "name"@);
    let sort_as = read_opt_localized(m, "sortAs"@);
    let identifier = read_opt_identifier(m, "identifier"@);
    let alt_identifier = read_alt_identifier_flat(m, "altIdentifier"@);
    let role = read_text_list(m, "role"@);
    let links = read_link_list(m, "links"@);
    if name is Err {
        Err(name->Err_0)
    } else if sort_as is Err {
        Err(sort_as->Err_0)
    } else if identifier is Err {
        Err(identifier->Err_0)
    } else if alt_identifier is Err {
        Err(alt_identifier->Err_0)
    } else if role is Err {
        Err(role->Err_0)
    } else if links is Err {
        Err(links->Err_0)
    } else {
        Ok(ContributorView {
            name: name->Ok_0,
            sort_as: sort_as->Ok_0,
            identifier: identifier->Ok_0,
            alt_identifier: alt_identifier->Ok_0,
            role: role->Ok_0,
            links: links->Ok_0,
        })
    }
}

/// The contributor that a value stands for: an object, or the text that is its
/// name.
pub open spec fn decode_contributor(d: Doc, field: Seq<char>) -> Result<ContributorView, Fault> {
    match d {
        Doc::Object(m) => contributor_from_members(m),
        Doc::String(s) => Ok(contributor_new(Localized::Always(s))),
        _ => Err(mismatch(field, named_shapes(), shape_of(d))),
    }
}

/// What reading a whole document as a contributor gives: an error where arrays
/// and objects nest more deeply than the ceiling.
pub open spec fn contributor_from_doc(d: Doc) -> Result<ContributorView, Fault> {
    if depth(d) > MAX_DEPTH {
        Err(Fault::RecursionLimitExceeded(MAX_DEPTH))
    } else {
        decode_contributor(d, ""@)
    }
}

impl Contributor {
    /// A contributor of that name, with nothing else in it.
    pub fn new(name: StringWithAlternates) -> (r: Contributor)
        ensures
            r@ == contributor_new(name@),
            localized_wf(name@) ==> contributor_wf(r@),
    {
        let alt_identifier: Vec<AltIdentifier> = Vec::new();
        let role: Vec<String> = Vec::new();
        let links: Vec<Link> = Vec::new();
        proof {
            assert(alt_identifier_views(alt_identifier@) =~= Seq::<AltIdentifierView>::empty());
            assert(texts_of(role@) =~= Seq::<Seq<char>>::empty());
            assert(link_views(links@) =~= Seq::<LinkView>::empty());
        }
        Contributor {
            name,
            sort_as: None,
            identifier: None,
            alt_identifier,
            role,
            links,
        }
    }

    /// Reads a contributor from the members of an object.
    pub fn from_members(members: &Vec<(String, Value)>) -> (r: Result<Contributor, ParseError>)
        ensures
            parsed(r) == contributor_from_members(members_of(members@)),
            r matches Ok(x) ==> contributor_wf(x@),
    {
        let name = match get_localized(members, "name") {
            Ok(x) => x,
            Err(e) => {
                return Err(e);
            },
        };
        let sort_as = match get_opt_localized(members, "sortAs") {
            Ok(x) => x,
            Err(e) => {
                return Err(e);
            },
        };
        let identifier = match get_opt_identifier(members, "identifier") {
            Ok(x) => x,
            Err(e) => {
                return Err(e);
            },
        };
        let alt_identifier = match get_alt_identifier_flat(members, "altIdentifier") {
            Ok(x) => x,
            Err(e) => {
                return Err(e);
            },
        };
        let role = match get_text_list(members, "role") {
            Ok(x) => x,
            Err(e) => {
                return Err(e);
            },
        };
        let links = match get_link_list(members, "links") {
            Ok(x) => x,
            Err(e) => {
                return Err(e);
            },
        };
        Ok(Contributor { name, sort_as, identifier, alt_identifier, role, links })
    }

    /// Reads a contributor from a value found under `field`.
    pub fn parse(v: &Value, field: &str) -> (r: Result<Contributor, ParseError>)
        ensures
            parsed(r) == decode_contributor(v@, field@),
            r matches Ok(x) ==> contributor_wf(x@),
    {
        let given = match v {
            Value::Object(members) => {
                match Contributor::from_members(members) {
                    Ok(x) => StringyObject::Object(x),
                    Err(e) => {
                        return Err(e);
                    },
                }
            },
            Value::String(s) => StringyObject::String(s.clone()),
            _ => {
                return Err(wrong_shape(field, shapes2(Shape::String, Shape::Object), v));
            },
        };
        Ok(given.into_inner())
    }

    /// Reads a whole document as a contributor. A document in which arrays and
    /// objects nest more deeply than [`MAX_DEPTH`] is refused before anything
    /// is read from it.
    pub fn from_value(v: &Value) -> (r: Result<Contributor, ParseError>)
        ensures
            parsed(r) == contributor_from_doc(v@),
            r matches Ok(x) ==> contributor_wf(x@),
    {
        if !v.within_depth(MAX_DEPTH) {
            return Err(ParseError::RecursionLimitExceeded(MAX_DEPTH));
        }
        Contributor::parse(v, "")
    }

    /// Writes the members of this contributor.
    pub fn to_members(&self) -> (members: Vec<(String, Value)>)
        ensures
            members_of(members@) == contributor_members(self@),
    {
        let mut m: Vec<(String, Value)> = Vec::new();
        assert(members_of(m@) =~= Seq::<(Seq<char>, Doc)>::empty());
        put_member(&mut m, "name", make_localized(&self.name));
        put_member(&mut m, "sortAs", make_opt_localized(&self.sort_as));
        put_member(&mut m, "identifier", make_opt_identifier(&self.identifier));
        put_member(&mut m, "altIdentifier", make_alt_identifier_flat(&self.alt_identifier));
        put_member(&mut m, "role", make_text_list(&self.role));
        put_member(&mut m, "links", make_link_list(&self.links));
        m
    }

    /// Writes this contributor as a value: always the full object.
    pub fn to_value(&self) -> (v: Value)
        ensures
            v@ == encode_contributor(self@),
    {
        Value::Object(self.to_members())
    }
}

/// A copy of a contributor.
pub(crate) fn copy_contributor(x: &Contributor) -> (r: Contributor)
    ensures
        r@ == x@,
{
    Contributor {
        name: x.name.clone(),
        sort_as: copy_opt_localized(&x.sort_as),
        identifier: copy_opt_identifier(&x.identifier),
        alt_identifier: copy_alt_identifier_seq(&x.alt_identifier),
        role: copy_texts(&x.role),
        links: copy_link_seq(&x.links),
    }
}

impl Clone for Contributor {
    /// A copy that holds the same.
    fn clone(&self) -> (r: Contributor)
        ensures
            r@ == self@,
    {
        copy_contributor(self)
    }
}

impl FromSpecImpl<String> for Contributor {
    open spec fn obeys_from_spec() -> bool {
        false
    }

    open spec fn from_spec(name: String) -> Self {
        arbitrary()
    }
}

impl From<String> for Contributor {
    /// The contributor that has the text as its name, and nothing else.
    fn from(name: String) -> (r: Contributor)
        ensures
            r@ == contributor_new(Localized::Always(name@)),
            contributor_wf(r@),
    {
        Contributor::new(StringWithAlternates::Always(name))
    }
}

/// In the written form of a contributor, each field's name leads to what that
/// field wrote.
pub proof fn lemma_contributor_members(x: ContributorView)
    ensures
        lookup(contributor_members(x), "name"@) == write_localized(x.name),
        lookup(contributor_members(x), "sortAs"@) == write_opt_localized(x.sort_as),
        lookup(contributor_members(x), "identifier"@) == write_opt_identifier(x.identifier),
        lookup(contributor_members(x), "altIdentifier"@)
            == write_alt_identifier_flat(x.alt_identifier),
        lookup(contributor_members(x), "role"@) == write_text_list(x.role),
        lookup(contributor_members(x), "links"@) == write_link_list(x.links),
{
    broadcast use {lemma_lookup_after_put, lemma_lookup_empty};
    spell_name();
    spell_sort_as();
    spell_identifier();
    spell_alt_identifier();
    spell_role();
    spell_links();
}

/// A contributor that is well formed, written and read again, is the same
/// contributor.
pub proof fn lemma_contributor_round_trip(x: ContributorView, field: Seq<char>)
    requires
        contributor_wf(x),
    ensures
        decode_contributor(encode_contributor(x), field) == Ok::<ContributorView, Fault>(x),
{
    lemma_contributor_members(x);
    let m = contributor_members(x);
    assert(read_localized(m, "name"@) == Ok::<Localized, Fault>(x.name)) by {
        lemma_localized_field_round_trip(x.name, m, "name"@);
    }
    assert(read_opt_localized(m, "sortAs"@) == Ok::<Option<Localized>, Fault>(x.sort_as)) by {
        lemma_opt_localized_round_trip(x.sort_as, m, "sortAs"@);
    }
    assert(read_opt_identifier(m, "identifier"@)
        == Ok::<Option<IdentifierView>, Fault>(x.identifier));
    assert(read_alt_identifier_flat(m, "altIdentifier"@)
        == Ok::<Seq<AltIdentifierView>, Fault>(x.alt_identifier)) by {
        lemma_alt_identifier_flat_round_trip(x.alt_identifier, m, "altIdentifier"@);
    }
    assert(read_text_list(m, "role"@) == Ok::<Seq<Seq<char>>, Fault>(x.role)) by {
        lemma_text_list_round_trip(x.role, m, "role"@);
    }
    assert(read_link_list(m, "links"@) == Ok::<Seq<LinkView>, Fault>(x.links)) by {
        lemma_link_list_round_trip(x.links, m, "links"@);
    }
}

/// What the members of an object give as a contributor is well formed.
pub proof fn lemma_contributor_from_members_wf(m: Seq<(Seq<char>, Doc)>)
    ensures
        contributor_from_members(m) matches Ok(x) ==> contributor_wf(x),
{
    lemma_read_localized_wf(m, "name"@);
    lemma_read_opt_localized_wf(m, "sortAs"@);
    lemma_read_opt_identifier_wf(m, "identifier"@);
    lemma_read_alt_identifier_flat_wf(m, "altIdentifier"@);
    lemma_read_link_list_wf(m, "links"@);
}

/// What is read as a contributor is well formed.
pub proof fn lemma_decode_contributor_wf(d: Doc, field: Seq<char>)
    ensures
        decode_contributor(d, field) matches Ok(x) ==> contributor_wf(x),
{
    if let Doc::Object(m) = d {
        lemma_contributor_from_members_wf(m);
    }
}

/// A contributor that was read, in whatever spelling, is read again as the same
/// contributor from its written form.
pub proof fn lemma_contributor_reread(d: Doc, field: Seq<char>)
    ensures
        decode_contributor(d, field) matches Ok(x)
            ==> decode_contributor(encode_contributor(x), field) == Ok::<ContributorView, Fault>(x),
{
    lemma_decode_contributor_wf(d, field);
    if let Ok(x) = decode_contributor(d, field) {
        lemma_contributor_round_trip(x, field);
    }
}

/// A contributor that is well formed and whose written form nests no more
/// deeply than the ceiling is read back whole from that form.
pub proof fn lemma_contributor_doc_round_trip(x: ContributorView)
    requires
        contributor_wf(x),
        depth(encode_contributor(x)) <= MAX_DEPTH,
    ensures
        contributor_from_doc(encode_contributor(x)) == Ok::<ContributorView, Fault>(x),
{
    lemma_contributor_round_trip(x, ""@);
}

/// The subject matter of a publication.
#[derive(Debug, PartialEq, Eq)]
pub struct Subject {
    /// The name.
    pub name: StringWithAlternates,
    /// The name in the form by which it is sorted.
    pub sort_as: Option<StringWithAlternates>,
    /// The code of the subject within its scheme.
    pub code: Option<String>,
    /// The scheme that the code belongs to, as the canonical text of a URL.
    pub scheme: Option<String>,
    pub links: Vec<Link>,
}

/// The mathematical model of a subject.
pub struct SubjectView {
    pub name: Localized,
    pub sort_as: Option<Localized>,
    pub code: Option<Seq<char>>,
    pub scheme: Option<Seq<char>>,
    pub links: Seq<LinkView>,
}

/// The model of a subject.
pub open spec fn subject_view(x: Subject) -> SubjectView {
    SubjectView {
        name: x.name@,
        sort_as: opt_localized(x.sort_as),
        code: opt_text(x.code),
        scheme: opt_text(x.scheme),
        links: link_views(x.links@),
    }
}

impl View for Subject {
    type V = SubjectView;

    open spec fn view(&self) -> SubjectView {
        subject_view(*self)
    }
}

/// A subject is well formed when everything it holds is.
pub open spec fn subject_wf(x: SubjectView) -> bool {
    &&& localized_wf(x.name)
    &&& opt_localized_wf(x.sort_as)
    &&& opt_url_wf(x.scheme)
    &&& link_seq_wf(x.links)
}

/// The subject made from its name, with nothing else in it.
pub open spec fn subject_new(name: Localized) -> SubjectView {
    SubjectView {
        name,
        sort_as: None,
        code: None,
        scheme: None,
        links: Seq::empty(),
    }
}

/// The members that a subject is written as: one for each field that holds
/// something, in the order of the fields.
pub open spec fn subject_members(x: SubjectView) -> Seq<(Seq<char>, Doc)> {
    let m = Seq::<(Seq<char>, Doc)>::empty();
    let m = put(m, "name"@, write_localized(x.name));
    let m = put(m, "sortAs"@, write_opt_localized(x.sort_as));
    let m = put(m, "code"@, write_opt_text(x.code));
    let m = put(m, "scheme"@, write_opt_url(x.scheme));
    let m = put(m, "links"@, write_link_list(x.links));
    m
}

/// The written form of a subject: always the full object.
pub open spec fn encode_subject(x: SubjectView) -> Doc {
    Doc::Object(subject_members(x))
}

/// The subject that the members of an object stand for, or the error of the
/// first field, in the order of the fields, that cannot be read.
pub open spec fn subject_from_members(m: Seq<(Seq<char>, Doc)>) -> Result<SubjectView, Fault> {
    let name = read_localized(m, "name"@);
    let sort_as = read_opt_localized(m, "sortAs"@);
    let code = read_opt_text(m, "code"@);
    let scheme = read_opt_url(m, "scheme"@);
    let links = read_link_list(m, "links"@);
    if name is Err {
        Err(name->Err_0)
    } else if sort_as is Err {
        Err(sort_as->Err_0)
    } else if code is Err {
        Err(code->Err_0)
    } else if scheme is Err {
        Err(scheme->Err_0)
    } else if links is Err {
        Err(links->Err_0)
    } else {
        Ok(SubjectView {
            name: name->Ok_0,
            sort_as: sort_as->Ok_0,
            code: code->Ok_0,
            scheme: scheme->Ok_0,
            links: links->Ok_0,
        })
    }
}

/// The subject that a value stands for: an object.
pub open spec fn decode_subject(d: Doc, field: Seq<char>) -> Result<SubjectView, Fault> {
    match d {
        Doc::Object(m) => subject_from_members(m),
        _ => Err(mismatch(field, record_shapes(), shape_of(d))),
    }
}

/// What reading a whole document as a subject gives: an error where arrays and
/// objects nest more deeply than the ceiling.
pub open spec fn subject_from_doc(d: Doc) -> Result<SubjectView, Fault> {
    if depth(d) > MAX_DEPTH {
        Err(Fault::RecursionLimitExceeded(MAX_DEPTH))
    } else {
        decode_subject(d, ""@)
    }
}

impl Subject {
    /// A subject of that name, with nothing else in it.
    pub fn new(name: StringWithAlternates) -> (r: Subject)
        ensures
            r@ == subject_new(name@),
            localized_wf(name@) ==> subject_wf(r@),
    {
        let links: Vec<Link> = Vec::new();
        proof {
            assert(link_views(links@) =~= Seq::<LinkView>::empty());
        }
        Subject {
            name,
            sort_as: None,
            code: None,
            scheme: None,
            links,
        }
    }

    /// Reads a subject from the members of an object.
    pub fn from_members(members: &Vec<(String, Value)>) -> (r: Result<Subject, ParseError>)
        ensures
            parsed(r) == subject_from_members(members_of(members@)),
            r matches Ok(x) ==> subject_wf(x@),
    {
        let name = match get_localized(members, "name") {
            Ok(x) => x,
            Err(e) => {
                return Err(e);
            },
        };
        let sort_as = match get_opt_localized(members, "sortAs") {
            Ok(x) => x,
            Err(e) => {
                return Err(e);
            },
        };
        let code = match get_opt_text(members, "code") {
            Ok(x) => x,
            Err(e) => {
                return Err(e);
            },
        };
        let scheme = match get_opt_url(members, "scheme") {
            Ok(x) => x,
            Err(e) => {
                return Err(e);
            },
        };
        let links = match get_link_list(members, "links") {
            Ok(x) => x,
            Err(e) => {
                return Err(e);
            },
        };
        Ok(Subject { name, sort_as, code, scheme, links })
    }

    /// Reads a subject from a value found under `field`.
    pub fn parse(v: &Value, field: &str) -> (r: Result<Subject, ParseError>)
        ensures
            parsed(r) == decode_subject(v@, field@),
            r matches Ok(x) ==> subject_wf(x@),
    {
        match v {
            Value::Object(members) => {
                Subject::from_members(members)
            },
            _ => Err(wrong_shape(field, shapes1(Shape::Object), v)),
        }
    }

    /// Reads a whole document as a subject. A document in which arrays and
    /// objects nest more deeply than [`MAX_DEPTH`] is refused before anything
    /// is read from it.
    pub fn from_value(v: &Value) -> (r: Result<Subject, ParseError>)
        ensures
            parsed(r) == subject_from_doc(v@),
            r matches Ok(x) ==> subject_wf(x@),
    {
        if !v.within_depth(MAX_DEPTH) {
            return Err(ParseError::RecursionLimitExceeded(MAX_DEPTH));
        }
        Subject::parse(v, "")
    }

    /// Writes the members of this subject.
    pub fn to_members(&self) -> (members: Vec<(String, Value)>)
        ensures
            members_of(members@) == subject_members(self@),
    {
        let mut m: Vec<(String, Value)> = Vec::new();
        assert(members_of(m@) =~= Seq::<(Seq<char>, Doc)>::empty());
        put_member(&mut m, "name", make_localized(&self.name));
        put_member(&mut m, "sortAs", make_opt_localized(&self.sort_as));
        put_member(&mut m, "code", make_opt_text(&self.code));
        put_member(&mut m, "scheme", make_opt_url(&self.scheme));
        put_member(&mut m, "links", make_link_list(&self.links));
        m
    }

    /// Writes this subject as a value: always the full object.
    pub fn to_value(&self) -> (v: Value)
        ensures
            v@ == encode_subject(self@),
    {
        Value::Object(self.to_members())
    }
}

/// A copy of a subject.
pub(crate) fn copy_subject(x: &Subject) -> (r: Subject)
    ensures
        r@ == x@,
{
    Subject {
        name: x.name.clone(),
        sort_as: copy_opt_localized(&x.sort_as),
        code: copy_opt_text(&x.code),
        scheme: copy_opt_text(&x.scheme),
        links: copy_link_seq(&x.links),
    }
}

impl Clone for Subject {
    /// A copy that holds the same.
    fn clone(&self) -> (r: Subject)
        ensures
            r@ == self@,
    {
        copy_subject(self)
    }
}

impl FromSpecImpl<String> for Subject {
    open spec fn obeys_from_spec() -> bool {
        false
    }

    open spec fn from_spec(name: String) -> Self {
        arbitrary()
    }
}

impl From<String> for Subject {
    /// The subject that has the text as its name, and nothing else.
    fn from(name: String) -> (r: Subject)
        ensures
            r@ == subject_new(Localized::Always(name@)),
            subject_wf(r@),
    {
        Subject::new(StringWithAlternates::Always(name))
    }
}

/// In the written form of a subject, each field's name leads to what that field
/// wrote.
pub proof fn lemma_subject_members(x: SubjectView)
    ensures
        lookup(subject_members(x), "name"@) == write_localized(x.name),
        lookup(subject_members(x), "sortAs"@) == write_opt_localized(x.sort_as),
        lookup(subject_members(x), "code"@) == write_opt_text(x.code),
        lookup(subject_members(x), "scheme"@) == write_opt_url(x.scheme),
        lookup(subject_members(x), "links"@) == write_link_list(x.links),
{
    broadcast use {lemma_lookup_after_put, lemma_lookup_empty};
    spell_name();
    spell_sort_as();
    spell_code();
    spell_scheme();
    spell_links();
}

/// A subject that is well formed, written and read again, is the same subject.
pub proof fn lemma_subject_round_trip(x: SubjectView, field: Seq<char>)
    requires
        subject_wf(x),
    ensures
        decode_subject(encode_subject(x), field) == Ok::<SubjectView, Fault>(x),
{
    lemma_subject_members(x);
    let m = subject_members(x);
    assert(read_localized(m, "name"@) == Ok::<Localized, Fault>(x.name)) by {
        lemma_localized_field_round_trip(x.name, m, "name"@);
    }
    assert(read_opt_localized(m, "sortAs"@) == Ok::<Option<Localized>, Fault>(x.sort_as)) by {
        lemma_opt_localized_round_trip(x.sort_as, m, "sortAs"@);
    }
    assert(read_opt_text(m, "code"@) == Ok::<Option<Seq<char>>, Fault>(x.code));
    assert(read_opt_url(m, "scheme"@) == Ok::<Option<Seq<char>>, Fault>(x.scheme));
    assert(read_link_list(m, "links"@) == Ok::<Seq<LinkView>, Fault>(x.links)) by {
        lemma_link_list_round_trip(x.links, m, "links"@);
    }
}

/// What the members of an object give as a subject is well formed.
pub proof fn lemma_subject_from_members_wf(m: Seq<(Seq<char>, Doc)>)
    ensures
        subject_from_members(m) matches Ok(x) ==> subject_wf(x),
{
    lemma_read_localized_wf(m, "name"@);
    lemma_read_opt_localized_wf(m, "sortAs"@);
    lemma_read_opt_url_wf(m, "scheme"@);
    lemma_read_link_list_wf(m, "links"@);
}

/// What is read as a subject is well formed.
pub proof fn lemma_decode_subject_wf(d: Doc, field: Seq<char>)
    ensures
        decode_subject(d, field) matches Ok(x) ==> subject_wf(x),
{
    if let Doc::Object(m) = d {
        lemma_subject_from_members_wf(m);
    }
}

/// A subject that was read, in whatever spelling, is read again as the same
/// subject from its written form.
pub proof fn lemma_subject_reread(d: Doc, field: Seq<char>)
    ensures
        decode_subject(d, field) matches Ok(x)
            ==> decode_subject(encode_subject(x), field) == Ok::<SubjectView, Fault>(x),
{
    lemma_decode_subject_wf(d, field);
    if let Ok(x) = decode_subject(d, field) {
        lemma_subject_round_trip(x, field);
    }
}

/// A subject that is well formed and whose written form nests no more deeply
/// than the ceiling is read back whole from that form.
pub proof fn lemma_subject_doc_round_trip(x: SubjectView)
    requires
        subject_wf(x),
        depth(encode_subject(x)) <= MAX_DEPTH,
    ensures
        subject_from_doc(encode_subject(x)) == Ok::<SubjectView, Fault>(x),
{
    lemma_subject_round_trip(x, ""@);
}

/// The models of a run of contributors.
pub open spec fn contributor_views(xs: Seq<Contributor>) -> Seq<ContributorView> {
    Seq::new(
        xs.len(),
        |i: int|
            if 0 <= i < xs.len() {
                contributor_view(xs[i])
            } else {
                arbitrary()
            },
    )
}

/// Whether every contributor of a run is well formed.
pub open spec fn contributor_seq_wf(xs: Seq<ContributorView>) -> bool {
    forall|i: int| 0 <= i < xs.len() ==> contributor_wf((#[trigger] xs[i]))
}

/// The contributors that the items of a sequence stand for, or the error
/// of the first item that stands for none.
pub open spec fn decode_contributor_seq(
    items: Seq<Doc>,
    field: Seq<char>,
) -> Result<Seq<ContributorView>, Fault>
    decreases items.len(),
{
    if items.len() == 0 {
        Ok(Seq::empty())
    } else {
        match decode_contributor_seq(items.drop_last(), field) {
            Err(e) => Err(e),
            Ok(init) => match decode_contributor(items.last(), field) {
                Err(e) => Err(e),
                Ok(x) => Ok(init.push(x)),
            },
        }
    }
}

/// The written forms of a run of contributors.
pub open spec fn encode_contributor_seq(xs: Seq<ContributorView>) -> Seq<Doc> {
    Seq::new(
        xs.len(),
        |i: int|
            if 0 <= i < xs.len() {
                encode_contributor(xs[i])
            } else {
                Doc::Null
            },
    )
}

/// Where the items before `i` can be read and item `i` cannot, the
/// sequence gives the error of item `i`.
pub proof fn lemma_contributor_seq_fails(items: Seq<Doc>, field: Seq<char>, i: int)
    requires
        0 <= i < items.len(),
        decode_contributor_seq(items.take(i), field) is Ok,
        decode_contributor(items[i], field) is Err,
    ensures
        decode_contributor_seq(items, field)
            == Err::<Seq<ContributorView>, Fault>(decode_contributor(items[i], field)->Err_0),
    decreases items.len(),
{
    if i == items.len() - 1 {
        assert(items.take(i) =~= items.drop_last());
    } else {
        assert(items.drop_last().take(i) =~= items.take(i));
        lemma_contributor_seq_fails(items.drop_last(), field, i);
    }
}

/// Reads the items of a sequence as contributors.
pub fn parse_contributor_seq(
    items: &Vec<Value>,
    field: &str,
) -> (r: Result<Vec<Contributor>, ParseError>)
    ensures
        match r {
            Ok(xs) => decode_contributor_seq(docs_of(items@), field@)
                == Ok::<Seq<ContributorView>, Fault>(contributor_views(xs@)),
            Err(e) => decode_contributor_seq(docs_of(items@), field@)
                == Err::<Seq<ContributorView>, Fault>(e@),
        },
        r matches Ok(xs) ==> contributor_seq_wf(contributor_views(xs@)),
{
    let mut out: Vec<Contributor> = Vec::new();
    let mut i: usize = 0;
    proof {
        assert(contributor_views(out@) =~= Seq::<ContributorView>::empty());
    }
    while i < items.len()
        invariant
            i <= items.len(),
            decode_contributor_seq(docs_of(items@).take(i as int), field@)
                == Ok::<Seq<ContributorView>, Fault>(
                contributor_views(out@),
            ),
            contributor_seq_wf(contributor_views(out@)),
        decreases items.len() - i,
    {
        let ghost all = docs_of(items@);
        let ghost before = out@;
        proof {
            assert(all.take(i + 1).drop_last() =~= all.take(i as int));
            assert(all.take(i + 1).last() == items@[i as int]@);
        }
        match Contributor::parse(&items[i], field) {
            Ok(x) => {
                let ghost one = contributor_view(x);
                out.push(x);
                proof {
                    assert(contributor_views(out@) =~= contributor_views(before).push(one));
                }
            },
            Err(e) => {
                proof {
                    lemma_contributor_seq_fails(all, field@, i as int);
                }
                return Err(e);
            },
        }
        i += 1;
    }
    proof {
        assert(docs_of(items@).take(i as int) =~= docs_of(items@));
    }
    Ok(out)
}

/// Writes a run of contributors.
pub fn emit_contributor_seq(xs: &Vec<Contributor>) -> (out: Vec<Value>)
    ensures
        docs_of(out@) == encode_contributor_seq(contributor_views(xs@)),
{
    let mut out: Vec<Value> = Vec::new();
    let mut i: usize = 0;
    while i < xs.len()
        invariant
            i <= xs.len(),
            out@.len() == i,
            forall|j: int| 0 <= j < i
                ==> (#[trigger] out@[j])@ == encode_contributor(contributor_view(xs@[j])),
        decreases xs.len() - i,
    {
        out.push(xs[i].to_value());
        i += 1;
    }
    proof {
        assert(docs_of(out@) =~= encode_contributor_seq(contributor_views(xs@)));
    }
    out
}

/// A run of well-formed contributors written and read again is the same
/// run.
pub proof fn lemma_contributor_seq_round_trip(xs: Seq<ContributorView>, field: Seq<char>)
    requires
        contributor_seq_wf(xs),
    ensures
        decode_contributor_seq(encode_contributor_seq(xs), field)
            == Ok::<Seq<ContributorView>, Fault>(xs),
    decreases xs.len(),
{
    if xs.len() > 0 {
        let docs = encode_contributor_seq(xs);
        assert(docs.drop_last() =~= encode_contributor_seq(xs.drop_last()));
        assert(contributor_seq_wf(xs.drop_last())) by {
            assert forall|i: int| 0 <= i < xs.drop_last().len()
                implies contributor_wf((#[trigger] xs.drop_last()[i])) by {
                assert(xs.drop_last()[i] == xs[i]);
            }
        }
        lemma_contributor_seq_round_trip(xs.drop_last(), field);
        assert(contributor_wf(xs.last()));
        lemma_contributor_round_trip(xs.last(), field);
        assert(xs.drop_last().push(xs.last()) =~= xs);
    } else {
        assert(xs =~= Seq::<ContributorView>::empty());
    }
}

/// A copy of a run of contributors.
pub(crate) fn copy_contributor_seq(xs: &Vec<Contributor>) -> (out: Vec<Contributor>)
    ensures
        contributor_views(out@) == contributor_views(xs@),
{
    let mut out: Vec<Contributor> = Vec::new();
    let mut i: usize = 0;
    while i < xs.len()
        invariant
            i <= xs.len(),
            out@.len() == i,
            forall|j: int| 0 <= j < i
                ==> contributor_view((#[trigger] out@[j])) == contributor_view(xs@[j]),
        decreases xs.len() - i,
    {
        out.push(copy_contributor(&xs[i]));
        i += 1;
    }
    proof {
        assert(contributor_views(out@) =~= contributor_views(xs@));
    }
    out
}

/// What the items of a sequence give as contributors is well formed.
pub proof fn lemma_decode_contributor_seq_wf(items: Seq<Doc>, field: Seq<char>)
    ensures
        decode_contributor_seq(items, field) matches Ok(xs) ==> contributor_seq_wf(xs),
    decreases items.len(),
{
    if items.len() > 0 {
        lemma_decode_contributor_seq_wf(items.drop_last(), field);
        lemma_decode_contributor_wf(items.last(), field);
        if let Ok(init) = decode_contributor_seq(items.drop_last(), field) {
            if let Ok(x) = decode_contributor(items.last(), field) {
                let xs = init.push(x);
                assert forall|i: int| 0 <= i < xs.len()
                    implies contributor_wf((#[trigger] xs[i])) by {
                    if i < init.len() {
                        assert(xs[i] == init[i]);
                    }
                }
            }
        }
    }
}

/// What a field of contributors gives that may be written as one bare
/// contributor is well formed.
pub proof fn lemma_read_contributor_flat_wf(m: Seq<(Seq<char>, Doc)>, key: Seq<char>)
    ensures
        read_contributor_flat(m, key) matches Ok(xs) ==> contributor_seq_wf(xs),
{
    lemma_index_of(m, key);
    let i = index_of(m, key);
    if 0 <= i < m.len() {
        if let Doc::Array(items) = m[i].1 {
            lemma_decode_contributor_seq_wf(items, key);
        } else {
            lemma_decode_contributor_wf(m[i].1, key);
        }
    }
}

/// What a field of contributors holds that may be written as one bare
/// contributor: nothing where it is absent, the items of a sequence, or the
/// one contributor that stands there.
pub open spec fn read_contributor_flat(
    m: Seq<(Seq<char>, Doc)>,
    key: Seq<char>,
) -> Result<Seq<ContributorView>, Fault> {
    let i = index_of(m, key);
    if 0 <= i < m.len() {
        match m[i].1 {
            Doc::Array(items) => decode_contributor_seq(items, key),
            _ => if shape_of(m[i].1) == Shape::String || shape_of(m[i].1) == Shape::Object {
                match decode_contributor(m[i].1, key) {
                    Ok(x) => Ok(seq![x]),
                    Err(e) => Err(e),
                }
            } else {
                Err(mismatch(key, flat_named_shapes(), shape_of(m[i].1)))
            },
        }
    } else {
        Ok(Seq::empty())
    }
}

/// The written form of such a field: left out where the list is empty,
/// the bare contributor where there is one, a sequence otherwise.
pub open spec fn write_contributor_flat(xs: Seq<ContributorView>) -> Option<Doc> {
    collapsed(encode_contributor_seq(xs))
}

/// Reads a field of contributors that may be written as one bare contributor.
pub fn get_contributor_flat(
    members: &Vec<(String, Value)>,
    key: &str,
) -> (r: Result<Vec<Contributor>, ParseError>)
    ensures
        match r {
            Ok(xs) => read_contributor_flat(members_of(members@), key@)
                == Ok::<Seq<ContributorView>, Fault>(contributor_views(xs@)),
            Err(e) => read_contributor_flat(members_of(members@), key@)
                == Err::<Seq<ContributorView>, Fault>(e@),
        },
        r matches Ok(xs) ==> contributor_seq_wf(contributor_views(xs@)),
{
    match position(members, key) {
        None => {
            let xs: Vec<Contributor> = Vec::new();
            proof {
                assert(contributor_views(xs@) =~= Seq::<ContributorView>::empty());
            }
            Ok(xs)
        },
        Some(i) => {
            proof {
                assert(members_of(members@)[i as int].1 == members@[i as int].1@);
            }
            match &members[i].1 {
                Value::Array(items) => {
                    match parse_contributor_seq(items, key) {
                        Ok(xs) => Ok(FlattenedVec::Vec(xs).into_vec()),
                        Err(e) => Err(e),
                    }
                },
                v => {
                    let shape = v.shape();
                    if shape == Shape::String || shape == Shape::Object {
                        match Contributor::parse(v, key) {
                            Ok(x) => {
                                let ghost one = contributor_view(x);
                                let xs = FlattenedVec::Singleton(x).into_vec();
                                proof {
                                    assert(contributor_views(xs@) =~= seq![one]);
                                }
                                Ok(xs)
                            },
                            Err(e) => Err(e),
                        }
                    } else {
                        Err(wrong_shape(key, shapes3(Shape::String, Shape::Object, Shape::Array), v))
                    }
                },
            }
        },
    }
}

/// Writes a field of contributors that may be cut short.
pub fn make_contributor_flat(xs: &Vec<Contributor>) -> (r: Option<Value>)
    ensures
        opt_doc(r) == write_contributor_flat(contributor_views(xs@)),
{
    collapse(emit_contributor_seq(xs))
}

/// A field of well-formed contributors that may be cut short holds the same
/// contributors when it is written and read again.
pub proof fn lemma_contributor_flat_round_trip(
    xs: Seq<ContributorView>,
    m: Seq<(Seq<char>, Doc)>,
    key: Seq<char>,
)
    requires
        contributor_seq_wf(xs),
        lookup(m, key) == write_contributor_flat(xs),
    ensures
        read_contributor_flat(m, key) == Ok::<Seq<ContributorView>, Fault>(xs),
{
    lemma_lookup_index(m, key);
    if xs.len() == 0 {
        assert(xs =~= Seq::<ContributorView>::empty());
    } else if xs.len() == 1 {
        assert(contributor_wf(xs[0]));
        lemma_contributor_round_trip(xs[0], key);
        assert(encode_contributor_seq(xs)[0] == encode_contributor(xs[0]));
        assert(seq![xs[0]] =~= xs);
    } else {
        lemma_contributor_seq_round_trip(xs, key);
    }
}

/// The models of a run of subjects.
pub open spec fn subject_views(xs: Seq<Subject>) -> Seq<SubjectView> {
    Seq::new(
        xs.len(),
        |i: int|
            if 0 <= i < xs.len() {
                subject_view(xs[i])
            } else {
                arbitrary()
            },
    )
}

/// Whether every subject of a run is well formed.
pub open spec fn subject_seq_wf(xs: Seq<SubjectView>) -> bool {
    forall|i: int| 0 <= i < xs.len() ==> subject_wf((#[trigger] xs[i]))
}

/// The subjects that the items of a sequence stand for, or the error
/// of the first item that stands for none.
pub open spec fn decode_subject_seq(
    items: Seq<Doc>,
    field: Seq<char>,
) -> Result<Seq<SubjectView>, Fault>
    decreases items.len(),
{
    if items.len() == 0 {
        Ok(Seq::empty())
    } else {
        match decode_subject_seq(items.drop_last(), field) {
            Err(e) => Err(e),
            Ok(init) => match decode_subject(items.last(), field) {
                Err(e) => Err(e),
                Ok(x) => Ok(init.push(x)),
            },
        }
    }
}

/// The written forms of a run of subjects.
pub open spec fn encode_subject_seq(xs: Seq<SubjectView>) -> Seq<Doc> {
    Seq::new(
        xs.len(),
        |i: int|
            if 0 <= i < xs.len() {
                encode_subject(xs[i])
            } else {
                Doc::Null
            },
    )
}

/// Where the items before `i` can be read and item `i` cannot, the
/// sequence gives the error of item `i`.
pub proof fn lemma_subject_seq_fails(items: Seq<Doc>, field: Seq<char>, i: int)
    requires
        0 <= i < items.len(),
        decode_subject_seq(items.take(i), field) is Ok,
        decode_subject(items[i], field) is Err,
    ensures
        decode_subject_seq(items, field)
            == Err::<Seq<SubjectView>, Fault>(decode_subject(items[i], field)->Err_0),
    decreases items.len(),
{
    if i == items.len() - 1 {
        assert(items.take(i) =~= items.drop_last());
    } else {
        assert(items.drop_last().take(i) =~= items.take(i));
        lemma_subject_seq_fails(items.drop_last(), field, i);
    }
}

/// Reads the items of a sequence as subjects.
pub fn parse_subject_seq(items: &Vec<Value>, field: &str) -> (r: Result<Vec<Subject>, ParseError>)
    ensures
        match r {
            Ok(xs) => decode_subject_seq(docs_of(items@), field@)
                == Ok::<Seq<SubjectView>, Fault>(subject_views(xs@)),
            Err(e) => decode_subject_seq(docs_of(items@), field@)
                == Err::<Seq<SubjectView>, Fault>(e@),
        },
        r matches Ok(xs) ==> subject_seq_wf(subject_views(xs@)),
{
    let mut out: Vec<Subject> = Vec::new();
    let mut i: usize = 0;
    proof {
        assert(subject_views(out@) =~= Seq::<SubjectView>::empty());
    }
    while i < items.len()
        invariant
            i <= items.len(),
            decode_subject_seq(docs_of(items@).take(i as int), field@)
                == Ok::<Seq<SubjectView>, Fault>(
                subject_views(out@),
            ),
            subject_seq_wf(subject_views(out@)),
        decreases items.len() - i,
    {
        let ghost all = docs_of(items@);
        let ghost before = out@;
        proof {
            assert(all.take(i + 1).drop_last() =~= all.take(i as int));
            assert(all.take(i + 1).last() == items@[i as int]@);
        }
        match Subject::parse(&items[i], field) {
            Ok(x) => {
                let ghost one = subject_view(x);
                out.push(x);
                proof {
                    assert(subject_views(out@) =~= subject_views(before).push(one));
                }
            },
            Err(e) => {
                proof {
                    lemma_subject_seq_fails(all, field@, i as int);
                }
                return Err(e);
            },
        }
        i += 1;
    }
    proof {
        assert(docs_of(items@).take(i as int) =~= docs_of(items@));
    }
    Ok(out)
}

/// Writes a run of subjects.
pub fn emit_subject_seq(xs: &Vec<Subject>) -> (out: Vec<Value>)
    ensures
        docs_of(out@) == encode_subject_seq(subject_views(xs@)),
{
    let mut out: Vec<Value> = Vec::new();
    let mut i: usize = 0;
    while i < xs.len()
        invariant
            i <= xs.len(),
            out@.len() == i,
            forall|j: int| 0 <= j < i
                ==> (#[trigger] out@[j])@ == encode_subject(subject_view(xs@[j])),
        decreases xs.len() - i,
    {
        out.push(xs[i].to_value());
        i += 1;
    }
    proof {
        assert(docs_of(out@) =~= encode_subject_seq(subject_views(xs@)));
    }
    out
}

/// A run of well-formed subjects written and read again is the same
/// run.
pub proof fn lemma_subject_seq_round_trip(xs: Seq<SubjectView>, field: Seq<char>)
    requires
        subject_seq_wf(xs),
    ensures
        decode_subject_seq(encode_subject_seq(xs), field) == Ok::<Seq<SubjectView>, Fault>(xs),
    decreases xs.len(),
{
    if xs.len() > 0 {
        let docs = encode_subject_seq(xs);
        assert(docs.drop_last() =~= encode_subject_seq(xs.drop_last()));
        assert(subject_seq_wf(xs.drop_last())) by {
            assert forall|i: int| 0 <= i < xs.drop_last().len()
                implies subject_wf((#[trigger] xs.drop_last()[i])) by {
                assert(xs.drop_last()[i] == xs[i]);
            }
        }
        lemma_subject_seq_round_trip(xs.drop_last(), field);
        assert(subject_wf(xs.last()));
        lemma_subject_round_trip(xs.last(), field);
        assert(xs.drop_last().push(xs.last()) =~= xs);
    } else {
        assert(xs =~= Seq::<SubjectView>::empty());
    }
}

/// A copy of a run of subjects.
pub(crate) fn copy_subject_seq(xs: &Vec<Subject>) -> (out: Vec<Subject>)
    ensures
        subject_views(out@) == subject_views(xs@),
{
    let mut out: Vec<Subject> = Vec::new();
    let mut i: usize = 0;
    while i < xs.len()
        invariant
            i <= xs.len(),
            out@.len() == i,
            forall|j: int| 0 <= j < i
                ==> subject_view((#[trigger] out@[j])) == subject_view(xs@[j]),
        decreases xs.len() - i,
    {
        out.push(copy_subject(&xs[i]));
        i += 1;
    }
    proof {
        assert(subject_views(out@) =~= subject_views(xs@));
    }
    out
}

/// What the items of a sequence give as subjects is well formed.
pub proof fn lemma_decode_subject_seq_wf(items: Seq<Doc>, field: Seq<char>)
    ensures
        decode_subject_seq(items, field) matches Ok(xs) ==> subject_seq_wf(xs),
    decreases items.len(),
{
    if items.len() > 0 {
        lemma_decode_subject_seq_wf(items.drop_last(), field);
        lemma_decode_subject_wf(items.last(), field);
        if let Ok(init) = decode_subject_seq(items.drop_last(), field) {
            if let Ok(x) = decode_subject(items.last(), field) {
                let xs = init.push(x);
                assert forall|i: int| 0 <= i < xs.len() implies subject_wf((#[trigger] xs[i])) by {
                    if i < init.len() {
                        assert(xs[i] == init[i]);
                    }
                }
            }
        }
    }
}

/// What a list field of subjects gives is well formed.
pub proof fn lemma_read_subject_list_wf(m: Seq<(Seq<char>, Doc)>, key: Seq<char>)
    ensures
        read_subject_list(m, key) matches Ok(xs) ==> subject_seq_wf(xs),
{
    lemma_index_of(m, key);
    let i = index_of(m, key);
    if 0 <= i < m.len() {
        if let Doc::Array(items) = m[i].1 {
            lemma_decode_subject_seq_wf(items, key);
        }
    }
}

/// What a list field of subjects holds: nothing where it is absent.
pub open spec fn read_subject_list(
    m: Seq<(Seq<char>, Doc)>,
    key: Seq<char>,
) -> Result<Seq<SubjectView>, Fault> {
    let i = index_of(m, key);
    if 0 <= i < m.len() {
        match m[i].1 {
            Doc::Array(items) => decode_subject_seq(items, key),
            _ => Err(mismatch(key, list_shapes(), shape_of(m[i].1))),
        }
    } else {
        Ok(Seq::empty())
    }
}

/// The written form of such a field: left out where the list is empty.
pub open spec fn write_subject_list(xs: Seq<SubjectView>) -> Option<Doc> {
    listed(encode_subject_seq(xs))
}

/// Reads a list field of subjects.
pub fn get_subject_list(
    members: &Vec<(String, Value)>,
    key: &str,
) -> (r: Result<Vec<Subject>, ParseError>)
    ensures
        match r {
            Ok(xs) => read_subject_list(members_of(members@), key@)
                == Ok::<Seq<SubjectView>, Fault>(subject_views(xs@)),
            Err(e) => read_subject_list(members_of(members@), key@)
                == Err::<Seq<SubjectView>, Fault>(e@),
        },
        r matches Ok(xs) ==> subject_seq_wf(subject_views(xs@)),
{
    match position(members, key) {
        None => {
            let xs: Vec<Subject> = Vec::new();
            proof {
                assert(subject_views(xs@) =~= Seq::<SubjectView>::empty());
            }
            Ok(xs)
        },
        Some(i) => {
            proof {
                assert(members_of(members@)[i as int].1 == members@[i as int].1@);
            }
            match &members[i].1 {
                Value::Array(items) => {
                    parse_subject_seq(items, key)
                },
                v => Err(wrong_shape(key, shapes1(Shape::Array), v)),
            }
        },
    }
}

/// Writes a list field of subjects.
pub fn make_subject_list(xs: &Vec<Subject>) -> (r: Option<Value>)
    ensures
        opt_doc(r) == write_subject_list(subject_views(xs@)),
{
    plain(emit_subject_seq(xs))
}

/// A list field of well-formed subjects, written and read again, holds
/// the same subjects.
pub proof fn lemma_subject_list_round_trip(
    xs: Seq<SubjectView>,
    m: Seq<(Seq<char>, Doc)>,
    key: Seq<char>,
)
    requires
        subject_seq_wf(xs),
        lookup(m, key) == write_subject_list(xs),
    ensures
        read_subject_list(m, key) == Ok::<Seq<SubjectView>, Fault>(xs),
{
    lemma_lookup_index(m, key);
    if xs.len() == 0 {
        assert(xs =~= Seq::<SubjectView>::empty());
    } else {
        lemma_subject_seq_round_trip(xs, key);
    }
}

} // verus!
