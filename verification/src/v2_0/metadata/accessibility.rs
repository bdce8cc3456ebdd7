//! Accessibility metadata of a publication.
use vstd::prelude::*;
use crate::error::{Fault, ParseError, mismatch, parsed, record_shapes};
use crate::helpers::{
    get_opt_text, make_opt_text, read_opt_text, shapes1, write_opt_text, wrong_shape,
};
use crate::text::{copy_opt_text, copy_plain, copy_texts, opt_text, texts_of};
use crate::v2_0::metadata::access::{
    AccessMode, AccessibilityExemption, AccessibilityHazard, get_access_mode_list,
    get_accessibility_hazard_list, get_opt_accessibility_exemption,
    lemma_access_mode_seq_round_trip, lemma_accessibility_exemption_round_trip,
    lemma_accessibility_hazard_seq_round_trip, make_access_mode_list,
    make_accessibility_hazard_list, make_opt_accessibility_exemption, read_access_mode_list,
    read_accessibility_hazard_list, read_opt_accessibility_exemption, write_access_mode_list,
    write_accessibility_hazard_list, write_opt_accessibility_exemption,
};
use crate::v2_0::metadata::feature::{
    AccessibilityFeature, get_accessibility_feature_list,
    lemma_accessibility_feature_seq_round_trip, make_accessibility_feature_list,
    read_accessibility_feature_list, write_accessibility_feature_list,
};
use crate::v2_0::metadata::identifier::{
    get_url_flat, lemma_read_url_flat_wf, lemma_url_flat_round_trip, make_url_flat, read_url_flat,
    urls_wf, write_url_flat,
};
use crate::v2_0::spelling::{
    spell_access_mode, spell_certification, spell_certified_by, spell_conforms_to,
    spell_credential, spell_exemption, spell_feature, spell_hazard, spell_report, spell_summary,
};
use crate::value::{
    Doc, MAX_DEPTH, Shape, Value, depth, index_of, lemma_index_of, lemma_lookup_after_put,
    lemma_lookup_empty, lemma_lookup_index, lookup, members_of, opt_doc, position, put,
    put_member, shape_of,
};

verus! {

/// Who certified the accessibility of a publication, and where that is stated.
#[derive(Debug, PartialEq, Eq)]
pub struct AccessbilityCertification {
    pub certified_by: Option<String>,
    pub credential: Option<String>,
    pub report: Option<String>,
}

/// The mathematical model of a certification.
pub struct AccessbilityCertificationView {
    pub certified_by: Option<Seq<char>>,
    pub credential: Option<Seq<char>>,
    pub report: Option<Seq<char>>,
}

/// The model of a certification.
pub open spec fn accessibility_certification_view(
    x: AccessbilityCertification,
) -> AccessbilityCertificationView {
    AccessbilityCertificationView {
        certified_by: opt_text(x.certified_by),
        credential: opt_text(x.credential),
        report: opt_text(x.report),
    }
}

impl View for AccessbilityCertification {
    type V = AccessbilityCertificationView;

    open spec fn view(&self) -> AccessbilityCertificationView {
        accessibility_certification_view(*self)
    }
}

/// A certification is well formed when everything it holds is.
pub open spec fn accessibility_certification_wf(x: AccessbilityCertificationView) -> bool {
    true
}

/// The members that a certification is written as: one for each field that
/// holds something, in the order of the fields.
pub open spec fn accessibility_certification_members(
    x: AccessbilityCertificationView,
) -> Seq<(Seq<char>, Doc)> {
    let m = Seq::<(Seq<char>, Doc)>::empty();
    let m = put(m, "certifiedBy"@, write_opt_text(x.certified_by));
    let m = put(m, "credential"@, write_opt_text(x.credential));
    let m = put(m, "report"@, write_opt_text(x.report));
    m
}

/// The written form of a certification: always the full object.
pub open spec fn encode_accessibility_certification(x: AccessbilityCertificationView) -> Doc {
    Doc::Object(accessibility_certification_members(x))
}

/// The certification that the members of an object stand for, or the error of
/// the first field, in the order of the fields, that cannot be read.
pub open spec fn accessibility_certification_from_members(
    m: Seq<(Seq<char>, Doc)>,
) -> Result<AccessbilityCertificationView, Fault> {
    let certified_by = read_opt_text(m, "certifiedBy"@);
    let credential = read_opt_text(m, "credential"@);
    let report = read_opt_text(m, "report"@);
    if certified_by is Err {
        Err(certified_by->Err_0)
    } else if credential is Err {
        Err(credential->Err_0)
    } else if report is Err {
        Err(report->Err_0)
    } else {
        Ok(AccessbilityCertificationView {
            certified_by: certified_by->Ok_0,
            credential: credential->Ok_0,
            report: report->Ok_0,
        })
    }
}

/// The certification that a value stands for: an object.
pub open spec fn decode_accessibility_certification(
    d: Doc,
    field: Seq<char>,
) -> Result<AccessbilityCertificationView, Fault> {
    match d {
        Doc::Object(m) => accessibility_certification_from_members(m),
        _ => Err(mismatch(field, record_shapes(), shape_of(d))),
    }
}

/// What reading a whole document as a certification gives: an error where
/// arrays and objects nest more deeply than the ceiling.
pub open spec fn accessibility_certification_from_doc(
    d: Doc,
) -> Result<AccessbilityCertificationView, Fault> {
    if depth(d) > MAX_DEPTH {
        Err(Fault::RecursionLimitExceeded(MAX_DEPTH))
    } else {
        decode_accessibility_certification(d, ""@)
    }
}

impl AccessbilityCertification {
    /// Reads a certification from the members of an object.
    pub fn from_members(
        members: &Vec<(String, Value)>,
    ) -> (r: Result<AccessbilityCertification, ParseError>)
        ensures
            parsed(r) == accessibility_certification_from_members(members_of(members@)),
            r matches Ok(x) ==> accessibility_certification_wf(x@),
    {
        let certified_by = match get_opt_text(members, "certifiedBy") {
            Ok(x) => x,
            Err(e) => {
                return Err(e);
            },
        };
        let credential = match get_opt_text(members, "credential") {
            Ok(x) => x,
            Err(e) => {
                return Err(e);
            },
        };
        let report = match get_opt_text(members, "report") {
            Ok(x) => x,
            Err(e) => {
                return Err(e);
            },
        };
        Ok(AccessbilityCertification { certified_by, credential, report })
    }

    /// Reads a certification from a value found under `field`.
    pub fn parse(v: &Value, field: &str) -> (r: Result<AccessbilityCertification, ParseError>)
        ensures
            parsed(r) == decode_accessibility_certification(v@, field@),
            r matches Ok(x) ==> accessibility_certification_wf(x@),
    {
        match v {
            Value::Object(members) => {
                AccessbilityCertification::from_members(members)
            },
            _ => Err(wrong_shape(field, shapes1(Shape::Object), v)),
        }
    }

    /// Reads a whole document as a certification. A document in which arrays
    /// and objects nest more deeply than [`MAX_DEPTH`] is refused before
    /// anything is read from it.
    pub fn from_value(v: &Value) -> (r: Result<AccessbilityCertification, ParseError>)
        ensures
            parsed(r) == accessibility_certification_from_doc(v@),
            r matches Ok(x) ==> accessibility_certification_wf(x@),
    {
        if !v.within_depth(MAX_DEPTH) {
            return Err(ParseError::RecursionLimitExceeded(MAX_DEPTH));
        }
        AccessbilityCertification::parse(v, "")
    }

    /// Writes the members of this certification.
    pub fn to_members(&self) -> (members: Vec<(String, Value)>)
        ensures
            members_of(members@) == accessibility_certification_members(self@),
    {
        let mut m: Vec<(String, Value)> = Vec::new();
        assert(members_of(m@) =~= Seq::<(Seq<char>, Doc)>::empty());
        put_member(&mut m, "certifiedBy", make_opt_text(&self.certified_by));
        put_member(&mut m, "credential", make_opt_text(&self.credential));
        put_member(&mut m, "report", make_opt_text(&self.report));
        m
    }

    /// Writes this certification as a value: always the full object.
    pub fn to_value(&self) -> (v: Value)
        ensures
            v@ == encode_accessibility_certification(self@),
    {
        Value::Object(self.to_members())
    }
}

/// A copy of a certification.
pub(crate) fn copy_accessibility_certification(
    x: &AccessbilityCertification,
) -> (r: AccessbilityCertification)
    ensures
        r@ == x@,
{
    AccessbilityCertification {
        certified_by: copy_opt_text(&x.certified_by),
        credential: copy_opt_text(&x.credential),
        report: copy_opt_text(&x.report),
    }
}

impl Clone for AccessbilityCertification {
    /// A copy that holds the same.
    fn clone(&self) -> (r: AccessbilityCertification)
        ensures
            r@ == self@,
    {
        copy_accessibility_certification(self)
    }
}

/// In the written form of a certification, each field's name leads to what that
/// field wrote.
pub proof fn lemma_accessibility_certification_members(x: AccessbilityCertificationView)
    ensures
        lookup(accessibility_certification_members(x), "certifiedBy"@)
            == write_opt_text(x.certified_by),
        lookup(accessibility_certification_members(x), "credential"@)
            == write_opt_text(x.credential),
        lookup(accessibility_certification_members(x), "report"@) == write_opt_text(x.report),
{
    broadcast use {lemma_lookup_after_put, lemma_lookup_empty};
    spell_certified_by();
    spell_credential();
    spell_report();
}

/// A certification that is well formed, written and read again, is the same
/// certification.
pub proof fn lemma_accessibility_certification_round_trip(
    x: AccessbilityCertificationView,
    field: Seq<char>,
)
    requires
        accessibility_certification_wf(x),
    ensures
        decode_accessibility_certification(encode_accessibility_certification(x), field)
            == Ok::<AccessbilityCertificationView, Fault>(x),
{
    lemma_accessibility_certification_members(x);
    let m = accessibility_certification_members(x);
    assert(read_opt_text(m, "certifiedBy"@) == Ok::<Option<Seq<char>>, Fault>(x.certified_by));
    assert(read_opt_text(m, "credential"@) == Ok::<Option<Seq<char>>, Fault>(x.credential));
    assert(read_opt_text(m, "report"@) == Ok::<Option<Seq<char>>, Fault>(x.report));
}

/// What the members of an object give as a certification is well formed.
pub proof fn lemma_accessibility_certification_from_members_wf(m: Seq<(Seq<char>, Doc)>)
    ensures
        accessibility_certification_from_members(m) matches Ok(x)
            ==> accessibility_certification_wf(x),
{
}

/// What is read as a certification is well formed.
pub proof fn lemma_decode_accessibility_certification_wf(d: Doc, field: Seq<char>)
    ensures
        decode_accessibility_certification(d, field) matches Ok(x)
            ==> accessibility_certification_wf(x),
{
    if let Doc::Object(m) = d {
        lemma_accessibility_certification_from_members_wf(m);
    }
}

/// A certification that was read, in whatever spelling, is read again as the
/// same certification from its written form.
pub proof fn lemma_accessibility_certification_reread(d: Doc, field: Seq<char>)
    ensures
        decode_accessibility_certification(d, field) matches Ok(x)
            ==> decode_accessibility_certification(encode_accessibility_certification(x), field)
                == Ok::<AccessbilityCertificationView, Fault>(x),
{
    lemma_decode_accessibility_certification_wf(d, field);
    if let Ok(x) = decode_accessibility_certification(d, field) {
        lemma_accessibility_certification_round_trip(x, field);
    }
}

/// A certification that is well formed and whose written form nests no more
/// deeply than the ceiling is read back whole from that form.
pub proof fn lemma_accessibility_certification_doc_round_trip(x: AccessbilityCertificationView)
    requires
        accessibility_certification_wf(x),
        depth(encode_accessibility_certification(x)) <= MAX_DEPTH,
    ensures
        accessibility_certification_from_doc(encode_accessibility_certification(x))
            == Ok::<AccessbilityCertificationView, Fault>(x),
{
    lemma_accessibility_certification_round_trip(x, ""@);
}

/// Accessibility metadata for a publication.
#[derive(Debug, PartialEq, Eq)]
pub struct AccessibilityMetadata {
    /// The profiles that the publication conforms to, each the canonical text
    /// of a URL.
    pub conforms_to: Vec<String>,
    pub exemption: Option<AccessibilityExemption>,
    pub access_mode: Vec<AccessMode>,
    pub feature: Vec<AccessibilityFeature>,
    pub hazard: Vec<AccessibilityHazard>,
    pub certification: Option<AccessbilityCertification>,
    pub summary: Option<String>,
}

/// The mathematical model of a record of accessibility.
pub struct AccessibilityMetadataView {
    pub conforms_to: Seq<Seq<char>>,
    pub exemption: Option<AccessibilityExemption>,
    pub access_mode: Seq<AccessMode>,
    pub feature: Seq<AccessibilityFeature>,
    pub hazard: Seq<AccessibilityHazard>,
    pub certification: Option<AccessbilityCertificationView>,
    pub summary: Option<Seq<char>>,
}

/// The model of a record of accessibility.
pub open spec fn accessibility_metadata_view(
    x: AccessibilityMetadata,
) -> AccessibilityMetadataView {
    AccessibilityMetadataView {
        conforms_to: texts_of(x.conforms_to@),
        exemption: x.exemption,
        access_mode: x.access_mode@,
        feature: x.feature@,
        hazard: x.hazard@,
        certification: opt_accessibility_certification(x.certification),
        summary: opt_text(x.summary),
    }
}

impl View for AccessibilityMetadata {
    type V = AccessibilityMetadataView;

    open spec fn view(&self) -> AccessibilityMetadataView {
        accessibility_metadata_view(*self)
    }
}

/// A record of accessibility is well formed when everything it holds is.
pub open spec fn accessibility_metadata_wf(x: AccessibilityMetadataView) -> bool {
    &&& urls_wf(x.conforms_to)
    &&& opt_accessibility_certification_wf(x.certification)
}

/// The members that a record of accessibility is written as: one for each field
/// that holds something, in the order of the fields.
pub open spec fn accessibility_metadata_members(
    x: AccessibilityMetadataView,
) -> Seq<(Seq<char>, Doc)> {
    let m = Seq::<(Seq<char>, Doc)>::empty();
    let m = put(m, "conformsTo"@, write_url_flat(x.conforms_to));
    let m = put(m, "exemption"@, write_opt_accessibility_exemption(x.exemption));
    let m = put(m, "accessMode"@, write_access_mode_list(x.access_mode));
    let m = put(m, "feature"@, write_accessibility_feature_list(x.feature));
    let m = put(m, "hazard"@, write_accessibility_hazard_list(x.hazard));
    let m = put(m, "certification"@, write_opt_accessibility_certification(x.certification));
    let m = put(m, "summary"@, write_opt_text(x.summary));
    m
}

/// The written form of a record of accessibility: always the full object.
pub open spec fn encode_accessibility_metadata(x: AccessibilityMetadataView) -> Doc {
    Doc::Object(accessibility_metadata_members(x))
}

/// The record of accessibility that the members of an object stand for, or the
/// error of the first field, in the order of the fields, that cannot be read.
pub open spec fn accessibility_metadata_from_members(
    m: Seq<(Seq<char>, Doc)>,
) -> Result<AccessibilityMetadataView, Fault> {
    let conforms_to = read_url_flat(m, "conformsTo"@);
    let exemption = read_opt_accessibility_exemption(m, "exemption"@);
    let access_mode = read_access_mode_list(m, "accessMode"@);
    let feature = read_accessibility_feature_list(m, "feature"@);
    let hazard = read_accessibility_hazard_list(m, "hazard"@);
    let certification = read_opt_accessibility_certification(m, "certification"@);
    let summary = read_opt_text(m, "summary"@);
    if conforms_to is Err {
        Err(conforms_to->Err_0)
    } else if exemption is Err {
        Err(exemption->Err_0)
    } else if access_mode is Err {
        Err(access_mode->Err_0)
    } else if feature is Err {
        Err(feature->Err_0)
    } else if hazard is Err {
        Err(hazard->Err_0)
    } else if certification is Err {
        Err(certification->Err_0)
    } else if summary is Err {
        Err(summary->Err_0)
    } else {
        Ok(AccessibilityMetadataView {
            conforms_to: conforms_to->Ok_0,
            exemption: exemption->Ok_0,
            access_mode: access_mode->Ok_0,
            feature: feature->Ok_0,
            hazard: hazard->Ok_0,
            certification: certification->Ok_0,
            summary: summary->Ok_0,
        })
    }
}

/// The record of accessibility that a value stands for: an object.
pub open spec fn decode_accessibility_metadata(
    d: Doc,
    field: Seq<char>,
) -> Result<AccessibilityMetadataView, Fault> {
    match d {
        Doc::Object(m) => accessibility_metadata_from_members(m),
        _ => Err(mismatch(field, record_shapes(), shape_of(d))),
    }
}

/// What reading a whole document as a record of accessibility gives: an error
/// where arrays and objects nest more deeply than the ceiling.
pub open spec fn accessibility_metadata_from_doc(
    d: Doc,
) -> Result<AccessibilityMetadataView, Fault> {
    if depth(d) > MAX_DEPTH {
        Err(Fault::RecursionLimitExceeded(MAX_DEPTH))
    } else {
        decode_accessibility_metadata(d, ""@)
    }
}

impl AccessibilityMetadata {
    /// Reads a record of accessibility from the members of an object.
    pub fn from_members(
        members: &Vec<(String, Value)>,
    ) -> (r: Result<AccessibilityMetadata, ParseError>)
        ensures
            parsed(r) == accessibility_metadata_from_members(members_of(members@)),
            r matches Ok(x) ==> accessibility_metadata_wf(x@),
    {
        let conforms_to = match get_url_flat(members, "conformsTo") {
            Ok(x) => x,
            Err(e) => {
                return Err(e);
            },
        };
        let exemption = match get_opt_accessibility_exemption(members, "exemption") {
            Ok(x) => x,
            Err(e) => {
                return Err(e);
            },
        };
        let access_mode = match get_access_mode_list(members, "accessMode") {
            Ok(x) => x,
            Err(e) => {
                return Err(e);
            },
        };
        let feature = match get_accessibility_feature_list(members, "feature") {
            Ok(x) => x,
            Err(e) => {
                return Err(e);
            },
        };
        let hazard = match get_accessibility_hazard_list(members, "hazard") {
            Ok(x) => x,
            Err(e) => {
                return Err(e);
            },
        };
        let certification = match get_opt_accessibility_certification(members, "certification") {
            Ok(x) => x,
            Err(e) => {
                return Err(e);
            },
        };
        let summary = match get_opt_text(members, "summary") {
            Ok(x) => x,
            Err(e) => {
                return Err(e);
            },
        };
        Ok(AccessibilityMetadata {
            conforms_to,
            exemption,
            access_mode,
            feature,
            hazard,
            certification,
            summary,
        })
    }

    /// Reads a record of accessibility from a value found under `field`.
    pub fn parse(v: &Value, field: &str) -> (r: Result<AccessibilityMetadata, ParseError>)
        ensures
            parsed(r) == decode_accessibility_metadata(v@, field@),
            r matches Ok(x) ==> accessibility_metadata_wf(x@),
    {
        match v {
            Value::Object(members) => {
                AccessibilityMetadata::from_members(members)
            },
            _ => Err(wrong_shape(field, shapes1(Shape::Object), v)),
        }
    }

    /// Reads a whole document as a record of accessibility. A document in which
    /// arrays and objects nest more deeply than [`MAX_DEPTH`] is refused before
    /// anything is read from it.
    pub fn from_value(v: &Value) -> (r: Result<AccessibilityMetadata, ParseError>)
        ensures
            parsed(r) == accessibility_metadata_from_doc(v@),
            r matches Ok(x) ==> accessibility_metadata_wf(x@),
    {
        if !v.within_depth(MAX_DEPTH) {
            return Err(ParseError::RecursionLimitExceeded(MAX_DEPTH));
        }
        AccessibilityMetadata::parse(v, "")
    }

    /// Writes the members of this record of accessibility.
    pub fn to_members(&self) -> (members: Vec<(String, Value)>)
        ensures
            members_of(members@) == accessibility_metadata_members(self@),
    {
        let mut m: Vec<(String, Value)> = Vec::new();
        assert(members_of(m@) =~= Seq::<(Seq<char>, Doc)>::empty());
        put_member(&mut m, "conformsTo", make_url_flat(&self.conforms_to));
        put_member(&mut m, "exemption", make_opt_accessibility_exemption(&self.exemption));
        put_member(&mut m, "accessMode", make_access_mode_list(&self.access_mode));
        put_member(&mut m, "feature", make_accessibility_feature_list(&self.feature));
        put_member(&mut m, "hazard", make_accessibility_hazard_list(&self.hazard));
        put_member(&mut m, "certification", make_opt_accessibility_certification(&self.certification));
        put_member(&mut m, "summary", make_opt_text(&self.summary));
        m
    }

    /// Writes this record of accessibility as a value: always the full object.
    pub fn to_value(&self) -> (v: Value)
        ensures
            v@ == encode_accessibility_metadata(self@),
    {
        Value::Object(self.to_members())
    }
}

/// A copy of a record of accessibility.
pub(crate) fn copy_accessibility_metadata(x: &AccessibilityMetadata) -> (r: AccessibilityMetadata)
    ensures
        r@ == x@,
{
    AccessibilityMetadata {
        conforms_to: copy_texts(&x.conforms_to),
        exemption: x.exemption,
        access_mode: copy_plain(&x.access_mode),
        feature: copy_plain(&x.feature),
        hazard: copy_plain(&x.hazard),
        certification: copy_opt_accessibility_certification(&x.certification),
        summary: copy_opt_text(&x.summary),
    }
}

impl Clone for AccessibilityMetadata {
    /// A copy that holds the same.
    fn clone(&self) -> (r: AccessibilityMetadata)
        ensures
            r@ == self@,
    {
        copy_accessibility_metadata(self)
    }
}

/// In the written form of a record of accessibility, each field's name leads to
/// what that field wrote.
pub proof fn lemma_accessibility_metadata_members(x: AccessibilityMetadataView)
    ensures
        lookup(accessibility_metadata_members(x), "conformsTo"@) == write_url_flat(x.conforms_to),
        lookup(accessibility_metadata_members(x), "exemption"@)
            == write_opt_accessibility_exemption(x.exemption),
        lookup(accessibility_metadata_members(x), "accessMode"@)
            == write_access_mode_list(x.access_mode),
        lookup(accessibility_metadata_members(x), "feature"@)
            == write_accessibility_feature_list(x.feature),
        lookup(accessibility_metadata_members(x), "hazard"@)
            == write_accessibility_hazard_list(x.hazard),
        lookup(accessibility_metadata_members(x), "certification"@)
            == write_opt_accessibility_certification(x.certification),
        lookup(accessibility_metadata_members(x), "summary"@) == write_opt_text(x.summary),
{
    broadcast use {lemma_lookup_after_put, lemma_lookup_empty};
    spell_conforms_to();
    spell_exemption();
    spell_access_mode();
    spell_feature();
    spell_hazard();
    spell_certification();
    spell_summary();
}

/// A record of accessibility that is well formed, written and read again, is
/// the same record of accessibility.
pub proof fn lemma_accessibility_metadata_round_trip(x: AccessibilityMetadataView, field: Seq<char>)
    requires
        accessibility_metadata_wf(x),
    ensures
        decode_accessibility_metadata(encode_accessibility_metadata(x), field)
            == Ok::<AccessibilityMetadataView, Fault>(x),
{
    lemma_accessibility_metadata_members(x);
    let m = accessibility_metadata_members(x);
    assert(read_url_flat(m, "conformsTo"@) == Ok::<Seq<Seq<char>>, Fault>(x.conforms_to)) by {
        lemma_url_flat_round_trip(x.conforms_to, m, "conformsTo"@);
    }
    assert(read_opt_accessibility_exemption(m, "exemption"@)
        == Ok::<Option<AccessibilityExemption>, Fault>(x.exemption)) by {
        if let Some(it) = x.exemption {
        lemma_accessibility_exemption_round_trip(it);
        }
    }
    assert(read_access_mode_list(m, "accessMode"@)
        == Ok::<Seq<AccessMode>, Fault>(x.access_mode)) by {
        lemma_access_mode_seq_round_trip(x.access_mode, "accessMode"@);
    }
    assert(read_accessibility_feature_list(m, "feature"@)
        == Ok::<Seq<AccessibilityFeature>, Fault>(x.feature)) by {
        lemma_accessibility_feature_seq_round_trip(x.feature, "feature"@);
    }
    assert(read_accessibility_hazard_list(m, "hazard"@)
        == Ok::<Seq<AccessibilityHazard>, Fault>(x.hazard)) by {
        lemma_accessibility_hazard_seq_round_trip(x.hazard, "hazard"@);
    }
    assert(read_opt_accessibility_certification(m, "certification"@)
        == Ok::<Option<AccessbilityCertificationView>, Fault>(x.certification)) by {
        lemma_opt_accessibility_certification_round_trip(x.certification, m, "certification"@);
    }
    assert(read_opt_text(m, "summary"@) == Ok::<Option<Seq<char>>, Fault>(x.summary));
}

/// What the members of an object give as a record of accessibility is well
/// formed.
pub proof fn lemma_accessibility_metadata_from_members_wf(m: Seq<(Seq<char>, Doc)>)
    ensures
        accessibility_metadata_from_members(m) matches Ok(x) ==> accessibility_metadata_wf(x),
{
    lemma_read_url_flat_wf(m, "conformsTo"@);
    lemma_read_opt_accessibility_certification_wf(m, "certification"@);
}

/// What is read as a record of accessibility is well formed.
pub proof fn lemma_decode_accessibility_metadata_wf(d: Doc, field: Seq<char>)
    ensures
        decode_accessibility_metadata(d, field) matches Ok(x) ==> accessibility_metadata_wf(x),
{
    if let Doc::Object(m) = d {
        lemma_accessibility_metadata_from_members_wf(m);
    }
}

/// A record of accessibility that was read, in whatever spelling, is read again
/// as the same record of accessibility from its written form.
pub proof fn lemma_accessibility_metadata_reread(d: Doc, field: Seq<char>)
    ensures
        decode_accessibility_metadata(d, field) matches Ok(x)
            ==> decode_accessibility_metadata(encode_accessibility_metadata(x), field)
                == Ok::<AccessibilityMetadataView, Fault>(x),
{
    lemma_decode_accessibility_metadata_wf(d, field);
    if let Ok(x) = decode_accessibility_metadata(d, field) {
        lemma_accessibility_metadata_round_trip(x, field);
    }
}

/// A record of accessibility that is well formed and whose written form nests
/// no more deeply than the ceiling is read back whole from that form.
pub proof fn lemma_accessibility_metadata_doc_round_trip(x: AccessibilityMetadataView)
    requires
        accessibility_metadata_wf(x),
        depth(encode_accessibility_metadata(x)) <= MAX_DEPTH,
    ensures
        accessibility_metadata_from_doc(encode_accessibility_metadata(x))
            == Ok::<AccessibilityMetadataView, Fault>(x),
{
    lemma_accessibility_metadata_round_trip(x, ""@);
}

/// The model of an optional certification.
pub open spec fn opt_accessibility_certification(
    o: Option<AccessbilityCertification>,
) -> Option<AccessbilityCertificationView> {
    match o {
        Some(x) => Some(accessibility_certification_view(x)),
        None => None,
    }
}

/// Whether an optional certification is well formed.
pub open spec fn opt_accessibility_certification_wf(
    o: Option<AccessbilityCertificationView>,
) -> bool {
    o matches Some(x) ==> accessibility_certification_wf(x)
}

/// A copy of an optional certification.
pub(crate) fn copy_opt_accessibility_certification(
    o: &Option<AccessbilityCertification>,
) -> (r: Option<AccessbilityCertification>)
    ensures
        opt_accessibility_certification(r) == opt_accessibility_certification(*o),
{
    match o {
        Some(x) => Some(copy_accessibility_certification(x)),
        None => None,
    }
}

/// What a field gives that may be a certification is well formed.
pub proof fn lemma_read_opt_accessibility_certification_wf(m: Seq<(Seq<char>, Doc)>, key: Seq<char>)
    ensures
        read_opt_accessibility_certification(m, key) matches Ok(o)
            ==> opt_accessibility_certification_wf(o),
{
    lemma_index_of(m, key);
    let i = index_of(m, key);
    if 0 <= i < m.len() {
        lemma_decode_accessibility_certification_wf(m[i].1, key);
    }
}

/// What a field holds that may be a certification: nothing where it is
/// absent or null.
pub open spec fn read_opt_accessibility_certification(
    m: Seq<(Seq<char>, Doc)>,
    key: Seq<char>,
) -> Result<Option<AccessbilityCertificationView>, Fault> {
    let i = index_of(m, key);
    if 0 <= i < m.len() {
        if m[i].1 is Null {
            Ok(None)
        } else {
            match decode_accessibility_certification(m[i].1, key) {
                Ok(x) => Ok(Some(x)),
                Err(e) => Err(e),
            }
        }
    } else {
        Ok(None)
    }
}

/// The written form of such a field: left out where there is nothing.
pub open spec fn write_opt_accessibility_certification(
    o: Option<AccessbilityCertificationView>,
) -> Option<Doc> {
    match o {
        Some(x) => Some(encode_accessibility_certification(x)),
        None => None,
    }
}

/// Reads a field that may be a certification.
pub fn get_opt_accessibility_certification(
    members: &Vec<(String, Value)>,
    key: &str,
) -> (r: Result<Option<AccessbilityCertification>, ParseError>)
    ensures
        match r {
            Ok(o) => read_opt_accessibility_certification(members_of(members@), key@)
                == Ok::<Option<AccessbilityCertificationView>, Fault>(opt_accessibility_certification(o)),
            Err(e) => read_opt_accessibility_certification(members_of(members@), key@)
                == Err::<Option<AccessbilityCertificationView>, Fault>(e@),
        },
        r matches Ok(o) ==> opt_accessibility_certification_wf(opt_accessibility_certification(o)),
{
    match position(members, key) {
        None => Ok(None),
        Some(i) => {
            proof {
                assert(members_of(members@)[i as int].1 == members@[i as int].1@);
            }
            match &members[i].1 {
                Value::Null => Ok(None),
                v => match AccessbilityCertification::parse(v, key) {
                    Ok(x) => Ok(Some(x)),
                    Err(e) => Err(e),
                },
            }
        },
    }
}

/// Writes such a field.
pub fn make_opt_accessibility_certification(
    o: &Option<AccessbilityCertification>,
) -> (r: Option<Value>)
    ensures
        opt_doc(r) == write_opt_accessibility_certification(opt_accessibility_certification(*o)),
{
    match o {
        Some(x) => Some(x.to_value()),
        None => None,
    }
}

/// Such a field, written and read again, holds the same.
pub proof fn lemma_opt_accessibility_certification_round_trip(
    o: Option<AccessbilityCertificationView>,
    m: Seq<(Seq<char>, Doc)>,
    key: Seq<char>,
)
    requires
        opt_accessibility_certification_wf(o),
        lookup(m, key) == write_opt_accessibility_certification(o),
    ensures
        read_opt_accessibility_certification(m, key)
            == Ok::<Option<AccessbilityCertificationView>, Fault>(o),
{
    lemma_lookup_index(m, key);
    if let Some(x) = o {
        lemma_accessibility_certification_round_trip(x, key);
    }
}

/// The model of an optional record of accessibility.
pub open spec fn opt_accessibility_metadata(
    o: Option<AccessibilityMetadata>,
) -> Option<AccessibilityMetadataView> {
    match o {
        Some(x) => Some(accessibility_metadata_view(x)),
        None => None,
    }
}

/// Whether an optional record of accessibility is well formed.
pub open spec fn opt_accessibility_metadata_wf(o: Option<AccessibilityMetadataView>) -> bool {
    o matches Some(x) ==> accessibility_metadata_wf(x)
}

/// A copy of an optional record of accessibility.
pub(crate) fn copy_opt_accessibility_metadata(
    o: &Option<AccessibilityMetadata>,
) -> (r: Option<AccessibilityMetadata>)
    ensures
        opt_accessibility_metadata(r) == opt_accessibility_metadata(*o),
{
    match o {
        Some(x) => Some(copy_accessibility_metadata(x)),
        None => None,
    }
}

/// What a field gives that may be a record of accessibility is well formed.
pub proof fn lemma_read_opt_accessibility_metadata_wf(m: Seq<(Seq<char>, Doc)>, key: Seq<char>)
    ensures
        read_opt_accessibility_metadata(m, key) matches Ok(o) ==> opt_accessibility_metadata_wf(o),
{
    lemma_index_of(m, key);
    let i = index_of(m, key);
    if 0 <= i < m.len() {
        lemma_decode_accessibility_metadata_wf(m[i].1, key);
    }
}

/// What a field holds that may be a record of accessibility: nothing where it
/// is absent or null.
pub open spec fn read_opt_accessibility_metadata(
    m: Seq<(Seq<char>, Doc)>,
    key: Seq<char>,
) -> Result<Option<AccessibilityMetadataView>, Fault> {
    let i = index_of(m, key);
    if 0 <= i < m.len() {
        if m[i].1 is Null {
            Ok(None)
        } else {
            match decode_accessibility_metadata(m[i].1, key) {
                Ok(x) => Ok(Some(x)),
                Err(e) => Err(e),
            }
        }
    } else {
        Ok(None)
    }
}

/// The written form of such a field: left out where there is nothing.
pub open spec fn write_opt_accessibility_metadata(
    o: Option<AccessibilityMetadataView>,
) -> Option<Doc> {
    match o {
        Some(x) => Some(encode_accessibility_metadata(x)),
        None => None,
    }
}

/// Reads a field that may be a record of accessibility.
pub fn get_opt_accessibility_metadata(
    members: &Vec<(String, Value)>,
    key: &str,
) -> (r: Result<Option<AccessibilityMetadata>, ParseError>)
    ensures
        match r {
            Ok(o) => read_opt_accessibility_metadata(members_of(members@), key@)
                == Ok::<Option<AccessibilityMetadataView>, Fault>(opt_accessibility_metadata(o)),
            Err(e) => read_opt_accessibility_metadata(members_of(members@), key@)
                == Err::<Option<AccessibilityMetadataView>, Fault>(e@),
        },
        r matches Ok(o) ==> opt_accessibility_metadata_wf(opt_accessibility_metadata(o)),
{
    match position(members, key) {
        None => Ok(None),
        Some(i) => {
            proof {
                assert(members_of(members@)[i as int].1 == members@[i as int].1@);
            }
            match &members[i].1 {
                Value::Null => Ok(None),
                v => match AccessibilityMetadata::parse(v, key) {
                    Ok(x) => Ok(Some(x)),
                    Err(e) => Err(e),
                },
            }
        },
    }
}

/// Writes such a field.
pub fn make_opt_accessibility_metadata(o: &Option<AccessibilityMetadata>) -> (r: Option<Value>)
    ensures
        opt_doc(r) == write_opt_accessibility_metadata(opt_accessibility_metadata(*o)),
{
    match o {
        Some(x) => Some(x.to_value()),
        None => None,
    }
}

/// Such a field, written and read again, holds the same.
pub proof fn lemma_opt_accessibility_metadata_round_trip(
    o: Option<AccessibilityMetadataView>,
    m: Seq<(Seq<char>, Doc)>,
    key: Seq<char>,
)
    requires
        opt_accessibility_metadata_wf(o),
        lookup(m, key) == write_opt_accessibility_metadata(o),
    ensures
        read_opt_accessibility_metadata(m, key)
            == Ok::<Option<AccessibilityMetadataView>, Fault>(o),
{
    lemma_lookup_index(m, key);
    if let Some(x) = o {
        lemma_accessibility_metadata_round_trip(x, key);
    }
}

} // verus!
