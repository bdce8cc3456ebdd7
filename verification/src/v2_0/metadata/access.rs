//! The closed vocabularies of accessibility metadata.
use vstd::prelude::*;
use crate::error::{Fault, ParseError, list_shapes, mismatch, text_shapes};
use crate::helpers::{listed, parsed_plain, plain, shapes1, wrong_shape};
use crate::text::same_text;
use crate::value::{Doc, Shape, Value, docs_of, find, lookup, members_of, opt_doc, shape_of};

verus! {

/// A sense or kind of content through which a publication is perceived.
#[derive(Clone, Copy, Debug, PartialEq, Eq, Structural)]
pub enum AccessMode {
    Auditory,
    ChartOnVisual,
    ChemOnVisual,
    ColorDependent,
    DiagramOnVisual,
    MathOnVisual,
    MusicOnVisual,
    Tactile,
    TextOnVisual,
    Textual,
    Visual,
}

/// The name under which a variant of [`AccessMode`] is written.
pub open spec fn access_mode_name(x: AccessMode) -> Seq<char> {
    match x {
        AccessMode::Auditory => "auditory"@,
        AccessMode::ChartOnVisual => "chartOnVisual"@,
        AccessMode::ChemOnVisual => "chemOnVisual"@,
        AccessMode::ColorDependent => "colorDependent"@,
        AccessMode::DiagramOnVisual => "diagramOnVisual"@,
        AccessMode::MathOnVisual => "mathOnVisual"@,
        AccessMode::MusicOnVisual => "musicOnVisual"@,
        AccessMode::Tactile => "tactile"@,
        AccessMode::TextOnVisual => "textOnVisual"@,
        AccessMode::Textual => "textual"@,
        AccessMode::Visual => "visual"@,
    }
}

/// The variant of [`AccessMode`] that a name stands for.
pub open spec fn access_mode_named(s: Seq<char>) -> Option<AccessMode> {
    if s == "auditory"@ {
        Some(AccessMode::Auditory)
    } else if s == "chartOnVisual"@ {
        Some(AccessMode::ChartOnVisual)
    } else if s == "chemOnVisual"@ {
        Some(AccessMode::ChemOnVisual)
    } else if s == "colorDependent"@ {
        Some(AccessMode::ColorDependent)
    } else if s == "diagramOnVisual"@ {
        Some(AccessMode::DiagramOnVisual)
    } else if s == "mathOnVisual"@ {
        Some(AccessMode::MathOnVisual)
    } else if s == "musicOnVisual"@ {
        Some(AccessMode::MusicOnVisual)
    } else if s == "tactile"@ {
        Some(AccessMode::Tactile)
    } else if s == "textOnVisual"@ {
        Some(AccessMode::TextOnVisual)
    } else if s == "textual"@ {
        Some(AccessMode::Textual)
    } else if s == "visual"@ {
        Some(AccessMode::Visual)
    } else {
        None
    }
}

/// The variant that a value stands for: the value has to be text, and
/// the text one of the names.
pub open spec fn decode_access_mode(d: Doc, field: Seq<char>) -> Result<AccessMode, Fault> {
    match d {
        Doc::String(s) => match access_mode_named(s) {
            Some(x) => Ok(x),
            None => Err(Fault::InvalidEnumValue { field, value: s }),
        },
        _ => Err(mismatch(field, text_shapes(), shape_of(d))),
    }
}

/// The written form of a variant: its name.
pub open spec fn encode_access_mode(x: AccessMode) -> Doc {
    Doc::String(access_mode_name(x))
}

impl AccessMode {
    /// The name under which this variant is written.
    pub fn name(&self) -> (s: &'static str)
        ensures
            s@ == access_mode_name(*self),
    {
        match self {
            AccessMode::Auditory => "auditory",
            AccessMode::ChartOnVisual => "chartOnVisual",
            AccessMode::ChemOnVisual => "chemOnVisual",
            AccessMode::ColorDependent => "colorDependent",
            AccessMode::DiagramOnVisual => "diagramOnVisual",
            AccessMode::MathOnVisual => "mathOnVisual",
            AccessMode::MusicOnVisual => "musicOnVisual",
            AccessMode::Tactile => "tactile",
            AccessMode::TextOnVisual => "textOnVisual",
            AccessMode::Textual => "textual",
            AccessMode::Visual => "visual",
        }
    }

    /// The variant that a name stands for.
    pub fn from_name(s: &str) -> (r: Option<AccessMode>)
        ensures
            r == access_mode_named(s@),
    {
        if same_text(s, "auditory") {
            Some(AccessMode::Auditory)
        } else if same_text(s, "chartOnVisual") {
            Some(AccessMode::ChartOnVisual)
        } else if same_text(s, "chemOnVisual") {
            Some(AccessMode::ChemOnVisual)
        } else if same_text(s, "colorDependent") {
            Some(AccessMode::ColorDependent)
        } else if same_text(s, "diagramOnVisual") {
            Some(AccessMode::DiagramOnVisual)
        } else if same_text(s, "mathOnVisual") {
            Some(AccessMode::MathOnVisual)
        } else if same_text(s, "musicOnVisual") {
            Some(AccessMode::MusicOnVisual)
        } else if same_text(s, "tactile") {
            Some(AccessMode::Tactile)
        } else if same_text(s, "textOnVisual") {
            Some(AccessMode::TextOnVisual)
        } else if same_text(s, "textual") {
            Some(AccessMode::Textual)
        } else if same_text(s, "visual") {
            Some(AccessMode::Visual)
        } else {
            None
        }
    }

    /// Reads a variant from a value found under `field`.
    pub fn parse(v: &Value, field: &str) -> (r: Result<AccessMode, ParseError>)
        ensures
            parsed_plain(r) == decode_access_mode(v@, field@),
    {
        match v {
            Value::String(s) => match AccessMode::from_name(s.as_str()) {
                Some(x) => Ok(x),
                None => Err(ParseError::InvalidEnumValue { field: field.to_owned(), value: s.clone() }),
            },
            _ => Err(wrong_shape(field, shapes1(Shape::String), v)),
        }
    }

    /// Writes this variant as a value.
    pub fn to_value(&self) -> (v: Value)
        ensures
            v@ == encode_access_mode(*self),
    {
        Value::String(self.name().to_owned())
    }
}

/// A name read back gives the variant it was written for.
pub proof fn lemma_access_mode_round_trip(x: AccessMode)
    ensures
        access_mode_named(access_mode_name(x)) == Some(x),
{
    reveal_strlit("auditory");
    reveal_strlit("chartOnVisual");
    reveal_strlit("chemOnVisual");
    reveal_strlit("colorDependent");
    reveal_strlit("diagramOnVisual");
    reveal_strlit("mathOnVisual");
    reveal_strlit("musicOnVisual");
    reveal_strlit("tactile");
    reveal_strlit("textOnVisual");
    reveal_strlit("textual");
    reveal_strlit("visual");
    assert("auditory"@.len() == 8 && "auditory"@[0] == 'a' && "auditory"@[1] == 'u'
        && "auditory"@[2] == 'd' && "auditory"@[3] == 'i' && "auditory"@[4] == 't'
        && "auditory"@[5] == 'o' && "auditory"@[6] == 'r' && "auditory"@[7] == 'y');
    assert("chartOnVisual"@.len() == 13 && "chartOnVisual"@[0] == 'c' && "chartOnVisual"@[1] == 'h'
        && "chartOnVisual"@[2] == 'a' && "chartOnVisual"@[3] == 'r' && "chartOnVisual"@[4] == 't'
        && "chartOnVisual"@[5] == 'O' && "chartOnVisual"@[6] == 'n' && "chartOnVisual"@[7] == 'V'
        && "chartOnVisual"@[8] == 'i' && "chartOnVisual"@[9] == 's' && "chartOnVisual"@[10] == 'u'
        && "chartOnVisual"@[11] == 'a' && "chartOnVisual"@[12] == 'l');
    assert("chemOnVisual"@.len() == 12 && "chemOnVisual"@[0] == 'c' && "chemOnVisual"@[1] == 'h'
        && "chemOnVisual"@[2] == 'e' && "chemOnVisual"@[3] == 'm' && "chemOnVisual"@[4] == 'O'
        && "chemOnVisual"@[5] == 'n' && "chemOnVisual"@[6] == 'V' && "chemOnVisual"@[7] == 'i'
        && "chemOnVisual"@[8] == 's' && "chemOnVisual"@[9] == 'u' && "chemOnVisual"@[10] == 'a'
        && "chemOnVisual"@[11] == 'l');
    assert("colorDependent"@.len() == 14 && "colorDependent"@[0] == 'c'
        && "colorDependent"@[1] == 'o' && "colorDependent"@[2] == 'l' && "colorDependent"@[3] == 'o'
        && "colorDependent"@[4] == 'r' && "colorDependent"@[5] == 'D' && "colorDependent"@[6] == 'e'
        && "colorDependent"@[7] == 'p' && "colorDependent"@[8] == 'e' && "colorDependent"@[9] == 'n'
        && "colorDependent"@[10] == 'd' && "colorDependent"@[11] == 'e'
        && "colorDependent"@[12] == 'n' && "colorDependent"@[13] == 't');
    assert("diagramOnVisual"@.len() == 15 && "diagramOnVisual"@[0] == 'd'
        && "diagramOnVisual"@[1] == 'i' && "diagramOnVisual"@[2] == 'a'
        && "diagramOnVisual"@[3] == 'g' && "diagramOnVisual"@[4] == 'r'
        && "diagramOnVisual"@[5] == 'a' && "diagramOnVisual"@[6] == 'm'
        && "diagramOnVisual"@[7] == 'O' && "diagramOnVisual"@[8] == 'n'
        && "diagramOnVisual"@[9] == 'V' && "diagramOnVisual"@[10] == 'i'
        && "diagramOnVisual"@[11] == 's' && "diagramOnVisual"@[12] == 'u'
        && "diagramOnVisual"@[13] == 'a' && "diagramOnVisual"@[14] == 'l');
    assert("mathOnVisual"@.len() == 12 && "mathOnVisual"@[0] == 'm' && "mathOnVisual"@[1] == 'a'
        && "mathOnVisual"@[2] == 't' && "mathOnVisual"@[3] == 'h' && "mathOnVisual"@[4] == 'O'
        && "mathOnVisual"@[5] == 'n' && "mathOnVisual"@[6] == 'V' && "mathOnVisual"@[7] == 'i'
        && "mathOnVisual"@[8] == 's' && "mathOnVisual"@[9] == 'u' && "mathOnVisual"@[10] == 'a'
        && "mathOnVisual"@[11] == 'l');
    assert("musicOnVisual"@.len() == 13 && "musicOnVisual"@[0] == 'm' && "musicOnVisual"@[1] == 'u'
        && "musicOnVisual"@[2] == 's' && "musicOnVisual"@[3] == 'i' && "musicOnVisual"@[4] == 'c'
        && "musicOnVisual"@[5] == 'O' && "musicOnVisual"@[6] == 'n' && "musicOnVisual"@[7] == 'V'
        && "musicOnVisual"@[8] == 'i' && "musicOnVisual"@[9] == 's' && "musicOnVisual"@[10] == 'u'
        && "musicOnVisual"@[11] == 'a' && "musicOnVisual"@[12] == 'l');
    assert("tactile"@.len() == 7 && "tactile"@[0] == 't' && "tactile"@[1] == 'a'
        && "tactile"@[2] == 'c' && "tactile"@[3] == 't' && "tactile"@[4] == 'i'
        && "tactile"@[5] == 'l' && "tactile"@[6] == 'e');
    assert("textOnVisual"@.len() == 12 && "textOnVisual"@[0] == 't' && "textOnVisual"@[1] == 'e'
        && "textOnVisual"@[2] == 'x' && "textOnVisual"@[3] == 't' && "textOnVisual"@[4] == 'O'
        && "textOnVisual"@[5] == 'n' && "textOnVisual"@[6] == 'V' && "textOnVisual"@[7] == 'i'
        && "textOnVisual"@[8] == 's' && "textOnVisual"@[9] == 'u' && "textOnVisual"@[10] == 'a'
        && "textOnVisual"@[11] == 'l');
    assert("textual"@.len() == 7 && "textual"@[0] == 't' && "textual"@[1] == 'e'
        && "textual"@[2] == 'x' && "textual"@[3] == 't' && "textual"@[4] == 'u'
        && "textual"@[5] == 'a' && "textual"@[6] == 'l');
    assert("visual"@.len() == 6 && "visual"@[0] == 'v' && "visual"@[1] == 'i' && "visual"@[2] == 's'
        && "visual"@[3] == 'u' && "visual"@[4] == 'a' && "visual"@[5] == 'l');
}

/// The variants that the items of a sequence stand for, or the error
/// of the first item that stands for none.
pub open spec fn decode_access_mode_seq(
    items: Seq<Doc>,
    field: Seq<char>,
) -> Result<Seq<AccessMode>, Fault>
    decreases items.len(),
{
    if items.len() == 0 {
        Ok(Seq::empty())
    } else {
        match decode_access_mode_seq(items.drop_last(), field) {
            Err(e) => Err(e),
            Ok(init) => match decode_access_mode(items.last(), field) {
                Err(e) => Err(e),
                Ok(x) => Ok(init.push(x)),
            },
        }
    }
}

/// The written forms of a run of variants.
pub open spec fn encode_access_mode_seq(xs: Seq<AccessMode>) -> Seq<Doc> {
    Seq::new(xs.len(), |i: int| encode_access_mode(xs[i]))
}

/// What a list field of [`AccessMode`] holds: nothing where it is absent.
pub open spec fn read_access_mode_list(
    m: Seq<(Seq<char>, Doc)>,
    key: Seq<char>,
) -> Result<Seq<AccessMode>, Fault> {
    match lookup(m, key) {
        None => Ok(Seq::empty()),
        Some(Doc::Array(items)) => decode_access_mode_seq(items, key),
        Some(d) => Err(mismatch(key, list_shapes(), shape_of(d))),
    }
}

/// The written form of such a field.
pub open spec fn write_access_mode_list(xs: Seq<AccessMode>) -> Option<Doc> {
    listed(encode_access_mode_seq(xs))
}

/// The model of what reading a list of [`AccessMode`] gave.
pub open spec fn parsed_access_mode_list(
    r: Result<Vec<AccessMode>, ParseError>,
) -> Result<Seq<AccessMode>, Fault> {
    match r {
        Ok(xs) => Ok(xs@),
        Err(e) => Err(e@),
    }
}

/// Reads the items of a sequence as variants of [`AccessMode`].
pub fn parse_access_mode_seq(
    items: &Vec<Value>,
    field: &str,
) -> (r: Result<Vec<AccessMode>, ParseError>)
    ensures
        parsed_access_mode_list(r) == decode_access_mode_seq(docs_of(items@), field@),
{
    let mut out: Vec<AccessMode> = Vec::new();
    let mut i: usize = 0;
    while i < items.len()
        invariant
            i <= items.len(),
            decode_access_mode_seq(docs_of(items@).take(i as int), field@)
                == Ok::<Seq<AccessMode>, Fault>(out@),
        decreases items.len() - i,
    {
        let ghost all = docs_of(items@);
        proof {
            assert(all.take(i + 1).drop_last() =~= all.take(i as int));
            assert(all.take(i + 1).last() == items@[i as int]@);
        }
        match AccessMode::parse(&items[i], field) {
            Ok(x) => {
                out.push(x);
            },
            Err(e) => {
                proof {
                    lemma_access_mode_seq_fails(all, field@, i as int);
                }
                return Err(e);
            },
        }
        i += 1;
    }
    proof {
        assert(docs_of(items@).take(i as int) =~= docs_of(items@));
    }
    Ok(out)
}

/// Where the items before `i` can be read and item `i` cannot, the
/// sequence gives the error of item `i`.
pub proof fn lemma_access_mode_seq_fails(items: Seq<Doc>, field: Seq<char>, i: int)
    requires
        0 <= i < items.len(),
        decode_access_mode_seq(items.take(i), field) is Ok,
        decode_access_mode(items[i], field) is Err,
    ensures
        decode_access_mode_seq(items, field)
            == Err::<Seq<AccessMode>, Fault>(decode_access_mode(items[i], field)->Err_0),
    decreases items.len(),
{
    if i == items.len() - 1 {
        assert(items.take(i) =~= items.drop_last());
    } else {
        assert(items.drop_last().take(i) =~= items.take(i));
        lemma_access_mode_seq_fails(items.drop_last(), field, i);
    }
}

/// Reads a list field of [`AccessMode`].
pub fn get_access_mode_list(
    members: &Vec<(String, Value)>,
    key: &str,
) -> (r: Result<Vec<AccessMode>, ParseError>)
    ensures
        parsed_access_mode_list(r) == read_access_mode_list(members_of(members@), key@),
{
    match find(members, key) {
        None => Ok(Vec::new()),
        Some(v) => match v {
            Value::Array(items) => parse_access_mode_seq(items, key),
            _ => Err(wrong_shape(key, shapes1(Shape::Array), v)),
        },
    }
}

/// Writes a list field of [`AccessMode`].
pub fn make_access_mode_list(xs: &Vec<AccessMode>) -> (r: Option<Value>)
    ensures
        opt_doc(r) == write_access_mode_list(xs@),
{
    let mut out: Vec<Value> = Vec::new();
    let mut i: usize = 0;
    while i < xs.len()
        invariant
            i <= xs.len(),
            out@.len() == i,
            forall|j: int| 0 <= j < i ==> (#[trigger] out@[j])@ == encode_access_mode(xs@[j]),
        decreases xs.len() - i,
    {
        out.push(xs[i].to_value());
        i += 1;
    }
    proof {
        assert(docs_of(out@) =~= encode_access_mode_seq(xs@));
    }
    plain(out)
}

/// A run of variants written and read again is the same run.
pub proof fn lemma_access_mode_seq_round_trip(xs: Seq<AccessMode>, field: Seq<char>)
    ensures
        decode_access_mode_seq(encode_access_mode_seq(xs), field)
            == Ok::<Seq<AccessMode>, Fault>(xs),
    decreases xs.len(),
{
    if xs.len() > 0 {
        let docs = encode_access_mode_seq(xs);
        assert(docs.drop_last() =~= encode_access_mode_seq(xs.drop_last()));
        lemma_access_mode_seq_round_trip(xs.drop_last(), field);
        lemma_access_mode_round_trip(xs.last());
        assert(xs.drop_last().push(xs.last()) =~= xs);
    } else {
        assert(xs =~= Seq::<AccessMode>::empty());
    }
}

/// A ground on which a publication is exempt from accessibility rules.
#[derive(Clone, Copy, Debug, PartialEq, Eq, Structural)]
#[non_exhaustive]
pub enum AccessibilityExemption {
    EaaDisproportionateBurden,
    EaaFundamentalAlteration,
    EaaMicroenterprise,
}

/// The name under which a variant of [`AccessibilityExemption`] is written.
pub open spec fn accessibility_exemption_name(x: AccessibilityExemption) -> Seq<char> {
    match x {
        AccessibilityExemption::EaaDisproportionateBurden => "eaa-disproportionate-burden"@,
        AccessibilityExemption::EaaFundamentalAlteration => "eaa-fundamental-alteration"@,
        AccessibilityExemption::EaaMicroenterprise => "eaa-microenterprise"@,
    }
}

/// The variant of [`AccessibilityExemption`] that a name stands for.
pub open spec fn accessibility_exemption_named(s: Seq<char>) -> Option<AccessibilityExemption> {
    if s == "eaa-disproportionate-burden"@ {
        Some(AccessibilityExemption::EaaDisproportionateBurden)
    } else if s == "eaa-fundamental-alteration"@ {
        Some(AccessibilityExemption::EaaFundamentalAlteration)
    } else if s == "eaa-microenterprise"@ {
        Some(AccessibilityExemption::EaaMicroenterprise)
    } else {
        None
    }
}

/// The variant that a value stands for: the value has to be text, and
/// the text one of the names.
pub open spec fn decode_accessibility_exemption(
    d: Doc,
    field: Seq<char>,
) -> Result<AccessibilityExemption, Fault> {
    match d {
        Doc::String(s) => match accessibility_exemption_named(s) {
            Some(x) => Ok(x),
            None => Err(Fault::InvalidEnumValue { field, value: s }),
        },
        _ => Err(mismatch(field, text_shapes(), shape_of(d))),
    }
}

/// The written form of a variant: its name.
pub open spec fn encode_accessibility_exemption(x: AccessibilityExemption) -> Doc {
    Doc::String(accessibility_exemption_name(x))
}

impl AccessibilityExemption {
    /// The name under which this variant is written.
    pub fn name(&self) -> (s: &'static str)
        ensures
            s@ == accessibility_exemption_name(*self),
    {
        match self {
            AccessibilityExemption::EaaDisproportionateBurden => "eaa-disproportionate-burden",
            AccessibilityExemption::EaaFundamentalAlteration => "eaa-fundamental-alteration",
            AccessibilityExemption::EaaMicroenterprise => "eaa-microenterprise",
        }
    }

    /// The variant that a name stands for.
    pub fn from_name(s: &str) -> (r: Option<AccessibilityExemption>)
        ensures
            r == accessibility_exemption_named(s@),
    {
        if same_text(s, "eaa-disproportionate-burden") {
            Some(AccessibilityExemption::EaaDisproportionateBurden)
        } else if same_text(s, "eaa-fundamental-alteration") {
            Some(AccessibilityExemption::EaaFundamentalAlteration)
        } else if same_text(s, "eaa-microenterprise") {
            Some(AccessibilityExemption::EaaMicroenterprise)
        } else {
            None
        }
    }

    /// Reads a variant from a value found under `field`.
    pub fn parse(v: &Value, field: &str) -> (r: Result<AccessibilityExemption, ParseError>)
        ensures
            parsed_plain(r) == decode_accessibility_exemption(v@, field@),
    {
        match v {
            Value::String(s) => match AccessibilityExemption::from_name(s.as_str()) {
                Some(x) => Ok(x),
                None => Err(ParseError::InvalidEnumValue { field: field.to_owned(), value: s.clone() }),
            },
            _ => Err(wrong_shape(field, shapes1(Shape::String), v)),
        }
    }

    /// Writes this variant as a value.
    pub fn to_value(&self) -> (v: Value)
        ensures
            v@ == encode_accessibility_exemption(*self),
    {
        Value::String(self.name().to_owned())
    }
}

/// A name read back gives the variant it was written for.
pub proof fn lemma_accessibility_exemption_round_trip(x: AccessibilityExemption)
    ensures
        accessibility_exemption_named(accessibility_exemption_name(x)) == Some(x),
{
    reveal_strlit("eaa-disproportionate-burden");
    reveal_strlit("eaa-fundamental-alteration");
    reveal_strlit("eaa-microenterprise");
    assert("eaa-disproportionate-burden"@.len() == 27 && "eaa-disproportionate-burden"@[0] == 'e'
        && "eaa-disproportionate-burden"@[1] == 'a' && "eaa-disproportionate-burden"@[2] == 'a'
        && "eaa-disproportionate-burden"@[3] == '-' && "eaa-disproportionate-burden"@[4] == 'd'
        && "eaa-disproportionate-burden"@[5] == 'i' && "eaa-disproportionate-burden"@[6] == 's'
        && "eaa-disproportionate-burden"@[7] == 'p' && "eaa-disproportionate-burden"@[8] == 'r'
        && "eaa-disproportionate-burden"@[9] == 'o' && "eaa-disproportionate-burden"@[10] == 'p'
        && "eaa-disproportionate-burden"@[11] == 'o' && "eaa-disproportionate-burden"@[12] == 'r'
        && "eaa-disproportionate-burden"@[13] == 't' && "eaa-disproportionate-burden"@[14] == 'i'
        && "eaa-disproportionate-burden"@[15] == 'o' && "eaa-disproportionate-burden"@[16] == 'n'
        && "eaa-disproportionate-burden"@[17] == 'a' && "eaa-disproportionate-burden"@[18] == 't'
        && "eaa-disproportionate-burden"@[19] == 'e' && "eaa-disproportionate-burden"@[20] == '-'
        && "eaa-disproportionate-burden"@[21] == 'b' && "eaa-disproportionate-burden"@[22] == 'u'
        && "eaa-disproportionate-burden"@[23] == 'r' && "eaa-disproportionate-burden"@[24] == 'd'
        && "eaa-disproportionate-burden"@[25] == 'e' && "eaa-disproportionate-burden"@[26] == 'n');
    assert("eaa-fundamental-alteration"@.len() == 26 && "eaa-fundamental-alteration"@[0] == 'e'
        && "eaa-fundamental-alteration"@[1] == 'a' && "eaa-fundamental-alteration"@[2] == 'a'
        && "eaa-fundamental-alteration"@[3] == '-' && "eaa-fundamental-alteration"@[4] == 'f'
        && "eaa-fundamental-alteration"@[5] == 'u' && "eaa-fundamental-alteration"@[6] == 'n'
        && "eaa-fundamental-alteration"@[7] == 'd' && "eaa-fundamental-alteration"@[8] == 'a'
        && "eaa-fundamental-alteration"@[9] == 'm' && "eaa-fundamental-alteration"@[10] == 'e'
        && "eaa-fundamental-alteration"@[11] == 'n' && "eaa-fundamental-alteration"@[12] == 't'
        && "eaa-fundamental-alteration"@[13] == 'a' && "eaa-fundamental-alteration"@[14] == 'l'
        && "eaa-fundamental-alteration"@[15] == '-' && "eaa-fundamental-alteration"@[16] == 'a'
        && "eaa-fundamental-alteration"@[17] == 'l' && "eaa-fundamental-alteration"@[18] == 't'
        && "eaa-fundamental-alteration"@[19] == 'e' && "eaa-fundamental-alteration"@[20] == 'r'
        && "eaa-fundamental-alteration"@[21] == 'a' && "eaa-fundamental-alteration"@[22] == 't'
        && "eaa-fundamental-alteration"@[23] == 'i' && "eaa-fundamental-alteration"@[24] == 'o'
        && "eaa-fundamental-alteration"@[25] == 'n');
    assert("eaa-microenterprise"@.len() == 19 && "eaa-microenterprise"@[0] == 'e'
        && "eaa-microenterprise"@[1] == 'a' && "eaa-microenterprise"@[2] == 'a'
        && "eaa-microenterprise"@[3] == '-' && "eaa-microenterprise"@[4] == 'm'
        && "eaa-microenterprise"@[5] == 'i' && "eaa-microenterprise"@[6] == 'c'
        && "eaa-microenterprise"@[7] == 'r' && "eaa-microenterprise"@[8] == 'o'
        && "eaa-microenterprise"@[9] == 'e' && "eaa-microenterprise"@[10] == 'n'
        && "eaa-microenterprise"@[11] == 't' && "eaa-microenterprise"@[12] == 'e'
        && "eaa-microenterprise"@[13] == 'r' && "eaa-microenterprise"@[14] == 'p'
        && "eaa-microenterprise"@[15] == 'r' && "eaa-microenterprise"@[16] == 'i'
        && "eaa-microenterprise"@[17] == 's' && "eaa-microenterprise"@[18] == 'e');
}

/// What a field holds that may name a variant of [`AccessibilityExemption`].
pub open spec fn read_opt_accessibility_exemption(
    m: Seq<(Seq<char>, Doc)>,
    key: Seq<char>,
) -> Result<Option<AccessibilityExemption>, Fault> {
    match lookup(m, key) {
        None => Ok(None),
        Some(Doc::Null) => Ok(None),
        Some(d) => match decode_accessibility_exemption(d, key) {
            Ok(x) => Ok(Some(x)),
            Err(e) => Err(e),
        },
    }
}

/// The written form of such a field.
pub open spec fn write_opt_accessibility_exemption(
    o: Option<AccessibilityExemption>,
) -> Option<Doc> {
    match o {
        Some(x) => Some(encode_accessibility_exemption(x)),
        None => None,
    }
}

/// Reads a field that may name a variant of [`AccessibilityExemption`].
pub fn get_opt_accessibility_exemption(
    members: &Vec<(String, Value)>,
    key: &str,
) -> (r: Result<Option<AccessibilityExemption>, ParseError>)
    ensures
        parsed_plain(r) == read_opt_accessibility_exemption(members_of(members@), key@),
{
    match find(members, key) {
        None => Ok(None),
        Some(v) => match v {
            Value::Null => Ok(None),
            _ => match AccessibilityExemption::parse(v, key) {
                Ok(x) => Ok(Some(x)),
                Err(e) => Err(e),
            },
        },
    }
}

/// Writes such a field.
pub fn make_opt_accessibility_exemption(o: &Option<AccessibilityExemption>) -> (r: Option<Value>)
    ensures
        opt_doc(r) == write_opt_accessibility_exemption(*o),
{
    match o {
        Some(x) => Some(x.to_value()),
        None => None,
    }
}

/// A hazard that a publication holds, or is known not to hold.
#[derive(Clone, Copy, Debug, PartialEq, Eq, Structural)]
#[non_exhaustive]
pub enum AccessibilityHazard {
    Flashing,
    MotionSimulation,
    Sound,
    NoHazards,
    NoFlashingHazard,
    NoMotionSimulationHazard,
    NoSoundHazard,
    Unknown,
    UnknownFlashingHazard,
    UnknownMotionSimulationHazard,
    UnknownSoundHazard,
}

/// The name under which a variant of [`AccessibilityHazard`] is written.
pub open spec fn accessibility_hazard_name(x: AccessibilityHazard) -> Seq<char> {
    match x {
        AccessibilityHazard::Flashing => "flashing"@,
        AccessibilityHazard::MotionSimulation => "motionSimulation"@,
        AccessibilityHazard::Sound => "sound"@,
        AccessibilityHazard::NoHazards => "none"@,
        AccessibilityHazard::NoFlashingHazard => "noFlashingHazard"@,
        AccessibilityHazard::NoMotionSimulationHazard => "noMotionSimulationHazard"@,
        AccessibilityHazard::NoSoundHazard => "noSoundHazard"@,
        AccessibilityHazard::Unknown => "unknown"@,
        AccessibilityHazard::UnknownFlashingHazard => "unknownFlashingHazard"@,
        AccessibilityHazard::UnknownMotionSimulationHazard => "unknownMotionSimulationHazard"@,
        AccessibilityHazard::UnknownSoundHazard => "unknownSoundHazard"@,
    }
}

/// The variant of [`AccessibilityHazard`] that a name stands for.
pub open spec fn accessibility_hazard_named(s: Seq<char>) -> Option<AccessibilityHazard> {
    if s == "flashing"@ {
        Some(AccessibilityHazard::Flashing)
    } else if s == "motionSimulation"@ {
        Some(AccessibilityHazard::MotionSimulation)
    } else if s == "sound"@ {
        Some(AccessibilityHazard::Sound)
    } else if s == "none"@ {
        Some(AccessibilityHazard::NoHazards)
    } else if s == "noFlashingHazard"@ {
        Some(AccessibilityHazard::NoFlashingHazard)
    } else if s == "noMotionSimulationHazard"@ {
        Some(AccessibilityHazard::NoMotionSimulationHazard)
    } else if s == "noSoundHazard"@ {
        Some(AccessibilityHazard::NoSoundHazard)
    } else if s == "unknown"@ {
        Some(AccessibilityHazard::Unknown)
    } else if s == "unknownFlashingHazard"@ {
        Some(AccessibilityHazard::UnknownFlashingHazard)
    } else if s == "unknownMotionSimulationHazard"@ {
        Some(AccessibilityHazard::UnknownMotionSimulationHazard)
    } else if s == "unknownSoundHazard"@ {
        Some(AccessibilityHazard::UnknownSoundHazard)
    } else {
        None
    }
}

/// The variant that a value stands for: the value has to be text, and
/// the text one of the names.
pub open spec fn decode_accessibility_hazard(
    d: Doc,
    field: Seq<char>,
) -> Result<AccessibilityHazard, Fault> {
    match d {
        Doc::String(s) => match accessibility_hazard_named(s) {
            Some(x) => Ok(x),
            None => Err(Fault::InvalidEnumValue { field, value: s }),
        },
        _ => Err(mismatch(field, text_shapes(), shape_of(d))),
    }
}

/// The written form of a variant: its name.
pub open spec fn encode_accessibility_hazard(x: AccessibilityHazard) -> Doc {
    Doc::String(accessibility_hazard_name(x))
}

impl AccessibilityHazard {
    /// The name under which this variant is written.
    pub fn name(&self) -> (s: &'static str)
        ensures
            s@ == accessibility_hazard_name(*self),
    {
        match self {
            AccessibilityHazard::Flashing => "flashing",
            AccessibilityHazard::MotionSimulation => "motionSimulation",
            AccessibilityHazard::Sound => "sound",
            AccessibilityHazard::NoHazards => "none",
            AccessibilityHazard::NoFlashingHazard => "noFlashingHazard",
            AccessibilityHazard::NoMotionSimulationHazard => "noMotionSimulationHazard",
            AccessibilityHazard::NoSoundHazard => "noSoundHazard",
            AccessibilityHazard::Unknown => "unknown",
            AccessibilityHazard::UnknownFlashingHazard => "unknownFlashingHazard",
            AccessibilityHazard::UnknownMotionSimulationHazard => "unknownMotionSimulationHazard",
            AccessibilityHazard::UnknownSoundHazard => "unknownSoundHazard",
        }
    }

    /// The variant that a name stands for.
    pub fn from_name(s: &str) -> (r: Option<AccessibilityHazard>)
        ensures
            r == accessibility_hazard_named(s@),
    {
        if same_text(s, "flashing") {
            Some(AccessibilityHazard::Flashing)
        } else if same_text(s, "motionSimulation") {
            Some(AccessibilityHazard::MotionSimulation)
        } else if same_text(s, "sound") {
            Some(AccessibilityHazard::Sound)
        } else if same_text(s, "none") {
            Some(AccessibilityHazard::NoHazards)
        } else if same_text(s, "noFlashingHazard") {
            Some(AccessibilityHazard::NoFlashingHazard)
        } else if same_text(s, "noMotionSimulationHazard") {
            Some(AccessibilityHazard::NoMotionSimulationHazard)
        } else if same_text(s, "noSoundHazard") {
            Some(AccessibilityHazard::NoSoundHazard)
        } else if same_text(s, "unknown") {
            Some(AccessibilityHazard::Unknown)
        } else if same_text(s, "unknownFlashingHazard") {
            Some(AccessibilityHazard::UnknownFlashingHazard)
        } else if same_text(s, "unknownMotionSimulationHazard") {
            Some(AccessibilityHazard::UnknownMotionSimulationHazard)
        } else if same_text(s, "unknownSoundHazard") {
            Some(AccessibilityHazard::UnknownSoundHazard)
        } else {
            None
        }
    }

    /// Reads a variant from a value found under `field`.
    pub fn parse(v: &Value, field: &str) -> (r: Result<AccessibilityHazard, ParseError>)
        ensures
            parsed_plain(r) == decode_accessibility_hazard(v@, field@),
    {
        match v {
            Value::String(s) => match AccessibilityHazard::from_name(s.as_str()) {
                Some(x) => Ok(x),
                None => Err(ParseError::InvalidEnumValue { field: field.to_owned(), value: s.clone() }),
            },
            _ => Err(wrong_shape(field, shapes1(Shape::String), v)),
        }
    }

    /// Writes this variant as a value.
    pub fn to_value(&self) -> (v: Value)
        ensures
            v@ == encode_accessibility_hazard(*self),
    {
        Value::String(self.name().to_owned())
    }
}

/// A name read back gives the variant it was written for.
pub proof fn lemma_accessibility_hazard_round_trip(x: AccessibilityHazard)
    ensures
        accessibility_hazard_named(accessibility_hazard_name(x)) == Some(x),
{
    reveal_strlit("flashing");
    reveal_strlit("motionSimulation");
    reveal_strlit("sound");
    reveal_strlit("none");
    reveal_strlit("noFlashingHazard");
    reveal_strlit("noMotionSimulationHazard");
    reveal_strlit("noSoundHazard");
    reveal_strlit("unknown");
    reveal_strlit("unknownFlashingHazard");
    reveal_strlit("unknownMotionSimulationHazard");
    reveal_strlit("unknownSoundHazard");
    assert("flashing"@.len() == 8 && "flashing"@[0] == 'f' && "flashing"@[1] == 'l'
        && "flashing"@[2] == 'a' && "flashing"@[3] == 's' && "flashing"@[4] == 'h'
        && "flashing"@[5] == 'i' && "flashing"@[6] == 'n' && "flashing"@[7] == 'g');
    assert("motionSimulation"@.len() == 16 && "motionSimulation"@[0] == 'm'
        && "motionSimulation"@[1] == 'o' && "motionSimulation"@[2] == 't'
        && "motionSimulation"@[3] == 'i' && "motionSimulation"@[4] == 'o'
        && "motionSimulation"@[5] == 'n' && "motionSimulation"@[6] == 'S'
        && "motionSimulation"@[7] == 'i' && "motionSimulation"@[8] == 'm'
        && "motionSimulation"@[9] == 'u' && "motionSimulation"@[10] == 'l'
        && "motionSimulation"@[11] == 'a' && "motionSimulation"@[12] == 't'
        && "motionSimulation"@[13] == 'i' && "motionSimulation"@[14] == 'o'
        && "motionSimulation"@[15] == 'n');
    assert("sound"@.len() == 5 && "sound"@[0] == 's' && "sound"@[1] == 'o' && "sound"@[2] == 'u'
        && "sound"@[3] == 'n' && "sound"@[4] == 'd');
    assert("none"@.len() == 4 && "none"@[0] == 'n' && "none"@[1] == 'o' && "none"@[2] == 'n'
        && "none"@[3] == 'e');
    assert("noFlashingHazard"@.len() == 16 && "noFlashingHazard"@[0] == 'n'
        && "noFlashingHazard"@[1] == 'o' && "noFlashingHazard"@[2] == 'F'
        && "noFlashingHazard"@[3] == 'l' && "noFlashingHazard"@[4] == 'a'
        && "noFlashingHazard"@[5] == 's' && "noFlashingHazard"@[6] == 'h'
        && "noFlashingHazard"@[7] == 'i' && "noFlashingHazard"@[8] == 'n'
        && "noFlashingHazard"@[9] == 'g' && "noFlashingHazard"@[10] == 'H'
        && "noFlashingHazard"@[11] == 'a' && "noFlashingHazard"@[12] == 'z'
        && "noFlashingHazard"@[13] == 'a' && "noFlashingHazard"@[14] == 'r'
        && "noFlashingHazard"@[15] == 'd');
    assert("noMotionSimulationHazard"@.len() == 24 && "noMotionSimulationHazard"@[0] == 'n'
        && "noMotionSimulationHazard"@[1] == 'o' && "noMotionSimulationHazard"@[2] == 'M'
        && "noMotionSimulationHazard"@[3] == 'o' && "noMotionSimulationHazard"@[4] == 't'
        && "noMotionSimulationHazard"@[5] == 'i' && "noMotionSimulationHazard"@[6] == 'o'
        && "noMotionSimulationHazard"@[7] == 'n' && "noMotionSimulationHazard"@[8] == 'S'
        && "noMotionSimulationHazard"@[9] == 'i' && "noMotionSimulationHazard"@[10] == 'm'
        && "noMotionSimulationHazard"@[11] == 'u' && "noMotionSimulationHazard"@[12] == 'l'
        && "noMotionSimulationHazard"@[13] == 'a' && "noMotionSimulationHazard"@[14] == 't'
        && "noMotionSimulationHazard"@[15] == 'i' && "noMotionSimulationHazard"@[16] == 'o'
        && "noMotionSimulationHazard"@[17] == 'n' && "noMotionSimulationHazard"@[18] == 'H'
        && "noMotionSimulationHazard"@[19] == 'a' && "noMotionSimulationHazard"@[20] == 'z'
        && "noMotionSimulationHazard"@[21] == 'a' && "noMotionSimulationHazard"@[22] == 'r'
        && "noMotionSimulationHazard"@[23] == 'd');
    assert("noSoundHazard"@.len() == 13 && "noSoundHazard"@[0] == 'n' && "noSoundHazard"@[1] == 'o'
        && "noSoundHazard"@[2] == 'S' && "noSoundHazard"@[3] == 'o' && "noSoundHazard"@[4] == 'u'
        && "noSoundHazard"@[5] == 'n' && "noSoundHazard"@[6] == 'd' && "noSoundHazard"@[7] == 'H'
        && "noSoundHazard"@[8] == 'a' && "noSoundHazard"@[9] == 'z' && "noSoundHazard"@[10] == 'a'
        && "noSoundHazard"@[11] == 'r' && "noSoundHazard"@[12] == 'd');
    assert("unknown"@.len() == 7 && "unknown"@[0] == 'u' && "unknown"@[1] == 'n'
        && "unknown"@[2] == 'k' && "unknown"@[3] == 'n' && "unknown"@[4] == 'o'
        && "unknown"@[5] == 'w' && "unknown"@[6] == 'n');
    assert("unknownFlashingHazard"@.len() == 21 && "unknownFlashingHazard"@[0] == 'u'
        && "unknownFlashingHazard"@[1] == 'n' && "unknownFlashingHazard"@[2] == 'k'
        && "unknownFlashingHazard"@[3] == 'n' && "unknownFlashingHazard"@[4] == 'o'
        && "unknownFlashingHazard"@[5] == 'w' && "unknownFlashingHazard"@[6] == 'n'
        && "unknownFlashingHazard"@[7] == 'F' && "unknownFlashingHazard"@[8] == 'l'
        && "unknownFlashingHazard"@[9] == 'a' && "unknownFlashingHazard"@[10] == 's'
        && "unknownFlashingHazard"@[11] == 'h' && "unknownFlashingHazard"@[12] == 'i'
        && "unknownFlashingHazard"@[13] == 'n' && "unknownFlashingHazard"@[14] == 'g'
        && "unknownFlashingHazard"@[15] == 'H' && "unknownFlashingHazard"@[16] == 'a'
        && "unknownFlashingHazard"@[17] == 'z' && "unknownFlashingHazard"@[18] == 'a'
        && "unknownFlashingHazard"@[19] == 'r' && "unknownFlashingHazard"@[20] == 'd');
    assert("unknownMotionSimulationHazard"@.len() == 29
        && "unknownMotionSimulationHazard"@[0] == 'u' && "unknownMotionSimulationHazard"@[1] == 'n'
        && "unknownMotionSimulationHazard"@[2] == 'k' && "unknownMotionSimulationHazard"@[3] == 'n'
        && "unknownMotionSimulationHazard"@[4] == 'o' && "unknownMotionSimulationHazard"@[5] == 'w'
        && "unknownMotionSimulationHazard"@[6] == 'n' && "unknownMotionSimulationHazard"@[7] == 'M'
        && "unknownMotionSimulationHazard"@[8] == 'o' && "unknownMotionSimulationHazard"@[9] == 't'
        && "unknownMotionSimulationHazard"@[10] == 'i'
        && "unknownMotionSimulationHazard"@[11] == 'o'
        && "unknownMotionSimulationHazard"@[12] == 'n'
        && "unknownMotionSimulationHazard"@[13] == 'S'
        && "unknownMotionSimulationHazard"@[14] == 'i'
        && "unknownMotionSimulationHazard"@[15] == 'm'
        && "unknownMotionSimulationHazard"@[16] == 'u'
        && "unknownMotionSimulationHazard"@[17] == 'l'
        && "unknownMotionSimulationHazard"@[18] == 'a'
        && "unknownMotionSimulationHazard"@[19] == 't'
        && "unknownMotionSimulationHazard"@[20] == 'i'
        && "unknownMotionSimulationHazard"@[21] == 'o'
        && "unknownMotionSimulationHazard"@[22] == 'n'
        && "unknownMotionSimulationHazard"@[23] == 'H'
        && "unknownMotionSimulationHazard"@[24] == 'a'
        && "unknownMotionSimulationHazard"@[25] == 'z'
        && "unknownMotionSimulationHazard"@[26] == 'a'
        && "unknownMotionSimulationHazard"@[27] == 'r'
        && "unknownMotionSimulationHazard"@[28] == 'd');
    assert("unknownSoundHazard"@.len() == 18 && "unknownSoundHazard"@[0] == 'u'
        && "unknownSoundHazard"@[1] == 'n' && "unknownSoundHazard"@[2] == 'k'
        && "unknownSoundHazard"@[3] == 'n' && "unknownSoundHazard"@[4] == 'o'
        && "unknownSoundHazard"@[5] == 'w' && "unknownSoundHazard"@[6] == 'n'
        && "unknownSoundHazard"@[7] == 'S' && "unknownSoundHazard"@[8] == 'o'
        && "unknownSoundHazard"@[9] == 'u' && "unknownSoundHazard"@[10] == 'n'
        && "unknownSoundHazard"@[11] == 'd' && "unknownSoundHazard"@[12] == 'H'
        && "unknownSoundHazard"@[13] == 'a' && "unknownSoundHazard"@[14] == 'z'
        && "unknownSoundHazard"@[15] == 'a' && "unknownSoundHazard"@[16] == 'r'
        && "unknownSoundHazard"@[17] == 'd');
}

/// The variants that the items of a sequence stand for, or the error
/// of the first item that stands for none.
pub open spec fn decode_accessibility_hazard_seq(
    items: Seq<Doc>,
    field: Seq<char>,
) -> Result<Seq<AccessibilityHazard>, Fault>
    decreases items.len(),
{
    if items.len() == 0 {
        Ok(Seq::empty())
    } else {
        match decode_accessibility_hazard_seq(items.drop_last(), field) {
            Err(e) => Err(e),
            Ok(init) => match decode_accessibility_hazard(items.last(), field) {
                Err(e) => Err(e),
                Ok(x) => Ok(init.push(x)),
            },
        }
    }
}

/// The written forms of a run of variants.
pub open spec fn encode_accessibility_hazard_seq(xs: Seq<AccessibilityHazard>) -> Seq<Doc> {
    Seq::new(xs.len(), |i: int| encode_accessibility_hazard(xs[i]))
}

/// What a list field of [`AccessibilityHazard`] holds: nothing where it is
/// absent.
pub open spec fn read_accessibility_hazard_list(
    m: Seq<(Seq<char>, Doc)>,
    key: Seq<char>,
) -> Result<Seq<AccessibilityHazard>, Fault> {
    match lookup(m, key) {
        None => Ok(Seq::empty()),
        Some(Doc::Array(items)) => decode_accessibility_hazard_seq(items, key),
        Some(d) => Err(mismatch(key, list_shapes(), shape_of(d))),
    }
}

/// The written form of such a field.
pub open spec fn write_accessibility_hazard_list(xs: Seq<AccessibilityHazard>) -> Option<Doc> {
    listed(encode_accessibility_hazard_seq(xs))
}

/// The model of what reading a list of [`AccessibilityHazard`] gave.
pub open spec fn parsed_accessibility_hazard_list(
    r: Result<Vec<AccessibilityHazard>, ParseError>,
) -> Result<Seq<AccessibilityHazard>, Fault> {
    match r {
        Ok(xs) => Ok(xs@),
        Err(e) => Err(e@),
    }
}

/// Reads the items of a sequence as variants of [`AccessibilityHazard`].
pub fn parse_accessibility_hazard_seq(
    items: &Vec<Value>,
    field: &str,
) -> (r: Result<Vec<AccessibilityHazard>, ParseError>)
    ensures
        parsed_accessibility_hazard_list(r)
            == decode_accessibility_hazard_seq(docs_of(items@), field@),
{
    let mut out: Vec<AccessibilityHazard> = Vec::new();
    let mut i: usize = 0;
    while i < items.len()
        invariant
            i <= items.len(),
            decode_accessibility_hazard_seq(docs_of(items@).take(i as int), field@)
                == Ok::<Seq<AccessibilityHazard>, Fault>(out@),
        decreases items.len() - i,
    {
        let ghost all = docs_of(items@);
        proof {
            assert(all.take(i + 1).drop_last() =~= all.take(i as int));
            assert(all.take(i + 1).last() == items@[i as int]@);
        }
        match AccessibilityHazard::parse(&items[i], field) {
            Ok(x) => {
                out.push(x);
            },
            Err(e) => {
                proof {
                    lemma_accessibility_hazard_seq_fails(all, field@, i as int);
                }
                return Err(e);
            },
        }
        i += 1;
    }
    proof {
        assert(docs_of(items@).take(i as int) =~= docs_of(items@));
    }
    Ok(out)
}

/// Where the items before `i` can be read and item `i` cannot, the
/// sequence gives the error of item `i`.
pub proof fn lemma_accessibility_hazard_seq_fails(items: Seq<Doc>, field: Seq<char>, i: int)
    requires
        0 <= i < items.len(),
        decode_accessibility_hazard_seq(items.take(i), field) is Ok,
        decode_accessibility_hazard(items[i], field) is Err,
    ensures
        decode_accessibility_hazard_seq(items, field)
            == Err::<Seq<AccessibilityHazard>, Fault>(decode_accessibility_hazard(items[i], field)->Err_0),
    decreases items.len(),
{
    if i == items.len() - 1 {
        assert(items.take(i) =~= items.drop_last());
    } else {
        assert(items.drop_last().take(i) =~= items.take(i));
        lemma_accessibility_hazard_seq_fails(items.drop_last(), field, i);
    }
}

/// Reads a list field of [`AccessibilityHazard`].
pub fn get_accessibility_hazard_list(
    members: &Vec<(String, Value)>,
    key: &str,
) -> (r: Result<Vec<AccessibilityHazard>, ParseError>)
    ensures
        parsed_accessibility_hazard_list(r)
            == read_accessibility_hazard_list(members_of(members@), key@),
{
    match find(members, key) {
        None => Ok(Vec::new()),
        Some(v) => match v {
            Value::Array(items) => parse_accessibility_hazard_seq(items, key),
            _ => Err(wrong_shape(key, shapes1(Shape::Array), v)),
        },
    }
}

/// Writes a list field of [`AccessibilityHazard`].
pub fn make_accessibility_hazard_list(xs: &Vec<AccessibilityHazard>) -> (r: Option<Value>)
    ensures
        opt_doc(r) == write_accessibility_hazard_list(xs@),
{
    let mut out: Vec<Value> = Vec::new();
    let mut i: usize = 0;
    while i < xs.len()
        invariant
            i <= xs.len(),
            out@.len() == i,
            forall|j: int| 0 <= j < i
                ==> (#[trigger] out@[j])@ == encode_accessibility_hazard(xs@[j]),
        decreases xs.len() - i,
    {
        out.push(xs[i].to_value());
        i += 1;
    }
    proof {
        assert(docs_of(out@) =~= encode_accessibility_hazard_seq(xs@));
    }
    plain(out)
}

/// A run of variants written and read again is the same run.
pub proof fn lemma_accessibility_hazard_seq_round_trip(
    xs: Seq<AccessibilityHazard>,
    field: Seq<char>,
)
    ensures
        decode_accessibility_hazard_seq(encode_accessibility_hazard_seq(xs), field)
            == Ok::<Seq<AccessibilityHazard>, Fault>(xs),
    decreases xs.len(),
{
    if xs.len() > 0 {
        let docs = encode_accessibility_hazard_seq(xs);
        assert(docs.drop_last() =~= encode_accessibility_hazard_seq(xs.drop_last()));
        lemma_accessibility_hazard_seq_round_trip(xs.drop_last(), field);
        lemma_accessibility_hazard_round_trip(xs.last());
        assert(xs.drop_last().push(xs.last()) =~= xs);
    } else {
        assert(xs =~= Seq::<AccessibilityHazard>::empty());
    }
}

} // verus!
