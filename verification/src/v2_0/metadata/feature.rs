//! The accessibility features a publication may have.
use vstd::prelude::*;
use crate::error::{Fault, ParseError, list_shapes, mismatch, text_shapes};
use crate::helpers::{listed, parsed_plain, plain, shapes1, wrong_shape};
use crate::text::same_text;
use crate::value::{Doc, Shape, Value, docs_of, find, lookup, members_of, opt_doc, shape_of};

verus! {

/// A feature of a publication that helps to reach its content.
#[derive(Clone, Copy, Debug, PartialEq, Eq, Structural)]
#[non_exhaustive]
pub enum AccessibilityFeature {
    Annotations,
    Aria,
    Bookmarks,
    Index,
    PageBreakMarkers,
    PrintPageNumbers,
    PageNavigation,
    ReadingOrder,
    StructuralNavigation,
    TableOfContents,
    TaggedPdf,
    AlternativeText,
    AudioDescription,
    CloseCaptions,
    Captions,
    DescribedMath,
    LongDescription,
    OpenCaptions,
    SignLanguage,
    Transcript,
    DisplayTransformability,
    SynchronizedAudioText,
    TimingControl,
    Unlocked,
    ChemMl,
    Latex,
    LatexChemistry,
    MathMl,
    MathMlChemistry,
    TtsMarkup,
    HighContrastAudio,
    HighContrastDisplay,
    LargePrint,
    Braille,
    TactileGraphic,
    TactileObject,
    FullRubyAnnotations,
    HorizontalWriting,
    RubyAnnotations,
    VerticalWriting,
    WithAdditionalWordSegmentation,
    WithoutAdditionalWordSegmentation,
    NoFeatures,
    Unknown,
}

/// The name under which a variant of [`AccessibilityFeature`] is written.
pub open spec fn accessibility_feature_name(x: AccessibilityFeature) -> Seq<char> {
    match x {
        AccessibilityFeature::Annotations => "annotations"@,
        AccessibilityFeature::Aria => "ARIA"@,
        AccessibilityFeature::Bookmarks => "bookmarks"@,
        AccessibilityFeature::Index => "index"@,
        AccessibilityFeature::PageBreakMarkers => "pageBreakMarkers"@,
        AccessibilityFeature::PrintPageNumbers => "printPageNumbers"@,
        AccessibilityFeature::PageNavigation => "pageNavigation"@,
        AccessibilityFeature::ReadingOrder => "readingOrder"@,
        AccessibilityFeature::StructuralNavigation => "structuralNavigation"@,
        AccessibilityFeature::TableOfContents => "tableOfContents"@,
        AccessibilityFeature::TaggedPdf => "taggedPDF"@,
        AccessibilityFeature::AlternativeText => "alternativeText"@,
        AccessibilityFeature::AudioDescription => "audioDescription"@,
        AccessibilityFeature::CloseCaptions => "closeCaptions"@,
        AccessibilityFeature::Captions => "captions"@,
        AccessibilityFeature::DescribedMath => "describedMath"@,
        AccessibilityFeature::LongDescription => "longDescription"@,
        AccessibilityFeature::OpenCaptions => "openCaptions"@,
        AccessibilityFeature::SignLanguage => "signLanguage"@,
        AccessibilityFeature::Transcript => "transcript"@,
        AccessibilityFeature::DisplayTransformability => "displayTransformability"@,
        AccessibilityFeature::SynchronizedAudioText => "synchronizedAudioText"@,
        AccessibilityFeature::TimingControl => "timingControl"@,
        AccessibilityFeature::Unlocked => "unlocked"@,
        AccessibilityFeature::ChemMl => "ChemML"@,
        AccessibilityFeature::Latex => "latex"@,
        AccessibilityFeature::LatexChemistry => "latex-chemistry"@,
        AccessibilityFeature::MathMl => "MathML"@,
        AccessibilityFeature::MathMlChemistry => "MathML-chemistry"@,
        AccessibilityFeature::TtsMarkup => "ttsMarkup"@,
        AccessibilityFeature::HighContrastAudio => "highContrastAudio"@,
        AccessibilityFeature::HighContrastDisplay => "highContrastDisplay"@,
        AccessibilityFeature::LargePrint => "largePrint"@,
        AccessibilityFeature::Braille => "braille"@,
        AccessibilityFeature::TactileGraphic => "tactileGraphic"@,
        AccessibilityFeature::TactileObject => "tactileObject"@,
        AccessibilityFeature::FullRubyAnnotations => "fullRubyAnnotations"@,
        AccessibilityFeature::HorizontalWriting => "horizontalWriting"@,
        AccessibilityFeature::RubyAnnotations => "rubyAnnotations"@,
        AccessibilityFeature::VerticalWriting => "verticalWriting"@,
        AccessibilityFeature::WithAdditionalWordSegmentation => "withAdditionalWordSegmentation"@,
        AccessibilityFeature::WithoutAdditionalWordSegmentation => "withoutAdditionalWordSegmentation"@,
        AccessibilityFeature::NoFeatures => "none"@,
        AccessibilityFeature::Unknown => "unknown"@,
    }
}

/// The variant of [`AccessibilityFeature`] that a name stands for.
pub open spec fn accessibility_feature_named(s: Seq<char>) -> Option<AccessibilityFeature> {
    if s == "annotations"@ {
        Some(AccessibilityFeature::Annotations)
    } else if s == "ARIA"@ {
        Some(AccessibilityFeature::Aria)
    } else if s == "bookmarks"@ {
        Some(AccessibilityFeature::Bookmarks)
    } else if s == "index"@ {
        Some(AccessibilityFeature::Index)
    } else if s == "pageBreakMarkers"@ {
        Some(AccessibilityFeature::PageBreakMarkers)
    } else if s == "printPageNumbers"@ {
        Some(AccessibilityFeature::PrintPageNumbers)
    } else if s == "pageNavigation"@ {
        Some(AccessibilityFeature::PageNavigation)
    } else if s == "readingOrder"@ {
        Some(AccessibilityFeature::ReadingOrder)
    } else if s == "structuralNavigation"@ {
        Some(AccessibilityFeature::StructuralNavigation)
    } else if s == "tableOfContents"@ {
        Some(AccessibilityFeature::TableOfContents)
    } else if s == "taggedPDF"@ {
        Some(AccessibilityFeature::TaggedPdf)
    } else if s == "alternativeText"@ {
        Some(AccessibilityFeature::AlternativeText)
    } else if s == "audioDescription"@ {
        Some(AccessibilityFeature::AudioDescription)
    } else if s == "closeCaptions"@ {
        Some(AccessibilityFeature::CloseCaptions)
    } else if s == "captions"@ {
        Some(AccessibilityFeature::Captions)
    } else if s == "describedMath"@ {
        Some(AccessibilityFeature::DescribedMath)
    } else if s == "longDescription"@ {
        Some(AccessibilityFeature::LongDescription)
    } else if s == "openCaptions"@ {
        Some(AccessibilityFeature::OpenCaptions)
    } else if s == "signLanguage"@ {
        Some(AccessibilityFeature::SignLanguage)
    } else if s == "transcript"@ {
        Some(AccessibilityFeature::Transcript)
    } else if s == "displayTransformability"@ {
        Some(AccessibilityFeature::DisplayTransformability)
    } else if s == "synchronizedAudioText"@ {
        Some(AccessibilityFeature::SynchronizedAudioText)
    } else if s == "timingControl"@ {
        Some(AccessibilityFeature::TimingControl)
    } else if s == "unlocked"@ {
        Some(AccessibilityFeature::Unlocked)
    } else if s == "ChemML"@ {
        Some(AccessibilityFeature::ChemMl)
    } else if s == "latex"@ {
        Some(AccessibilityFeature::Latex)
    } else if s == "latex-chemistry"@ {
        Some(AccessibilityFeature::LatexChemistry)
    } else if s == "MathML"@ {
        Some(AccessibilityFeature::MathMl)
    } else if s == "MathML-chemistry"@ {
        Some(AccessibilityFeature::MathMlChemistry)
    } else if s == "ttsMarkup"@ {
        Some(AccessibilityFeature::TtsMarkup)
    } else if s == "highContrastAudio"@ {
        Some(AccessibilityFeature::HighContrastAudio)
    } else if s == "highContrastDisplay"@ {
        Some(AccessibilityFeature::HighContrastDisplay)
    } else if s == "largePrint"@ {
        Some(AccessibilityFeature::LargePrint)
    } else if s == "braille"@ {
        Some(AccessibilityFeature::Braille)
    } else if s == "tactileGraphic"@ {
        Some(AccessibilityFeature::TactileGraphic)
    } else if s == "tactileObject"@ {
        Some(AccessibilityFeature::TactileObject)
    } else if s == "fullRubyAnnotations"@ {
        Some(AccessibilityFeature::FullRubyAnnotations)
    } else if s == "horizontalWriting"@ {
        Some(AccessibilityFeature::HorizontalWriting)
    } else if s == "rubyAnnotations"@ {
        Some(AccessibilityFeature::RubyAnnotations)
    } else if s == "verticalWriting"@ {
        Some(AccessibilityFeature::VerticalWriting)
    } else if s == "withAdditionalWordSegmentation"@ {
        Some(AccessibilityFeature::WithAdditionalWordSegmentation)
    } else if s == "withoutAdditionalWordSegmentation"@ {
        Some(AccessibilityFeature::WithoutAdditionalWordSegmentation)
    } else if s == "none"@ {
        Some(AccessibilityFeature::NoFeatures)
    } else if s == "unknown"@ {
        Some(AccessibilityFeature::Unknown)
    } else {
        None
    }
}

/// The variant that a value stands for: the value has to be text, and
/// the text one of the names.
pub open spec fn decode_accessibility_feature(
    d: Doc,
    field: Seq<char>,
) -> Result<AccessibilityFeature, Fault> {
    match d {
        Doc::String(s) => match accessibility_feature_named(s) {
            Some(x) => Ok(x),
            None => Err(Fault::InvalidEnumValue { field, value: s }),
        },
        _ => Err(mismatch(field, text_shapes(), shape_of(d))),
    }
}

/// The written form of a variant: its name.
pub open spec fn encode_accessibility_feature(x: AccessibilityFeature) -> Doc {
    Doc::String(accessibility_feature_name(x))
}

impl AccessibilityFeature {
    /// The name under which this variant is written.
    pub fn name(&self) -> (s: &'static str)
        ensures
            s@ == accessibility_feature_name(*self),
    {
        match self {
            AccessibilityFeature::Annotations => "annotations",
            AccessibilityFeature::Aria => "ARIA",
            AccessibilityFeature::Bookmarks => "bookmarks",
            AccessibilityFeature::Index => "index",
            AccessibilityFeature::PageBreakMarkers => "pageBreakMarkers",
            AccessibilityFeature::PrintPageNumbers => "printPageNumbers",
            AccessibilityFeature::PageNavigation => "pageNavigation",
            AccessibilityFeature::ReadingOrder => "readingOrder",
            AccessibilityFeature::StructuralNavigation => "structuralNavigation",
            AccessibilityFeature::TableOfContents => "tableOfContents",
            AccessibilityFeature::TaggedPdf => "taggedPDF",
            AccessibilityFeature::AlternativeText => "alternativeText",
            AccessibilityFeature::AudioDescription => "audioDescription",
            AccessibilityFeature::CloseCaptions => "closeCaptions",
            AccessibilityFeature::Captions => "captions",
            AccessibilityFeature::DescribedMath => "describedMath",
            AccessibilityFeature::LongDescription => "longDescription",
            AccessibilityFeature::OpenCaptions => "openCaptions",
            AccessibilityFeature::SignLanguage => "signLanguage",
            AccessibilityFeature::Transcript => "transcript",
            AccessibilityFeature::DisplayTransformability => "displayTransformability",
            AccessibilityFeature::SynchronizedAudioText => "synchronizedAudioText",
            AccessibilityFeature::TimingControl => "timingControl",
            AccessibilityFeature::Unlocked => "unlocked",
            AccessibilityFeature::ChemMl => "ChemML",
            AccessibilityFeature::Latex => "latex",
            AccessibilityFeature::LatexChemistry => "latex-chemistry",
            AccessibilityFeature::MathMl => "MathML",
            AccessibilityFeature::MathMlChemistry => "MathML-chemistry",
            AccessibilityFeature::TtsMarkup => "ttsMarkup",
            AccessibilityFeature::HighContrastAudio => "highContrastAudio",
            AccessibilityFeature::HighContrastDisplay => "highContrastDisplay",
            AccessibilityFeature::LargePrint => "largePrint",
            AccessibilityFeature::Braille => "braille",
            AccessibilityFeature::TactileGraphic => "tactileGraphic",
            AccessibilityFeature::TactileObject => "tactileObject",
            AccessibilityFeature::FullRubyAnnotations => "fullRubyAnnotations",
            AccessibilityFeature::HorizontalWriting => "horizontalWriting",
            AccessibilityFeature::RubyAnnotations => "rubyAnnotations",
            AccessibilityFeature::VerticalWriting => "verticalWriting",
            AccessibilityFeature::WithAdditionalWordSegmentation => "withAdditionalWordSegmentation",
            AccessibilityFeature::WithoutAdditionalWordSegmentation => "withoutAdditionalWordSegmentation",
            AccessibilityFeature::NoFeatures => "none",
            AccessibilityFeature::Unknown => "unknown",
        }
    }

    /// The variant that a name stands for.
    pub fn from_name(s: &str) -> (r: Option<AccessibilityFeature>)
        ensures
            r == accessibility_feature_named(s@),
    {
        if same_text(s, "annotations") {
            Some(AccessibilityFeature::Annotations)
        } else if same_text(s, "ARIA") {
            Some(AccessibilityFeature::Aria)
        } else if same_text(s, "bookmarks") {
            Some(AccessibilityFeature::Bookmarks)
        } else if same_text(s, "index") {
            Some(AccessibilityFeature::Index)
        } else if same_text(s, "pageBreakMarkers") {
            Some(AccessibilityFeature::PageBreakMarkers)
        } else if same_text(s, "printPageNumbers") {
            Some(AccessibilityFeature::PrintPageNumbers)
        } else if same_text(s, "pageNavigation") {
            Some(AccessibilityFeature::PageNavigation)
        } else if same_text(s, "readingOrder") {
            Some(AccessibilityFeature::ReadingOrder)
        } else if same_text(s, "structuralNavigation") {
            Some(AccessibilityFeature::StructuralNavigation)
        } else if same_text(s, "tableOfContents") {
            Some(AccessibilityFeature::TableOfContents)
        } else if same_text(s, "taggedPDF") {
            Some(AccessibilityFeature::TaggedPdf)
        } else if same_text(s, "alternativeText") {
            Some(AccessibilityFeature::AlternativeText)
        } else if same_text(s, "audioDescription") {
            Some(AccessibilityFeature::AudioDescription)
        } else if same_text(s, "closeCaptions") {
            Some(AccessibilityFeature::CloseCaptions)
        } else if same_text(s, "captions") {
            Some(AccessibilityFeature::Captions)
        } else if same_text(s, "describedMath") {
            Some(AccessibilityFeature::DescribedMath)
        } else if same_text(s, "longDescription") {
            Some(AccessibilityFeature::LongDescription)
        } else if same_text(s, "openCaptions") {
            Some(AccessibilityFeature::OpenCaptions)
        } else if same_text(s, "signLanguage") {
            Some(AccessibilityFeature::SignLanguage)
        } else if same_text(s, "transcript") {
            Some(AccessibilityFeature::Transcript)
        } else if same_text(s, "displayTransformability") {
            Some(AccessibilityFeature::DisplayTransformability)
        } else if same_text(s, "synchronizedAudioText") {
            Some(AccessibilityFeature::SynchronizedAudioText)
        } else if same_text(s, "timingControl") {
            Some(AccessibilityFeature::TimingControl)
        } else if same_text(s, "unlocked") {
            Some(AccessibilityFeature::Unlocked)
        } else if same_text(s, "ChemML") {
            Some(AccessibilityFeature::ChemMl)
        } else if same_text(s, "latex") {
            Some(AccessibilityFeature::Latex)
        } else if same_text(s, "latex-chemistry") {
            Some(AccessibilityFeature::LatexChemistry)
        } else if same_text(s, "MathML") {
            Some(AccessibilityFeature::MathMl)
        } else if same_text(s, "MathML-chemistry") {
            Some(AccessibilityFeature::MathMlChemistry)
        } else if same_text(s, "ttsMarkup") {
            Some(AccessibilityFeature::TtsMarkup)
        } else if same_text(s, "highContrastAudio") {
            Some(AccessibilityFeature::HighContrastAudio)
        } else if same_text(s, "highContrastDisplay") {
            Some(AccessibilityFeature::HighContrastDisplay)
        } else if same_text(s, "largePrint") {
            Some(AccessibilityFeature::LargePrint)
        } else if same_text(s, "braille") {
            Some(AccessibilityFeature::Braille)
        } else if same_text(s, "tactileGraphic") {
            Some(AccessibilityFeature::TactileGraphic)
        } else if same_text(s, "tactileObject") {
            Some(AccessibilityFeature::TactileObject)
        } else if same_text(s, "fullRubyAnnotations") {
            Some(AccessibilityFeature::FullRubyAnnotations)
        } else if same_text(s, "horizontalWriting") {
            Some(AccessibilityFeature::HorizontalWriting)
        } else if same_text(s, "rubyAnnotations") {
            Some(AccessibilityFeature::RubyAnnotations)
        } else if same_text(s, "verticalWriting") {
            Some(AccessibilityFeature::VerticalWriting)
        } else if same_text(s, "withAdditionalWordSegmentation") {
            Some(AccessibilityFeature::WithAdditionalWordSegmentation)
        } else if same_text(s, "withoutAdditionalWordSegmentation") {
            Some(AccessibilityFeature::WithoutAdditionalWordSegmentation)
        } else if same_text(s, "none") {
            Some(AccessibilityFeature::NoFeatures)
        } else if same_text(s, "unknown") {
            Some(AccessibilityFeature::Unknown)
        } else {
            None
        }
    }

    /// Reads a variant from a value found under `field`.
    pub fn parse(v: &Value, field: &str) -> (r: Result<AccessibilityFeature, ParseError>)
        ensures
            parsed_plain(r) == decode_accessibility_feature(v@, field@),
    {
        match v {
            Value::String(s) => match AccessibilityFeature::from_name(s.as_str()) {
                Some(x) => Ok(x),
                None => Err(ParseError::InvalidEnumValue { field: field.to_owned(), value: s.clone() }),
            },
            _ => Err(wrong_shape(field, shapes1(Shape::String), v)),
        }
    }

    /// Writes this variant as a value.
    pub fn to_value(&self) -> (v: Value)
        ensures
            v@ == encode_accessibility_feature(*self),
    {
        Value::String(self.name().to_owned())
    }
}

/// A name read back gives the variant it was written for.
pub proof fn lemma_accessibility_feature_round_trip(x: AccessibilityFeature)
    ensures
        accessibility_feature_named(accessibility_feature_name(x)) == Some(x),
{
    reveal_strlit("annotations");
    reveal_strlit("ARIA");
    reveal_strlit("bookmarks");
    reveal_strlit("index");
    reveal_strlit("pageBreakMarkers");
    reveal_strlit("printPageNumbers");
    reveal_strlit("pageNavigation");
    reveal_strlit("readingOrder");
    reveal_strlit("structuralNavigation");
    reveal_strlit("tableOfContents");
    reveal_strlit("taggedPDF");
    reveal_strlit("alternativeText");
    reveal_strlit("audioDescription");
    reveal_strlit("closeCaptions");
    reveal_strlit("captions");
    reveal_strlit("describedMath");
    reveal_strlit("longDescription");
    reveal_strlit("openCaptions");
    reveal_strlit("signLanguage");
    reveal_strlit("transcript");
    reveal_strlit("displayTransformability");
    reveal_strlit("synchronizedAudioText");
    reveal_strlit("timingControl");
    reveal_strlit("unlocked");
    reveal_strlit("ChemML");
    reveal_strlit("latex");
    reveal_strlit("latex-chemistry");
    reveal_strlit("MathML");
    reveal_strlit("MathML-chemistry");
    reveal_strlit("ttsMarkup");
    reveal_strlit("highContrastAudio");
    reveal_strlit("highContrastDisplay");
    reveal_strlit("largePrint");
    reveal_strlit("braille");
    reveal_strlit("tactileGraphic");
    reveal_strlit("tactileObject");
    reveal_strlit("fullRubyAnnotations");
    reveal_strlit("horizontalWriting");
    reveal_strlit("rubyAnnotations");
    reveal_strlit("verticalWriting");
    reveal_strlit("withAdditionalWordSegmentation");
    reveal_strlit("withoutAdditionalWordSegmentation");
    reveal_strlit("none");
    reveal_strlit("unknown");
    assert("annotations"@.len() == 11 && "annotations"@[0] == 'a' && "annotations"@[1] == 'n'
        && "annotations"@[2] == 'n' && "annotations"@[3] == 'o' && "annotations"@[4] == 't'
        && "annotations"@[5] == 'a' && "annotations"@[6] == 't' && "annotations"@[7] == 'i'
        && "annotations"@[8] == 'o' && "annotations"@[9] == 'n' && "annotations"@[10] == 's');
    assert("ARIA"@.len() == 4 && "ARIA"@[0] == 'A' && "ARIA"@[1] == 'R' && "ARIA"@[2] == 'I'
        && "ARIA"@[3] == 'A');
    assert("bookmarks"@.len() == 9 && "bookmarks"@[0] == 'b' && "bookmarks"@[1] == 'o'
        && "bookmarks"@[2] == 'o' && "bookmarks"@[3] == 'k' && "bookmarks"@[4] == 'm'
        && "bookmarks"@[5] == 'a' && "bookmarks"@[6] == 'r' && "bookmarks"@[7] == 'k'
        && "bookmarks"@[8] == 's');
    assert("index"@.len() == 5 && "index"@[0] == 'i' && "index"@[1] == 'n' && "index"@[2] == 'd'
        && "index"@[3] == 'e' && "index"@[4] == 'x');
    assert("pageBreakMarkers"@.len() == 16 && "pageBreakMarkers"@[0] == 'p'
        && "pageBreakMarkers"@[1] == 'a' && "pageBreakMarkers"@[2] == 'g'
        && "pageBreakMarkers"@[3] == 'e' && "pageBreakMarkers"@[4] == 'B'
        && "pageBreakMarkers"@[5] == 'r' && "pageBreakMarkers"@[6] == 'e'
        && "pageBreakMarkers"@[7] == 'a' && "pageBreakMarkers"@[8] == 'k'
        && "pageBreakMarkers"@[9] == 'M' && "pageBreakMarkers"@[10] == 'a'
        && "pageBreakMarkers"@[11] == 'r' && "pageBreakMarkers"@[12] == 'k'
        && "pageBreakMarkers"@[13] == 'e' && "pageBreakMarkers"@[14] == 'r'
        && "pageBreakMarkers"@[15] == 's');
    assert("printPageNumbers"@.len() == 16 && "printPageNumbers"@[0] == 'p'
        && "printPageNumbers"@[1] == 'r' && "printPageNumbers"@[2] == 'i'
        && "printPageNumbers"@[3] == 'n' && "printPageNumbers"@[4] == 't'
        && "printPageNumbers"@[5] == 'P' && "printPageNumbers"@[6] == 'a'
        && "printPageNumbers"@[7] == 'g' && "printPageNumbers"@[8] == 'e'
        && "printPageNumbers"@[9] == 'N' && "printPageNumbers"@[10] == 'u'
        && "printPageNumbers"@[11] == 'm' && "printPageNumbers"@[12] == 'b'
        && "printPageNumbers"@[13] == 'e' && "printPageNumbers"@[14] == 'r'
        && "printPageNumbers"@[15] == 's');
    assert("pageNavigation"@.len() == 14 && "pageNavigation"@[0] == 'p'
        && "pageNavigation"@[1] == 'a' && "pageNavigation"@[2] == 'g' && "pageNavigation"@[3] == 'e'
        && "pageNavigation"@[4] == 'N' && "pageNavigation"@[5] == 'a' && "pageNavigation"@[6] == 'v'
        && "pageNavigation"@[7] == 'i' && "pageNavigation"@[8] == 'g' && "pageNavigation"@[9] == 'a'
        && "pageNavigation"@[10] == 't' && "pageNavigation"@[11] == 'i'
        && "pageNavigation"@[12] == 'o' && "pageNavigation"@[13] == 'n');
    assert("readingOrder"@.len() == 12 && "readingOrder"@[0] == 'r' && "readingOrder"@[1] == 'e'
        && "readingOrder"@[2] == 'a' && "readingOrder"@[3] == 'd' && "readingOrder"@[4] == 'i'
        && "readingOrder"@[5] == 'n' && "readingOrder"@[6] == 'g' && "readingOrder"@[7] == 'O'
        && "readingOrder"@[8] == 'r' && "readingOrder"@[9] == 'd' && "readingOrder"@[10] == 'e'
        && "readingOrder"@[11] == 'r');
    assert("structuralNavigation"@.len() == 20 && "structuralNavigation"@[0] == 's'
        && "structuralNavigation"@[1] == 't' && "structuralNavigation"@[2] == 'r'
        && "structuralNavigation"@[3] == 'u' && "structuralNavigation"@[4] == 'c'
        && "structuralNavigation"@[5] == 't' && "structuralNavigation"@[6] == 'u'
        && "structuralNavigation"@[7] == 'r' && "structuralNavigation"@[8] == 'a'
        && "structuralNavigation"@[9] == 'l' && "structuralNavigation"@[10] == 'N'
        && "structuralNavigation"@[11] == 'a' && "structuralNavigation"@[12] == 'v'
        && "structuralNavigation"@[13] == 'i' && "structuralNavigation"@[14] == 'g'
        && "structuralNavigation"@[15] == 'a' && "structuralNavigation"@[16] == 't'
        && "structuralNavigation"@[17] == 'i' && "structuralNavigation"@[18] == 'o'
        && "structuralNavigation"@[19] == 'n');
    assert("tableOfContents"@.len() == 15 && "tableOfContents"@[0] == 't'
        && "tableOfContents"@[1] == 'a' && "tableOfContents"@[2] == 'b'
        && "tableOfContents"@[3] == 'l' && "tableOfContents"@[4] == 'e'
        && "tableOfContents"@[5] == 'O' && "tableOfContents"@[6] == 'f'
        && "tableOfContents"@[7] == 'C' && "tableOfContents"@[8] == 'o'
        && "tableOfContents"@[9] == 'n' && "tableOfContents"@[10] == 't'
        && "tableOfContents"@[11] == 'e' && "tableOfContents"@[12] == 'n'
        && "tableOfContents"@[13] == 't' && "tableOfContents"@[14] == 's');
    assert("taggedPDF"@.len() == 9 && "taggedPDF"@[0] == 't' && "taggedPDF"@[1] == 'a'
        && "taggedPDF"@[2] == 'g' && "taggedPDF"@[3] == 'g' && "taggedPDF"@[4] == 'e'
        && "taggedPDF"@[5] == 'd' && "taggedPDF"@[6] == 'P' && "taggedPDF"@[7] == 'D'
        && "taggedPDF"@[8] == 'F');
    assert("alternativeText"@.len() == 15 && "alternativeText"@[0] == 'a'
        && "alternativeText"@[1] == 'l' && "alternativeText"@[2] == 't'
        && "alternativeText"@[3] == 'e' && "alternativeText"@[4] == 'r'
        && "alternativeText"@[5] == 'n' && "alternativeText"@[6] == 'a'
        && "alternativeText"@[7] == 't' && "alternativeText"@[8] == 'i'
        && "alternativeText"@[9] == 'v' && "alternativeText"@[10] == 'e'
        && "alternativeText"@[11] == 'T' && "alternativeText"@[12] == 'e'
        && "alternativeText"@[13] == 'x' && "alternativeText"@[14] == 't');
    assert("audioDescription"@.len() == 16 && "audioDescription"@[0] == 'a'
        && "audioDescription"@[1] == 'u' && "audioDescription"@[2] == 'd'
        && "audioDescription"@[3] == 'i' && "audioDescription"@[4] == 'o'
        && "audioDescription"@[5] == 'D' && "audioDescription"@[6] == 'e'
        && "audioDescription"@[7] == 's' && "audioDescription"@[8] == 'c'
        && "audioDescription"@[9] == 'r' && "audioDescription"@[10] == 'i'
        && "audioDescription"@[11] == 'p' && "audioDescription"@[12] == 't'
        && "audioDescription"@[13] == 'i' && "audioDescription"@[14] == 'o'
        && "audioDescription"@[15] == 'n');
    assert("closeCaptions"@.len() == 13 && "closeCaptions"@[0] == 'c' && "closeCaptions"@[1] == 'l'
        && "closeCaptions"@[2] == 'o' && "closeCaptions"@[3] == 's' && "closeCaptions"@[4] == 'e'
        && "closeCaptions"@[5] == 'C' && "closeCaptions"@[6] == 'a' && "closeCaptions"@[7] == 'p'
        && "closeCaptions"@[8] == 't' && "closeCaptions"@[9] == 'i' && "closeCaptions"@[10] == 'o'
        && "closeCaptions"@[11] == 'n' && "closeCaptions"@[12] == 's');
    assert("captions"@.len() == 8 && "captions"@[0] == 'c' && "captions"@[1] == 'a'
        && "captions"@[2] == 'p' && "captions"@[3] == 't' && "captions"@[4] == 'i'
        && "captions"@[5] == 'o' && "captions"@[6] == 'n' && "captions"@[7] == 's');
    assert("describedMath"@.len() == 13 && "describedMath"@[0] == 'd' && "describedMath"@[1] == 'e'
        && "describedMath"@[2] == 's' && "describedMath"@[3] == 'c' && "describedMath"@[4] == 'r'
        && "describedMath"@[5] == 'i' && "describedMath"@[6] == 'b' && "describedMath"@[7] == 'e'
        && "describedMath"@[8] == 'd' && "describedMath"@[9] == 'M' && "describedMath"@[10] == 'a'
        && "describedMath"@[11] == 't' && "describedMath"@[12] == 'h');
    assert("longDescription"@.len() == 15 && "longDescription"@[0] == 'l'
        && "longDescription"@[1] == 'o' && "longDescription"@[2] == 'n'
        && "longDescription"@[3] == 'g' && "longDescription"@[4] == 'D'
        && "longDescription"@[5] == 'e' && "longDescription"@[6] == 's'
        && "longDescription"@[7] == 'c' && "longDescription"@[8] == 'r'
        && "longDescription"@[9] == 'i' && "longDescription"@[10] == 'p'
        && "longDescription"@[11] == 't' && "longDescription"@[12] == 'i'
        && "longDescription"@[13] == 'o' && "longDescription"@[14] == 'n');
    assert("openCaptions"@.len() == 12 && "openCaptions"@[0] == 'o' && "openCaptions"@[1] == 'p'
        && "openCaptions"@[2] == 'e' && "openCaptions"@[3] == 'n' && "openCaptions"@[4] == 'C'
        && "openCaptions"@[5] == 'a' && "openCaptions"@[6] == 'p' && "openCaptions"@[7] == 't'
        && "openCaptions"@[8] == 'i' && "openCaptions"@[9] == 'o' && "openCaptions"@[10] == 'n'
        && "openCaptions"@[11] == 's');
    assert("signLanguage"@.len() == 12 && "signLanguage"@[0] == 's' && "signLanguage"@[1] == 'i'
        && "signLanguage"@[2] == 'g' && "signLanguage"@[3] == 'n' && "signLanguage"@[4] == 'L'
        && "signLanguage"@[5] == 'a' && "signLanguage"@[6] == 'n' && "signLanguage"@[7] == 'g'
        && "signLanguage"@[8] == 'u' && "signLanguage"@[9] == 'a' && "signLanguage"@[10] == 'g'
        && "signLanguage"@[11] == 'e');
    assert("transcript"@.len() == 10 && "transcript"@[0] == 't' && "transcript"@[1] == 'r'
        && "transcript"@[2] == 'a' && "transcript"@[3] == 'n' && "transcript"@[4] == 's'
        && "transcript"@[5] == 'c' && "transcript"@[6] == 'r' && "transcript"@[7] == 'i'
        && "transcript"@[8] == 'p' && "transcript"@[9] == 't');
    assert("displayTransformability"@.len() == 23 && "displayTransformability"@[0] == 'd'
        && "displayTransformability"@[1] == 'i' && "displayTransformability"@[2] == 's'
        && "displayTransformability"@[3] == 'p' && "displayTransformability"@[4] == 'l'
        && "displayTransformability"@[5] == 'a' && "displayTransformability"@[6] == 'y'
        && "displayTransformability"@[7] == 'T' && "displayTransformability"@[8] == 'r'
        && "displayTransformability"@[9] == 'a' && "displayTransformability"@[10] == 'n'
        && "displayTransformability"@[11] == 's' && "displayTransformability"@[12] == 'f'
        && "displayTransformability"@[13] == 'o' && "displayTransformability"@[14] == 'r'
        && "displayTransformability"@[15] == 'm' && "displayTransformability"@[16] == 'a'
        && "displayTransformability"@[17] == 'b' && "displayTransformability"@[18] == 'i'
        && "displayTransformability"@[19] == 'l' && "displayTransformability"@[20] == 'i'
        && "displayTransformability"@[21] == 't' && "displayTransformability"@[22] == 'y');
    assert("synchronizedAudioText"@.len() == 21 && "synchronizedAudioText"@[0] == 's'
        && "synchronizedAudioText"@[1] == 'y' && "synchronizedAudioText"@[2] == 'n'
        && "synchronizedAudioText"@[3] == 'c' && "synchronizedAudioText"@[4] == 'h'
        && "synchronizedAudioText"@[5] == 'r' && "synchronizedAudioText"@[6] == 'o'
        && "synchronizedAudioText"@[7] == 'n' && "synchronizedAudioText"@[8] == 'i'
        && "synchronizedAudioText"@[9] == 'z' && "synchronizedAudioText"@[10] == 'e'
        && "synchronizedAudioText"@[11] == 'd' && "synchronizedAudioText"@[12] == 'A'
        && "synchronizedAudioText"@[13] == 'u' && "synchronizedAudioText"@[14] == 'd'
        && "synchronizedAudioText"@[15] == 'i' && "synchronizedAudioText"@[16] == 'o'
        && "synchronizedAudioText"@[17] == 'T' && "synchronizedAudioText"@[18] == 'e'
        && "synchronizedAudioText"@[19] == 'x' && "synchronizedAudioText"@[20] == 't');
    assert("timingControl"@.len() == 13 && "timingControl"@[0] == 't' && "timingControl"@[1] == 'i'
        && "timingControl"@[2] == 'm' && "timingControl"@[3] == 'i' && "timingControl"@[4] == 'n'
        && "timingControl"@[5] == 'g' && "timingControl"@[6] == 'C' && "timingControl"@[7] == 'o'
        && "timingControl"@[8] == 'n' && "timingControl"@[9] == 't' && "timingControl"@[10] == 'r'
        && "timingControl"@[11] == 'o' && "timingControl"@[12] == 'l');
    assert("unlocked"@.len() == 8 && "unlocked"@[0] == 'u' && "unlocked"@[1] == 'n'
        && "unlocked"@[2] == 'l' && "unlocked"@[3] == 'o' && "unlocked"@[4] == 'c'
        && "unlocked"@[5] == 'k' && "unlocked"@[6] == 'e' && "unlocked"@[7] == 'd');
    assert("ChemML"@.len() == 6 && "ChemML"@[0] == 'C' && "ChemML"@[1] == 'h' && "ChemML"@[2] == 'e'
        && "ChemML"@[3] == 'm' && "ChemML"@[4] == 'M' && "ChemML"@[5] == 'L');
    assert("latex"@.len() == 5 && "latex"@[0] == 'l' && "latex"@[1] == 'a' && "latex"@[2] == 't'
        && "latex"@[3] == 'e' && "latex"@[4] == 'x');
    assert("latex-chemistry"@.len() == 15 && "latex-chemistry"@[0] == 'l'
        && "latex-chemistry"@[1] == 'a' && "latex-chemistry"@[2] == 't'
        && "latex-chemistry"@[3] == 'e' && "latex-chemistry"@[4] == 'x'
        && "latex-chemistry"@[5] == '-' && "latex-chemistry"@[6] == 'c'
        && "latex-chemistry"@[7] == 'h' && "latex-chemistry"@[8] == 'e'
        && "latex-chemistry"@[9] == 'm' && "latex-chemistry"@[10] == 'i'
        && "latex-chemistry"@[11] == 's' && "latex-chemistry"@[12] == 't'
        && "latex-chemistry"@[13] == 'r' && "latex-chemistry"@[14] == 'y');
    assert("MathML"@.len() == 6 && "MathML"@[0] == 'M' && "MathML"@[1] == 'a' && "MathML"@[2] == 't'
        && "MathML"@[3] == 'h' && "MathML"@[4] == 'M' && "MathML"@[5] == 'L');
    assert("MathML-chemistry"@.len() == 16 && "MathML-chemistry"@[0] == 'M'
        && "MathML-chemistry"@[1] == 'a' && "MathML-chemistry"@[2] == 't'
        && "MathML-chemistry"@[3] == 'h' && "MathML-chemistry"@[4] == 'M'
        && "MathML-chemistry"@[5] == 'L' && "MathML-chemistry"@[6] == '-'
        && "MathML-chemistry"@[7] == 'c' && "MathML-chemistry"@[8] == 'h'
        && "MathML-chemistry"@[9] == 'e' && "MathML-chemistry"@[10] == 'm'
        && "MathML-chemistry"@[11] == 'i' && "MathML-chemistry"@[12] == 's'
        && "MathML-chemistry"@[13] == 't' && "MathML-chemistry"@[14] == 'r'
        && "MathML-chemistry"@[15] == 'y');
    assert("ttsMarkup"@.len() == 9 && "ttsMarkup"@[0] == 't' && "ttsMarkup"@[1] == 't'
        && "ttsMarkup"@[2] == 's' && "ttsMarkup"@[3] == 'M' && "ttsMarkup"@[4] == 'a'
        && "ttsMarkup"@[5] == 'r' && "ttsMarkup"@[6] == 'k' && "ttsMarkup"@[7] == 'u'
        && "ttsMarkup"@[8] == 'p');
    assert("highContrastAudio"@.len() == 17 && "highContrastAudio"@[0] == 'h'
        && "highContrastAudio"@[1] == 'i' && "highContrastAudio"@[2] == 'g'
        && "highContrastAudio"@[3] == 'h' && "highContrastAudio"@[4] == 'C'
        && "highContrastAudio"@[5] == 'o' && "highContrastAudio"@[6] == 'n'
        && "highContrastAudio"@[7] == 't' && "highContrastAudio"@[8] == 'r'
        && "highContrastAudio"@[9] == 'a' && "highContrastAudio"@[10] == 's'
        && "highContrastAudio"@[11] == 't' && "highContrastAudio"@[12] == 'A'
        && "highContrastAudio"@[13] == 'u' && "highContrastAudio"@[14] == 'd'
        && "highContrastAudio"@[15] == 'i' && "highContrastAudio"@[16] == 'o');
    assert("highContrastDisplay"@.len() == 19 && "highContrastDisplay"@[0] == 'h'
        && "highContrastDisplay"@[1] == 'i' && "highContrastDisplay"@[2] == 'g'
        && "highContrastDisplay"@[3] == 'h' && "highContrastDisplay"@[4] == 'C'
        && "highContrastDisplay"@[5] == 'o' && "highContrastDisplay"@[6] == 'n'
        && "highContrastDisplay"@[7] == 't' && "highContrastDisplay"@[8] == 'r'
        && "highContrastDisplay"@[9] == 'a' && "highContrastDisplay"@[10] == 's'
        && "highContrastDisplay"@[11] == 't' && "highContrastDisplay"@[12] == 'D'
        && "highContrastDisplay"@[13] == 'i' && "highContrastDisplay"@[14] == 's'
        && "highContrastDisplay"@[15] == 'p' && "highContrastDisplay"@[16] == 'l'
        && "highContrastDisplay"@[17] == 'a' && "highContrastDisplay"@[18] == 'y');
    assert("largePrint"@.len() == 10 && "largePrint"@[0] == 'l' && "largePrint"@[1] == 'a'
        && "largePrint"@[2] == 'r' && "largePrint"@[3] == 'g' && "largePrint"@[4] == 'e'
        && "largePrint"@[5] == 'P' && "largePrint"@[6] == 'r' && "largePrint"@[7] == 'i'
        && "largePrint"@[8] == 'n' && "largePrint"@[9] == 't');
    assert("braille"@.len() == 7 && "braille"@[0] == 'b' && "braille"@[1] == 'r'
        && "braille"@[2] == 'a' && "braille"@[3] == 'i' && "braille"@[4] == 'l'
        && "braille"@[5] == 'l' && "braille"@[6] == 'e');
    assert("tactileGraphic"@.len() == 14 && "tactileGraphic"@[0] == 't'
        && "tactileGraphic"@[1] == 'a' && "tactileGraphic"@[2] == 'c' && "tactileGraphic"@[3] == 't'
        && "tactileGraphic"@[4] == 'i' && "tactileGraphic"@[5] == 'l' && "tactileGraphic"@[6] == 'e'
        && "tactileGraphic"@[7] == 'G' && "tactileGraphic"@[8] == 'r' && "tactileGraphic"@[9] == 'a'
        && "tactileGraphic"@[10] == 'p' && "tactileGraphic"@[11] == 'h'
        && "tactileGraphic"@[12] == 'i' && "tactileGraphic"@[13] == 'c');
    assert("tactileObject"@.len() == 13 && "tactileObject"@[0] == 't' && "tactileObject"@[1] == 'a'
        && "tactileObject"@[2] == 'c' && "tactileObject"@[3] == 't' && "tactileObject"@[4] == 'i'
        && "tactileObject"@[5] == 'l' && "tactileObject"@[6] == 'e' && "tactileObject"@[7] == 'O'
        && "tactileObject"@[8] == 'b' && "tactileObject"@[9] == 'j' && "tactileObject"@[10] == 'e'
        && "tactileObject"@[11] == 'c' && "tactileObject"@[12] == 't');
    assert("fullRubyAnnotations"@.len() == 19 && "fullRubyAnnotations"@[0] == 'f'
        && "fullRubyAnnotations"@[1] == 'u' && "fullRubyAnnotations"@[2] == 'l'
        && "fullRubyAnnotations"@[3] == 'l' && "fullRubyAnnotations"@[4] == 'R'
        && "fullRubyAnnotations"@[5] == 'u' && "fullRubyAnnotations"@[6] == 'b'
        && "fullRubyAnnotations"@[7] == 'y' && "fullRubyAnnotations"@[8] == 'A'
        && "fullRubyAnnotations"@[9] == 'n' && "fullRubyAnnotations"@[10] == 'n'
        && "fullRubyAnnotations"@[11] == 'o' && "fullRubyAnnotations"@[12] == 't'
        && "fullRubyAnnotations"@[13] == 'a' && "fullRubyAnnotations"@[14] == 't'
        && "fullRubyAnnotations"@[15] == 'i' && "fullRubyAnnotations"@[16] == 'o'
        && "fullRubyAnnotations"@[17] == 'n' && "fullRubyAnnotations"@[18] == 's');
    assert("horizontalWriting"@.len() == 17 && "horizontalWriting"@[0] == 'h'
        && "horizontalWriting"@[1] == 'o' && "horizontalWriting"@[2] == 'r'
        && "horizontalWriting"@[3] == 'i' && "horizontalWriting"@[4] == 'z'
        && "horizontalWriting"@[5] == 'o' && "horizontalWriting"@[6] == 'n'
        && "horizontalWriting"@[7] == 't' && "horizontalWriting"@[8] == 'a'
        && "horizontalWriting"@[9] == 'l' && "horizontalWriting"@[10] == 'W'
        && "horizontalWriting"@[11] == 'r' && "horizontalWriting"@[12] == 'i'
        && "horizontalWriting"@[13] == 't' && "horizontalWriting"@[14] == 'i'
        && "horizontalWriting"@[15] == 'n' && "horizontalWriting"@[16] == 'g');
    assert("rubyAnnotations"@.len() == 15 && "rubyAnnotations"@[0] == 'r'
        && "rubyAnnotations"@[1] == 'u' && "rubyAnnotations"@[2] == 'b'
        && "rubyAnnotations"@[3] == 'y' && "rubyAnnotations"@[4] == 'A'
        && "rubyAnnotations"@[5] == 'n' && "rubyAnnotations"@[6] == 'n'
        && "rubyAnnotations"@[7] == 'o' && "rubyAnnotations"@[8] == 't'
        && "rubyAnnotations"@[9] == 'a' && "rubyAnnotations"@[10] == 't'
        && "rubyAnnotations"@[11] == 'i' && "rubyAnnotations"@[12] == 'o'
        && "rubyAnnotations"@[13] == 'n' && "rubyAnnotations"@[14] == 's');
    assert("verticalWriting"@.len() == 15 && "verticalWriting"@[0] == 'v'
        && "verticalWriting"@[1] == 'e' && "verticalWriting"@[2] == 'r'
        && "verticalWriting"@[3] == 't' && "verticalWriting"@[4] == 'i'
        && "verticalWriting"@[5] == 'c' && "verticalWriting"@[6] == 'a'
        && "verticalWriting"@[7] == 'l' && "verticalWriting"@[8] == 'W'
        && "verticalWriting"@[9] == 'r' && "verticalWriting"@[10] == 'i'
        && "verticalWriting"@[11] == 't' && "verticalWriting"@[12] == 'i'
        && "verticalWriting"@[13] == 'n' && "verticalWriting"@[14] == 'g');
    assert("withAdditionalWordSegmentation"@.len() == 30
        && "withAdditionalWordSegmentation"@[0] == 'w'
        && "withAdditionalWordSegmentation"@[1] == 'i'
        && "withAdditionalWordSegmentation"@[2] == 't'
        && "withAdditionalWordSegmentation"@[3] == 'h'
        && "withAdditionalWordSegmentation"@[4] == 'A'
        && "withAdditionalWordSegmentation"@[5] == 'd'
        && "withAdditionalWordSegmentation"@[6] == 'd'
        && "withAdditionalWordSegmentation"@[7] == 'i'
        && "withAdditionalWordSegmentation"@[8] == 't'
        && "withAdditionalWordSegmentation"@[9] == 'i'
        && "withAdditionalWordSegmentation"@[10] == 'o'
        && "withAdditionalWordSegmentation"@[11] == 'n'
        && "withAdditionalWordSegmentation"@[12] == 'a'
        && "withAdditionalWordSegmentation"@[13] == 'l'
        && "withAdditionalWordSegmentation"@[14] == 'W'
        && "withAdditionalWordSegmentation"@[15] == 'o'
        && "withAdditionalWordSegmentation"@[16] == 'r'
        && "withAdditionalWordSegmentation"@[17] == 'd'
        && "withAdditionalWordSegmentation"@[18] == 'S'
        && "withAdditionalWordSegmentation"@[19] == 'e'
        && "withAdditionalWordSegmentation"@[20] == 'g'
        && "withAdditionalWordSegmentation"@[21] == 'm'
        && "withAdditionalWordSegmentation"@[22] == 'e'
        && "withAdditionalWordSegmentation"@[23] == 'n'
        && "withAdditionalWordSegmentation"@[24] == 't'
        && "withAdditionalWordSegmentation"@[25] == 'a'
        && "withAdditionalWordSegmentation"@[26] == 't'
        && "withAdditionalWordSegmentation"@[27] == 'i'
        && "withAdditionalWordSegmentation"@[28] == 'o'
        && "withAdditionalWordSegmentation"@[29] == 'n');
    assert("withoutAdditionalWordSegmentation"@.len() == 33
        && "withoutAdditionalWordSegmentation"@[0] == 'w'
        && "withoutAdditionalWordSegmentation"@[1] == 'i'
        && "withoutAdditionalWordSegmentation"@[2] == 't'
        && "withoutAdditionalWordSegmentation"@[3] == 'h'
        && "withoutAdditionalWordSegmentation"@[4] == 'o'
        && "withoutAdditionalWordSegmentation"@[5] == 'u'
        && "withoutAdditionalWordSegmentation"@[6] == 't'
        && "withoutAdditionalWordSegmentation"@[7] == 'A'
        && "withoutAdditionalWordSegmentation"@[8] == 'd'
        && "withoutAdditionalWordSegmentation"@[9] == 'd'
        && "withoutAdditionalWordSegmentation"@[10] == 'i'
        && "withoutAdditionalWordSegmentation"@[11] == 't'
        && "withoutAdditionalWordSegmentation"@[12] == 'i'
        && "withoutAdditionalWordSegmentation"@[13] == 'o'
        && "withoutAdditionalWordSegmentation"@[14] == 'n'
        && "withoutAdditionalWordSegmentation"@[15] == 'a'
        && "withoutAdditionalWordSegmentation"@[16] == 'l'
        && "withoutAdditionalWordSegmentation"@[17] == 'W'
        && "withoutAdditionalWordSegmentation"@[18] == 'o'
        && "withoutAdditionalWordSegmentation"@[19] == 'r'
        && "withoutAdditionalWordSegmentation"@[20] == 'd'
        && "withoutAdditionalWordSegmentation"@[21] == 'S'
        && "withoutAdditionalWordSegmentation"@[22] == 'e'
        && "withoutAdditionalWordSegmentation"@[23] == 'g'
        && "withoutAdditionalWordSegmentation"@[24] == 'm'
        && "withoutAdditionalWordSegmentation"@[25] == 'e'
        && "withoutAdditionalWordSegmentation"@[26] == 'n'
        && "withoutAdditionalWordSegmentation"@[27] == 't'
        && "withoutAdditionalWordSegmentation"@[28] == 'a'
        && "withoutAdditionalWordSegmentation"@[29] == 't'
        && "withoutAdditionalWordSegmentation"@[30] == 'i'
        && "withoutAdditionalWordSegmentation"@[31] == 'o'
        && "withoutAdditionalWordSegmentation"@[32] == 'n');
    assert("none"@.len() == 4 && "none"@[0] == 'n' && "none"@[1] == 'o' && "none"@[2] == 'n'
        && "none"@[3] == 'e');
    assert("unknown"@.len() == 7 && "unknown"@[0] == 'u' && "unknown"@[1] == 'n'
        && "unknown"@[2] == 'k' && "unknown"@[3] == 'n' && "unknown"@[4] == 'o'
        && "unknown"@[5] == 'w' && "unknown"@[6] == 'n');
}

/// The variants that the items of a sequence stand for, or the error
/// of the first item that stands for none.
pub open spec fn decode_accessibility_feature_seq(
    items: Seq<Doc>,
    field: Seq<char>,
) -> Result<Seq<AccessibilityFeature>, Fault>
    decreases items.len(),
{
    if items.len() == 0 {
        Ok(Seq::empty())
    } else {
        match decode_accessibility_feature_seq(items.drop_last(), field) {
            Err(e) => Err(e),
            Ok(init) => match decode_accessibility_feature(items.last(), field) {
                Err(e) => Err(e),
                Ok(x) => Ok(init.push(x)),
            },
        }
    }
}

/// The written forms of a run of variants.
pub open spec fn encode_accessibility_feature_seq(xs: Seq<AccessibilityFeature>) -> Seq<Doc> {
    Seq::new(xs.len(), |i: int| encode_accessibility_feature(xs[i]))
}

/// What a list field of [`AccessibilityFeature`] holds: nothing where it is
/// absent.
pub open spec fn read_accessibility_feature_list(
    m: Seq<(Seq<char>, Doc)>,
    key: Seq<char>,
) -> Result<Seq<AccessibilityFeature>, Fault> {
    match lookup(m, key) {
        None => Ok(Seq::empty()),
        Some(Doc::Array(items)) => decode_accessibility_feature_seq(items, key),
        Some(d) => Err(mismatch(key, list_shapes(), shape_of(d))),
    }
}

/// The written form of such a field.
pub open spec fn write_accessibility_feature_list(xs: Seq<AccessibilityFeature>) -> Option<Doc> {
    listed(encode_accessibility_feature_seq(xs))
}

/// The model of what reading a list of [`AccessibilityFeature`] gave.
pub open spec fn parsed_accessibility_feature_list(
    r: Result<Vec<AccessibilityFeature>, ParseError>,
) -> Result<Seq<AccessibilityFeature>, Fault> {
    match r {
        Ok(xs) => Ok(xs@),
        Err(e) => Err(e@),
    }
}

/// Reads the items of a sequence as variants of [`AccessibilityFeature`].
pub fn parse_accessibility_feature_seq(
    items: &Vec<Value>,
    field: &str,
) -> (r: Result<Vec<AccessibilityFeature>, ParseError>)
    ensures
        parsed_accessibility_feature_list(r)
            == decode_accessibility_feature_seq(docs_of(items@), field@),
{
    let mut out: Vec<AccessibilityFeature> = Vec::new();
    let mut i: usize = 0;
    while i < items.len()
        invariant
            i <= items.len(),
            decode_accessibility_feature_seq(docs_of(items@).take(i as int), field@)
                == Ok::<Seq<AccessibilityFeature>, Fault>(out@),
        decreases items.len() - i,
    {
        let ghost all = docs_of(items@);
        proof {
            assert(all.take(i + 1).drop_last() =~= all.take(i as int));
            assert(all.take(i + 1).last() == items@[i as int]@);
        }
        match AccessibilityFeature::parse(&items[i], field) {
            Ok(x) => {
                out.push(x);
            },
            Err(e) => {
                proof {
                    lemma_accessibility_feature_seq_fails(all, field@, i as int);
                }
                return Err(e);
            },
        }
        i += 1;
    }
    proof {
        assert(docs_of(items@).take(i as int) =~= docs_of(items@));
    }
    Ok(out)
}

/// Where the items before `i` can be read and item `i` cannot, the
/// sequence gives the error of item `i`.
pub proof fn lemma_accessibility_feature_seq_fails(items: Seq<Doc>, field: Seq<char>, i: int)
    requires
        0 <= i < items.len(),
        decode_accessibility_feature_seq(items.take(i), field) is Ok,
        decode_accessibility_feature(items[i], field) is Err,
    ensures
        decode_accessibility_feature_seq(items, field)
            == Err::<Seq<AccessibilityFeature>, Fault>(decode_accessibility_feature(items[i], field)->Err_0),
    decreases items.len(),
{
    if i == items.len() - 1 {
        assert(items.take(i) =~= items.drop_last());
    } else {
        assert(items.drop_last().take(i) =~= items.take(i));
        lemma_accessibility_feature_seq_fails(items.drop_last(), field, i);
    }
}

/// Reads a list field of [`AccessibilityFeature`].
pub fn get_accessibility_feature_list(
    members: &Vec<(String, Value)>,
    key: &str,
) -> (r: Result<Vec<AccessibilityFeature>, ParseError>)
    ensures
        parsed_accessibility_feature_list(r)
            == read_accessibility_feature_list(members_of(members@), key@),
{
    match find(members, key) {
        None => Ok(Vec::new()),
        Some(v) => match v {
            Value::Array(items) => parse_accessibility_feature_seq(items, key),
            _ => Err(wrong_shape(key, shapes1(Shape::Array), v)),
        },
    }
}

/// Writes a list field of [`AccessibilityFeature`].
pub fn make_accessibility_feature_list(xs: &Vec<AccessibilityFeature>) -> (r: Option<Value>)
    ensures
        opt_doc(r) == write_accessibility_feature_list(xs@),
{
    let mut out: Vec<Value> = Vec::new();
    let mut i: usize = 0;
    while i < xs.len()
        invariant
            i <= xs.len(),
            out@.len() == i,
            forall|j: int| 0 <= j < i
                ==> (#[trigger] out@[j])@ == encode_accessibility_feature(xs@[j]),
        decreases xs.len() - i,
    {
        out.push(xs[i].to_value());
        i += 1;
    }
    proof {
        assert(docs_of(out@) =~= encode_accessibility_feature_seq(xs@));
    }
    plain(out)
}

/// A run of variants written and read again is the same run.
pub proof fn lemma_accessibility_feature_seq_round_trip(
    xs: Seq<AccessibilityFeature>,
    field: Seq<char>,
)
    ensures
        decode_accessibility_feature_seq(encode_accessibility_feature_seq(xs), field)
            == Ok::<Seq<AccessibilityFeature>, Fault>(xs),
    decreases xs.len(),
{
    if xs.len() > 0 {
        let docs = encode_accessibility_feature_seq(xs);
        assert(docs.drop_last() =~= encode_accessibility_feature_seq(xs.drop_last()));
        lemma_accessibility_feature_seq_round_trip(xs.drop_last(), field);
        lemma_accessibility_feature_round_trip(xs.last());
        assert(xs.drop_last().push(xs.last()) =~= xs);
    } else {
        assert(xs =~= Seq::<AccessibilityFeature>::empty());
    }
}

} // verus!
