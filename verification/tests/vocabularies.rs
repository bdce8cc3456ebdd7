use opds::error::ParseError;
use opds::v2_0::metadata::{
    AccessMode, AccessibilityExemption, AccessibilityFeature, AccessibilityHazard, AvailabilityState,
    PageDisplay, PublicationLayout, ReadingProgression, Reservation,
};
use opds::value::{Shape, Value};

#[test]
fn each_page_display_has_its_name() {
    let table = [
        (PageDisplay::Left, "left"),
        (PageDisplay::Right, "right"),
        (PageDisplay::Center, "center"),
    ];
    for (variant, name) in table {
        assert_eq!(variant.name(), name);
        assert_eq!(PageDisplay::from_name(name), Some(variant));
        assert_eq!(variant.to_value(), Value::String(name.to_string()));
        assert_eq!(PageDisplay::parse(&Value::String(name.to_string()), "field"), Ok(variant));
    }
    assert_eq!(table.len(), 3);
    assert_eq!(PageDisplay::from_name(""), None);
    assert_eq!(PageDisplay::from_name("LEFTx"), None);
}

#[test]
fn each_publication_layout_has_its_name() {
    let table = [
        (PublicationLayout::Fixed, "fixed"),
        (PublicationLayout::Reflowable, "reflowable"),
        (PublicationLayout::Scrolled, "scrolled"),
    ];
    for (variant, name) in table {
        assert_eq!(variant.name(), name);
        assert_eq!(PublicationLayout::from_name(name), Some(variant));
        assert_eq!(variant.to_value(), Value::String(name.to_string()));
        assert_eq!(PublicationLayout::parse(&Value::String(name.to_string()), "field"), Ok(variant));
    }
    assert_eq!(table.len(), 3);
    assert_eq!(PublicationLayout::from_name(""), None);
    assert_eq!(PublicationLayout::from_name("FIXEDx"), None);
}

#[test]
fn each_reading_progression_has_its_name() {
    let table = [
        (ReadingProgression::RightToLeft, "rtl"),
        (ReadingProgression::LeftToRight, "ltr"),
    ];
    for (variant, name) in table {
        assert_eq!(variant.name(), name);
        assert_eq!(ReadingProgression::from_name(name), Some(variant));
        assert_eq!(variant.to_value(), Value::String(name.to_string()));
        assert_eq!(ReadingProgression::parse(&Value::String(name.to_string()), "field"), Ok(variant));
    }
    assert_eq!(table.len(), 2);
    assert_eq!(ReadingProgression::from_name(""), None);
    assert_eq!(ReadingProgression::from_name("RTLx"), None);
}

#[test]
fn each_availability_state_has_its_name() {
    let table = [
        (AvailabilityState::Available, "available"),
        (AvailabilityState::Unavailable, "unavailable"),
        (AvailabilityState::Reserved, "reserved"),
        (AvailabilityState::Ready, "ready"),
    ];
    for (variant, name) in table {
        assert_eq!(variant.name(), name);
        assert_eq!(AvailabilityState::from_name(name), Some(variant));
        assert_eq!(variant.to_value(), Value::String(name.to_string()));
        assert_eq!(AvailabilityState::parse(&Value::String(name.to_string()), "field"), Ok(variant));
    }
    assert_eq!(table.len(), 4);
    assert_eq!(AvailabilityState::from_name(""), None);
    assert_eq!(AvailabilityState::from_name("AVAILABLEx"), None);
}

#[test]
fn each_access_mode_has_its_name() {
    let table = [
        (AccessMode::Auditory, "auditory"),
        (AccessMode::ChartOnVisual, "chartOnVisual"),
        (AccessMode::ChemOnVisual, "chemOnVisual"),
        (AccessMode::ColorDependent, "colorDependent"),
        (AccessMode::DiagramOnVisual, "diagramOnVisual"),
        (AccessMode::MathOnVisual, "mathOnVisual"),
        (AccessMode::MusicOnVisual, "musicOnVisual"),
        (AccessMode::Tactile, "tactile"),
        (AccessMode::TextOnVisual, "textOnVisual"),
        (AccessMode::Textual, "textual"),
        (AccessMode::Visual, "visual"),
    ];
    for (variant, name) in table {
        assert_eq!(variant.name(), name);
        assert_eq!(AccessMode::from_name(name), Some(variant));
        assert_eq!(variant.to_value(), Value::String(name.to_string()));
        assert_eq!(AccessMode::parse(&Value::String(name.to_string()), "field"), Ok(variant));
    }
    assert_eq!(table.len(), 11);
    assert_eq!(AccessMode::from_name(""), None);
    assert_eq!(AccessMode::from_name("AUDITORYx"), None);
}

#[test]
fn each_accessibility_exemption_has_its_name() {
    let table = [
        (AccessibilityExemption::EaaDisproportionateBurden, "eaa-disproportionate-burden"),
        (AccessibilityExemption::EaaFundamentalAlteration, "eaa-fundamental-alteration"),
        (AccessibilityExemption::EaaMicroenterprise, "eaa-microenterprise"),
    ];
    for (variant, name) in table {
        assert_eq!(variant.name(), name);
        assert_eq!(AccessibilityExemption::from_name(name), Some(variant));
        assert_eq!(variant.to_value(), Value::String(name.to_string()));
        assert_eq!(AccessibilityExemption::parse(&Value::String(name.to_string()), "field"), Ok(variant));
    }
    assert_eq!(table.len(), 3);
    assert_eq!(AccessibilityExemption::from_name(""), None);
    assert_eq!(AccessibilityExemption::from_name("EAA-DISPROPORTIONATE-BURDENx"), None);
}

#[test]
fn each_accessibility_feature_has_its_name() {
    let table = [
        (AccessibilityFeature::Annotations, "annotations"),
        (AccessibilityFeature::Aria, "ARIA"),
        (AccessibilityFeature::Bookmarks, "bookmarks"),
        (AccessibilityFeature::Index, "index"),
        (AccessibilityFeature::PageBreakMarkers, "pageBreakMarkers"),
        (AccessibilityFeature::PrintPageNumbers, "printPageNumbers"),
        (AccessibilityFeature::PageNavigation, "pageNavigation"),
        (AccessibilityFeature::ReadingOrder, "readingOrder"),
        (AccessibilityFeature::StructuralNavigation, "structuralNavigation"),
        (AccessibilityFeature::TableOfContents, "tableOfContents"),
        (AccessibilityFeature::TaggedPdf, "taggedPDF"),
        (AccessibilityFeature::AlternativeText, "alternativeText"),
        (AccessibilityFeature::AudioDescription, "audioDescription"),
        (AccessibilityFeature::CloseCaptions, "closeCaptions"),
        (AccessibilityFeature::Captions, "captions"),
        (AccessibilityFeature::DescribedMath, "describedMath"),
        (AccessibilityFeature::LongDescription, "longDescription"),
        (AccessibilityFeature::OpenCaptions, "openCaptions"),
        (AccessibilityFeature::SignLanguage, "signLanguage"),
        (AccessibilityFeature::Transcript, "transcript"),
        (AccessibilityFeature::DisplayTransformability, "displayTransformability"),
        (AccessibilityFeature::SynchronizedAudioText, "synchronizedAudioText"),
        (AccessibilityFeature::TimingControl, "timingControl"),
        (AccessibilityFeature::Unlocked, "unlocked"),
        (AccessibilityFeature::ChemMl, "ChemML"),
        (AccessibilityFeature::Latex, "latex"),
        (AccessibilityFeature::LatexChemistry, "latex-chemistry"),
        (AccessibilityFeature::MathMl, "MathML"),
        (AccessibilityFeature::MathMlChemistry, "MathML-chemistry"),
        (AccessibilityFeature::TtsMarkup, "ttsMarkup"),
        (AccessibilityFeature::HighContrastAudio, "highContrastAudio"),
        (AccessibilityFeature::HighContrastDisplay, "highContrastDisplay"),
        (AccessibilityFeature::LargePrint, "largePrint"),
        (AccessibilityFeature::Braille, "braille"),
        (AccessibilityFeature::TactileGraphic, "tactileGraphic"),
        (AccessibilityFeature::TactileObject, "tactileObject"),
        (AccessibilityFeature::FullRubyAnnotations, "fullRubyAnnotations"),
        (AccessibilityFeature::HorizontalWriting, "horizontalWriting"),
        (AccessibilityFeature::RubyAnnotations, "rubyAnnotations"),
        (AccessibilityFeature::VerticalWriting, "verticalWriting"),
        (AccessibilityFeature::WithAdditionalWordSegmentation, "withAdditionalWordSegmentation"),
        (AccessibilityFeature::WithoutAdditionalWordSegmentation, "withoutAdditionalWordSegmentation"),
        (AccessibilityFeature::NoFeatures, "none"),
        (AccessibilityFeature::Unknown, "unknown"),
    ];
    for (variant, name) in table {
        assert_eq!(variant.name(), name);
        assert_eq!(AccessibilityFeature::from_name(name), Some(variant));
        assert_eq!(variant.to_value(), Value::String(name.to_string()));
        assert_eq!(AccessibilityFeature::parse(&Value::String(name.to_string()), "field"), Ok(variant));
    }
    assert_eq!(table.len(), 44);
    assert_eq!(AccessibilityFeature::from_name(""), None);
    assert_eq!(AccessibilityFeature::from_name("ANNOTATIONSx"), None);
}

#[test]
fn each_accessibility_hazard_has_its_name() {
    let table = [
        (AccessibilityHazard::Flashing, "flashing"),
        (AccessibilityHazard::MotionSimulation, "motionSimulation"),
        (AccessibilityHazard::Sound, "sound"),
        (AccessibilityHazard::NoHazards, "none"),
        (AccessibilityHazard::NoFlashingHazard, "noFlashingHazard"),
        (AccessibilityHazard::NoMotionSimulationHazard, "noMotionSimulationHazard"),
        (AccessibilityHazard::NoSoundHazard, "noSoundHazard"),
        (AccessibilityHazard::Unknown, "unknown"),
        (AccessibilityHazard::UnknownFlashingHazard, "unknownFlashingHazard"),
        (AccessibilityHazard::UnknownMotionSimulationHazard, "unknownMotionSimulationHazard"),
        (AccessibilityHazard::UnknownSoundHazard, "unknownSoundHazard"),
    ];
    for (variant, name) in table {
        assert_eq!(variant.name(), name);
        assert_eq!(AccessibilityHazard::from_name(name), Some(variant));
        assert_eq!(variant.to_value(), Value::String(name.to_string()));
        assert_eq!(AccessibilityHazard::parse(&Value::String(name.to_string()), "field"), Ok(variant));
    }
    assert_eq!(table.len(), 11);
    assert_eq!(AccessibilityHazard::from_name(""), None);
    assert_eq!(AccessibilityHazard::from_name("FLASHINGx"), None);
}

#[test]
fn each_reservation_has_its_name() {
    let table = [
        (Reservation::All, "all"),
        (Reservation::Nothing, "none"),
    ];
    for (variant, name) in table {
        assert_eq!(variant.name(), name);
        assert_eq!(Reservation::from_name(name), Some(variant));
        assert_eq!(variant.to_value(), Value::String(name.to_string()));
        assert_eq!(Reservation::parse(&Value::String(name.to_string()), "field"), Ok(variant));
    }
    assert_eq!(table.len(), 2);
    assert_eq!(Reservation::from_name(""), None);
    assert_eq!(Reservation::from_name("ALLx"), None);
}

#[test]
fn a_name_in_the_wrong_case_is_no_name() {
    assert_eq!(AccessibilityFeature::from_name("aria"), None);
    assert_eq!(AccessibilityFeature::from_name("ARIA"), Some(AccessibilityFeature::Aria));
    assert_eq!(AccessMode::from_name("chartonvisual"), None);
    assert_eq!(PageDisplay::from_name("Left"), None);
}

#[test]
fn a_closed_set_is_read_from_text_only() {
    assert_eq!(
        PageDisplay::parse(&Value::Bool(true), "page"),
        Err(ParseError::ShapeMismatch { field: "page".to_string(), expected: vec![Shape::String], actual: Shape::Bool })
    );
    assert_eq!(
        PageDisplay::parse(&Value::String("up".to_string()), "page"),
        Err(ParseError::InvalidEnumValue { field: "page".to_string(), value: "up".to_string() })
    );
}

#[test]
fn the_reading_progression_is_from_left_to_right_unless_said() {
    assert_eq!(ReadingProgression::default(), ReadingProgression::LeftToRight);
}
