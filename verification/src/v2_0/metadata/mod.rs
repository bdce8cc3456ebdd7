//! Types used to represent the fields within the feed, link and publication metadata.
pub mod access;
pub mod accessibility;
pub mod belonging;
pub mod containment;
pub mod feature;
pub mod feed_metadata;
pub mod identifier;
pub mod labels;
pub mod language;
pub mod localized;
pub mod localized_fields;
pub mod naming;
pub mod nesting;
pub mod people;
pub mod presentation;
pub mod properties;
pub mod publication_metadata;
pub mod relation;

pub use self::access::{AccessMode, AccessibilityExemption, AccessibilityHazard};
pub use self::accessibility::{AccessbilityCertification, AccessibilityMetadata};
pub use self::belonging::{BelongsTo, Contains};
pub use self::containment::{Article, Collection, Episode, Periodical};
pub use self::feature::AccessibilityFeature;
pub use self::feed_metadata::FeedMetadata;
pub use self::identifier::Identifier;
pub use self::localized::{StringWithAlternates, TaggedStrings};
pub use self::naming::{AltIdentifier, DataMining};
pub use self::nesting::{Chapter, Issue, Season, Series, StoryArc, Volume};
pub use self::people::{Contributor, Subject};
pub use self::presentation::{
    AvailabilityState, PageDisplay, PublicationLayout, ReadingProgression, Reservation,
};
pub use self::properties::{Acquisition, Availability, Copies, Holds, LinkProperties, Price};
pub use self::publication_metadata::PublicationMetadata;
pub use self::relation::{AcquisitionKind, Relation};
