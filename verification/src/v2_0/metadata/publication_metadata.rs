//! Metadata of a publication.
use vstd::prelude::*;
use crate::error::{Fault, ParseError, mismatch, parsed, record_shapes};
use crate::helpers::{
    get_opt_flag, get_opt_natural, get_opt_text, make_opt_flag, make_opt_natural, make_opt_text,
    missing, read_opt_flag, read_opt_natural, read_opt_text, shapes1, write_opt_flag,
    write_opt_natural, write_opt_text, wrong_shape,
};
use crate::text::{copy_opt_text, copy_texts, opt_text, texts_of};
use crate::v2_0::metadata::accessibility::{
    AccessibilityMetadata, AccessibilityMetadataView, copy_opt_accessibility_metadata,
    get_opt_accessibility_metadata, lemma_opt_accessibility_metadata_round_trip,
    lemma_read_opt_accessibility_metadata_wf, make_opt_accessibility_metadata,
    opt_accessibility_metadata, opt_accessibility_metadata_wf, read_opt_accessibility_metadata,
    write_opt_accessibility_metadata,
};
use crate::v2_0::metadata::belonging::{
    BelongsTo, BelongsToView, Contains, ContainsView, copy_opt_belongs_to, copy_opt_contains,
    get_opt_belongs_to, get_opt_contains, lemma_opt_belongs_to_round_trip,
    lemma_opt_contains_round_trip, lemma_read_opt_belongs_to_wf, lemma_read_opt_contains_wf,
    make_opt_belongs_to, make_opt_contains, opt_belongs_to, opt_belongs_to_wf, opt_contains,
    opt_contains_wf, read_opt_belongs_to, read_opt_contains, write_opt_belongs_to,
    write_opt_contains,
};
use crate::v2_0::metadata::identifier::{
    get_opt_url, get_url_list, lemma_read_opt_url_wf, lemma_read_url_list_wf,
    lemma_url_list_round_trip, make_opt_url, make_url_list, opt_url_wf, read_opt_url,
    read_url_list, urls_wf, write_opt_url, write_url_list,
};
use crate::v2_0::metadata::language::{
    get_language_flat, languages_wf, lemma_language_flat_round_trip, lemma_read_language_flat_wf,
    make_language_flat, read_language_flat, write_language_flat,
};
use crate::v2_0::metadata::localized::{
    Localized, StringWithAlternates, localized_wf, opt_localized, opt_localized_wf,
};
use crate::v2_0::metadata::localized_fields::{
    copy_opt_localized, get_localized, get_opt_localized, lemma_localized_field_round_trip,
    lemma_opt_localized_round_trip, lemma_read_localized_wf, lemma_read_opt_localized_wf,
    make_localized, make_opt_localized, read_localized, read_opt_localized, write_localized,
    write_opt_localized,
};
use crate::v2_0::metadata::naming::{
    AltIdentifier, AltIdentifierView, DataMining, DataMiningView, alt_identifier_seq_wf,
    alt_identifier_views, copy_alt_identifier_seq, copy_opt_data_mining, get_alt_identifier_flat,
    get_opt_data_mining, lemma_alt_identifier_flat_round_trip, lemma_opt_data_mining_round_trip,
    lemma_read_alt_identifier_flat_wf, lemma_read_opt_data_mining_wf, make_alt_identifier_flat,
    make_opt_data_mining, opt_data_mining, opt_data_mining_wf, read_alt_identifier_flat,
    read_opt_data_mining, write_alt_identifier_flat, write_opt_data_mining,
};
use crate::v2_0::metadata::people::{
    Contributor, ContributorView, Subject, SubjectView, contributor_seq_wf, contributor_views,
    copy_contributor_seq, copy_subject_seq, get_contributor_flat, get_subject_list,
    lemma_contributor_flat_round_trip, lemma_read_contributor_flat_wf, lemma_read_subject_list_wf,
    lemma_subject_list_round_trip, make_contributor_flat, make_subject_list,
    read_contributor_flat, read_subject_list, subject_seq_wf, subject_views,
    write_contributor_flat, write_subject_list,
};
use crate::v2_0::metadata::presentation::{
    PublicationLayout, ReadingProgression, get_opt_publication_layout,
    get_opt_reading_progression, lemma_publication_layout_round_trip,
    lemma_reading_progression_round_trip, make_opt_publication_layout,
    make_opt_reading_progression, read_opt_publication_layout, read_opt_reading_progression,
    write_opt_publication_layout, write_opt_reading_progression,
};
use crate::v2_0::spelling::{
    spell_abridged, spell_accessibility, spell_alt_identifier, spell_artist, spell_at_type,
    spell_author, spell_belongs_to, spell_colorist, spell_conforms_to, spell_contains,
    spell_contributor, spell_description, spell_duration, spell_editor, spell_identifier,
    spell_illustrator, spell_imprint, spell_inker, spell_language, spell_layout, spell_letterer,
    spell_modified, spell_narrator, spell_number_of_pages, spell_penciler, spell_published,
    spell_publisher, spell_reading_progression, spell_sort_as, spell_subject, spell_subtitle,
    spell_tdm, spell_title, spell_translator,
};
use crate::value::{
    Doc, MAX_DEPTH, Shape, Value, depth, index_of, lemma_index_of, lemma_lookup_after_put,
    lemma_lookup_empty, lemma_lookup_index, lookup, members_of, opt_doc, position, put,
    put_member, shape_of,
};

verus! {

/// Metadata for an OPDS Publication.
#[derive(Debug, PartialEq, Eq)]
#[non_exhaustive]
pub struct PublicationMetadata {
    /// The schema to which this metadata adheres.
    pub schema: Option<String>,
    /// The profiles that the publication conforms to, each the canonical text
    /// of a URL.
    pub conforms_to: Vec<String>,
    /// The title of a publication.
    pub title: StringWithAlternates,
    pub sort_as: Option<StringWithAlternates>,
    pub subtitle: Option<StringWithAlternates>,
    /// The authors who worked on this publication.
    pub author: Vec<Contributor>,
    /// A simple description of the publication.
    pub description: Option<String>,
    /// A valid URI to help identify this publication, as the canonical text of
    /// a URL.
    pub identifier: Option<String>,
    /// Alternates to the primary `identifier`.
    pub alt_identifier: Vec<AltIdentifier>,
    /// Accessibility-related metadata for this publication.
    pub accessibility: Option<AccessibilityMetadata>,
    /// When this publication was last modified.
    pub modified: Option<String>,
    /// When this publication was published.
    pub published: Option<String>,
    /// The languages of the publication, as language tags.
    pub language: Vec<String>,
    pub subject: Vec<Subject>,
    /// The layout and rendering category of this publication.
    pub layout: Option<PublicationLayout>,
    /// The reading progression for reflowable or fixed layout publications.
    pub reading_progression: Option<ReadingProgression>,
    /// The duration in seconds of this publication.
    pub duration: Option<usize>,
    /// Whether or not this is an abridged edition of this publication.
    pub abridged: Option<bool>,
    /// The number of pages in this publication.
    pub number_of_pages: Option<usize>,
    /// The set of collections that this publication belongs to.
    pub belongs_to: Option<BelongsTo>,
    /// The set of collections that this publication contains.
    pub contains: Option<Contains>,
    /// Whether third parties can use this publication's content for text and
    /// data mining.
    pub tdm: Option<DataMining>,
    /// The translators of this version of the publication or its contents.
    pub translator: Vec<Contributor>,
    /// The editors of this publication.
    pub editor: Vec<Contributor>,
    /// Artists who contributed to this publication.
    pub artist: Vec<Contributor>,
    /// The illustrators who contributed to this publication.
    pub illustrator: Vec<Contributor>,
    /// The letterers who contributed to this publication.
    pub letterer: Vec<Contributor>,
    /// The pencilers who contributed to this publication.
    pub penciler: Vec<Contributor>,
    /// The colorists who contributed to this publication.
    pub colorist: Vec<Contributor>,
    /// The inkers who contributed to this publication.
    pub inker: Vec<Contributor>,
    /// The narrator of this publication.
    pub narrator: Vec<Contributor>,
    /// A generic contributor who worked on this publication.
    pub contributor: Vec<Contributor>,
    /// The publisher of this publication.
    pub publisher: Vec<Contributor>,
    /// The imprint of the publisher for this publication.
    pub imprint: Vec<Contributor>,
}

/// The mathematical model of a set of publication metadata.
pub struct PublicationMetadataView {
    pub schema: Option<Seq<char>>,
    pub conforms_to: Seq<Seq<char>>,
    pub title: Localized,
    pub sort_as: Option<Localized>,
    pub subtitle: Option<Localized>,
    pub author: Seq<ContributorView>,
    pub description: Option<Seq<char>>,
    pub identifier: Option<Seq<char>>,
    pub alt_identifier: Seq<AltIdentifierView>,
    pub accessibility: Option<AccessibilityMetadataView>,
    pub modified: Option<Seq<char>>,
    pub published: Option<Seq<char>>,
    pub language: Seq<Seq<char>>,
    pub subject: Seq<SubjectView>,
    pub layout: Option<PublicationLayout>,
    pub reading_progression: Option<ReadingProgression>,
    pub duration: Option<usize>,
    pub abridged: Option<bool>,
    pub number_of_pages: Option<usize>,
    pub belongs_to: Option<BelongsToView>,
    pub contains: Option<ContainsView>,
    pub tdm: Option<DataMiningView>,
    pub translator: Seq<ContributorView>,
    pub editor: Seq<ContributorView>,
    pub artist: Seq<ContributorView>,
    pub illustrator: Seq<ContributorView>,
    pub letterer: Seq<ContributorView>,
    pub penciler: Seq<ContributorView>,
    pub colorist: Seq<ContributorView>,
    pub inker: Seq<ContributorView>,
    pub narrator: Seq<ContributorView>,
    pub contributor: Seq<ContributorView>,
    pub publisher: Seq<ContributorView>,
    pub imprint: Seq<ContributorView>,
}

/// The model of a set of publication metadata.
pub open spec fn publication_metadata_view(x: PublicationMetadata) -> PublicationMetadataView {
    PublicationMetadataView {
        schema: opt_text(x.schema),
        conforms_to: texts_of(x.conforms_to@),
        title: x.title@,
        sort_as: opt_localized(x.sort_as),
        subtitle: opt_localized(x.subtitle),
        author: contributor_views(x.author@),
        description: opt_text(x.description),
        identifier: opt_text(x.identifier),
        alt_identifier: alt_identifier_views(x.alt_identifier@),
        accessibility: opt_accessibility_metadata(x.accessibility),
        modified: opt_text(x.modified),
        published: opt_text(x.published),
        language: texts_of(x.language@),
        subject: subject_views(x.subject@),
        layout: x.layout,
        reading_progression: x.reading_progression,
        duration: x.duration,
        abridged: x.abridged,
        number_of_pages: x.number_of_pages,
        belongs_to: opt_belongs_to(x.belongs_to),
        contains: opt_contains(x.contains),
        tdm: opt_data_mining(x.tdm),
        translator: contributor_views(x.translator@),
        editor: contributor_views(x.editor@),
        artist: contributor_views(x.artist@),
        illustrator: contributor_views(x.illustrator@),
        letterer: contributor_views(x.letterer@),
        penciler: contributor_views(x.penciler@),
        colorist: contributor_views(x.colorist@),
        inker: contributor_views(x.inker@),
        narrator: contributor_views(x.narrator@),
        contributor: contributor_views(x.contributor@),
        publisher: contributor_views(x.publisher@),
        imprint: contributor_views(x.imprint@),
    }
}

impl View for PublicationMetadata {
    type V = PublicationMetadataView;

    open spec fn view(&self) -> PublicationMetadataView {
        publication_metadata_view(*self)
    }
}

/// A set of publication metadata is well formed when everything it holds is.
pub open spec fn publication_metadata_wf(x: PublicationMetadataView) -> bool {
    &&& urls_wf(x.conforms_to)
    &&& localized_wf(x.title)
    &&& opt_localized_wf(x.sort_as)
    &&& opt_localized_wf(x.subtitle)
    &&& contributor_seq_wf(x.author)
    &&& opt_url_wf(x.identifier)
    &&& alt_identifier_seq_wf(x.alt_identifier)
    &&& opt_accessibility_metadata_wf(x.accessibility)
    &&& languages_wf(x.language)
    &&& subject_seq_wf(x.subject)
    &&& opt_belongs_to_wf(x.belongs_to)
    &&& opt_contains_wf(x.contains)
    &&& opt_data_mining_wf(x.tdm)
    &&& contributor_seq_wf(x.translator)
    &&& contributor_seq_wf(x.editor)
    &&& contributor_seq_wf(x.artist)
    &&& contributor_seq_wf(x.illustrator)
    &&& contributor_seq_wf(x.letterer)
    &&& contributor_seq_wf(x.penciler)
    &&& contributor_seq_wf(x.colorist)
    &&& contributor_seq_wf(x.inker)
    &&& contributor_seq_wf(x.narrator)
    &&& contributor_seq_wf(x.contributor)
    &&& contributor_seq_wf(x.publisher)
    &&& contributor_seq_wf(x.imprint)
}

/// The publication metadata made from its title, with nothing else in it.
pub open spec fn publication_metadata_new(title: Localized) -> PublicationMetadataView {
    PublicationMetadataView {
        schema: None,
        conforms_to: Seq::empty(),
        title,
        sort_as: None,
        subtitle: None,
        author: Seq::empty(),
        description: None,
        identifier: None,
        alt_identifier: Seq::empty(),
        accessibility: None,
        modified: None,
        published: None,
        language: Seq::empty(),
        subject: Seq::empty(),
        layout: None,
        reading_progression: None,
        duration: None,
        abridged: None,
        number_of_pages: None,
        belongs_to: None,
        contains: None,
        tdm: None,
        translator: Seq::empty(),
        editor: Seq::empty(),
        artist: Seq::empty(),
        illustrator: Seq::empty(),
        letterer: Seq::empty(),
        penciler: Seq::empty(),
        colorist: Seq::empty(),
        inker: Seq::empty(),
        narrator: Seq::empty(),
        contributor: Seq::empty(),
        publisher: Seq::empty(),
        imprint: Seq::empty(),
    }
}

/// The members that a set of publication metadata is written as: one for each
/// field that holds something, in the order of the fields.
pub open spec fn publication_metadata_members(x: PublicationMetadataView) -> Seq<(Seq<char>, Doc)> {
    let m = Seq::<(Seq<char>, Doc)>::empty();
    let m = put(m, "@type"@, write_opt_text(x.schema));
    let m = put(m, "conformsTo"@, write_url_list(x.conforms_to));
    let m = put(m, "title"@, write_localized(x.title));
    let m = put(m, "sortAs"@, write_opt_localized(x.sort_as));
    let m = put(m, "subtitle"@, write_opt_localized(x.subtitle));
    let m = put(m, "author"@, write_contributor_flat(x.author));
    let m = put(m, "description"@, write_opt_text(x.description));
    let m = put(m, "identifier"@, write_opt_url(x.identifier));
    let m = put(m, "altIdentifier"@, write_alt_identifier_flat(x.alt_identifier));
    let m = put(m, "accessibility"@, write_opt_accessibility_metadata(x.accessibility));
    let m = put(m, "modified"@, write_opt_text(x.modified));
    let m = put(m, "published"@, write_opt_text(x.published));
    let m = put(m, "language"@, write_language_flat(x.language));
    let m = put(m, "subject"@, write_subject_list(x.subject));
    let m = put(m, "layout"@, write_opt_publication_layout(x.layout));
    let m = put(m, "readingProgression"@, write_opt_reading_progression(x.reading_progression));
    let m = put(m, "duration"@, write_opt_natural(x.duration));
    let m = put(m, "abridged"@, write_opt_flag(x.abridged));
    let m = put(m, "numberOfPages"@, write_opt_natural(x.number_of_pages));
    let m = put(m, "belongsTo"@, write_opt_belongs_to(x.belongs_to));
    let m = put(m, "contains"@, write_opt_contains(x.contains));
    let m = put(m, "tdm"@, write_opt_data_mining(x.tdm));
    let m = put(m, "translator"@, write_contributor_flat(x.translator));
    let m = put(m, "editor"@, write_contributor_flat(x.editor));
    let m = put(m, "artist"@, write_contributor_flat(x.artist));
    let m = put(m, "illustrator"@, write_contributor_flat(x.illustrator));
    let m = put(m, "letterer"@, write_contributor_flat(x.letterer));
    let m = put(m, "penciler"@, write_contributor_flat(x.penciler));
    let m = put(m, "colorist"@, write_contributor_flat(x.colorist));
    let m = put(m, "inker"@, write_contributor_flat(x.inker));
    let m = put(m, "narrator"@, write_contributor_flat(x.narrator));
    let m = put(m, "contributor"@, write_contributor_flat(x.contributor));
    let m = put(m, "publisher"@, write_contributor_flat(x.publisher));
    let m = put(m, "imprint"@, write_contributor_flat(x.imprint));
    m
}

/// The written form of a set of publication metadata: always the full object.
pub open spec fn encode_publication_metadata(x: PublicationMetadataView) -> Doc {
    Doc::Object(publication_metadata_members(x))
}

/// The set of publication metadata that the members of an object stand for, or
/// the error of the first field, in the order of the fields, that cannot be
/// read.
pub open spec fn publication_metadata_from_members(
    m: Seq<(Seq<char>, Doc)>,
) -> Result<PublicationMetadataView, Fault> {
    let schema = read_opt_text(m, "@type"@);
    let conforms_to = read_url_list(m, "conformsTo"@);
    let title = read_localized(m, "title"@);
    let sort_as = read_opt_localized(m, "sortAs"@);
    let subtitle = read_opt_localized(m, "subtitle"@);
    let author = read_contributor_flat(m, "author"@);
    let description = read_opt_text(m, "description"@);
    let identifier = read_opt_url(m, "identifier"@);
    let alt_identifier = read_alt_identifier_flat(m, "altIdentifier"@);
    let accessibility = read_opt_accessibility_metadata(m, "accessibility"@);
    let modified = read_opt_text(m, "modified"@);
    let published = read_opt_text(m, "published"@);
    let language = read_language_flat(m, "language"@);
    let subject = read_subject_list(m, "subject"@);
    let layout = read_opt_publication_layout(m, "layout"@);
    let reading_progression = read_opt_reading_progression(m, "readingProgression"@);
    let duration = read_opt_natural(m, "duration"@);
    let abridged = read_opt_flag(m, "abridged"@);
    let number_of_pages = read_opt_natural(m, "numberOfPages"@);
    let belongs_to = read_opt_belongs_to(m, "belongsTo"@);
    let contains = read_opt_contains(m, "contains"@);
    let tdm = read_opt_data_mining(m, "tdm"@);
    let translator = read_contributor_flat(m, "translator"@);
    let editor = read_contributor_flat(m, "editor"@);
    let artist = read_contributor_flat(m, "artist"@);
    let illustrator = read_contributor_flat(m, "illustrator"@);
    let letterer = read_contributor_flat(m, "letterer"@);
    let penciler = read_contributor_flat(m, "penciler"@);
    let colorist = read_contributor_flat(m, "colorist"@);
    let inker = read_contributor_flat(m, "inker"@);
    let narrator = read_contributor_flat(m, "narrator"@);
    let contributor = read_contributor_flat(m, "contributor"@);
    let publisher = read_contributor_flat(m, "publisher"@);
    let imprint = read_contributor_flat(m, "imprint"@);
    if schema is Err {
        Err(schema->Err_0)
    } else if conforms_to is Err {
        Err(conforms_to->Err_0)
    } else if title is Err {
        Err(title->Err_0)
    } else if sort_as is Err {
        Err(sort_as->Err_0)
    } else if subtitle is Err {
        Err(subtitle->Err_0)
    } else if author is Err {
        Err(author->Err_0)
    } else if description is Err {
        Err(description->Err_0)
    } else if identifier is Err {
        Err(identifier->Err_0)
    } else if alt_identifier is Err {
        Err(alt_identifier->Err_0)
    } else if accessibility is Err {
        Err(accessibility->Err_0)
    } else if modified is Err {
        Err(modified->Err_0)
    } else if published is Err {
        Err(published->Err_0)
    } else if language is Err {
        Err(language->Err_0)
    } else if subject is Err {
        Err(subject->Err_0)
    } else if layout is Err {
        Err(layout->Err_0)
    } else if reading_progression is Err {
        Err(reading_progression->Err_0)
    } else if duration is Err {
        Err(duration->Err_0)
    } else if abridged is Err {
        Err(abridged->Err_0)
    } else if number_of_pages is Err {
        Err(number_of_pages->Err_0)
    } else if belongs_to is Err {
        Err(belongs_to->Err_0)
    } else if contains is Err {
        Err(contains->Err_0)
    } else if tdm is Err {
        Err(tdm->Err_0)
    } else if translator is Err {
        Err(translator->Err_0)
    } else if editor is Err {
        Err(editor->Err_0)
    } else if artist is Err {
        Err(artist->Err_0)
    } else if illustrator is Err {
        Err(illustrator->Err_0)
    } else if letterer is Err {
        Err(letterer->Err_0)
    } else if penciler is Err {
        Err(penciler->Err_0)
    } else if colorist is Err {
        Err(colorist->Err_0)
    } else if inker is Err {
        Err(inker->Err_0)
    } else if narrator is Err {
        Err(narrator->Err_0)
    } else if contributor is Err {
        Err(contributor->Err_0)
    } else if publisher is Err {
        Err(publisher->Err_0)
    } else if imprint is Err {
        Err(imprint->Err_0)
    } else {
        Ok(PublicationMetadataView {
            schema: schema->Ok_0,
            conforms_to: conforms_to->Ok_0,
            title: title->Ok_0,
            sort_as: sort_as->Ok_0,
            subtitle: subtitle->Ok_0,
            author: author->Ok_0,
            description: description->Ok_0,
            identifier: identifier->Ok_0,
            alt_identifier: alt_identifier->Ok_0,
            accessibility: accessibility->Ok_0,
            modified: modified->Ok_0,
            published: published->Ok_0,
            language: language->Ok_0,
            subject: subject->Ok_0,
            layout: layout->Ok_0,
            reading_progression: reading_progression->Ok_0,
            duration: duration->Ok_0,
            abridged: abridged->Ok_0,
            number_of_pages: number_of_pages->Ok_0,
            belongs_to: belongs_to->Ok_0,
            contains: contains->Ok_0,
            tdm: tdm->Ok_0,
            translator: translator->Ok_0,
            editor: editor->Ok_0,
            artist: artist->Ok_0,
            illustrator: illustrator->Ok_0,
            letterer: letterer->Ok_0,
            penciler: penciler->Ok_0,
            colorist: colorist->Ok_0,
            inker: inker->Ok_0,
            narrator: narrator->Ok_0,
            contributor: contributor->Ok_0,
            publisher: publisher->Ok_0,
            imprint: imprint->Ok_0,
        })
    }
}

/// The set of publication metadata that a value stands for: an object.
pub open spec fn decode_publication_metadata(
    d: Doc,
    field: Seq<char>,
) -> Result<PublicationMetadataView, Fault> {
    match d {
        Doc::Object(m) => publication_metadata_from_members(m),
        _ => Err(mismatch(field, record_shapes(), shape_of(d))),
    }
}

/// What reading a whole document as a set of publication metadata gives: an
/// error where arrays and objects nest more deeply than the ceiling.
pub open spec fn publication_metadata_from_doc(d: Doc) -> Result<PublicationMetadataView, Fault> {
    if depth(d) > MAX_DEPTH {
        Err(Fault::RecursionLimitExceeded(MAX_DEPTH))
    } else {
        decode_publication_metadata(d, ""@)
    }
}

impl PublicationMetadata {
    /// Metadata of that title, with nothing else in it.
    pub fn new(title: StringWithAlternates) -> (r: PublicationMetadata)
        ensures
            r@ == publication_metadata_new(title@),
            localized_wf(title@) ==> publication_metadata_wf(r@),
    {
        let conforms_to: Vec<String> = Vec::new();
        let author: Vec<Contributor> = Vec::new();
        let alt_identifier: Vec<AltIdentifier> = Vec::new();
        let language: Vec<String> = Vec::new();
        let subject: Vec<Subject> = Vec::new();
        let translator: Vec<Contributor> = Vec::new();
        let editor: Vec<Contributor> = Vec::new();
        let artist: Vec<Contributor> = Vec::new();
        let illustrator: Vec<Contributor> = Vec::new();
        let letterer: Vec<Contributor> = Vec::new();
        let penciler: Vec<Contributor> = Vec::new();
        let colorist: Vec<Contributor> = Vec::new();
        let inker: Vec<Contributor> = Vec::new();
        let narrator: Vec<Contributor> = Vec::new();
        let contributor: Vec<Contributor> = Vec::new();
        let publisher: Vec<Contributor> = Vec::new();
        let imprint: Vec<Contributor> = Vec::new();
        proof {
            assert(texts_of(conforms_to@) =~= Seq::<Seq<char>>::empty());
            assert(contributor_views(author@) =~= Seq::<ContributorView>::empty());
            assert(alt_identifier_views(alt_identifier@) =~= Seq::<AltIdentifierView>::empty());
            assert(texts_of(language@) =~= Seq::<Seq<char>>::empty());
            assert(subject_views(subject@) =~= Seq::<SubjectView>::empty());
            assert(contributor_views(translator@) =~= Seq::<ContributorView>::empty());
            assert(contributor_views(editor@) =~= Seq::<ContributorView>::empty());
            assert(contributor_views(artist@) =~= Seq::<ContributorView>::empty());
            assert(contributor_views(illustrator@) =~= Seq::<ContributorView>::empty());
            assert(contributor_views(letterer@) =~= Seq::<ContributorView>::empty());
            assert(contributor_views(penciler@) =~= Seq::<ContributorView>::empty());
            assert(contributor_views(colorist@) =~= Seq::<ContributorView>::empty());
            assert(contributor_views(inker@) =~= Seq::<ContributorView>::empty());
            assert(contributor_views(narrator@) =~= Seq::<ContributorView>::empty());
            assert(contributor_views(contributor@) =~= Seq::<ContributorView>::empty());
            assert(contributor_views(publisher@) =~= Seq::<ContributorView>::empty());
            assert(contributor_views(imprint@) =~= Seq::<ContributorView>::empty());
        }
        PublicationMetadata {
            schema: None,
            conforms_to,
            title,
            sort_as: None,
            subtitle: None,
            author,
            description: None,
            identifier: None,
            alt_identifier,
            accessibility: None,
            modified: None,
            published: None,
            language,
            subject,
            layout: None,
            reading_progression: None,
            duration: None,
            abridged: None,
            number_of_pages: None,
            belongs_to: None,
            contains: None,
            tdm: None,
            translator,
            editor,
            artist,
            illustrator,
            letterer,
            penciler,
            colorist,
            inker,
            narrator,
            contributor,
            publisher,
            imprint,
        }
    }

    /// Reads a set of publication metadata from the members of an object.
    pub fn from_members(
        members: &Vec<(String, Value)>,
    ) -> (r: Result<PublicationMetadata, ParseError>)
        ensures
            parsed(r) == publication_metadata_from_members(members_of(members@)),
            r matches Ok(x) ==> publication_metadata_wf(x@),
    {
        let schema = match get_opt_text(members, "@type") {
            Ok(x) => x,
            Err(e) => {
                return Err(e);
            },
        };
        let conforms_to = match get_url_list(members, "conformsTo") {
            Ok(x) => x,
            Err(e) => {
                return Err(e);
            },
        };
        let title = match get_localized(members, "title") {
            Ok(x) => x,
            Err(e) => {
                return Err(e);
            },
        };
        let sort_as = match get_opt_localized(members, "sortAs") {
            Ok(x) => x,
            Err(e) => {
                return Err(e);
            },
        };
        let subtitle = match get_opt_localized(members, "subtitle") {
            Ok(x) => x,
            Err(e) => {
                return Err(e);
            },
        };
        let author = match get_contributor_flat(members, "author") {
            Ok(x) => x,
            Err(e) => {
                return Err(e);
            },
        };
        let description = match get_opt_text(members, "description") {
            Ok(x) => x,
            Err(e) => {
                return Err(e);
            },
        };
        let identifier = match get_opt_url(members, "identifier") {
            Ok(x) => x,
            Err(e) => {
                return Err(e);
            },
        };
        let alt_identifier = match get_alt_identifier_flat(members, "altIdentifier") {
            Ok(x) => x,
            Err(e) => {
                return Err(e);
            },
        };
        let accessibility = match get_opt_accessibility_metadata(members, "accessibility") {
            Ok(x) => x,
            Err(e) => {
                return Err(e);
            },
        };
        let modified = match get_opt_text(members, "modified") {
            Ok(x) => x,
            Err(e) => {
                return Err(e);
            },
        };
        let published = match get_opt_text(members, "published") {
            Ok(x) => x,
            Err(e) => {
                return Err(e);
            },
        };
        let language = match get_language_flat(members, "language") {
            Ok(x) => x,
            Err(e) => {
                return Err(e);
            },
        };
        let subject = match get_subject_list(members, "subject") {
            Ok(x) => x,
            Err(e) => {
                return Err(e);
            },
        };
        let layout = match get_opt_publication_layout(members, "layout") {
            Ok(x) => x,
            Err(e) => {
                return Err(e);
            },
        };
        let reading_progression = match get_opt_reading_progression(members, "readingProgression") {
            Ok(x) => x,
            Err(e) => {
                return Err(e);
            },
        };
        let duration = match get_opt_natural(members, "duration") {
            Ok(x) => x,
            Err(e) => {
                return Err(e);
            },
        };
        let abridged = match get_opt_flag(members, "abridged") {
            Ok(x) => x,
            Err(e) => {
                return Err(e);
            },
        };
        let number_of_pages = match get_opt_natural(members, "numberOfPages") {
            Ok(x) => x,
            Err(e) => {
                return Err(e);
            },
        };
        let belongs_to = match get_opt_belongs_to(members, "belongsTo") {
            Ok(x) => x,
            Err(e) => {
                return Err(e);
            },
        };
        let contains = match get_opt_contains(members, "contains") {
            Ok(x) => x,
            Err(e) => {
                return Err(e);
            },
        };
        let tdm = match get_opt_data_mining(members, "tdm") {
            Ok(x) => x,
            Err(e) => {
                return Err(e);
            },
        };
        let translator = match get_contributor_flat(members, "translator") {
            Ok(x) => x,
            Err(e) => {
                return Err(e);
            },
        };
        let editor = match get_contributor_flat(members, "editor") {
            Ok(x) => x,
            Err(e) => {
                return Err(e);
            },
        };
        let artist = match get_contributor_flat(members, "artist") {
            Ok(x) => x,
            Err(e) => {
                return Err(e);
            },
        };
        let illustrator = match get_contributor_flat(members, "illustrator") {
            Ok(x) => x,
            Err(e) => {
                return Err(e);
            },
        };
        let letterer = match get_contributor_flat(members, "letterer") {
            Ok(x) => x,
            Err(e) => {
                return Err(e);
            },
        };
        let penciler = match get_contributor_flat(members, "penciler") {
            Ok(x) => x,
            Err(e) => {
                return Err(e);
            },
        };
        let colorist = match get_contributor_flat(members, "colorist") {
            Ok(x) => x,
            Err(e) => {
                return Err(e);
            },
        };
        let inker = match get_contributor_flat(members, "inker") {
            Ok(x) => x,
            Err(e) => {
                return Err(e);
            },
        };
        let narrator = match get_contributor_flat(members, "narrator") {
            Ok(x) => x,
            Err(e) => {
                return Err(e);
            },
        };
        let contributor = match get_contributor_flat(members, "contributor") {
            Ok(x) => x,
            Err(e) => {
                return Err(e);
            },
        };
        let publisher = match get_contributor_flat(members, "publisher") {
            Ok(x) => x,
            Err(e) => {
                return Err(e);
            },
        };
        let imprint = match get_contributor_flat(members, "imprint") {
            Ok(x) => x,
            Err(e) => {
                return Err(e);
            },
        };
        Ok(PublicationMetadata {
            schema,
            conforms_to,
            title,
            sort_as,
            subtitle,
            author,
            description,
            identifier,
            alt_identifier,
            accessibility,
            modified,
            published,
            language,
            subject,
            layout,
            reading_progression,
            duration,
            abridged,
            number_of_pages,
            belongs_to,
            contains,
            tdm,
            translator,
            editor,
            artist,
            illustrator,
            letterer,
            penciler,
            colorist,
            inker,
            narrator,
            contributor,
            publisher,
            imprint,
        })
    }

    /// Reads a set of publication metadata from a value found under `field`.
    pub fn parse(v: &Value, field: &str) -> (r: Result<PublicationMetadata, ParseError>)
        ensures
            parsed(r) == decode_publication_metadata(v@, field@),
            r matches Ok(x) ==> publication_metadata_wf(x@),
    {
        match v {
            Value::Object(members) => {
                PublicationMetadata::from_members(members)
            },
            _ => Err(wrong_shape(field, shapes1(Shape::Object), v)),
        }
    }

    /// Reads a whole document as a set of publication metadata. A document in
    /// which arrays and objects nest more deeply than [`MAX_DEPTH`] is refused
    /// before anything is read from it.
    pub fn from_value(v: &Value) -> (r: Result<PublicationMetadata, ParseError>)
        ensures
            parsed(r) == publication_metadata_from_doc(v@),
            r matches Ok(x) ==> publication_metadata_wf(x@),
    {
        if !v.within_depth(MAX_DEPTH) {
            return Err(ParseError::RecursionLimitExceeded(MAX_DEPTH));
        }
        PublicationMetadata::parse(v, "")
    }

    /// Writes the members of this set of publication metadata.
    pub fn to_members(&self) -> (members: Vec<(String, Value)>)
        ensures
            members_of(members@) == publication_metadata_members(self@),
    {
        let mut m: Vec<(String, Value)> = Vec::new();
        assert(members_of(m@) =~= Seq::<(Seq<char>, Doc)>::empty());
        put_member(&mut m, "@type", make_opt_text(&self.schema));
        put_member(&mut m, "conformsTo", make_url_list(&self.conforms_to));
        put_member(&mut m, "title", make_localized(&self.title));
        put_member(&mut m, "sortAs", make_opt_localized(&self.sort_as));
        put_member(&mut m, "subtitle", make_opt_localized(&self.subtitle));
        put_member(&mut m, "author", make_contributor_flat(&self.author));
        put_member(&mut m, "description", make_opt_text(&self.description));
        put_member(&mut m, "identifier", make_opt_url(&self.identifier));
        put_member(&mut m, "altIdentifier", make_alt_identifier_flat(&self.alt_identifier));
        put_member(&mut m, "accessibility", make_opt_accessibility_metadata(&self.accessibility));
        put_member(&mut m, "modified", make_opt_text(&self.modified));
        put_member(&mut m, "published", make_opt_text(&self.published));
        put_member(&mut m, "language", make_language_flat(&self.language));
        put_member(&mut m, "subject", make_subject_list(&self.subject));
        put_member(&mut m, "layout", make_opt_publication_layout(&self.layout));
        put_member(&mut m, "readingProgression", make_opt_reading_progression(&self.reading_progression));
        put_member(&mut m, "duration", make_opt_natural(&self.duration));
        put_member(&mut m, "abridged", make_opt_flag(&self.abridged));
        put_member(&mut m, "numberOfPages", make_opt_natural(&self.number_of_pages));
        put_member(&mut m, "belongsTo", make_opt_belongs_to(&self.belongs_to));
        put_member(&mut m, "contains", make_opt_contains(&self.contains));
        put_member(&mut m, "tdm", make_opt_data_mining(&self.tdm));
        put_member(&mut m, "translator", make_contributor_flat(&self.translator));
        put_member(&mut m, "editor", make_contributor_flat(&self.editor));
        put_member(&mut m, "artist", make_contributor_flat(&self.artist));
        put_member(&mut m, "illustrator", make_contributor_flat(&self.illustrator));
        put_member(&mut m, "letterer", make_contributor_flat(&self.letterer));
        put_member(&mut m, "penciler", make_contributor_flat(&self.penciler));
        put_member(&mut m, "colorist", make_contributor_flat(&self.colorist));
        put_member(&mut m, "inker", make_contributor_flat(&self.inker));
        put_member(&mut m, "narrator", make_contributor_flat(&self.narrator));
        put_member(&mut m, "contributor", make_contributor_flat(&self.contributor));
        put_member(&mut m, "publisher", make_contributor_flat(&self.publisher));
        put_member(&mut m, "imprint", make_contributor_flat(&self.imprint));
        m
    }

    /// Writes this set of publication metadata as a value: always the full
    /// object.
    pub fn to_value(&self) -> (v: Value)
        ensures
            v@ == encode_publication_metadata(self@),
    {
        Value::Object(self.to_members())
    }
}

/// A copy of a set of publication metadata.
pub(crate) fn copy_publication_metadata(x: &PublicationMetadata) -> (r: PublicationMetadata)
    ensures
        r@ == x@,
{
    PublicationMetadata {
        schema: copy_opt_text(&x.schema),
        conforms_to: copy_texts(&x.conforms_to),
        title: x.title.clone(),
        sort_as: copy_opt_localized(&x.sort_as),
        subtitle: copy_opt_localized(&x.subtitle),
        author: copy_contributor_seq(&x.author),
        description: copy_opt_text(&x.description),
        identifier: copy_opt_text(&x.identifier),
        alt_identifier: copy_alt_identifier_seq(&x.alt_identifier),
        accessibility: copy_opt_accessibility_metadata(&x.accessibility),
        modified: copy_opt_text(&x.modified),
        published: copy_opt_text(&x.published),
        language: copy_texts(&x.language),
        subject: copy_subject_seq(&x.subject),
        layout: x.layout,
        reading_progression: x.reading_progression,
        duration: x.duration,
        abridged: x.abridged,
        number_of_pages: x.number_of_pages,
        belongs_to: copy_opt_belongs_to(&x.belongs_to),
        contains: copy_opt_contains(&x.contains),
        tdm: copy_opt_data_mining(&x.tdm),
        translator: copy_contributor_seq(&x.translator),
        editor: copy_contributor_seq(&x.editor),
        artist: copy_contributor_seq(&x.artist),
        illustrator: copy_contributor_seq(&x.illustrator),
        letterer: copy_contributor_seq(&x.letterer),
        penciler: copy_contributor_seq(&x.penciler),
        colorist: copy_contributor_seq(&x.colorist),
        inker: copy_contributor_seq(&x.inker),
        narrator: copy_contributor_seq(&x.narrator),
        contributor: copy_contributor_seq(&x.contributor),
        publisher: copy_contributor_seq(&x.publisher),
        imprint: copy_contributor_seq(&x.imprint),
    }
}

impl Clone for PublicationMetadata {
    /// A copy that holds the same.
    fn clone(&self) -> (r: PublicationMetadata)
        ensures
            r@ == self@,
    {
        copy_publication_metadata(self)
    }
}

/// In the written form of a set of publication metadata, each field's name
/// leads to what that field wrote.
#[verifier::rlimit(40)]
pub proof fn lemma_publication_metadata_members(x: PublicationMetadataView)
    ensures
        lookup(publication_metadata_members(x), "@type"@) == write_opt_text(x.schema),
        lookup(publication_metadata_members(x), "conformsTo"@) == write_url_list(x.conforms_to),
        lookup(publication_metadata_members(x), "title"@) == write_localized(x.title),
        lookup(publication_metadata_members(x), "sortAs"@) == write_opt_localized(x.sort_as),
        lookup(publication_metadata_members(x), "subtitle"@) == write_opt_localized(x.subtitle),
        lookup(publication_metadata_members(x), "author"@) == write_contributor_flat(x.author),
        lookup(publication_metadata_members(x), "description"@) == write_opt_text(x.description),
        lookup(publication_metadata_members(x), "identifier"@) == write_opt_url(x.identifier),
        lookup(publication_metadata_members(x), "altIdentifier"@)
            == write_alt_identifier_flat(x.alt_identifier),
        lookup(publication_metadata_members(x), "accessibility"@)
            == write_opt_accessibility_metadata(x.accessibility),
        lookup(publication_metadata_members(x), "modified"@) == write_opt_text(x.modified),
        lookup(publication_metadata_members(x), "published"@) == write_opt_text(x.published),
        lookup(publication_metadata_members(x), "language"@) == write_language_flat(x.language),
        lookup(publication_metadata_members(x), "subject"@) == write_subject_list(x.subject),
        lookup(publication_metadata_members(x), "layout"@)
            == write_opt_publication_layout(x.layout),
        lookup(publication_metadata_members(x), "readingProgression"@)
            == write_opt_reading_progression(x.reading_progression),
        lookup(publication_metadata_members(x), "duration"@) == write_opt_natural(x.duration),
        lookup(publication_metadata_members(x), "abridged"@) == write_opt_flag(x.abridged),
        lookup(publication_metadata_members(x), "numberOfPages"@)
            == write_opt_natural(x.number_of_pages),
        lookup(publication_metadata_members(x), "belongsTo"@) == write_opt_belongs_to(x.belongs_to),
        lookup(publication_metadata_members(x), "contains"@) == write_opt_contains(x.contains),
        lookup(publication_metadata_members(x), "tdm"@) == write_opt_data_mining(x.tdm),
        lookup(publication_metadata_members(x), "translator"@)
            == write_contributor_flat(x.translator),
        lookup(publication_metadata_members(x), "editor"@) == write_contributor_flat(x.editor),
        lookup(publication_metadata_members(x), "artist"@) == write_contributor_flat(x.artist),
        lookup(publication_metadata_members(x), "illustrator"@)
            == write_contributor_flat(x.illustrator),
        lookup(publication_metadata_members(x), "letterer"@) == write_contributor_flat(x.letterer),
        lookup(publication_metadata_members(x), "penciler"@) == write_contributor_flat(x.penciler),
        lookup(publication_metadata_members(x), "colorist"@) == write_contributor_flat(x.colorist),
        lookup(publication_metadata_members(x), "inker"@) == write_contributor_flat(x.inker),
        lookup(publication_metadata_members(x), "narrator"@) == write_contributor_flat(x.narrator),
        lookup(publication_metadata_members(x), "contributor"@)
            == write_contributor_flat(x.contributor),
        lookup(publication_metadata_members(x), "publisher"@)
            == write_contributor_flat(x.publisher),
        lookup(publication_metadata_members(x), "imprint"@) == write_contributor_flat(x.imprint),
{
    broadcast use {lemma_lookup_after_put, lemma_lookup_empty};
    spell_at_type();
    spell_conforms_to();
    spell_title();
    spell_sort_as();
    spell_subtitle();
    spell_author();
    spell_description();
    spell_identifier();
    spell_alt_identifier();
    spell_accessibility();
    spell_modified();
    spell_published();
    spell_language();
    spell_subject();
    spell_layout();
    spell_reading_progression();
    spell_duration();
    spell_abridged();
    spell_number_of_pages();
    spell_belongs_to();
    spell_contains();
    spell_tdm();
    spell_translator();
    spell_editor();
    spell_artist();
    spell_illustrator();
    spell_letterer();
    spell_penciler();
    spell_colorist();
    spell_inker();
    spell_narrator();
    spell_contributor();
    spell_publisher();
    spell_imprint();
}

/// A set of publication metadata that is well formed, written and read again,
/// is the same set of publication metadata.
#[verifier::rlimit(40)]
pub proof fn lemma_publication_metadata_round_trip(x: PublicationMetadataView, field: Seq<char>)
    requires
        publication_metadata_wf(x),
    ensures
        decode_publication_metadata(encode_publication_metadata(x), field)
            == Ok::<PublicationMetadataView, Fault>(x),
{
    lemma_publication_metadata_members(x);
    let m = publication_metadata_members(x);
    assert(read_opt_text(m, "@type"@) == Ok::<Option<Seq<char>>, Fault>(x.schema));
    assert(read_url_list(m, "conformsTo"@) == Ok::<Seq<Seq<char>>, Fault>(x.conforms_to)) by {
        lemma_url_list_round_trip(x.conforms_to, m, "conformsTo"@);
    }
    assert(read_localized(m, "title"@) == Ok::<Localized, Fault>(x.title)) by {
        lemma_localized_field_round_trip(x.title, m, "title"@);
    }
    assert(read_opt_localized(m, "sortAs"@) == Ok::<Option<Localized>, Fault>(x.sort_as)) by {
        lemma_opt_localized_round_trip(x.sort_as, m, "sortAs"@);
    }
    assert(read_opt_localized(m, "subtitle"@) == Ok::<Option<Localized>, Fault>(x.subtitle)) by {
        lemma_opt_localized_round_trip(x.subtitle, m, "subtitle"@);
    }
    assert(read_contributor_flat(m, "author"@) == Ok::<Seq<ContributorView>, Fault>(x.author)) by {
        lemma_contributor_flat_round_trip(x.author, m, "author"@);
    }
    assert(read_opt_text(m, "description"@) == Ok::<Option<Seq<char>>, Fault>(x.description));
    assert(read_opt_url(m, "identifier"@) == Ok::<Option<Seq<char>>, Fault>(x.identifier));
    assert(read_alt_identifier_flat(m, "altIdentifier"@)
        == Ok::<Seq<AltIdentifierView>, Fault>(x.alt_identifier)) by {
        lemma_alt_identifier_flat_round_trip(x.alt_identifier, m, "altIdentifier"@);
    }
    assert(read_opt_accessibility_metadata(m, "accessibility"@)
        == Ok::<Option<AccessibilityMetadataView>, Fault>(x.accessibility)) by {
        lemma_opt_accessibility_metadata_round_trip(x.accessibility, m, "accessibility"@);
    }
    assert(read_opt_text(m, "modified"@) == Ok::<Option<Seq<char>>, Fault>(x.modified));
    assert(read_opt_text(m, "published"@) == Ok::<Option<Seq<char>>, Fault>(x.published));
    assert(read_language_flat(m, "language"@) == Ok::<Seq<Seq<char>>, Fault>(x.language)) by {
        lemma_language_flat_round_trip(x.language, m, "language"@);
    }
    assert(read_subject_list(m, "subject"@) == Ok::<Seq<SubjectView>, Fault>(x.subject)) by {
        lemma_subject_list_round_trip(x.subject, m, "subject"@);
    }
    assert(read_opt_publication_layout(m, "layout"@)
        == Ok::<Option<PublicationLayout>, Fault>(x.layout)) by {
        if let Some(it) = x.layout {
        lemma_publication_layout_round_trip(it);
        }
    }
    assert(read_opt_reading_progression(m, "readingProgression"@)
        == Ok::<Option<ReadingProgression>, Fault>(x.reading_progression)) by {
        if let Some(it) = x.reading_progression {
        lemma_reading_progression_round_trip(it);
        }
    }
    assert(read_opt_natural(m, "duration"@) == Ok::<Option<usize>, Fault>(x.duration));
    assert(read_opt_flag(m, "abridged"@) == Ok::<Option<bool>, Fault>(x.abridged));
    assert(read_opt_natural(m, "numberOfPages"@) == Ok::<Option<usize>, Fault>(x.number_of_pages));
    assert(read_opt_belongs_to(m, "belongsTo"@)
        == Ok::<Option<BelongsToView>, Fault>(x.belongs_to)) by {
        lemma_opt_belongs_to_round_trip(x.belongs_to, m, "belongsTo"@);
    }
    assert(read_opt_contains(m, "contains"@) == Ok::<Option<ContainsView>, Fault>(x.contains)) by {
        lemma_opt_contains_round_trip(x.contains, m, "contains"@);
    }
    assert(read_opt_data_mining(m, "tdm"@) == Ok::<Option<DataMiningView>, Fault>(x.tdm)) by {
        lemma_opt_data_mining_round_trip(x.tdm, m, "tdm"@);
    }
    assert(read_contributor_flat(m, "translator"@)
        == Ok::<Seq<ContributorView>, Fault>(x.translator)) by {
        lemma_contributor_flat_round_trip(x.translator, m, "translator"@);
    }
    assert(read_contributor_flat(m, "editor"@) == Ok::<Seq<ContributorView>, Fault>(x.editor)) by {
        lemma_contributor_flat_round_trip(x.editor, m, "editor"@);
    }
    assert(read_contributor_flat(m, "artist"@) == Ok::<Seq<ContributorView>, Fault>(x.artist)) by {
        lemma_contributor_flat_round_trip(x.artist, m, "artist"@);
    }
    assert(read_contributor_flat(m, "illustrator"@)
        == Ok::<Seq<ContributorView>, Fault>(x.illustrator)) by {
        lemma_contributor_flat_round_trip(x.illustrator, m, "illustrator"@);
    }
    assert(read_contributor_flat(m, "letterer"@)
        == Ok::<Seq<ContributorView>, Fault>(x.letterer)) by {
        lemma_contributor_flat_round_trip(x.letterer, m, "letterer"@);
    }
    assert(read_contributor_flat(m, "penciler"@)
        == Ok::<Seq<ContributorView>, Fault>(x.penciler)) by {
        lemma_contributor_flat_round_trip(x.penciler, m, "penciler"@);
    }
    assert(read_contributor_flat(m, "colorist"@)
        == Ok::<Seq<ContributorView>, Fault>(x.colorist)) by {
        lemma_contributor_flat_round_trip(x.colorist, m, "colorist"@);
    }
    assert(read_contributor_flat(m, "inker"@) == Ok::<Seq<ContributorView>, Fault>(x.inker)) by {
        lemma_contributor_flat_round_trip(x.inker, m, "inker"@);
    }
    assert(read_contributor_flat(m, "narrator"@)
        == Ok::<Seq<ContributorView>, Fault>(x.narrator)) by {
        lemma_contributor_flat_round_trip(x.narrator, m, "narrator"@);
    }
    assert(read_contributor_flat(m, "contributor"@)
        == Ok::<Seq<ContributorView>, Fault>(x.contributor)) by {
        lemma_contributor_flat_round_trip(x.contributor, m, "contributor"@);
    }
    assert(read_contributor_flat(m, "publisher"@)
        == Ok::<Seq<ContributorView>, Fault>(x.publisher)) by {
        lemma_contributor_flat_round_trip(x.publisher, m, "publisher"@);
    }
    assert(read_contributor_flat(m, "imprint"@)
        == Ok::<Seq<ContributorView>, Fault>(x.imprint)) by {
        lemma_contributor_flat_round_trip(x.imprint, m, "imprint"@);
    }
}

/// What the members of an object give as a set of publication metadata is well
/// formed.
pub proof fn lemma_publication_metadata_from_members_wf(m: Seq<(Seq<char>, Doc)>)
    ensures
        publication_metadata_from_members(m) matches Ok(x) ==> publication_metadata_wf(x),
{
    lemma_read_url_list_wf(m, "conformsTo"@);
    lemma_read_localized_wf(m, "title"@);
    lemma_read_opt_localized_wf(m, "sortAs"@);
    lemma_read_opt_localized_wf(m, "subtitle"@);
    lemma_read_contributor_flat_wf(m, "author"@);
    lemma_read_opt_url_wf(m, "identifier"@);
    lemma_read_alt_identifier_flat_wf(m, "altIdentifier"@);
    lemma_read_opt_accessibility_metadata_wf(m, "accessibility"@);
    lemma_read_language_flat_wf(m, "language"@);
    lemma_read_subject_list_wf(m, "subject"@);
    lemma_read_opt_belongs_to_wf(m, "belongsTo"@);
    lemma_read_opt_contains_wf(m, "contains"@);
    lemma_read_opt_data_mining_wf(m, "tdm"@);
    lemma_read_contributor_flat_wf(m, "translator"@);
    lemma_read_contributor_flat_wf(m, "editor"@);
    lemma_read_contributor_flat_wf(m, "artist"@);
    lemma_read_contributor_flat_wf(m, "illustrator"@);
    lemma_read_contributor_flat_wf(m, "letterer"@);
    lemma_read_contributor_flat_wf(m, "penciler"@);
    lemma_read_contributor_flat_wf(m, "colorist"@);
    lemma_read_contributor_flat_wf(m, "inker"@);
    lemma_read_contributor_flat_wf(m, "narrator"@);
    lemma_read_contributor_flat_wf(m, "contributor"@);
    lemma_read_contributor_flat_wf(m, "publisher"@);
    lemma_read_contributor_flat_wf(m, "imprint"@);
}

/// What is read as a set of publication metadata is well formed.
pub proof fn lemma_decode_publication_metadata_wf(d: Doc, field: Seq<char>)
    ensures
        decode_publication_metadata(d, field) matches Ok(x) ==> publication_metadata_wf(x),
{
    if let Doc::Object(m) = d {
        lemma_publication_metadata_from_members_wf(m);
    }
}

/// A set of publication metadata that was read, in whatever spelling, is read
/// again as the same set of publication metadata from its written form.
pub proof fn lemma_publication_metadata_reread(d: Doc, field: Seq<char>)
    ensures
        decode_publication_metadata(d, field) matches Ok(x)
            ==> decode_publication_metadata(encode_publication_metadata(x), field)
                == Ok::<PublicationMetadataView, Fault>(x),
{
    lemma_decode_publication_metadata_wf(d, field);
    if let Ok(x) = decode_publication_metadata(d, field) {
        lemma_publication_metadata_round_trip(x, field);
    }
}

/// A set of publication metadata that is well formed and whose written form
/// nests no more deeply than the ceiling is read back whole from that form.
pub proof fn lemma_publication_metadata_doc_round_trip(x: PublicationMetadataView)
    requires
        publication_metadata_wf(x),
        depth(encode_publication_metadata(x)) <= MAX_DEPTH,
    ensures
        publication_metadata_from_doc(encode_publication_metadata(x))
            == Ok::<PublicationMetadataView, Fault>(x),
{
    lemma_publication_metadata_round_trip(x, ""@);
}

/// What such a field gives is well formed.
pub proof fn lemma_read_publication_metadata_wf(m: Seq<(Seq<char>, Doc)>, key: Seq<char>)
    ensures
        read_publication_metadata(m, key) matches Ok(x) ==> publication_metadata_wf(x),
{
    lemma_index_of(m, key);
    let i = index_of(m, key);
    if 0 <= i < m.len() {
        lemma_decode_publication_metadata_wf(m[i].1, key);
    }
}

/// What a field holds that has to be a set of publication metadata.
pub open spec fn read_publication_metadata(
    m: Seq<(Seq<char>, Doc)>,
    key: Seq<char>,
) -> Result<PublicationMetadataView, Fault> {
    let i = index_of(m, key);
    if 0 <= i < m.len() {
        decode_publication_metadata(m[i].1, key)
    } else {
        Err(Fault::MissingRequiredField(key))
    }
}

/// The written form of such a field.
pub open spec fn write_publication_metadata(x: PublicationMetadataView) -> Option<Doc> {
    Some(encode_publication_metadata(x))
}

/// Reads a field that has to be a set of publication metadata.
pub fn get_publication_metadata(
    members: &Vec<(String, Value)>,
    key: &str,
) -> (r: Result<PublicationMetadata, ParseError>)
    ensures
        match r {
            Ok(x) => read_publication_metadata(members_of(members@), key@)
                == Ok::<PublicationMetadataView, Fault>(publication_metadata_view(x)),
            Err(e) => read_publication_metadata(members_of(members@), key@)
                == Err::<PublicationMetadataView, Fault>(e@),
        },
        r matches Ok(x) ==> publication_metadata_wf(publication_metadata_view(x)),
{
    match position(members, key) {
        None => Err(missing(key)),
        Some(i) => {
            proof {
                assert(members_of(members@)[i as int].1 == members@[i as int].1@);
            }
            PublicationMetadata::parse(&members[i].1, key)
        },
    }
}

/// Writes such a field.
pub fn make_publication_metadata(x: &PublicationMetadata) -> (r: Option<Value>)
    ensures
        opt_doc(r) == write_publication_metadata(publication_metadata_view((*x))),
{
    Some(x.to_value())
}

/// Such a field, written and read again, holds the same set of publication
/// metadata.
pub proof fn lemma_publication_metadata_field_round_trip(
    x: PublicationMetadataView,
    m: Seq<(Seq<char>, Doc)>,
    key: Seq<char>,
)
    requires
        publication_metadata_wf(x),
        lookup(m, key) == write_publication_metadata(x),
    ensures
        read_publication_metadata(m, key) == Ok::<PublicationMetadataView, Fault>(x),
{
    lemma_lookup_index(m, key);
    lemma_publication_metadata_round_trip(x, key);
}

} // verus!
