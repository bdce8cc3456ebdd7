//! How the names of the fields are spelled, letter by letter: what the proofs
//! need to tell one name from another.
use vstd::prelude::*;

verus! {

/// How `@type` is spelled.
pub proof fn spell_at_type()
    ensures
        "@type"@.len() == 5 && "@type"@[0] == '@' && "@type"@[1] == 't' && "@type"@[2] == 'y'
            && "@type"@[3] == 'p' && "@type"@[4] == 'e',
{
    reveal_strlit("@type");
}

/// How `abridged` is spelled.
pub proof fn spell_abridged()
    ensures
        "abridged"@.len() == 8 && "abridged"@[0] == 'a' && "abridged"@[1] == 'b'
            && "abridged"@[2] == 'r' && "abridged"@[3] == 'i' && "abridged"@[4] == 'd'
            && "abridged"@[5] == 'g' && "abridged"@[6] == 'e' && "abridged"@[7] == 'd',
{
    reveal_strlit("abridged");
}

/// How `accessMode` is spelled.
pub proof fn spell_access_mode()
    ensures
        "accessMode"@.len() == 10 && "accessMode"@[0] == 'a' && "accessMode"@[1] == 'c'
            && "accessMode"@[2] == 'c' && "accessMode"@[3] == 'e' && "accessMode"@[4] == 's'
            && "accessMode"@[5] == 's' && "accessMode"@[6] == 'M' && "accessMode"@[7] == 'o'
            && "accessMode"@[8] == 'd' && "accessMode"@[9] == 'e',
{
    reveal_strlit("accessMode");
}

/// How `accessibility` is spelled.
pub proof fn spell_accessibility()
    ensures
        "accessibility"@.len() == 13 && "accessibility"@[0] == 'a' && "accessibility"@[1] == 'c'
            && "accessibility"@[2] == 'c' && "accessibility"@[3] == 'e'
            && "accessibility"@[4] == 's' && "accessibility"@[5] == 's'
            && "accessibility"@[6] == 'i' && "accessibility"@[7] == 'b'
            && "accessibility"@[8] == 'i' && "accessibility"@[9] == 'l'
            && "accessibility"@[10] == 'i' && "accessibility"@[11] == 't'
            && "accessibility"@[12] == 'y',
{
    reveal_strlit("accessibility");
}

/// How `altIdentifier` is spelled.
pub proof fn spell_alt_identifier()
    ensures
        "altIdentifier"@.len() == 13 && "altIdentifier"@[0] == 'a' && "altIdentifier"@[1] == 'l'
            && "altIdentifier"@[2] == 't' && "altIdentifier"@[3] == 'I'
            && "altIdentifier"@[4] == 'd' && "altIdentifier"@[5] == 'e'
            && "altIdentifier"@[6] == 'n' && "altIdentifier"@[7] == 't'
            && "altIdentifier"@[8] == 'i' && "altIdentifier"@[9] == 'f'
            && "altIdentifier"@[10] == 'i' && "altIdentifier"@[11] == 'e'
            && "altIdentifier"@[12] == 'r',
{
    reveal_strlit("altIdentifier");
}

/// How `alternate` is spelled.
pub proof fn spell_alternate()
    ensures
        "alternate"@.len() == 9 && "alternate"@[0] == 'a' && "alternate"@[1] == 'l'
            && "alternate"@[2] == 't' && "alternate"@[3] == 'e' && "alternate"@[4] == 'r'
            && "alternate"@[5] == 'n' && "alternate"@[6] == 'a' && "alternate"@[7] == 't'
            && "alternate"@[8] == 'e',
{
    reveal_strlit("alternate");
}

/// How `article` is spelled.
pub proof fn spell_article()
    ensures
        "article"@.len() == 7 && "article"@[0] == 'a' && "article"@[1] == 'r'
            && "article"@[2] == 't' && "article"@[3] == 'i' && "article"@[4] == 'c'
            && "article"@[5] == 'l' && "article"@[6] == 'e',
{
    reveal_strlit("article");
}

/// How `artist` is spelled.
pub proof fn spell_artist()
    ensures
        "artist"@.len() == 6 && "artist"@[0] == 'a' && "artist"@[1] == 'r' && "artist"@[2] == 't'
            && "artist"@[3] == 'i' && "artist"@[4] == 's' && "artist"@[5] == 't',
{
    reveal_strlit("artist");
}

/// How `author` is spelled.
pub proof fn spell_author()
    ensures
        "author"@.len() == 6 && "author"@[0] == 'a' && "author"@[1] == 'u' && "author"@[2] == 't'
            && "author"@[3] == 'h' && "author"@[4] == 'o' && "author"@[5] == 'r',
{
    reveal_strlit("author");
}

/// How `availability` is spelled.
pub proof fn spell_availability()
    ensures
        "availability"@.len() == 12 && "availability"@[0] == 'a' && "availability"@[1] == 'v'
            && "availability"@[2] == 'a' && "availability"@[3] == 'i' && "availability"@[4] == 'l'
            && "availability"@[5] == 'a' && "availability"@[6] == 'b' && "availability"@[7] == 'i'
            && "availability"@[8] == 'l' && "availability"@[9] == 'i' && "availability"@[10] == 't'
            && "availability"@[11] == 'y',
{
    reveal_strlit("availability");
}

/// How `available` is spelled.
pub proof fn spell_available()
    ensures
        "available"@.len() == 9 && "available"@[0] == 'a' && "available"@[1] == 'v'
            && "available"@[2] == 'a' && "available"@[3] == 'i' && "available"@[4] == 'l'
            && "available"@[5] == 'a' && "available"@[6] == 'b' && "available"@[7] == 'l'
            && "available"@[8] == 'e',
{
    reveal_strlit("available");
}

/// How `belongsTo` is spelled.
pub proof fn spell_belongs_to()
    ensures
        "belongsTo"@.len() == 9 && "belongsTo"@[0] == 'b' && "belongsTo"@[1] == 'e'
            && "belongsTo"@[2] == 'l' && "belongsTo"@[3] == 'o' && "belongsTo"@[4] == 'n'
            && "belongsTo"@[5] == 'g' && "belongsTo"@[6] == 's' && "belongsTo"@[7] == 'T'
            && "belongsTo"@[8] == 'o',
{
    reveal_strlit("belongsTo");
}

/// How `bitrate` is spelled.
pub proof fn spell_bitrate()
    ensures
        "bitrate"@.len() == 7 && "bitrate"@[0] == 'b' && "bitrate"@[1] == 'i'
            && "bitrate"@[2] == 't' && "bitrate"@[3] == 'r' && "bitrate"@[4] == 'a'
            && "bitrate"@[5] == 't' && "bitrate"@[6] == 'e',
{
    reveal_strlit("bitrate");
}

/// How `certification` is spelled.
pub proof fn spell_certification()
    ensures
        "certification"@.len() == 13 && "certification"@[0] == 'c' && "certification"@[1] == 'e'
            && "certification"@[2] == 'r' && "certification"@[3] == 't'
            && "certification"@[4] == 'i' && "certification"@[5] == 'f'
            && "certification"@[6] == 'i' && "certification"@[7] == 'c'
            && "certification"@[8] == 'a' && "certification"@[9] == 't'
            && "certification"@[10] == 'i' && "certification"@[11] == 'o'
            && "certification"@[12] == 'n',
{
    reveal_strlit("certification");
}

/// How `certifiedBy` is spelled.
pub proof fn spell_certified_by()
    ensures
        "certifiedBy"@.len() == 11 && "certifiedBy"@[0] == 'c' && "certifiedBy"@[1] == 'e'
            && "certifiedBy"@[2] == 'r' && "certifiedBy"@[3] == 't' && "certifiedBy"@[4] == 'i'
            && "certifiedBy"@[5] == 'f' && "certifiedBy"@[6] == 'i' && "certifiedBy"@[7] == 'e'
            && "certifiedBy"@[8] == 'd' && "certifiedBy"@[9] == 'B' && "certifiedBy"@[10] == 'y',
{
    reveal_strlit("certifiedBy");
}

/// How `chapter` is spelled.
pub proof fn spell_chapter()
    ensures
        "chapter"@.len() == 7 && "chapter"@[0] == 'c' && "chapter"@[1] == 'h'
            && "chapter"@[2] == 'a' && "chapter"@[3] == 'p' && "chapter"@[4] == 't'
            && "chapter"@[5] == 'e' && "chapter"@[6] == 'r',
{
    reveal_strlit("chapter");
}

/// How `child` is spelled.
pub proof fn spell_child()
    ensures
        "child"@.len() == 5 && "child"@[0] == 'c' && "child"@[1] == 'h' && "child"@[2] == 'i'
            && "child"@[3] == 'l' && "child"@[4] == 'd',
{
    reveal_strlit("child");
}

/// How `children` is spelled.
pub proof fn spell_children()
    ensures
        "children"@.len() == 8 && "children"@[0] == 'c' && "children"@[1] == 'h'
            && "children"@[2] == 'i' && "children"@[3] == 'l' && "children"@[4] == 'd'
            && "children"@[5] == 'r' && "children"@[6] == 'e' && "children"@[7] == 'n',
{
    reveal_strlit("children");
}

/// How `code` is spelled.
pub proof fn spell_code()
    ensures
        "code"@.len() == 4 && "code"@[0] == 'c' && "code"@[1] == 'o' && "code"@[2] == 'd'
            && "code"@[3] == 'e',
{
    reveal_strlit("code");
}

/// How `collection` is spelled.
pub proof fn spell_collection()
    ensures
        "collection"@.len() == 10 && "collection"@[0] == 'c' && "collection"@[1] == 'o'
            && "collection"@[2] == 'l' && "collection"@[3] == 'l' && "collection"@[4] == 'e'
            && "collection"@[5] == 'c' && "collection"@[6] == 't' && "collection"@[7] == 'i'
            && "collection"@[8] == 'o' && "collection"@[9] == 'n',
{
    reveal_strlit("collection");
}

/// How `colorist` is spelled.
pub proof fn spell_colorist()
    ensures
        "colorist"@.len() == 8 && "colorist"@[0] == 'c' && "colorist"@[1] == 'o'
            && "colorist"@[2] == 'l' && "colorist"@[3] == 'o' && "colorist"@[4] == 'r'
            && "colorist"@[5] == 'i' && "colorist"@[6] == 's' && "colorist"@[7] == 't',
{
    reveal_strlit("colorist");
}

/// How `conformsTo` is spelled.
pub proof fn spell_conforms_to()
    ensures
        "conformsTo"@.len() == 10 && "conformsTo"@[0] == 'c' && "conformsTo"@[1] == 'o'
            && "conformsTo"@[2] == 'n' && "conformsTo"@[3] == 'f' && "conformsTo"@[4] == 'o'
            && "conformsTo"@[5] == 'r' && "conformsTo"@[6] == 'm' && "conformsTo"@[7] == 's'
            && "conformsTo"@[8] == 'T' && "conformsTo"@[9] == 'o',
{
    reveal_strlit("conformsTo");
}

/// How `contains` is spelled.
pub proof fn spell_contains()
    ensures
        "contains"@.len() == 8 && "contains"@[0] == 'c' && "contains"@[1] == 'o'
            && "contains"@[2] == 'n' && "contains"@[3] == 't' && "contains"@[4] == 'a'
            && "contains"@[5] == 'i' && "contains"@[6] == 'n' && "contains"@[7] == 's',
{
    reveal_strlit("contains");
}

/// How `contributor` is spelled.
pub proof fn spell_contributor()
    ensures
        "contributor"@.len() == 11 && "contributor"@[0] == 'c' && "contributor"@[1] == 'o'
            && "contributor"@[2] == 'n' && "contributor"@[3] == 't' && "contributor"@[4] == 'r'
            && "contributor"@[5] == 'i' && "contributor"@[6] == 'b' && "contributor"@[7] == 'u'
            && "contributor"@[8] == 't' && "contributor"@[9] == 'o' && "contributor"@[10] == 'r',
{
    reveal_strlit("contributor");
}

/// How `copies` is spelled.
pub proof fn spell_copies()
    ensures
        "copies"@.len() == 6 && "copies"@[0] == 'c' && "copies"@[1] == 'o' && "copies"@[2] == 'p'
            && "copies"@[3] == 'i' && "copies"@[4] == 'e' && "copies"@[5] == 's',
{
    reveal_strlit("copies");
}

/// How `credential` is spelled.
pub proof fn spell_credential()
    ensures
        "credential"@.len() == 10 && "credential"@[0] == 'c' && "credential"@[1] == 'r'
            && "credential"@[2] == 'e' && "credential"@[3] == 'd' && "credential"@[4] == 'e'
            && "credential"@[5] == 'n' && "credential"@[6] == 't' && "credential"@[7] == 'i'
            && "credential"@[8] == 'a' && "credential"@[9] == 'l',
{
    reveal_strlit("credential");
}

/// How `currency` is spelled.
pub proof fn spell_currency()
    ensures
        "currency"@.len() == 8 && "currency"@[0] == 'c' && "currency"@[1] == 'u'
            && "currency"@[2] == 'r' && "currency"@[3] == 'r' && "currency"@[4] == 'e'
            && "currency"@[5] == 'n' && "currency"@[6] == 'c' && "currency"@[7] == 'y',
{
    reveal_strlit("currency");
}

/// How `currentPage` is spelled.
pub proof fn spell_current_page()
    ensures
        "currentPage"@.len() == 11 && "currentPage"@[0] == 'c' && "currentPage"@[1] == 'u'
            && "currentPage"@[2] == 'r' && "currentPage"@[3] == 'r' && "currentPage"@[4] == 'e'
            && "currentPage"@[5] == 'n' && "currentPage"@[6] == 't' && "currentPage"@[7] == 'P'
            && "currentPage"@[8] == 'a' && "currentPage"@[9] == 'g' && "currentPage"@[10] == 'e',
{
    reveal_strlit("currentPage");
}

/// How `description` is spelled.
pub proof fn spell_description()
    ensures
        "description"@.len() == 11 && "description"@[0] == 'd' && "description"@[1] == 'e'
            && "description"@[2] == 's' && "description"@[3] == 'c' && "description"@[4] == 'r'
            && "description"@[5] == 'i' && "description"@[6] == 'p' && "description"@[7] == 't'
            && "description"@[8] == 'i' && "description"@[9] == 'o' && "description"@[10] == 'n',
{
    reveal_strlit("description");
}

/// How `duration` is spelled.
pub proof fn spell_duration()
    ensures
        "duration"@.len() == 8 && "duration"@[0] == 'd' && "duration"@[1] == 'u'
            && "duration"@[2] == 'r' && "duration"@[3] == 'a' && "duration"@[4] == 't'
            && "duration"@[5] == 'i' && "duration"@[6] == 'o' && "duration"@[7] == 'n',
{
    reveal_strlit("duration");
}

/// How `editor` is spelled.
pub proof fn spell_editor()
    ensures
        "editor"@.len() == 6 && "editor"@[0] == 'e' && "editor"@[1] == 'd' && "editor"@[2] == 'i'
            && "editor"@[3] == 't' && "editor"@[4] == 'o' && "editor"@[5] == 'r',
{
    reveal_strlit("editor");
}

/// How `episode` is spelled.
pub proof fn spell_episode()
    ensures
        "episode"@.len() == 7 && "episode"@[0] == 'e' && "episode"@[1] == 'p'
            && "episode"@[2] == 'i' && "episode"@[3] == 's' && "episode"@[4] == 'o'
            && "episode"@[5] == 'd' && "episode"@[6] == 'e',
{
    reveal_strlit("episode");
}

/// How `exemption` is spelled.
pub proof fn spell_exemption()
    ensures
        "exemption"@.len() == 9 && "exemption"@[0] == 'e' && "exemption"@[1] == 'x'
            && "exemption"@[2] == 'e' && "exemption"@[3] == 'm' && "exemption"@[4] == 'p'
            && "exemption"@[5] == 't' && "exemption"@[6] == 'i' && "exemption"@[7] == 'o'
            && "exemption"@[8] == 'n',
{
    reveal_strlit("exemption");
}

/// How `facets` is spelled.
pub proof fn spell_facets()
    ensures
        "facets"@.len() == 6 && "facets"@[0] == 'f' && "facets"@[1] == 'a' && "facets"@[2] == 'c'
            && "facets"@[3] == 'e' && "facets"@[4] == 't' && "facets"@[5] == 's',
{
    reveal_strlit("facets");
}

/// How `feature` is spelled.
pub proof fn spell_feature()
    ensures
        "feature"@.len() == 7 && "feature"@[0] == 'f' && "feature"@[1] == 'e'
            && "feature"@[2] == 'a' && "feature"@[3] == 't' && "feature"@[4] == 'u'
            && "feature"@[5] == 'r' && "feature"@[6] == 'e',
{
    reveal_strlit("feature");
}

/// How `groups` is spelled.
pub proof fn spell_groups()
    ensures
        "groups"@.len() == 6 && "groups"@[0] == 'g' && "groups"@[1] == 'r' && "groups"@[2] == 'o'
            && "groups"@[3] == 'u' && "groups"@[4] == 'p' && "groups"@[5] == 's',
{
    reveal_strlit("groups");
}

/// How `hazard` is spelled.
pub proof fn spell_hazard()
    ensures
        "hazard"@.len() == 6 && "hazard"@[0] == 'h' && "hazard"@[1] == 'a' && "hazard"@[2] == 'z'
            && "hazard"@[3] == 'a' && "hazard"@[4] == 'r' && "hazard"@[5] == 'd',
{
    reveal_strlit("hazard");
}

/// How `height` is spelled.
pub proof fn spell_height()
    ensures
        "height"@.len() == 6 && "height"@[0] == 'h' && "height"@[1] == 'e' && "height"@[2] == 'i'
            && "height"@[3] == 'g' && "height"@[4] == 'h' && "height"@[5] == 't',
{
    reveal_strlit("height");
}

/// How `holds` is spelled.
pub proof fn spell_holds()
    ensures
        "holds"@.len() == 5 && "holds"@[0] == 'h' && "holds"@[1] == 'o' && "holds"@[2] == 'l'
            && "holds"@[3] == 'd' && "holds"@[4] == 's',
{
    reveal_strlit("holds");
}

/// How `href` is spelled.
pub proof fn spell_href()
    ensures
        "href"@.len() == 4 && "href"@[0] == 'h' && "href"@[1] == 'r' && "href"@[2] == 'e'
            && "href"@[3] == 'f',
{
    reveal_strlit("href");
}

/// How `identifier` is spelled.
pub proof fn spell_identifier()
    ensures
        "identifier"@.len() == 10 && "identifier"@[0] == 'i' && "identifier"@[1] == 'd'
            && "identifier"@[2] == 'e' && "identifier"@[3] == 'n' && "identifier"@[4] == 't'
            && "identifier"@[5] == 'i' && "identifier"@[6] == 'f' && "identifier"@[7] == 'i'
            && "identifier"@[8] == 'e' && "identifier"@[9] == 'r',
{
    reveal_strlit("identifier");
}

/// How `illustrator` is spelled.
pub proof fn spell_illustrator()
    ensures
        "illustrator"@.len() == 11 && "illustrator"@[0] == 'i' && "illustrator"@[1] == 'l'
            && "illustrator"@[2] == 'l' && "illustrator"@[3] == 'u' && "illustrator"@[4] == 's'
            && "illustrator"@[5] == 't' && "illustrator"@[6] == 'r' && "illustrator"@[7] == 'a'
            && "illustrator"@[8] == 't' && "illustrator"@[9] == 'o' && "illustrator"@[10] == 'r',
{
    reveal_strlit("illustrator");
}

/// How `images` is spelled.
pub proof fn spell_images()
    ensures
        "images"@.len() == 6 && "images"@[0] == 'i' && "images"@[1] == 'm' && "images"@[2] == 'a'
            && "images"@[3] == 'g' && "images"@[4] == 'e' && "images"@[5] == 's',
{
    reveal_strlit("images");
}

/// How `imprint` is spelled.
pub proof fn spell_imprint()
    ensures
        "imprint"@.len() == 7 && "imprint"@[0] == 'i' && "imprint"@[1] == 'm'
            && "imprint"@[2] == 'p' && "imprint"@[3] == 'r' && "imprint"@[4] == 'i'
            && "imprint"@[5] == 'n' && "imprint"@[6] == 't',
{
    reveal_strlit("imprint");
}

/// How `indirectAcquisition` is spelled.
pub proof fn spell_indirect_acquisition()
    ensures
        "indirectAcquisition"@.len() == 19 && "indirectAcquisition"@[0] == 'i'
            && "indirectAcquisition"@[1] == 'n' && "indirectAcquisition"@[2] == 'd'
            && "indirectAcquisition"@[3] == 'i' && "indirectAcquisition"@[4] == 'r'
            && "indirectAcquisition"@[5] == 'e' && "indirectAcquisition"@[6] == 'c'
            && "indirectAcquisition"@[7] == 't' && "indirectAcquisition"@[8] == 'A'
            && "indirectAcquisition"@[9] == 'c' && "indirectAcquisition"@[10] == 'q'
            && "indirectAcquisition"@[11] == 'u' && "indirectAcquisition"@[12] == 'i'
            && "indirectAcquisition"@[13] == 's' && "indirectAcquisition"@[14] == 'i'
            && "indirectAcquisition"@[15] == 't' && "indirectAcquisition"@[16] == 'i'
            && "indirectAcquisition"@[17] == 'o' && "indirectAcquisition"@[18] == 'n',
{
    reveal_strlit("indirectAcquisition");
}

/// How `inker` is spelled.
pub proof fn spell_inker()
    ensures
        "inker"@.len() == 5 && "inker"@[0] == 'i' && "inker"@[1] == 'n' && "inker"@[2] == 'k'
            && "inker"@[3] == 'e' && "inker"@[4] == 'r',
{
    reveal_strlit("inker");
}

/// How `issue` is spelled.
pub proof fn spell_issue()
    ensures
        "issue"@.len() == 5 && "issue"@[0] == 'i' && "issue"@[1] == 's' && "issue"@[2] == 's'
            && "issue"@[3] == 'u' && "issue"@[4] == 'e',
{
    reveal_strlit("issue");
}

/// How `itemsPerPage` is spelled.
pub proof fn spell_items_per_page()
    ensures
        "itemsPerPage"@.len() == 12 && "itemsPerPage"@[0] == 'i' && "itemsPerPage"@[1] == 't'
            && "itemsPerPage"@[2] == 'e' && "itemsPerPage"@[3] == 'm' && "itemsPerPage"@[4] == 's'
            && "itemsPerPage"@[5] == 'P' && "itemsPerPage"@[6] == 'e' && "itemsPerPage"@[7] == 'r'
            && "itemsPerPage"@[8] == 'P' && "itemsPerPage"@[9] == 'a' && "itemsPerPage"@[10] == 'g'
            && "itemsPerPage"@[11] == 'e',
{
    reveal_strlit("itemsPerPage");
}

/// How `journal` is spelled.
pub proof fn spell_journal()
    ensures
        "journal"@.len() == 7 && "journal"@[0] == 'j' && "journal"@[1] == 'o'
            && "journal"@[2] == 'u' && "journal"@[3] == 'r' && "journal"@[4] == 'n'
            && "journal"@[5] == 'a' && "journal"@[6] == 'l',
{
    reveal_strlit("journal");
}

/// How `language` is spelled.
pub proof fn spell_language()
    ensures
        "language"@.len() == 8 && "language"@[0] == 'l' && "language"@[1] == 'a'
            && "language"@[2] == 'n' && "language"@[3] == 'g' && "language"@[4] == 'u'
            && "language"@[5] == 'a' && "language"@[6] == 'g' && "language"@[7] == 'e',
{
    reveal_strlit("language");
}

/// How `layout` is spelled.
pub proof fn spell_layout()
    ensures
        "layout"@.len() == 6 && "layout"@[0] == 'l' && "layout"@[1] == 'a' && "layout"@[2] == 'y'
            && "layout"@[3] == 'o' && "layout"@[4] == 'u' && "layout"@[5] == 't',
{
    reveal_strlit("layout");
}

/// How `letterer` is spelled.
pub proof fn spell_letterer()
    ensures
        "letterer"@.len() == 8 && "letterer"@[0] == 'l' && "letterer"@[1] == 'e'
            && "letterer"@[2] == 't' && "letterer"@[3] == 't' && "letterer"@[4] == 'e'
            && "letterer"@[5] == 'r' && "letterer"@[6] == 'e' && "letterer"@[7] == 'r',
{
    reveal_strlit("letterer");
}

/// How `links` is spelled.
pub proof fn spell_links()
    ensures
        "links"@.len() == 5 && "links"@[0] == 'l' && "links"@[1] == 'i' && "links"@[2] == 'n'
            && "links"@[3] == 'k' && "links"@[4] == 's',
{
    reveal_strlit("links");
}

/// How `magazine` is spelled.
pub proof fn spell_magazine()
    ensures
        "magazine"@.len() == 8 && "magazine"@[0] == 'm' && "magazine"@[1] == 'a'
            && "magazine"@[2] == 'g' && "magazine"@[3] == 'a' && "magazine"@[4] == 'z'
            && "magazine"@[5] == 'i' && "magazine"@[6] == 'n' && "magazine"@[7] == 'e',
{
    reveal_strlit("magazine");
}

/// How `metadata` is spelled.
pub proof fn spell_metadata()
    ensures
        "metadata"@.len() == 8 && "metadata"@[0] == 'm' && "metadata"@[1] == 'e'
            && "metadata"@[2] == 't' && "metadata"@[3] == 'a' && "metadata"@[4] == 'd'
            && "metadata"@[5] == 'a' && "metadata"@[6] == 't' && "metadata"@[7] == 'a',
{
    reveal_strlit("metadata");
}

/// How `modified` is spelled.
pub proof fn spell_modified()
    ensures
        "modified"@.len() == 8 && "modified"@[0] == 'm' && "modified"@[1] == 'o'
            && "modified"@[2] == 'd' && "modified"@[3] == 'i' && "modified"@[4] == 'f'
            && "modified"@[5] == 'i' && "modified"@[6] == 'e' && "modified"@[7] == 'd',
{
    reveal_strlit("modified");
}

/// How `name` is spelled.
pub proof fn spell_name()
    ensures
        "name"@.len() == 4 && "name"@[0] == 'n' && "name"@[1] == 'a' && "name"@[2] == 'm'
            && "name"@[3] == 'e',
{
    reveal_strlit("name");
}

/// How `narrator` is spelled.
pub proof fn spell_narrator()
    ensures
        "narrator"@.len() == 8 && "narrator"@[0] == 'n' && "narrator"@[1] == 'a'
            && "narrator"@[2] == 'r' && "narrator"@[3] == 'r' && "narrator"@[4] == 'a'
            && "narrator"@[5] == 't' && "narrator"@[6] == 'o' && "narrator"@[7] == 'r',
{
    reveal_strlit("narrator");
}

/// How `navigation` is spelled.
pub proof fn spell_navigation()
    ensures
        "navigation"@.len() == 10 && "navigation"@[0] == 'n' && "navigation"@[1] == 'a'
            && "navigation"@[2] == 'v' && "navigation"@[3] == 'i' && "navigation"@[4] == 'g'
            && "navigation"@[5] == 'a' && "navigation"@[6] == 't' && "navigation"@[7] == 'i'
            && "navigation"@[8] == 'o' && "navigation"@[9] == 'n',
{
    reveal_strlit("navigation");
}

/// How `newspaper` is spelled.
pub proof fn spell_newspaper()
    ensures
        "newspaper"@.len() == 9 && "newspaper"@[0] == 'n' && "newspaper"@[1] == 'e'
            && "newspaper"@[2] == 'w' && "newspaper"@[3] == 's' && "newspaper"@[4] == 'p'
            && "newspaper"@[5] == 'a' && "newspaper"@[6] == 'p' && "newspaper"@[7] == 'e'
            && "newspaper"@[8] == 'r',
{
    reveal_strlit("newspaper");
}

/// How `numberOfItems` is spelled.
pub proof fn spell_number_of_items()
    ensures
        "numberOfItems"@.len() == 13 && "numberOfItems"@[0] == 'n' && "numberOfItems"@[1] == 'u'
            && "numberOfItems"@[2] == 'm' && "numberOfItems"@[3] == 'b'
            && "numberOfItems"@[4] == 'e' && "numberOfItems"@[5] == 'r'
            && "numberOfItems"@[6] == 'O' && "numberOfItems"@[7] == 'f'
            && "numberOfItems"@[8] == 'I' && "numberOfItems"@[9] == 't'
            && "numberOfItems"@[10] == 'e' && "numberOfItems"@[11] == 'm'
            && "numberOfItems"@[12] == 's',
{
    reveal_strlit("numberOfItems");
}

/// How `numberOfPages` is spelled.
pub proof fn spell_number_of_pages()
    ensures
        "numberOfPages"@.len() == 13 && "numberOfPages"@[0] == 'n' && "numberOfPages"@[1] == 'u'
            && "numberOfPages"@[2] == 'm' && "numberOfPages"@[3] == 'b'
            && "numberOfPages"@[4] == 'e' && "numberOfPages"@[5] == 'r'
            && "numberOfPages"@[6] == 'O' && "numberOfPages"@[7] == 'f'
            && "numberOfPages"@[8] == 'P' && "numberOfPages"@[9] == 'a'
            && "numberOfPages"@[10] == 'g' && "numberOfPages"@[11] == 'e'
            && "numberOfPages"@[12] == 's',
{
    reveal_strlit("numberOfPages");
}

/// How `page` is spelled.
pub proof fn spell_page()
    ensures
        "page"@.len() == 4 && "page"@[0] == 'p' && "page"@[1] == 'a' && "page"@[2] == 'g'
            && "page"@[3] == 'e',
{
    reveal_strlit("page");
}

/// How `penciler` is spelled.
pub proof fn spell_penciler()
    ensures
        "penciler"@.len() == 8 && "penciler"@[0] == 'p' && "penciler"@[1] == 'e'
            && "penciler"@[2] == 'n' && "penciler"@[3] == 'c' && "penciler"@[4] == 'i'
            && "penciler"@[5] == 'l' && "penciler"@[6] == 'e' && "penciler"@[7] == 'r',
{
    reveal_strlit("penciler");
}

/// How `periodical` is spelled.
pub proof fn spell_periodical()
    ensures
        "periodical"@.len() == 10 && "periodical"@[0] == 'p' && "periodical"@[1] == 'e'
            && "periodical"@[2] == 'r' && "periodical"@[3] == 'i' && "periodical"@[4] == 'o'
            && "periodical"@[5] == 'd' && "periodical"@[6] == 'i' && "periodical"@[7] == 'c'
            && "periodical"@[8] == 'a' && "periodical"@[9] == 'l',
{
    reveal_strlit("periodical");
}

/// How `policy` is spelled.
pub proof fn spell_policy()
    ensures
        "policy"@.len() == 6 && "policy"@[0] == 'p' && "policy"@[1] == 'o' && "policy"@[2] == 'l'
            && "policy"@[3] == 'i' && "policy"@[4] == 'c' && "policy"@[5] == 'y',
{
    reveal_strlit("policy");
}

/// How `position` is spelled.
pub proof fn spell_position()
    ensures
        "position"@.len() == 8 && "position"@[0] == 'p' && "position"@[1] == 'o'
            && "position"@[2] == 's' && "position"@[3] == 'i' && "position"@[4] == 't'
            && "position"@[5] == 'i' && "position"@[6] == 'o' && "position"@[7] == 'n',
{
    reveal_strlit("position");
}

/// How `price` is spelled.
pub proof fn spell_price()
    ensures
        "price"@.len() == 5 && "price"@[0] == 'p' && "price"@[1] == 'r' && "price"@[2] == 'i'
            && "price"@[3] == 'c' && "price"@[4] == 'e',
{
    reveal_strlit("price");
}

/// How `properties` is spelled.
pub proof fn spell_properties()
    ensures
        "properties"@.len() == 10 && "properties"@[0] == 'p' && "properties"@[1] == 'r'
            && "properties"@[2] == 'o' && "properties"@[3] == 'p' && "properties"@[4] == 'e'
            && "properties"@[5] == 'r' && "properties"@[6] == 't' && "properties"@[7] == 'i'
            && "properties"@[8] == 'e' && "properties"@[9] == 's',
{
    reveal_strlit("properties");
}

/// How `publications` is spelled.
pub proof fn spell_publications()
    ensures
        "publications"@.len() == 12 && "publications"@[0] == 'p' && "publications"@[1] == 'u'
            && "publications"@[2] == 'b' && "publications"@[3] == 'l' && "publications"@[4] == 'i'
            && "publications"@[5] == 'c' && "publications"@[6] == 'a' && "publications"@[7] == 't'
            && "publications"@[8] == 'i' && "publications"@[9] == 'o' && "publications"@[10] == 'n'
            && "publications"@[11] == 's',
{
    reveal_strlit("publications");
}

/// How `published` is spelled.
pub proof fn spell_published()
    ensures
        "published"@.len() == 9 && "published"@[0] == 'p' && "published"@[1] == 'u'
            && "published"@[2] == 'b' && "published"@[3] == 'l' && "published"@[4] == 'i'
            && "published"@[5] == 's' && "published"@[6] == 'h' && "published"@[7] == 'e'
            && "published"@[8] == 'd',
{
    reveal_strlit("published");
}

/// How `publisher` is spelled.
pub proof fn spell_publisher()
    ensures
        "publisher"@.len() == 9 && "publisher"@[0] == 'p' && "publisher"@[1] == 'u'
            && "publisher"@[2] == 'b' && "publisher"@[3] == 'l' && "publisher"@[4] == 'i'
            && "publisher"@[5] == 's' && "publisher"@[6] == 'h' && "publisher"@[7] == 'e'
            && "publisher"@[8] == 'r',
{
    reveal_strlit("publisher");
}

/// How `readingProgression` is spelled.
pub proof fn spell_reading_progression()
    ensures
        "readingProgression"@.len() == 18 && "readingProgression"@[0] == 'r'
            && "readingProgression"@[1] == 'e' && "readingProgression"@[2] == 'a'
            && "readingProgression"@[3] == 'd' && "readingProgression"@[4] == 'i'
            && "readingProgression"@[5] == 'n' && "readingProgression"@[6] == 'g'
            && "readingProgression"@[7] == 'P' && "readingProgression"@[8] == 'r'
            && "readingProgression"@[9] == 'o' && "readingProgression"@[10] == 'g'
            && "readingProgression"@[11] == 'r' && "readingProgression"@[12] == 'e'
            && "readingProgression"@[13] == 's' && "readingProgression"@[14] == 's'
            && "readingProgression"@[15] == 'i' && "readingProgression"@[16] == 'o'
            && "readingProgression"@[17] == 'n',
{
    reveal_strlit("readingProgression");
}

/// How `rel` is spelled.
pub proof fn spell_rel()
    ensures
        "rel"@.len() == 3 && "rel"@[0] == 'r' && "rel"@[1] == 'e' && "rel"@[2] == 'l',
{
    reveal_strlit("rel");
}

/// How `report` is spelled.
pub proof fn spell_report()
    ensures
        "report"@.len() == 6 && "report"@[0] == 'r' && "report"@[1] == 'e' && "report"@[2] == 'p'
            && "report"@[3] == 'o' && "report"@[4] == 'r' && "report"@[5] == 't',
{
    reveal_strlit("report");
}

/// How `reservation` is spelled.
pub proof fn spell_reservation()
    ensures
        "reservation"@.len() == 11 && "reservation"@[0] == 'r' && "reservation"@[1] == 'e'
            && "reservation"@[2] == 's' && "reservation"@[3] == 'e' && "reservation"@[4] == 'r'
            && "reservation"@[5] == 'v' && "reservation"@[6] == 'a' && "reservation"@[7] == 't'
            && "reservation"@[8] == 'i' && "reservation"@[9] == 'o' && "reservation"@[10] == 'n',
{
    reveal_strlit("reservation");
}

/// How `role` is spelled.
pub proof fn spell_role()
    ensures
        "role"@.len() == 4 && "role"@[0] == 'r' && "role"@[1] == 'o' && "role"@[2] == 'l'
            && "role"@[3] == 'e',
{
    reveal_strlit("role");
}

/// How `scheme` is spelled.
pub proof fn spell_scheme()
    ensures
        "scheme"@.len() == 6 && "scheme"@[0] == 's' && "scheme"@[1] == 'c' && "scheme"@[2] == 'h'
            && "scheme"@[3] == 'e' && "scheme"@[4] == 'm' && "scheme"@[5] == 'e',
{
    reveal_strlit("scheme");
}

/// How `season` is spelled.
pub proof fn spell_season()
    ensures
        "season"@.len() == 6 && "season"@[0] == 's' && "season"@[1] == 'e' && "season"@[2] == 'a'
            && "season"@[3] == 's' && "season"@[4] == 'o' && "season"@[5] == 'n',
{
    reveal_strlit("season");
}

/// How `series` is spelled.
pub proof fn spell_series()
    ensures
        "series"@.len() == 6 && "series"@[0] == 's' && "series"@[1] == 'e' && "series"@[2] == 'r'
            && "series"@[3] == 'i' && "series"@[4] == 'e' && "series"@[5] == 's',
{
    reveal_strlit("series");
}

/// How `since` is spelled.
pub proof fn spell_since()
    ensures
        "since"@.len() == 5 && "since"@[0] == 's' && "since"@[1] == 'i' && "since"@[2] == 'n'
            && "since"@[3] == 'c' && "since"@[4] == 'e',
{
    reveal_strlit("since");
}

/// How `size` is spelled.
pub proof fn spell_size()
    ensures
        "size"@.len() == 4 && "size"@[0] == 's' && "size"@[1] == 'i' && "size"@[2] == 'z'
            && "size"@[3] == 'e',
{
    reveal_strlit("size");
}

/// How `sortAs` is spelled.
pub proof fn spell_sort_as()
    ensures
        "sortAs"@.len() == 6 && "sortAs"@[0] == 's' && "sortAs"@[1] == 'o' && "sortAs"@[2] == 'r'
            && "sortAs"@[3] == 't' && "sortAs"@[4] == 'A' && "sortAs"@[5] == 's',
{
    reveal_strlit("sortAs");
}

/// How `state` is spelled.
pub proof fn spell_state()
    ensures
        "state"@.len() == 5 && "state"@[0] == 's' && "state"@[1] == 't' && "state"@[2] == 'a'
            && "state"@[3] == 't' && "state"@[4] == 'e',
{
    reveal_strlit("state");
}

/// How `storyArc` is spelled.
pub proof fn spell_story_arc()
    ensures
        "storyArc"@.len() == 8 && "storyArc"@[0] == 's' && "storyArc"@[1] == 't'
            && "storyArc"@[2] == 'o' && "storyArc"@[3] == 'r' && "storyArc"@[4] == 'y'
            && "storyArc"@[5] == 'A' && "storyArc"@[6] == 'r' && "storyArc"@[7] == 'c',
{
    reveal_strlit("storyArc");
}

/// How `subject` is spelled.
pub proof fn spell_subject()
    ensures
        "subject"@.len() == 7 && "subject"@[0] == 's' && "subject"@[1] == 'u'
            && "subject"@[2] == 'b' && "subject"@[3] == 'j' && "subject"@[4] == 'e'
            && "subject"@[5] == 'c' && "subject"@[6] == 't',
{
    reveal_strlit("subject");
}

/// How `subtitle` is spelled.
pub proof fn spell_subtitle()
    ensures
        "subtitle"@.len() == 8 && "subtitle"@[0] == 's' && "subtitle"@[1] == 'u'
            && "subtitle"@[2] == 'b' && "subtitle"@[3] == 't' && "subtitle"@[4] == 'i'
            && "subtitle"@[5] == 't' && "subtitle"@[6] == 'l' && "subtitle"@[7] == 'e',
{
    reveal_strlit("subtitle");
}

/// How `summary` is spelled.
pub proof fn spell_summary()
    ensures
        "summary"@.len() == 7 && "summary"@[0] == 's' && "summary"@[1] == 'u'
            && "summary"@[2] == 'm' && "summary"@[3] == 'm' && "summary"@[4] == 'a'
            && "summary"@[5] == 'r' && "summary"@[6] == 'y',
{
    reveal_strlit("summary");
}

/// How `tdm` is spelled.
pub proof fn spell_tdm()
    ensures
        "tdm"@.len() == 3 && "tdm"@[0] == 't' && "tdm"@[1] == 'd' && "tdm"@[2] == 'm',
{
    reveal_strlit("tdm");
}

/// How `templated` is spelled.
pub proof fn spell_templated()
    ensures
        "templated"@.len() == 9 && "templated"@[0] == 't' && "templated"@[1] == 'e'
            && "templated"@[2] == 'm' && "templated"@[3] == 'p' && "templated"@[4] == 'l'
            && "templated"@[5] == 'a' && "templated"@[6] == 't' && "templated"@[7] == 'e'
            && "templated"@[8] == 'd',
{
    reveal_strlit("templated");
}

/// How `title` is spelled.
pub proof fn spell_title()
    ensures
        "title"@.len() == 5 && "title"@[0] == 't' && "title"@[1] == 'i' && "title"@[2] == 't'
            && "title"@[3] == 'l' && "title"@[4] == 'e',
{
    reveal_strlit("title");
}

/// How `total` is spelled.
pub proof fn spell_total()
    ensures
        "total"@.len() == 5 && "total"@[0] == 't' && "total"@[1] == 'o' && "total"@[2] == 't'
            && "total"@[3] == 'a' && "total"@[4] == 'l',
{
    reveal_strlit("total");
}

/// How `translator` is spelled.
pub proof fn spell_translator()
    ensures
        "translator"@.len() == 10 && "translator"@[0] == 't' && "translator"@[1] == 'r'
            && "translator"@[2] == 'a' && "translator"@[3] == 'n' && "translator"@[4] == 's'
            && "translator"@[5] == 'l' && "translator"@[6] == 'a' && "translator"@[7] == 't'
            && "translator"@[8] == 'o' && "translator"@[9] == 'r',
{
    reveal_strlit("translator");
}

/// How `type` is spelled.
pub proof fn spell_type()
    ensures
        "type"@.len() == 4 && "type"@[0] == 't' && "type"@[1] == 'y' && "type"@[2] == 'p'
            && "type"@[3] == 'e',
{
    reveal_strlit("type");
}

/// How `until` is spelled.
pub proof fn spell_until()
    ensures
        "until"@.len() == 5 && "until"@[0] == 'u' && "until"@[1] == 'n' && "until"@[2] == 't'
            && "until"@[3] == 'i' && "until"@[4] == 'l',
{
    reveal_strlit("until");
}

/// How `value` is spelled.
pub proof fn spell_value()
    ensures
        "value"@.len() == 5 && "value"@[0] == 'v' && "value"@[1] == 'a' && "value"@[2] == 'l'
            && "value"@[3] == 'u' && "value"@[4] == 'e',
{
    reveal_strlit("value");
}

/// How `volume` is spelled.
pub proof fn spell_volume()
    ensures
        "volume"@.len() == 6 && "volume"@[0] == 'v' && "volume"@[1] == 'o' && "volume"@[2] == 'l'
            && "volume"@[3] == 'u' && "volume"@[4] == 'm' && "volume"@[5] == 'e',
{
    reveal_strlit("volume");
}

/// How `width` is spelled.
pub proof fn spell_width()
    ensures
        "width"@.len() == 5 && "width"@[0] == 'w' && "width"@[1] == 'i' && "width"@[2] == 'd'
            && "width"@[3] == 't' && "width"@[4] == 'h',
{
    reveal_strlit("width");
}

} // verus!
