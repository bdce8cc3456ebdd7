//! Labels that catalogs commonly show, in German, English, Spanish, French
//! and Portuguese.
use vstd::prelude::*;
use crate::v2_0::metadata::localized::{Localized, StringWithAlternates, TaggedStrings};

verus! {

/// A label in the five languages, under the tags `de`, `en`, `es`, `fr` and
/// `pt`, in that order.
pub open spec fn label(
    de: Seq<char>,
    en: Seq<char>,
    es: Seq<char>,
    fr: Seq<char>,
    pt: Seq<char>,
) -> Localized {
    Localized::Variants(seq![("de"@, de), ("en"@, en), ("es"@, es), ("fr"@, fr), ("pt"@, pt)])
}

/// Makes a label in the five languages.
fn make_label(
    de: &'static str,
    en: &'static str,
    es: &'static str,
    fr: &'static str,
    pt: &'static str,
) -> (r: StringWithAlternates)
    ensures
        r@ == label(de@, en@, es@, fr@, pt@),
{
    let choices = [("de", de), ("en", en), ("es", es), ("fr", fr), ("pt", pt)];
    let tagged = TaggedStrings::from_static(choices.as_slice());
    proof {
        assert(tagged@ =~= seq![("de"@, de@), ("en"@, en@), ("es"@, es@), ("fr"@, fr@), ("pt"@, pt@)]);
    }
    StringWithAlternates::Variants(tagged)
}

impl StringWithAlternates {
    /// The label "Authors".
    pub fn authors() -> (r: StringWithAlternates)
        ensures
            r@ == label("Autoren"@, "Authors"@, "Autoras"@, "Auteurs"@, "Autores"@),
    {
        make_label("Autoren", "Authors", "Autoras", "Auteurs", "Autores")
    }

    /// The label "Books (Alphabetical)".
    pub fn books_alphabetical() -> (r: StringWithAlternates)
        ensures
            r@ == label(
                "Bücher (Alphabetisch)"@,
                "Books (Alphabetical)"@,
                "Libros (Orden Alfabético)"@,
                "Livres (Par ordre alphabétique)"@,
                "Livros (Por ordem alfabética)"@,
            ),
    {
        make_label(
            "Bücher (Alphabetisch)",
            "Books (Alphabetical)",
            "Libros (Orden Alfabético)",
            "Livres (Par ordre alphabétique)",
            "Livros (Por ordem alfabética)",
        )
    }

    /// The label "Books (Recently Added)".
    pub fn books_recently_added() -> (r: StringWithAlternates)
        ensures
            r@ == label(
                "Bücher (Kürzlich hinzugefügt)"@,
                "Books (Recently Added)"@,
                "Libros (Añadidos recientemente)"@,
                "Livres (Ajouts récents)"@,
                "Livros (Adicionados Recentemente)"@,
            ),
    {
        make_label(
            "Bücher (Kürzlich hinzugefügt)",
            "Books (Recently Added)",
            "Libros (Añadidos recientemente)",
            "Livres (Ajouts récents)",
            "Livros (Adicionados Recentemente)",
        )
    }

    /// The label "Categories".
    pub fn categories() -> (r: StringWithAlternates)
        ensures
            r@ == label("Kategorien"@, "Categories"@, "Categorías"@, "Catégories"@, "Categorias"@),
    {
        make_label("Kategorien", "Categories", "Categorías", "Catégories", "Categorias")
    }

    /// The label "File Formats".
    pub fn file_formats() -> (r: StringWithAlternates)
        ensures
            r@ == label(
                "Dateiformate"@,
                "File Formats"@,
                "Formatos de archivos"@,
                "Formats de fichiers"@,
                "Formatos de Ficheiros"@,
            ),
    {
        make_label(
            "Dateiformate",
            "File Formats",
            "Formatos de archivos",
            "Formats de fichiers",
            "Formatos de Ficheiros",
        )
    }

    /// The label "Languages".
    pub fn languages() -> (r: StringWithAlternates)
        ensures
            r@ == label("Sprachen"@, "Languages"@, "Idiomas"@, "Langues"@, "Línguas"@),
    {
        make_label("Sprachen", "Languages", "Idiomas", "Langues", "Línguas")
    }

    /// The label "Publishers".
    pub fn publishers() -> (r: StringWithAlternates)
        ensures
            r@ == label("Verlag"@, "Publishers"@, "Editores"@, "Éditeurs"@, "Editores"@),
    {
        make_label("Verlag", "Publishers", "Editores", "Éditeurs", "Editores")
    }
}

} // verus!
