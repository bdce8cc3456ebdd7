//! The kinds of entity that nest in each other: series, seasons, volumes,
//! issues, story arcs and chapters.
use vstd::prelude::*;
use crate::error::{
    Fault, ParseError, flat_named_shapes, flat_numbered_shapes, mismatch, named_shapes,
    numbered_shapes, parsed,
};
use crate::helpers::{
    FlattenedVec, NumlikeObject, StringyObject, collapse, collapsed, get_natural, get_opt_natural,
    make_natural, make_opt_natural, read_natural, read_opt_natural, shapes2, shapes3,
    write_natural, write_opt_natural, wrong_shape,
};
use crate::v2_0::link::{
    Link, LinkView, copy_link_seq, get_link_list, lemma_link_list_round_trip,
    lemma_read_link_list_wf, link_seq_wf, link_views, make_link_list, read_link_list,
    write_link_list,
};
use crate::v2_0::metadata::containment::{
    Article, ArticleView, Episode, EpisodeView, article_seq_wf, article_views, copy_article_seq,
    copy_episode_seq, episode_seq_wf, episode_views, get_article_flat, get_episode_flat,
    lemma_article_flat_round_trip, lemma_episode_flat_round_trip, lemma_read_article_flat_wf,
    lemma_read_episode_flat_wf, make_article_flat, make_episode_flat, read_article_flat,
    read_episode_flat, write_article_flat, write_episode_flat,
};
use crate::v2_0::metadata::identifier::{
    Identifier, IdentifierView, copy_opt_identifier, get_opt_identifier,
    lemma_read_opt_identifier_wf, make_opt_identifier, opt_identifier, opt_identifier_wf,
    read_opt_identifier, write_opt_identifier,
};
use crate::v2_0::metadata::localized::{
    Localized, StringWithAlternates, localized_wf, opt_localized, opt_localized_wf,
};
use crate::v2_0::metadata::localized_fields::{
    copy_opt_localized, get_localized, get_opt_localized, lemma_localized_field_round_trip,
    lemma_opt_localized_round_trip, lemma_read_localized_wf, lemma_read_opt_localized_wf,
    make_localized, make_opt_localized, read_localized, read_opt_localized, write_localized,
    write_opt_localized,
};
use crate::v2_0::metadata::naming::{
    AltIdentifier, AltIdentifierView, alt_identifier_seq_wf, alt_identifier_views,
    copy_alt_identifier_seq, get_alt_identifier_flat, lemma_alt_identifier_flat_round_trip,
    lemma_read_alt_identifier_flat_wf, make_alt_identifier_flat, read_alt_identifier_flat,
    write_alt_identifier_flat,
};
use crate::v2_0::spelling::{
    spell_alt_identifier, spell_article, spell_chapter, spell_episode, spell_identifier,
    spell_issue, spell_links, spell_name, spell_position, spell_season, spell_series,
    spell_sort_as, spell_story_arc, spell_volume,
};
use crate::value::{
    Doc, MAX_DEPTH, Number, Shape, Value, depth, docs_of, index_of, lemma_index_of,
    lemma_lookup_after_put, lemma_lookup_empty, lemma_lookup_index, lookup, members_of, natural,
    natural_of, opt_doc, position, put, put_member, shape_of,
};
use vstd::std_specs::convert::FromSpecImpl;

verus! {

/// A season of a show.
#[derive(Debug, PartialEq, Eq)]
pub struct Season {
    /// The name.
    pub name: Option<StringWithAlternates>,
    /// The name in the form by which it is sorted.
    pub sort_as: Option<StringWithAlternates>,
    /// An identifier: a URL or a URN.
    pub identifier: Option<Identifier>,
    /// Alternates to the identifier.
    pub alt_identifier: Vec<AltIdentifier>,
    /// The position among its like.
    pub position: usize,
    /// Links that belong to it.
    pub links: Vec<Link>,
    pub article: Vec<Article>,
    pub chapter: Vec<Chapter>,
}

/// The mathematical model of a season.
pub struct SeasonView {
    pub name: Option<Localized>,
    pub sort_as: Option<Localized>,
    pub identifier: Option<IdentifierView>,
    pub alt_identifier: Seq<AltIdentifierView>,
    pub position: usize,
    pub links: Seq<LinkView>,
    pub article: Seq<ArticleView>,
    pub chapter: Seq<ChapterView>,
}

/// The model of a season.
pub open spec fn season_view(x: Season) -> SeasonView
    decreases x,
{
    SeasonView {
        name: opt_localized(x.name),
        sort_as: opt_localized(x.sort_as),
        identifier: opt_identifier(x.identifier),
        alt_identifier: alt_identifier_views(x.alt_identifier@),
        position: x.position,
        links: link_views(x.links@),
        article: article_views(x.article@),
        chapter: chapter_views(x.chapter@),
    }
}

impl View for Season {
    type V = SeasonView;

    open spec fn view(&self) -> SeasonView {
        season_view(*self)
    }
}

/// A season is well formed when everything it holds is.
pub open spec fn season_wf(x: SeasonView) -> bool
    decreases x,
{
    &&& opt_localized_wf(x.name)
    &&& opt_localized_wf(x.sort_as)
    &&& opt_identifier_wf(x.identifier)
    &&& alt_identifier_seq_wf(x.alt_identifier)
    &&& link_seq_wf(x.links)
    &&& article_seq_wf(x.article)
    &&& chapter_seq_wf(x.chapter)
}

/// The season made from its position, with nothing else in it.
pub open spec fn season_new(position: usize) -> SeasonView {
    SeasonView {
        name: None,
        sort_as: None,
        identifier: None,
        alt_identifier: Seq::empty(),
        position,
        links: Seq::empty(),
        article: Seq::empty(),
        chapter: Seq::empty(),
    }
}

/// The members that a season is written as: one for each field that holds
/// something, in the order of the fields.
pub open spec fn season_members(x: SeasonView) -> Seq<(Seq<char>, Doc)>
    decreases x, 1int,
{
    let m = Seq::<(Seq<char>, Doc)>::empty();
    let m = put(m, "name"@, write_opt_localized(x.name));
    let m = put(m, "sortAs"@, write_opt_localized(x.sort_as));
    let m = put(m, "identifier"@, write_opt_identifier(x.identifier));
    let m = put(m, "altIdentifier"@, write_alt_identifier_flat(x.alt_identifier));
    let m = put(m, "position"@, write_natural(x.position));
    let m = put(m, "links"@, write_link_list(x.links));
    let m = put(m, "article"@, write_article_flat(x.article));
    let m = put(m, "chapter"@, write_chapter_flat(x.chapter));
    m
}

/// The written form of a season: always the full object.
pub open spec fn encode_season(x: SeasonView) -> Doc
    decreases x, 2int,
{
    Doc::Object(season_members(x))
}

/// The season that the members of an object stand for, or the error of the
/// first field, in the order of the fields, that cannot be read.
pub open spec fn season_from_members(m: Seq<(Seq<char>, Doc)>) -> Result<SeasonView, Fault>
    decreases m, 1int,
{
    let name = read_opt_localized(m, "name"@);
    let sort_as = read_opt_localized(m, "sortAs"@);
    let identifier = read_opt_identifier(m, "identifier"@);
    let alt_identifier = read_alt_identifier_flat(m, "altIdentifier"@);
    let position = read_natural(m, "position"@);
    let links = read_link_list(m, "links"@);
    let article = read_article_flat(m, "article"@);
    let chapter = read_chapter_flat(m, "chapter"@);
    if name is Err {
        Err(name->Err_0)
    } else if sort_as is Err {
        Err(sort_as->Err_0)
    } else if identifier is Err {
        Err(identifier->Err_0)
    } else if alt_identifier is Err {
        Err(alt_identifier->Err_0)
    } else if position is Err {
        Err(position->Err_0)
    } else if links is Err {
        Err(links->Err_0)
    } else if article is Err {
        Err(article->Err_0)
    } else if chapter is Err {
        Err(chapter->Err_0)
    } else {
        Ok(SeasonView {
            name: name->Ok_0,
            sort_as: sort_as->Ok_0,
            identifier: identifier->Ok_0,
            alt_identifier: alt_identifier->Ok_0,
            position: position->Ok_0,
            links: links->Ok_0,
            article: article->Ok_0,
            chapter: chapter->Ok_0,
        })
    }
}

/// The season that a value stands for: an object, or the number that is its
/// position.
pub open spec fn decode_season(d: Doc, field: Seq<char>) -> Result<SeasonView, Fault>
    decreases d, 0int,
{
    match d {
        Doc::Object(m) => season_from_members(m),
        Doc::Number(n) => match natural_of(n) {
            Some(k) => Ok(season_new(k)),
            None => Err(mismatch(field, numbered_shapes(), shape_of(d))),
        },
        _ => Err(mismatch(field, numbered_shapes(), shape_of(d))),
    }
}

/// What reading a whole document as a season gives: an error where arrays and
/// objects nest more deeply than the ceiling.
pub open spec fn season_from_doc(d: Doc) -> Result<SeasonView, Fault> {
    if depth(d) > MAX_DEPTH {
        Err(Fault::RecursionLimitExceeded(MAX_DEPTH))
    } else {
        decode_season(d, ""@)
    }
}

impl Season {
    /// A season at that position, with nothing else in it.
    pub fn new(position: usize) -> (r: Season)
        ensures
            r@ == season_new(position),
            season_wf(r@),
    {
        let alt_identifier: Vec<AltIdentifier> = Vec::new();
        let links: Vec<Link> = Vec::new();
        let article: Vec<Article> = Vec::new();
        let chapter: Vec<Chapter> = Vec::new();
        proof {
            assert(alt_identifier_views(alt_identifier@) =~= Seq::<AltIdentifierView>::empty());
            assert(link_views(links@) =~= Seq::<LinkView>::empty());
            assert(article_views(article@) =~= Seq::<ArticleView>::empty());
            assert(chapter_views(chapter@) =~= Seq::<ChapterView>::empty());
        }
        Season {
            name: None,
            sort_as: None,
            identifier: None,
            alt_identifier,
            position,
            links,
            article,
            chapter,
        }
    }

    /// Reads a season from the members of an object.
    pub fn from_members(members: &Vec<(String, Value)>) -> (r: Result<Season, ParseError>)
        ensures
            parsed(r) == season_from_members(members_of(members@)),
            r matches Ok(x) ==> season_wf(x@),
        decreases members, 1int,
    {
        let name = match get_opt_localized(members, "name") {
            Ok(x) => x,
            Err(e) => {
                return Err(e);
            },
        };
        let sort_as = match get_opt_localized(members, "sortAs") {
            Ok(x) => x,
            Err(e) => {
                return Err(e);
            },
        };
        let identifier = match get_opt_identifier(members, "identifier") {
            Ok(x) => x,
            Err(e) => {
                return Err(e);
            },
        };
        let alt_identifier = match get_alt_identifier_flat(members, "altIdentifier") {
            Ok(x) => x,
            Err(e) => {
                return Err(e);
            },
        };
        let position = match get_natural(members, "position") {
            Ok(x) => x,
            Err(e) => {
                return Err(e);
            },
        };
        let links = match get_link_list(members, "links") {
            Ok(x) => x,
            Err(e) => {
                return Err(e);
            },
        };
        let article = match get_article_flat(members, "article") {
            Ok(x) => x,
            Err(e) => {
                return Err(e);
            },
        };
        let chapter = match get_chapter_flat(members, "chapter") {
            Ok(x) => x,
            Err(e) => {
                return Err(e);
            },
        };
        Ok(Season { name, sort_as, identifier, alt_identifier, position, links, article, chapter })
    }

    /// Reads a season from a value found under `field`.
    pub fn parse(v: &Value, field: &str) -> (r: Result<Season, ParseError>)
        ensures
            parsed(r) == decode_season(v@, field@),
            r matches Ok(x) ==> season_wf(x@),
        decreases v, 0int,
    {
        let given = match v {
            Value::Object(members) => {
                proof {
                    assert(decreases_to!(v => v->Object_0));
                }
                match Season::from_members(members) {
                    Ok(x) => NumlikeObject::Object(x),
                    Err(e) => {
                        return Err(e);
                    },
                }
            },
            Value::Number(n) => match natural(*n) {
                Some(k) => NumlikeObject::Number(k),
                None => {
                    return Err(wrong_shape(field, shapes2(Shape::Natural, Shape::Object), v));
                },
            },
            _ => {
                return Err(wrong_shape(field, shapes2(Shape::Natural, Shape::Object), v));
            },
        };
        Ok(given.into_inner())
    }

    /// Reads a whole document as a season. A document in which arrays and
    /// objects nest more deeply than [`MAX_DEPTH`] is refused before anything
    /// is read from it.
    pub fn from_value(v: &Value) -> (r: Result<Season, ParseError>)
        ensures
            parsed(r) == season_from_doc(v@),
            r matches Ok(x) ==> season_wf(x@),
    {
        if !v.within_depth(MAX_DEPTH) {
            return Err(ParseError::RecursionLimitExceeded(MAX_DEPTH));
        }
        Season::parse(v, "")
    }

    /// Writes the members of this season.
    pub fn to_members(&self) -> (members: Vec<(String, Value)>)
        ensures
            members_of(members@) == season_members(self@),
        decreases self, 1int,
    {
        let mut m: Vec<(String, Value)> = Vec::new();
        assert(members_of(m@) =~= Seq::<(Seq<char>, Doc)>::empty());
        put_member(&mut m, "name", make_opt_localized(&self.name));
        put_member(&mut m, "sortAs", make_opt_localized(&self.sort_as));
        put_member(&mut m, "identifier", make_opt_identifier(&self.identifier));
        put_member(&mut m, "altIdentifier", make_alt_identifier_flat(&self.alt_identifier));
        put_member(&mut m, "position", make_natural(self.position));
        put_member(&mut m, "links", make_link_list(&self.links));
        put_member(&mut m, "article", make_article_flat(&self.article));
        put_member(&mut m, "chapter", make_chapter_flat(&self.chapter));
        m
    }

    /// Writes this season as a value: always the full object.
    pub fn to_value(&self) -> (v: Value)
        ensures
            v@ == encode_season(self@),
        decreases self, 2int,
    {
        Value::Object(self.to_members())
    }
}

/// A copy of a season.
pub(crate) fn copy_season(x: &Season) -> (r: Season)
    ensures
        r@ == x@,
    decreases x, 1int,
{
    Season {
        name: copy_opt_localized(&x.name),
        sort_as: copy_opt_localized(&x.sort_as),
        identifier: copy_opt_identifier(&x.identifier),
        alt_identifier: copy_alt_identifier_seq(&x.alt_identifier),
        position: x.position,
        links: copy_link_seq(&x.links),
        article: copy_article_seq(&x.article),
        chapter: copy_chapter_seq(&x.chapter),
    }
}

impl Clone for Season {
    /// A copy that holds the same.
    fn clone(&self) -> (r: Season)
        ensures
            r@ == self@,
    {
        copy_season(self)
    }
}

impl FromSpecImpl<usize> for Season {
    open spec fn obeys_from_spec() -> bool {
        false
    }

    open spec fn from_spec(position: usize) -> Self {
        arbitrary()
    }
}

impl From<usize> for Season {
    /// The season that has the number as its position, and nothing else.
    fn from(position: usize) -> (r: Season)
        ensures
            r@ == season_new(position),
            season_wf(r@),
    {
        Season::new(position)
    }
}

/// In the written form of a season, each field's name leads to what that field
/// wrote.
pub proof fn lemma_season_members(x: SeasonView)
    ensures
        lookup(season_members(x), "name"@) == write_opt_localized(x.name),
        lookup(season_members(x), "sortAs"@) == write_opt_localized(x.sort_as),
        lookup(season_members(x), "identifier"@) == write_opt_identifier(x.identifier),
        lookup(season_members(x), "altIdentifier"@) == write_alt_identifier_flat(x.alt_identifier),
        lookup(season_members(x), "position"@) == write_natural(x.position),
        lookup(season_members(x), "links"@) == write_link_list(x.links),
        lookup(season_members(x), "article"@) == write_article_flat(x.article),
        lookup(season_members(x), "chapter"@) == write_chapter_flat(x.chapter),
{
    broadcast use {lemma_lookup_after_put, lemma_lookup_empty};
    spell_name();
    spell_sort_as();
    spell_identifier();
    spell_alt_identifier();
    spell_position();
    spell_links();
    spell_article();
    spell_chapter();
}

/// A season that is well formed, written and read again, is the same season.
pub proof fn lemma_season_round_trip(x: SeasonView, field: Seq<char>)
    requires
        season_wf(x),
    ensures
        decode_season(encode_season(x), field) == Ok::<SeasonView, Fault>(x),
    decreases x, 2int,
{
    lemma_season_members(x);
    let m = season_members(x);
    assert(read_opt_localized(m, "name"@) == Ok::<Option<Localized>, Fault>(x.name)) by {
        lemma_opt_localized_round_trip(x.name, m, "name"@);
    }
    assert(read_opt_localized(m, "sortAs"@) == Ok::<Option<Localized>, Fault>(x.sort_as)) by {
        lemma_opt_localized_round_trip(x.sort_as, m, "sortAs"@);
    }
    assert(read_opt_identifier(m, "identifier"@)
        == Ok::<Option<IdentifierView>, Fault>(x.identifier));
    assert(read_alt_identifier_flat(m, "altIdentifier"@)
        == Ok::<Seq<AltIdentifierView>, Fault>(x.alt_identifier)) by {
        lemma_alt_identifier_flat_round_trip(x.alt_identifier, m, "altIdentifier"@);
    }
    assert(read_natural(m, "position"@) == Ok::<usize, Fault>(x.position));
    assert(read_link_list(m, "links"@) == Ok::<Seq<LinkView>, Fault>(x.links)) by {
        lemma_link_list_round_trip(x.links, m, "links"@);
    }
    assert(read_article_flat(m, "article"@) == Ok::<Seq<ArticleView>, Fault>(x.article)) by {
        lemma_article_flat_round_trip(x.article, m, "article"@);
    }
    assert(read_chapter_flat(m, "chapter"@) == Ok::<Seq<ChapterView>, Fault>(x.chapter)) by {
        lemma_chapter_flat_round_trip(x.chapter, m, "chapter"@);
    }
}

/// What the members of an object give as a season is well formed.
pub proof fn lemma_season_from_members_wf(m: Seq<(Seq<char>, Doc)>)
    ensures
        season_from_members(m) matches Ok(x) ==> season_wf(x),
    decreases m, 1int,
{
    lemma_read_opt_localized_wf(m, "name"@);
    lemma_read_opt_localized_wf(m, "sortAs"@);
    lemma_read_opt_identifier_wf(m, "identifier"@);
    lemma_read_alt_identifier_flat_wf(m, "altIdentifier"@);
    lemma_read_link_list_wf(m, "links"@);
    lemma_read_article_flat_wf(m, "article"@);
    lemma_read_chapter_flat_wf(m, "chapter"@);
}

/// What is read as a season is well formed.
pub proof fn lemma_decode_season_wf(d: Doc, field: Seq<char>)
    ensures
        decode_season(d, field) matches Ok(x) ==> season_wf(x),
    decreases d, 0int,
{
    if let Doc::Object(m) = d {
        lemma_season_from_members_wf(m);
    }
}

/// A season that was read, in whatever spelling, is read again as the same
/// season from its written form.
pub proof fn lemma_season_reread(d: Doc, field: Seq<char>)
    ensures
        decode_season(d, field) matches Ok(x)
            ==> decode_season(encode_season(x), field) == Ok::<SeasonView, Fault>(x),
{
    lemma_decode_season_wf(d, field);
    if let Ok(x) = decode_season(d, field) {
        lemma_season_round_trip(x, field);
    }
}

/// A season that is well formed and whose written form nests no more deeply
/// than the ceiling is read back whole from that form.
pub proof fn lemma_season_doc_round_trip(x: SeasonView)
    requires
        season_wf(x),
        depth(encode_season(x)) <= MAX_DEPTH,
    ensures
        season_from_doc(encode_season(x)) == Ok::<SeasonView, Fault>(x),
{
    lemma_season_round_trip(x, ""@);
}

/// A story arc.
#[derive(Debug, PartialEq, Eq)]
pub struct StoryArc {
    /// The name.
    pub name: Option<StringWithAlternates>,
    /// The name in the form by which it is sorted.
    pub sort_as: Option<StringWithAlternates>,
    /// An identifier: a URL or a URN.
    pub identifier: Option<Identifier>,
    /// Alternates to the identifier.
    pub alt_identifier: Vec<AltIdentifier>,
    /// The position among its like.
    pub position: usize,
    /// Links that belong to it.
    pub links: Vec<Link>,
    pub chapter: Vec<Chapter>,
    pub issue: Vec<Issue>,
    pub episode: Vec<Episode>,
}

/// The mathematical model of a story arc.
pub struct StoryArcView {
    pub name: Option<Localized>,
    pub sort_as: Option<Localized>,
    pub identifier: Option<IdentifierView>,
    pub alt_identifier: Seq<AltIdentifierView>,
    pub position: usize,
    pub links: Seq<LinkView>,
    pub chapter: Seq<ChapterView>,
    pub issue: Seq<IssueView>,
    pub episode: Seq<EpisodeView>,
}

/// The model of a story arc.
pub open spec fn story_arc_view(x: StoryArc) -> StoryArcView
    decreases x,
{
    StoryArcView {
        name: opt_localized(x.name),
        sort_as: opt_localized(x.sort_as),
        identifier: opt_identifier(x.identifier),
        alt_identifier: alt_identifier_views(x.alt_identifier@),
        position: x.position,
        links: link_views(x.links@),
        chapter: chapter_views(x.chapter@),
        issue: issue_views(x.issue@),
        episode: episode_views(x.episode@),
    }
}

impl View for StoryArc {
    type V = StoryArcView;

    open spec fn view(&self) -> StoryArcView {
        story_arc_view(*self)
    }
}

/// A story arc is well formed when everything it holds is.
pub open spec fn story_arc_wf(x: StoryArcView) -> bool
    decreases x,
{
    &&& opt_localized_wf(x.name)
    &&& opt_localized_wf(x.sort_as)
    &&& opt_identifier_wf(x.identifier)
    &&& alt_identifier_seq_wf(x.alt_identifier)
    &&& link_seq_wf(x.links)
    &&& chapter_seq_wf(x.chapter)
    &&& issue_seq_wf(x.issue)
    &&& episode_seq_wf(x.episode)
}

/// The story arc made from its position, with nothing else in it.
pub open spec fn story_arc_new(position: usize) -> StoryArcView {
    StoryArcView {
        name: None,
        sort_as: None,
        identifier: None,
        alt_identifier: Seq::empty(),
        position,
        links: Seq::empty(),
        chapter: Seq::empty(),
        issue: Seq::empty(),
        episode: Seq::empty(),
    }
}

/// The members that a story arc is written as: one for each field that holds
/// something, in the order of the fields.
pub open spec fn story_arc_members(x: StoryArcView) -> Seq<(Seq<char>, Doc)>
    decreases x, 1int,
{
    let m = Seq::<(Seq<char>, Doc)>::empty();
    let m = put(m, "name"@, write_opt_localized(x.name));
    let m = put(m, "sortAs"@, write_opt_localized(x.sort_as));
    let m = put(m, "identifier"@, write_opt_identifier(x.identifier));
    let m = put(m, "altIdentifier"@, write_alt_identifier_flat(x.alt_identifier));
    let m = put(m, "position"@, write_natural(x.position));
    let m = put(m, "links"@, write_link_list(x.links));
    let m = put(m, "chapter"@, write_chapter_flat(x.chapter));
    let m = put(m, "issue"@, write_issue_flat(x.issue));
    let m = put(m, "episode"@, write_episode_flat(x.episode));
    m
}

/// The written form of a story arc: always the full object.
pub open spec fn encode_story_arc(x: StoryArcView) -> Doc
    decreases x, 2int,
{
    Doc::Object(story_arc_members(x))
}

/// The story arc that the members of an object stand for, or the error of the
/// first field, in the order of the fields, that cannot be read.
pub open spec fn story_arc_from_members(m: Seq<(Seq<char>, Doc)>) -> Result<StoryArcView, Fault>
    decreases m, 1int,
{
    let name = read_opt_localized(m, "name"@);
    let sort_as = read_opt_localized(m, "sortAs"@);
    let identifier = read_opt_identifier(m, "identifier"@);
    let alt_identifier = read_alt_identifier_flat(m, "altIdentifier"@);
    let position = read_natural(m, "position"@);
    let links = read_link_list(m, "links"@);
    let chapter = read_chapter_flat(m, "chapter"@);
    let issue = read_issue_flat(m, "issue"@);
    let episode = read_episode_flat(m, "episode"@);
    if name is Err {
        Err(name->Err_0)
    } else if sort_as is Err {
        Err(sort_as->Err_0)
    } else if identifier is Err {
        Err(identifier->Err_0)
    } else if alt_identifier is Err {
        Err(alt_identifier->Err_0)
    } else if position is Err {
        Err(position->Err_0)
    } else if links is Err {
        Err(links->Err_0)
    } else if chapter is Err {
        Err(chapter->Err_0)
    } else if issue is Err {
        Err(issue->Err_0)
    } else if episode is Err {
        Err(episode->Err_0)
    } else {
        Ok(StoryArcView {
            name: name->Ok_0,
            sort_as: sort_as->Ok_0,
            identifier: identifier->Ok_0,
            alt_identifier: alt_identifier->Ok_0,
            position: position->Ok_0,
            links: links->Ok_0,
            chapter: chapter->Ok_0,
            issue: issue->Ok_0,
            episode: episode->Ok_0,
        })
    }
}

/// The story arc that a value stands for: an object, or the number that is its
/// position.
pub open spec fn decode_story_arc(d: Doc, field: Seq<char>) -> Result<StoryArcView, Fault>
    decreases d, 0int,
{
    match d {
        Doc::Object(m) => story_arc_from_members(m),
        Doc::Number(n) => match natural_of(n) {
            Some(k) => Ok(story_arc_new(k)),
            None => Err(mismatch(field, numbered_shapes(), shape_of(d))),
        },
        _ => Err(mismatch(field, numbered_shapes(), shape_of(d))),
    }
}

/// What reading a whole document as a story arc gives: an error where arrays
/// and objects nest more deeply than the ceiling.
pub open spec fn story_arc_from_doc(d: Doc) -> Result<StoryArcView, Fault> {
    if depth(d) > MAX_DEPTH {
        Err(Fault::RecursionLimitExceeded(MAX_DEPTH))
    } else {
        decode_story_arc(d, ""@)
    }
}

impl StoryArc {
    /// A story arc at that position, with nothing else in it.
    pub fn new(position: usize) -> (r: StoryArc)
        ensures
            r@ == story_arc_new(position),
            story_arc_wf(r@),
    {
        let alt_identifier: Vec<AltIdentifier> = Vec::new();
        let links: Vec<Link> = Vec::new();
        let chapter: Vec<Chapter> = Vec::new();
        let issue: Vec<Issue> = Vec::new();
        let episode: Vec<Episode> = Vec::new();
        proof {
            assert(alt_identifier_views(alt_identifier@) =~= Seq::<AltIdentifierView>::empty());
            assert(link_views(links@) =~= Seq::<LinkView>::empty());
            assert(chapter_views(chapter@) =~= Seq::<ChapterView>::empty());
            assert(issue_views(issue@) =~= Seq::<IssueView>::empty());
            assert(episode_views(episode@) =~= Seq::<EpisodeView>::empty());
        }
        StoryArc {
            name: None,
            sort_as: None,
            identifier: None,
            alt_identifier,
            position,
            links,
            chapter,
            issue,
            episode,
        }
    }

    /// Reads a story arc from the members of an object.
    pub fn from_members(members: &Vec<(String, Value)>) -> (r: Result<StoryArc, ParseError>)
        ensures
            parsed(r) == story_arc_from_members(members_of(members@)),
            r matches Ok(x) ==> story_arc_wf(x@),
        decreases members, 1int,
    {
        let name = match get_opt_localized(members, "name") {
            Ok(x) => x,
            Err(e) => {
                return Err(e);
            },
        };
        let sort_as = match get_opt_localized(members, "sortAs") {
            Ok(x) => x,
            Err(e) => {
                return Err(e);
            },
        };
        let identifier = match get_opt_identifier(members, "identifier") {
            Ok(x) => x,
            Err(e) => {
                return Err(e);
            },
        };
        let alt_identifier = match get_alt_identifier_flat(members, "altIdentifier") {
            Ok(x) => x,
            Err(e) => {
                return Err(e);
            },
        };
        let position = match get_natural(members, "position") {
            Ok(x) => x,
            Err(e) => {
                return Err(e);
            },
        };
        let links = match get_link_list(members, "links") {
            Ok(x) => x,
            Err(e) => {
                return Err(e);
            },
        };
        let chapter = match get_chapter_flat(members, "chapter") {
            Ok(x) => x,
            Err(e) => {
                return Err(e);
            },
        };
        let issue = match get_issue_flat(members, "issue") {
            Ok(x) => x,
            Err(e) => {
                return Err(e);
            },
        };
        let episode = match get_episode_flat(members, "episode") {
            Ok(x) => x,
            Err(e) => {
                return Err(e);
            },
        };
        Ok(StoryArc {
            name,
            sort_as,
            identifier,
            alt_identifier,
            position,
            links,
            chapter,
            issue,
            episode,
        })
    }

    /// Reads a story arc from a value found under `field`.
    pub fn parse(v: &Value, field: &str) -> (r: Result<StoryArc, ParseError>)
        ensures
            parsed(r) == decode_story_arc(v@, field@),
            r matches Ok(x) ==> story_arc_wf(x@),
        decreases v, 0int,
    {
        let given = match v {
            Value::Object(members) => {
                proof {
                    assert(decreases_to!(v => v->Object_0));
                }
                match StoryArc::from_members(members) {
                    Ok(x) => NumlikeObject::Object(x),
                    Err(e) => {
                        return Err(e);
                    },
                }
            },
            Value::Number(n) => match natural(*n) {
                Some(k) => NumlikeObject::Number(k),
                None => {
                    return Err(wrong_shape(field, shapes2(Shape::Natural, Shape::Object), v));
                },
            },
            _ => {
                return Err(wrong_shape(field, shapes2(Shape::Natural, Shape::Object), v));
            },
        };
        Ok(given.into_inner())
    }

    /// Reads a whole document as a story arc. A document in which arrays and
    /// objects nest more deeply than [`MAX_DEPTH`] is refused before anything
    /// is read from it.
    pub fn from_value(v: &Value) -> (r: Result<StoryArc, ParseError>)
        ensures
            parsed(r) == story_arc_from_doc(v@),
            r matches Ok(x) ==> story_arc_wf(x@),
    {
        if !v.within_depth(MAX_DEPTH) {
            return Err(ParseError::RecursionLimitExceeded(MAX_DEPTH));
        }
        StoryArc::parse(v, "")
    }

    /// Writes the members of this story arc.
    pub fn to_members(&self) -> (members: Vec<(String, Value)>)
        ensures
            members_of(members@) == story_arc_members(self@),
        decreases self, 1int,
    {
        let mut m: Vec<(String, Value)> = Vec::new();
        assert(members_of(m@) =~= Seq::<(Seq<char>, Doc)>::empty());
        put_member(&mut m, "name", make_opt_localized(&self.name));
        put_member(&mut m, "sortAs", make_opt_localized(&self.sort_as));
        put_member(&mut m, "identifier", make_opt_identifier(&self.identifier));
        put_member(&mut m, "altIdentifier", make_alt_identifier_flat(&self.alt_identifier));
        put_member(&mut m, "position", make_natural(self.position));
        put_member(&mut m, "links", make_link_list(&self.links));
        put_member(&mut m, "chapter", make_chapter_flat(&self.chapter));
        put_member(&mut m, "issue", make_issue_flat(&self.issue));
        put_member(&mut m, "episode", make_episode_flat(&self.episode));
        m
    }

    /// Writes this story arc as a value: always the full object.
    pub fn to_value(&self) -> (v: Value)
        ensures
            v@ == encode_story_arc(self@),
        decreases self, 2int,
    {
        Value::Object(self.to_members())
    }
}

/// A copy of a story arc.
pub(crate) fn copy_story_arc(x: &StoryArc) -> (r: StoryArc)
    ensures
        r@ == x@,
    decreases x, 1int,
{
    StoryArc {
        name: copy_opt_localized(&x.name),
        sort_as: copy_opt_localized(&x.sort_as),
        identifier: copy_opt_identifier(&x.identifier),
        alt_identifier: copy_alt_identifier_seq(&x.alt_identifier),
        position: x.position,
        links: copy_link_seq(&x.links),
        chapter: copy_chapter_seq(&x.chapter),
        issue: copy_issue_seq(&x.issue),
        episode: copy_episode_seq(&x.episode),
    }
}

impl Clone for StoryArc {
    /// A copy that holds the same.
    fn clone(&self) -> (r: StoryArc)
        ensures
            r@ == self@,
    {
        copy_story_arc(self)
    }
}

impl FromSpecImpl<usize> for StoryArc {
    open spec fn obeys_from_spec() -> bool {
        false
    }

    open spec fn from_spec(position: usize) -> Self {
        arbitrary()
    }
}

impl From<usize> for StoryArc {
    /// The story arc that has the number as its position, and nothing else.
    fn from(position: usize) -> (r: StoryArc)
        ensures
            r@ == story_arc_new(position),
            story_arc_wf(r@),
    {
        StoryArc::new(position)
    }
}

/// In the written form of a story arc, each field's name leads to what that
/// field wrote.
pub proof fn lemma_story_arc_members(x: StoryArcView)
    ensures
        lookup(story_arc_members(x), "name"@) == write_opt_localized(x.name),
        lookup(story_arc_members(x), "sortAs"@) == write_opt_localized(x.sort_as),
        lookup(story_arc_members(x), "identifier"@) == write_opt_identifier(x.identifier),
        lookup(story_arc_members(x), "altIdentifier"@)
            == write_alt_identifier_flat(x.alt_identifier),
        lookup(story_arc_members(x), "position"@) == write_natural(x.position),
        lookup(story_arc_members(x), "links"@) == write_link_list(x.links),
        lookup(story_arc_members(x), "chapter"@) == write_chapter_flat(x.chapter),
        lookup(story_arc_members(x), "issue"@) == write_issue_flat(x.issue),
        lookup(story_arc_members(x), "episode"@) == write_episode_flat(x.episode),
{
    broadcast use {lemma_lookup_after_put, lemma_lookup_empty};
    spell_name();
    spell_sort_as();
    spell_identifier();
    spell_alt_identifier();
    spell_position();
    spell_links();
    spell_chapter();
    spell_issue();
    spell_episode();
}

/// A story arc that is well formed, written and read again, is the same story
/// arc.
pub proof fn lemma_story_arc_round_trip(x: StoryArcView, field: Seq<char>)
    requires
        story_arc_wf(x),
    ensures
        decode_story_arc(encode_story_arc(x), field) == Ok::<StoryArcView, Fault>(x),
    decreases x, 2int,
{
    lemma_story_arc_members(x);
    let m = story_arc_members(x);
    assert(read_opt_localized(m, "name"@) == Ok::<Option<Localized>, Fault>(x.name)) by {
        lemma_opt_localized_round_trip(x.name, m, "name"@);
    }
    assert(read_opt_localized(m, "sortAs"@) == Ok::<Option<Localized>, Fault>(x.sort_as)) by {
        lemma_opt_localized_round_trip(x.sort_as, m, "sortAs"@);
    }
    assert(read_opt_identifier(m, "identifier"@)
        == Ok::<Option<IdentifierView>, Fault>(x.identifier));
    assert(read_alt_identifier_flat(m, "altIdentifier"@)
        == Ok::<Seq<AltIdentifierView>, Fault>(x.alt_identifier)) by {
        lemma_alt_identifier_flat_round_trip(x.alt_identifier, m, "altIdentifier"@);
    }
    assert(read_natural(m, "position"@) == Ok::<usize, Fault>(x.position));
    assert(read_link_list(m, "links"@) == Ok::<Seq<LinkView>, Fault>(x.links)) by {
        lemma_link_list_round_trip(x.links, m, "links"@);
    }
    assert(read_chapter_flat(m, "chapter"@) == Ok::<Seq<ChapterView>, Fault>(x.chapter)) by {
        lemma_chapter_flat_round_trip(x.chapter, m, "chapter"@);
    }
    assert(read_issue_flat(m, "issue"@) == Ok::<Seq<IssueView>, Fault>(x.issue)) by {
        lemma_issue_flat_round_trip(x.issue, m, "issue"@);
    }
    assert(read_episode_flat(m, "episode"@) == Ok::<Seq<EpisodeView>, Fault>(x.episode)) by {
        lemma_episode_flat_round_trip(x.episode, m, "episode"@);
    }
}

/// What the members of an object give as a story arc is well formed.
pub proof fn lemma_story_arc_from_members_wf(m: Seq<(Seq<char>, Doc)>)
    ensures
        story_arc_from_members(m) matches Ok(x) ==> story_arc_wf(x),
    decreases m, 1int,
{
    lemma_read_opt_localized_wf(m, "name"@);
    lemma_read_opt_localized_wf(m, "sortAs"@);
    lemma_read_opt_identifier_wf(m, "identifier"@);
    lemma_read_alt_identifier_flat_wf(m, "altIdentifier"@);
    lemma_read_link_list_wf(m, "links"@);
    lemma_read_chapter_flat_wf(m, "chapter"@);
    lemma_read_issue_flat_wf(m, "issue"@);
    lemma_read_episode_flat_wf(m, "episode"@);
}

/// What is read as a story arc is well formed.
pub proof fn lemma_decode_story_arc_wf(d: Doc, field: Seq<char>)
    ensures
        decode_story_arc(d, field) matches Ok(x) ==> story_arc_wf(x),
    decreases d, 0int,
{
    if let Doc::Object(m) = d {
        lemma_story_arc_from_members_wf(m);
    }
}

/// A story arc that was read, in whatever spelling, is read again as the same
/// story arc from its written form.
pub proof fn lemma_story_arc_reread(d: Doc, field: Seq<char>)
    ensures
        decode_story_arc(d, field) matches Ok(x)
            ==> decode_story_arc(encode_story_arc(x), field) == Ok::<StoryArcView, Fault>(x),
{
    lemma_decode_story_arc_wf(d, field);
    if let Ok(x) = decode_story_arc(d, field) {
        lemma_story_arc_round_trip(x, field);
    }
}

/// A story arc that is well formed and whose written form nests no more deeply
/// than the ceiling is read back whole from that form.
pub proof fn lemma_story_arc_doc_round_trip(x: StoryArcView)
    requires
        story_arc_wf(x),
        depth(encode_story_arc(x)) <= MAX_DEPTH,
    ensures
        story_arc_from_doc(encode_story_arc(x)) == Ok::<StoryArcView, Fault>(x),
{
    lemma_story_arc_round_trip(x, ""@);
}

/// An issue number of a magazine or other periodical.
#[derive(Debug, PartialEq, Eq)]
pub struct Issue {
    /// The name.
    pub name: Option<StringWithAlternates>,
    /// The name in the form by which it is sorted.
    pub sort_as: Option<StringWithAlternates>,
    /// An identifier: a URL or a URN.
    pub identifier: Option<Identifier>,
    /// Alternates to the identifier.
    pub alt_identifier: Vec<AltIdentifier>,
    /// The position among its like.
    pub position: usize,
    /// Links that belong to it.
    pub links: Vec<Link>,
    pub article: Vec<Article>,
    pub chapter: Vec<Chapter>,
}

/// The mathematical model of an issue.
pub struct IssueView {
    pub name: Option<Localized>,
    pub sort_as: Option<Localized>,
    pub identifier: Option<IdentifierView>,
    pub alt_identifier: Seq<AltIdentifierView>,
    pub position: usize,
    pub links: Seq<LinkView>,
    pub article: Seq<ArticleView>,
    pub chapter: Seq<ChapterView>,
}

/// The model of an issue.
pub open spec fn issue_view(x: Issue) -> IssueView
    decreases x,
{
    IssueView {
        name: opt_localized(x.name),
        sort_as: opt_localized(x.sort_as),
        identifier: opt_identifier(x.identifier),
        alt_identifier: alt_identifier_views(x.alt_identifier@),
        position: x.position,
        links: link_views(x.links@),
        article: article_views(x.article@),
        chapter: chapter_views(x.chapter@),
    }
}

impl View for Issue {
    type V = IssueView;

    open spec fn view(&self) -> IssueView {
        issue_view(*self)
    }
}

/// An issue is well formed when everything it holds is.
pub open spec fn issue_wf(x: IssueView) -> bool
    decreases x,
{
    &&& opt_localized_wf(x.name)
    &&& opt_localized_wf(x.sort_as)
    &&& opt_identifier_wf(x.identifier)
    &&& alt_identifier_seq_wf(x.alt_identifier)
    &&& link_seq_wf(x.links)
    &&& article_seq_wf(x.article)
    &&& chapter_seq_wf(x.chapter)
}

/// The issue made from its position, with nothing else in it.
pub open spec fn issue_new(position: usize) -> IssueView {
    IssueView {
        name: None,
        sort_as: None,
        identifier: None,
        alt_identifier: Seq::empty(),
        position,
        links: Seq::empty(),
        article: Seq::empty(),
        chapter: Seq::empty(),
    }
}

/// The members that an issue is written as: one for each field that holds
/// something, in the order of the fields.
pub open spec fn issue_members(x: IssueView) -> Seq<(Seq<char>, Doc)>
    decreases x, 1int,
{
    let m = Seq::<(Seq<char>, Doc)>::empty();
    let m = put(m, "name"@, write_opt_localized(x.name));
    let m = put(m, "sortAs"@, write_opt_localized(x.sort_as));
    let m = put(m, "identifier"@, write_opt_identifier(x.identifier));
    let m = put(m, "altIdentifier"@, write_alt_identifier_flat(x.alt_identifier));
    let m = put(m, "position"@, write_natural(x.position));
    let m = put(m, "links"@, write_link_list(x.links));
    let m = put(m, "article"@, write_article_flat(x.article));
    let m = put(m, "chapter"@, write_chapter_flat(x.chapter));
    m
}

/// The written form of an issue: always the full object.
pub open spec fn encode_issue(x: IssueView) -> Doc
    decreases x, 2int,
{
    Doc::Object(issue_members(x))
}

/// The issue that the members of an object stand for, or the error of the first
/// field, in the order of the fields, that cannot be read.
pub open spec fn issue_from_members(m: Seq<(Seq<char>, Doc)>) -> Result<IssueView, Fault>
    decreases m, 1int,
{
    let name = read_opt_localized(m, "name"@);
    let sort_as = read_opt_localized(m, "sortAs"@);
    let identifier = read_opt_identifier(m, "identifier"@);
    let alt_identifier = read_alt_identifier_flat(m, "altIdentifier"@);
    let position = read_natural(m, "position"@);
    let links = read_link_list(m, "links"@);
    let article = read_article_flat(m, "article"@);
    let chapter = read_chapter_flat(m, "chapter"@);
    if name is Err {
        Err(name->Err_0)
    } else if sort_as is Err {
        Err(sort_as->Err_0)
    } else if identifier is Err {
        Err(identifier->Err_0)
    } else if alt_identifier is Err {
        Err(alt_identifier->Err_0)
    } else if position is Err {
        Err(position->Err_0)
    } else if links is Err {
        Err(links->Err_0)
    } else if article is Err {
        Err(article->Err_0)
    } else if chapter is Err {
        Err(chapter->Err_0)
    } else {
        Ok(IssueView {
            name: name->Ok_0,
            sort_as: sort_as->Ok_0,
            identifier: identifier->Ok_0,
            alt_identifier: alt_identifier->Ok_0,
            position: position->Ok_0,
            links: links->Ok_0,
            article: article->Ok_0,
            chapter: chapter->Ok_0,
        })
    }
}

/// The issue that a value stands for: an object, or the number that is its
/// position.
pub open spec fn decode_issue(d: Doc, field: Seq<char>) -> Result<IssueView, Fault>
    decreases d, 0int,
{
    match d {
        Doc::Object(m) => issue_from_members(m),
        Doc::Number(n) => match natural_of(n) {
            Some(k) => Ok(issue_new(k)),
            None => Err(mismatch(field, numbered_shapes(), shape_of(d))),
        },
        _ => Err(mismatch(field, numbered_shapes(), shape_of(d))),
    }
}

/// What reading a whole document as an issue gives: an error where arrays and
/// objects nest more deeply than the ceiling.
pub open spec fn issue_from_doc(d: Doc) -> Result<IssueView, Fault> {
    if depth(d) > MAX_DEPTH {
        Err(Fault::RecursionLimitExceeded(MAX_DEPTH))
    } else {
        decode_issue(d, ""@)
    }
}

impl Issue {
    /// An issue at that position, with nothing else in it.
    pub fn new(position: usize) -> (r: Issue)
        ensures
            r@ == issue_new(position),
            issue_wf(r@),
    {
        let alt_identifier: Vec<AltIdentifier> = Vec::new();
        let links: Vec<Link> = Vec::new();
        let article: Vec<Article> = Vec::new();
        let chapter: Vec<Chapter> = Vec::new();
        proof {
            assert(alt_identifier_views(alt_identifier@) =~= Seq::<AltIdentifierView>::empty());
            assert(link_views(links@) =~= Seq::<LinkView>::empty());
            assert(article_views(article@) =~= Seq::<ArticleView>::empty());
            assert(chapter_views(chapter@) =~= Seq::<ChapterView>::empty());
        }
        Issue {
            name: None,
            sort_as: None,
            identifier: None,
            alt_identifier,
            position,
            links,
            article,
            chapter,
        }
    }

    /// Reads an issue from the members of an object.
    pub fn from_members(members: &Vec<(String, Value)>) -> (r: Result<Issue, ParseError>)
        ensures
            parsed(r) == issue_from_members(members_of(members@)),
            r matches Ok(x) ==> issue_wf(x@),
        decreases members, 1int,
    {
        let name = match get_opt_localized(members, "name") {
            Ok(x) => x,
            Err(e) => {
                return Err(e);
            },
        };
        let sort_as = match get_opt_localized(members, "sortAs") {
            Ok(x) => x,
            Err(e) => {
                return Err(e);
            },
        };
        let identifier = match get_opt_identifier(members, "identifier") {
            Ok(x) => x,
            Err(e) => {
                return Err(e);
            },
        };
        let alt_identifier = match get_alt_identifier_flat(members, "altIdentifier") {
            Ok(x) => x,
            Err(e) => {
                return Err(e);
            },
        };
        let position = match get_natural(members, "position") {
            Ok(x) => x,
            Err(e) => {
                return Err(e);
            },
        };
        let links = match get_link_list(members, "links") {
            Ok(x) => x,
            Err(e) => {
                return Err(e);
            },
        };
        let article = match get_article_flat(members, "article") {
            Ok(x) => x,
            Err(e) => {
                return Err(e);
            },
        };
        let chapter = match get_chapter_flat(members, "chapter") {
            Ok(x) => x,
            Err(e) => {
                return Err(e);
            },
        };
        Ok(Issue { name, sort_as, identifier, alt_identifier, position, links, article, chapter })
    }

    /// Reads an issue from a value found under `field`.
    pub fn parse(v: &Value, field: &str) -> (r: Result<Issue, ParseError>)
        ensures
            parsed(r) == decode_issue(v@, field@),
            r matches Ok(x) ==> issue_wf(x@),
        decreases v, 0int,
    {
        let given = match v {
            Value::Object(members) => {
                proof {
                    assert(decreases_to!(v => v->Object_0));
                }
                match Issue::from_members(members) {
                    Ok(x) => NumlikeObject::Object(x),
                    Err(e) => {
                        return Err(e);
                    },
                }
            },
            Value::Number(n) => match natural(*n) {
                Some(k) => NumlikeObject::Number(k),
                None => {
                    return Err(wrong_shape(field, shapes2(Shape::Natural, Shape::Object), v));
                },
            },
            _ => {
                return Err(wrong_shape(field, shapes2(Shape::Natural, Shape::Object), v));
            },
        };
        Ok(given.into_inner())
    }

    /// Reads a whole document as an issue. A document in which arrays and
    /// objects nest more deeply than [`MAX_DEPTH`] is refused before anything
    /// is read from it.
    pub fn from_value(v: &Value) -> (r: Result<Issue, ParseError>)
        ensures
            parsed(r) == issue_from_doc(v@),
            r matches Ok(x) ==> issue_wf(x@),
    {
        if !v.within_depth(MAX_DEPTH) {
            return Err(ParseError::RecursionLimitExceeded(MAX_DEPTH));
        }
        Issue::parse(v, "")
    }

    /// Writes the members of this issue.
    pub fn to_members(&self) -> (members: Vec<(String, Value)>)
        ensures
            members_of(members@) == issue_members(self@),
        decreases self, 1int,
    {
        let mut m: Vec<(String, Value)> = Vec::new();
        assert(members_of(m@) =~= Seq::<(Seq<char>, Doc)>::empty());
        put_member(&mut m, "name", make_opt_localized(&self.name));
        put_member(&mut m, "sortAs", make_opt_localized(&self.sort_as));
        put_member(&mut m, "identifier", make_opt_identifier(&self.identifier));
        put_member(&mut m, "altIdentifier", make_alt_identifier_flat(&self.alt_identifier));
        put_member(&mut m, "position", make_natural(self.position));
        put_member(&mut m, "links", make_link_list(&self.links));
        put_member(&mut m, "article", make_article_flat(&self.article));
        put_member(&mut m, "chapter", make_chapter_flat(&self.chapter));
        m
    }

    /// Writes this issue as a value: always the full object.
    pub fn to_value(&self) -> (v: Value)
        ensures
            v@ == encode_issue(self@),
        decreases self, 2int,
    {
        Value::Object(self.to_members())
    }
}

/// A copy of an issue.
pub(crate) fn copy_issue(x: &Issue) -> (r: Issue)
    ensures
        r@ == x@,
    decreases x, 1int,
{
    Issue {
        name: copy_opt_localized(&x.name),
        sort_as: copy_opt_localized(&x.sort_as),
        identifier: copy_opt_identifier(&x.identifier),
        alt_identifier: copy_alt_identifier_seq(&x.alt_identifier),
        position: x.position,
        links: copy_link_seq(&x.links),
        article: copy_article_seq(&x.article),
        chapter: copy_chapter_seq(&x.chapter),
    }
}

impl Clone for Issue {
    /// A copy that holds the same.
    fn clone(&self) -> (r: Issue)
        ensures
            r@ == self@,
    {
        copy_issue(self)
    }
}

impl FromSpecImpl<usize> for Issue {
    open spec fn obeys_from_spec() -> bool {
        false
    }

    open spec fn from_spec(position: usize) -> Self {
        arbitrary()
    }
}

impl From<usize> for Issue {
    /// The issue that has the number as its position, and nothing else.
    fn from(position: usize) -> (r: Issue)
        ensures
            r@ == issue_new(position),
            issue_wf(r@),
    {
        Issue::new(position)
    }
}

/// In the written form of an issue, each field's name leads to what that field
/// wrote.
pub proof fn lemma_issue_members(x: IssueView)
    ensures
        lookup(issue_members(x), "name"@) == write_opt_localized(x.name),
        lookup(issue_members(x), "sortAs"@) == write_opt_localized(x.sort_as),
        lookup(issue_members(x), "identifier"@) == write_opt_identifier(x.identifier),
        lookup(issue_members(x), "altIdentifier"@) == write_alt_identifier_flat(x.alt_identifier),
        lookup(issue_members(x), "position"@) == write_natural(x.position),
        lookup(issue_members(x), "links"@) == write_link_list(x.links),
        lookup(issue_members(x), "article"@) == write_article_flat(x.article),
        lookup(issue_members(x), "chapter"@) == write_chapter_flat(x.chapter),
{
    broadcast use {lemma_lookup_after_put, lemma_lookup_empty};
    spell_name();
    spell_sort_as();
    spell_identifier();
    spell_alt_identifier();
    spell_position();
    spell_links();
    spell_article();
    spell_chapter();
}

/// An issue that is well formed, written and read again, is the same issue.
pub proof fn lemma_issue_round_trip(x: IssueView, field: Seq<char>)
    requires
        issue_wf(x),
    ensures
        decode_issue(encode_issue(x), field) == Ok::<IssueView, Fault>(x),
    decreases x, 2int,
{
    lemma_issue_members(x);
    let m = issue_members(x);
    assert(read_opt_localized(m, "name"@) == Ok::<Option<Localized>, Fault>(x.name)) by {
        lemma_opt_localized_round_trip(x.name, m, "name"@);
    }
    assert(read_opt_localized(m, "sortAs"@) == Ok::<Option<Localized>, Fault>(x.sort_as)) by {
        lemma_opt_localized_round_trip(x.sort_as, m, "sortAs"@);
    }
    assert(read_opt_identifier(m, "identifier"@)
        == Ok::<Option<IdentifierView>, Fault>(x.identifier));
    assert(read_alt_identifier_flat(m, "altIdentifier"@)
        == Ok::<Seq<AltIdentifierView>, Fault>(x.alt_identifier)) by {
        lemma_alt_identifier_flat_round_trip(x.alt_identifier, m, "altIdentifier"@);
    }
    assert(read_natural(m, "position"@) == Ok::<usize, Fault>(x.position));
    assert(read_link_list(m, "links"@) == Ok::<Seq<LinkView>, Fault>(x.links)) by {
        lemma_link_list_round_trip(x.links, m, "links"@);
    }
    assert(read_article_flat(m, "article"@) == Ok::<Seq<ArticleView>, Fault>(x.article)) by {
        lemma_article_flat_round_trip(x.article, m, "article"@);
    }
    assert(read_chapter_flat(m, "chapter"@) == Ok::<Seq<ChapterView>, Fault>(x.chapter)) by {
        lemma_chapter_flat_round_trip(x.chapter, m, "chapter"@);
    }
}

/// What the members of an object give as an issue is well formed.
pub proof fn lemma_issue_from_members_wf(m: Seq<(Seq<char>, Doc)>)
    ensures
        issue_from_members(m) matches Ok(x) ==> issue_wf(x),
    decreases m, 1int,
{
    lemma_read_opt_localized_wf(m, "name"@);
    lemma_read_opt_localized_wf(m, "sortAs"@);
    lemma_read_opt_identifier_wf(m, "identifier"@);
    lemma_read_alt_identifier_flat_wf(m, "altIdentifier"@);
    lemma_read_link_list_wf(m, "links"@);
    lemma_read_article_flat_wf(m, "article"@);
    lemma_read_chapter_flat_wf(m, "chapter"@);
}

/// What is read as an issue is well formed.
pub proof fn lemma_decode_issue_wf(d: Doc, field: Seq<char>)
    ensures
        decode_issue(d, field) matches Ok(x) ==> issue_wf(x),
    decreases d, 0int,
{
    if let Doc::Object(m) = d {
        lemma_issue_from_members_wf(m);
    }
}

/// An issue that was read, in whatever spelling, is read again as the same
/// issue from its written form.
pub proof fn lemma_issue_reread(d: Doc, field: Seq<char>)
    ensures
        decode_issue(d, field) matches Ok(x)
            ==> decode_issue(encode_issue(x), field) == Ok::<IssueView, Fault>(x),
{
    lemma_decode_issue_wf(d, field);
    if let Ok(x) = decode_issue(d, field) {
        lemma_issue_round_trip(x, field);
    }
}

/// An issue that is well formed and whose written form nests no more deeply
/// than the ceiling is read back whole from that form.
pub proof fn lemma_issue_doc_round_trip(x: IssueView)
    requires
        issue_wf(x),
        depth(encode_issue(x)) <= MAX_DEPTH,
    ensures
        issue_from_doc(encode_issue(x)) == Ok::<IssueView, Fault>(x),
{
    lemma_issue_round_trip(x, ""@);
}

/// A chapter of a publication.
#[derive(Debug, PartialEq, Eq)]
pub struct Chapter {
    /// The name.
    pub name: Option<StringWithAlternates>,
    /// The name in the form by which it is sorted.
    pub sort_as: Option<StringWithAlternates>,
    /// An identifier: a URL or a URN.
    pub identifier: Option<Identifier>,
    /// Alternates to the identifier.
    pub alt_identifier: Vec<AltIdentifier>,
    /// The position among its like.
    pub position: usize,
    /// Links that belong to it.
    pub links: Vec<Link>,
    pub series: Vec<Series>,
}

/// The mathematical model of a chapter.
pub struct ChapterView {
    pub name: Option<Localized>,
    pub sort_as: Option<Localized>,
    pub identifier: Option<IdentifierView>,
    pub alt_identifier: Seq<AltIdentifierView>,
    pub position: usize,
    pub links: Seq<LinkView>,
    pub series: Seq<SeriesView>,
}

/// The model of a chapter.
pub open spec fn chapter_view(x: Chapter) -> ChapterView
    decreases x,
{
    ChapterView {
        name: opt_localized(x.name),
        sort_as: opt_localized(x.sort_as),
        identifier: opt_identifier(x.identifier),
        alt_identifier: alt_identifier_views(x.alt_identifier@),
        position: x.position,
        links: link_views(x.links@),
        series: series_views(x.series@),
    }
}

impl View for Chapter {
    type V = ChapterView;

    open spec fn view(&self) -> ChapterView {
        chapter_view(*self)
    }
}

/// A chapter is well formed when everything it holds is.
pub open spec fn chapter_wf(x: ChapterView) -> bool
    decreases x,
{
    &&& opt_localized_wf(x.name)
    &&& opt_localized_wf(x.sort_as)
    &&& opt_identifier_wf(x.identifier)
    &&& alt_identifier_seq_wf(x.alt_identifier)
    &&& link_seq_wf(x.links)
    &&& series_seq_wf(x.series)
}

/// The chapter made from its position, with nothing else in it.
pub open spec fn chapter_new(position: usize) -> ChapterView {
    ChapterView {
        name: None,
        sort_as: None,
        identifier: None,
        alt_identifier: Seq::empty(),
        position,
        links: Seq::empty(),
        series: Seq::empty(),
    }
}

/// The members that a chapter is written as: one for each field that holds
/// something, in the order of the fields.
pub open spec fn chapter_members(x: ChapterView) -> Seq<(Seq<char>, Doc)>
    decreases x, 1int,
{
    let m = Seq::<(Seq<char>, Doc)>::empty();
    let m = put(m, "name"@, write_opt_localized(x.name));
    let m = put(m, "sortAs"@, write_opt_localized(x.sort_as));
    let m = put(m, "identifier"@, write_opt_identifier(x.identifier));
    let m = put(m, "altIdentifier"@, write_alt_identifier_flat(x.alt_identifier));
    let m = put(m, "position"@, write_natural(x.position));
    let m = put(m, "links"@, write_link_list(x.links));
    let m = put(m, "series"@, write_series_flat(x.series));
    m
}

/// The written form of a chapter: always the full object.
pub open spec fn encode_chapter(x: ChapterView) -> Doc
    decreases x, 2int,
{
    Doc::Object(chapter_members(x))
}

/// The chapter that the members of an object stand for, or the error of the
/// first field, in the order of the fields, that cannot be read.
pub open spec fn chapter_from_members(m: Seq<(Seq<char>, Doc)>) -> Result<ChapterView, Fault>
    decreases m, 1int,
{
    let name = read_opt_localized(m, "name"@);
    let sort_as = read_opt_localized(m, "sortAs"@);
    let identifier = read_opt_identifier(m, "identifier"@);
    let alt_identifier = read_alt_identifier_flat(m, "altIdentifier"@);
    let position = read_natural(m, "position"@);
    let links = read_link_list(m, "links"@);
    let series = read_series_flat(m, "series"@);
    if name is Err {
        Err(name->Err_0)
    } else if sort_as is Err {
        Err(sort_as->Err_0)
    } else if identifier is Err {
        Err(identifier->Err_0)
    } else if alt_identifier is Err {
        Err(alt_identifier->Err_0)
    } else if position is Err {
        Err(position->Err_0)
    } else if links is Err {
        Err(links->Err_0)
    } else if series is Err {
        Err(series->Err_0)
    } else {
        Ok(ChapterView {
            name: name->Ok_0,
            sort_as: sort_as->Ok_0,
            identifier: identifier->Ok_0,
            alt_identifier: alt_identifier->Ok_0,
            position: position->Ok_0,
            links: links->Ok_0,
            series: series->Ok_0,
        })
    }
}

/// The chapter that a value stands for: an object, or the number that is its
/// position.
pub open spec fn decode_chapter(d: Doc, field: Seq<char>) -> Result<ChapterView, Fault>
    decreases d, 0int,
{
    match d {
        Doc::Object(m) => chapter_from_members(m),
        Doc::Number(n) => match natural_of(n) {
            Some(k) => Ok(chapter_new(k)),
            None => Err(mismatch(field, numbered_shapes(), shape_of(d))),
        },
        _ => Err(mismatch(field, numbered_shapes(), shape_of(d))),
    }
}

/// What reading a whole document as a chapter gives: an error where arrays and
/// objects nest more deeply than the ceiling.
pub open spec fn chapter_from_doc(d: Doc) -> Result<ChapterView, Fault> {
    if depth(d) > MAX_DEPTH {
        Err(Fault::RecursionLimitExceeded(MAX_DEPTH))
    } else {
        decode_chapter(d, ""@)
    }
}

impl Chapter {
    /// A chapter at that position, with nothing else in it.
    pub fn new(position: usize) -> (r: Chapter)
        ensures
            r@ == chapter_new(position),
            chapter_wf(r@),
    {
        let alt_identifier: Vec<AltIdentifier> = Vec::new();
        let links: Vec<Link> = Vec::new();
        let series: Vec<Series> = Vec::new();
        proof {
            assert(alt_identifier_views(alt_identifier@) =~= Seq::<AltIdentifierView>::empty());
            assert(link_views(links@) =~= Seq::<LinkView>::empty());
            assert(series_views(series@) =~= Seq::<SeriesView>::empty());
        }
        Chapter {
            name: None,
            sort_as: None,
            identifier: None,
            alt_identifier,
            position,
            links,
            series,
        }
    }

    /// Reads a chapter from the members of an object.
    pub fn from_members(members: &Vec<(String, Value)>) -> (r: Result<Chapter, ParseError>)
        ensures
            parsed(r) == chapter_from_members(members_of(members@)),
            r matches Ok(x) ==> chapter_wf(x@),
        decreases members, 1int,
    {
        let name = match get_opt_localized(members, "name") {
            Ok(x) => x,
            Err(e) => {
                return Err(e);
            },
        };
        let sort_as = match get_opt_localized(members, "sortAs") {
            Ok(x) => x,
            Err(e) => {
                return Err(e);
            },
        };
        let identifier = match get_opt_identifier(members, "identifier") {
            Ok(x) => x,
            Err(e) => {
                return Err(e);
            },
        };
        let alt_identifier = match get_alt_identifier_flat(members, "altIdentifier") {
            Ok(x) => x,
            Err(e) => {
                return Err(e);
            },
        };
        let position = match get_natural(members, "position") {
            Ok(x) => x,
            Err(e) => {
                return Err(e);
            },
        };
        let links = match get_link_list(members, "links") {
            Ok(x) => x,
            Err(e) => {
                return Err(e);
            },
        };
        let series = match get_series_flat(members, "series") {
            Ok(x) => x,
            Err(e) => {
                return Err(e);
            },
        };
        Ok(Chapter { name, sort_as, identifier, alt_identifier, position, links, series })
    }

    /// Reads a chapter from a value found under `field`.
    pub fn parse(v: &Value, field: &str) -> (r: Result<Chapter, ParseError>)
        ensures
            parsed(r) == decode_chapter(v@, field@),
            r matches Ok(x) ==> chapter_wf(x@),
        decreases v, 0int,
    {
        let given = match v {
            Value::Object(members) => {
                proof {
                    assert(decreases_to!(v => v->Object_0));
                }
                match Chapter::from_members(members) {
                    Ok(x) => NumlikeObject::Object(x),
                    Err(e) => {
                        return Err(e);
                    },
                }
            },
            Value::Number(n) => match natural(*n) {
                Some(k) => NumlikeObject::Number(k),
                None => {
                    return Err(wrong_shape(field, shapes2(Shape::Natural, Shape::Object), v));
                },
            },
            _ => {
                return Err(wrong_shape(field, shapes2(Shape::Natural, Shape::Object), v));
            },
        };
        Ok(given.into_inner())
    }

    /// Reads a whole document as a chapter. A document in which arrays and
    /// objects nest more deeply than [`MAX_DEPTH`] is refused before anything
    /// is read from it.
    pub fn from_value(v: &Value) -> (r: Result<Chapter, ParseError>)
        ensures
            parsed(r) == chapter_from_doc(v@),
            r matches Ok(x) ==> chapter_wf(x@),
    {
        if !v.within_depth(MAX_DEPTH) {
            return Err(ParseError::RecursionLimitExceeded(MAX_DEPTH));
        }
        Chapter::parse(v, "")
    }

    /// Writes the members of this chapter.
    pub fn to_members(&self) -> (members: Vec<(String, Value)>)
        ensures
            members_of(members@) == chapter_members(self@),
        decreases self, 1int,
    {
        let mut m: Vec<(String, Value)> = Vec::new();
        assert(members_of(m@) =~= Seq::<(Seq<char>, Doc)>::empty());
        put_member(&mut m, "name", make_opt_localized(&self.name));
        put_member(&mut m, "sortAs", make_opt_localized(&self.sort_as));
        put_member(&mut m, "identifier", make_opt_identifier(&self.identifier));
        put_member(&mut m, "altIdentifier", make_alt_identifier_flat(&self.alt_identifier));
        put_member(&mut m, "position", make_natural(self.position));
        put_member(&mut m, "links", make_link_list(&self.links));
        put_member(&mut m, "series", make_series_flat(&self.series));
        m
    }

    /// Writes this chapter as a value: always the full object.
    pub fn to_value(&self) -> (v: Value)
        ensures
            v@ == encode_chapter(self@),
        decreases self, 2int,
    {
        Value::Object(self.to_members())
    }
}

/// A copy of a chapter.
pub(crate) fn copy_chapter(x: &Chapter) -> (r: Chapter)
    ensures
        r@ == x@,
    decreases x, 1int,
{
    Chapter {
        name: copy_opt_localized(&x.name),
        sort_as: copy_opt_localized(&x.sort_as),
        identifier: copy_opt_identifier(&x.identifier),
        alt_identifier: copy_alt_identifier_seq(&x.alt_identifier),
        position: x.position,
        links: copy_link_seq(&x.links),
        series: copy_series_seq(&x.series),
    }
}

impl Clone for Chapter {
    /// A copy that holds the same.
    fn clone(&self) -> (r: Chapter)
        ensures
            r@ == self@,
    {
        copy_chapter(self)
    }
}

impl FromSpecImpl<usize> for Chapter {
    open spec fn obeys_from_spec() -> bool {
        false
    }

    open spec fn from_spec(position: usize) -> Self {
        arbitrary()
    }
}

impl From<usize> for Chapter {
    /// The chapter that has the number as its position, and nothing else.
    fn from(position: usize) -> (r: Chapter)
        ensures
            r@ == chapter_new(position),
            chapter_wf(r@),
    {
        Chapter::new(position)
    }
}

/// In the written form of a chapter, each field's name leads to what that field
/// wrote.
pub proof fn lemma_chapter_members(x: ChapterView)
    ensures
        lookup(chapter_members(x), "name"@) == write_opt_localized(x.name),
        lookup(chapter_members(x), "sortAs"@) == write_opt_localized(x.sort_as),
        lookup(chapter_members(x), "identifier"@) == write_opt_identifier(x.identifier),
        lookup(chapter_members(x), "altIdentifier"@) == write_alt_identifier_flat(x.alt_identifier),
        lookup(chapter_members(x), "position"@) == write_natural(x.position),
        lookup(chapter_members(x), "links"@) == write_link_list(x.links),
        lookup(chapter_members(x), "series"@) == write_series_flat(x.series),
{
    broadcast use {lemma_lookup_after_put, lemma_lookup_empty};
    spell_name();
    spell_sort_as();
    spell_identifier();
    spell_alt_identifier();
    spell_position();
    spell_links();
    spell_series();
}

/// A chapter that is well formed, written and read again, is the same chapter.
pub proof fn lemma_chapter_round_trip(x: ChapterView, field: Seq<char>)
    requires
        chapter_wf(x),
    ensures
        decode_chapter(encode_chapter(x), field) == Ok::<ChapterView, Fault>(x),
    decreases x, 2int,
{
    lemma_chapter_members(x);
    let m = chapter_members(x);
    assert(read_opt_localized(m, "name"@) == Ok::<Option<Localized>, Fault>(x.name)) by {
        lemma_opt_localized_round_trip(x.name, m, "name"@);
    }
    assert(read_opt_localized(m, "sortAs"@) == Ok::<Option<Localized>, Fault>(x.sort_as)) by {
        lemma_opt_localized_round_trip(x.sort_as, m, "sortAs"@);
    }
    assert(read_opt_identifier(m, "identifier"@)
        == Ok::<Option<IdentifierView>, Fault>(x.identifier));
    assert(read_alt_identifier_flat(m, "altIdentifier"@)
        == Ok::<Seq<AltIdentifierView>, Fault>(x.alt_identifier)) by {
        lemma_alt_identifier_flat_round_trip(x.alt_identifier, m, "altIdentifier"@);
    }
    assert(read_natural(m, "position"@) == Ok::<usize, Fault>(x.position));
    assert(read_link_list(m, "links"@) == Ok::<Seq<LinkView>, Fault>(x.links)) by {
        lemma_link_list_round_trip(x.links, m, "links"@);
    }
    assert(read_series_flat(m, "series"@) == Ok::<Seq<SeriesView>, Fault>(x.series)) by {
        lemma_series_flat_round_trip(x.series, m, "series"@);
    }
}

/// What the members of an object give as a chapter is well formed.
pub proof fn lemma_chapter_from_members_wf(m: Seq<(Seq<char>, Doc)>)
    ensures
        chapter_from_members(m) matches Ok(x) ==> chapter_wf(x),
    decreases m, 1int,
{
    lemma_read_opt_localized_wf(m, "name"@);
    lemma_read_opt_localized_wf(m, "sortAs"@);
    lemma_read_opt_identifier_wf(m, "identifier"@);
    lemma_read_alt_identifier_flat_wf(m, "altIdentifier"@);
    lemma_read_link_list_wf(m, "links"@);
    lemma_read_series_flat_wf(m, "series"@);
}

/// What is read as a chapter is well formed.
pub proof fn lemma_decode_chapter_wf(d: Doc, field: Seq<char>)
    ensures
        decode_chapter(d, field) matches Ok(x) ==> chapter_wf(x),
    decreases d, 0int,
{
    if let Doc::Object(m) = d {
        lemma_chapter_from_members_wf(m);
    }
}

/// A chapter that was read, in whatever spelling, is read again as the same
/// chapter from its written form.
pub proof fn lemma_chapter_reread(d: Doc, field: Seq<char>)
    ensures
        decode_chapter(d, field) matches Ok(x)
            ==> decode_chapter(encode_chapter(x), field) == Ok::<ChapterView, Fault>(x),
{
    lemma_decode_chapter_wf(d, field);
    if let Ok(x) = decode_chapter(d, field) {
        lemma_chapter_round_trip(x, field);
    }
}

/// A chapter that is well formed and whose written form nests no more deeply
/// than the ceiling is read back whole from that form.
pub proof fn lemma_chapter_doc_round_trip(x: ChapterView)
    requires
        chapter_wf(x),
        depth(encode_chapter(x)) <= MAX_DEPTH,
    ensures
        chapter_from_doc(encode_chapter(x)) == Ok::<ChapterView, Fault>(x),
{
    lemma_chapter_round_trip(x, ""@);
}

/// A series of publications.
#[derive(Debug, PartialEq, Eq)]
pub struct Series {
    /// The name.
    pub name: StringWithAlternates,
    /// The name in the form by which it is sorted.
    pub sort_as: Option<StringWithAlternates>,
    /// An identifier: a URL or a URN.
    pub identifier: Option<Identifier>,
    /// Alternates to the identifier.
    pub alt_identifier: Vec<AltIdentifier>,
    /// The position among its like.
    pub position: Option<usize>,
    /// Links that belong to it.
    pub links: Vec<Link>,
    pub chapter: Vec<Chapter>,
    pub episode: Vec<Episode>,
    pub issue: Vec<Issue>,
    pub season: Vec<Season>,
    pub story_arc: Vec<StoryArc>,
    pub volume: Vec<Volume>,
}

/// The mathematical model of a series.
pub struct SeriesView {
    pub name: Localized,
    pub sort_as: Option<Localized>,
    pub identifier: Option<IdentifierView>,
    pub alt_identifier: Seq<AltIdentifierView>,
    pub position: Option<usize>,
    pub links: Seq<LinkView>,
    pub chapter: Seq<ChapterView>,
    pub episode: Seq<EpisodeView>,
    pub issue: Seq<IssueView>,
    pub season: Seq<SeasonView>,
    pub story_arc: Seq<StoryArcView>,
    pub volume: Seq<VolumeView>,
}

/// The model of a series.
pub open spec fn series_view(x: Series) -> SeriesView
    decreases x,
{
    SeriesView {
        name: x.name@,
        sort_as: opt_localized(x.sort_as),
        identifier: opt_identifier(x.identifier),
        alt_identifier: alt_identifier_views(x.alt_identifier@),
        position: x.position,
        links: link_views(x.links@),
        chapter: chapter_views(x.chapter@),
        episode: episode_views(x.episode@),
        issue: issue_views(x.issue@),
        season: season_views(x.season@),
        story_arc: story_arc_views(x.story_arc@),
        volume: volume_views(x.volume@),
    }
}

impl View for Series {
    type V = SeriesView;

    open spec fn view(&self) -> SeriesView {
        series_view(*self)
    }
}

/// A series is well formed when everything it holds is.
pub open spec fn series_wf(x: SeriesView) -> bool
    decreases x,
{
    &&& localized_wf(x.name)
    &&& opt_localized_wf(x.sort_as)
    &&& opt_identifier_wf(x.identifier)
    &&& alt_identifier_seq_wf(x.alt_identifier)
    &&& link_seq_wf(x.links)
    &&& chapter_seq_wf(x.chapter)
    &&& episode_seq_wf(x.episode)
    &&& issue_seq_wf(x.issue)
    &&& season_seq_wf(x.season)
    &&& story_arc_seq_wf(x.story_arc)
    &&& volume_seq_wf(x.volume)
}

/// The series made from its name, with nothing else in it.
pub open spec fn series_new(name: Localized) -> SeriesView {
    SeriesView {
        name,
        sort_as: None,
        identifier: None,
        alt_identifier: Seq::empty(),
        position: None,
        links: Seq::empty(),
        chapter: Seq::empty(),
        episode: Seq::empty(),
        issue: Seq::empty(),
        season: Seq::empty(),
        story_arc: Seq::empty(),
        volume: Seq::empty(),
    }
}

/// The members that a series is written as: one for each field that holds
/// something, in the order of the fields.
pub open spec fn series_members(x: SeriesView) -> Seq<(Seq<char>, Doc)>
    decreases x, 1int,
{
    let m = Seq::<(Seq<char>, Doc)>::empty();
    let m = put(m, "name"@, write_localized(x.name));
    let m = put(m, "sortAs"@, write_opt_localized(x.sort_as));
    let m = put(m, "identifier"@, write_opt_identifier(x.identifier));
    let m = put(m, "altIdentifier"@, write_alt_identifier_flat(x.alt_identifier));
    let m = put(m, "position"@, write_opt_natural(x.position));
    let m = put(m, "links"@, write_link_list(x.links));
    let m = put(m, "chapter"@, write_chapter_flat(x.chapter));
    let m = put(m, "episode"@, write_episode_flat(x.episode));
    let m = put(m, "issue"@, write_issue_flat(x.issue));
    let m = put(m, "season"@, write_season_flat(x.season));
    let m = put(m, "storyArc"@, write_story_arc_flat(x.story_arc));
    let m = put(m, "volume"@, write_volume_flat(x.volume));
    m
}

/// The written form of a series: always the full object.
pub open spec fn encode_series(x: SeriesView) -> Doc
    decreases x, 2int,
{
    Doc::Object(series_members(x))
}

/// The series that the members of an object stand for, or the error of the
/// first field, in the order of the fields, that cannot be read.
pub open spec fn series_from_members(m: Seq<(Seq<char>, Doc)>) -> Result<SeriesView, Fault>
    decreases m, 1int,
{
    let name = read_localized(m, "name"@);
    let sort_as = read_opt_localized(m, "sortAs"@);
    let identifier = read_opt_identifier(m, "identifier"@);
    let alt_identifier = read_alt_identifier_flat(m, "altIdentifier"@);
    let position = read_opt_natural(m, "position"@);
    let links = read_link_list(m, "links"@);
    let chapter = read_chapter_flat(m, "chapter"@);
    let episode = read_episode_flat(m, "episode"@);
    let issue = read_issue_flat(m, "issue"@);
    let season = read_season_flat(m, "season"@);
    let story_arc = read_story_arc_flat(m, "storyArc"@);
    let volume = read_volume_flat(m, "volume"@);
    if name is Err {
        Err(name->Err_0)
    } else if sort_as is Err {
        Err(sort_as->Err_0)
    } else if identifier is Err {
        Err(identifier->Err_0)
    } else if alt_identifier is Err {
        Err(alt_identifier->Err_0)
    } else if position is Err {
        Err(position->Err_0)
    } else if links is Err {
        Err(links->Err_0)
    } else if chapter is Err {
        Err(chapter->Err_0)
    } else if episode is Err {
        Err(episode->Err_0)
    } else if issue is Err {
        Err(issue->Err_0)
    } else if season is Err {
        Err(season->Err_0)
    } else if story_arc is Err {
        Err(story_arc->Err_0)
    } else if volume is Err {
        Err(volume->Err_0)
    } else {
        Ok(SeriesView {
            name: name->Ok_0,
            sort_as: sort_as->Ok_0,
            identifier: identifier->Ok_0,
            alt_identifier: alt_identifier->Ok_0,
            position: position->Ok_0,
            links: links->Ok_0,
            chapter: chapter->Ok_0,
            episode: episode->Ok_0,
            issue: issue->Ok_0,
            season: season->Ok_0,
            story_arc: story_arc->Ok_0,
            volume: volume->Ok_0,
        })
    }
}

/// The series that a value stands for: an object, or the text that is its name.
pub open spec fn decode_series(d: Doc, field: Seq<char>) -> Result<SeriesView, Fault>
    decreases d, 0int,
{
    match d {
        Doc::Object(m) => series_from_members(m),
        Doc::String(s) => Ok(series_new(Localized::Always(s))),
        _ => Err(mismatch(field, named_shapes(), shape_of(d))),
    }
}

/// What reading a whole document as a series gives: an error where arrays and
/// objects nest more deeply than the ceiling.
pub open spec fn series_from_doc(d: Doc) -> Result<SeriesView, Fault> {
    if depth(d) > MAX_DEPTH {
        Err(Fault::RecursionLimitExceeded(MAX_DEPTH))
    } else {
        decode_series(d, ""@)
    }
}

impl Series {
    /// A series of that name, with nothing else in it.
    pub fn new(name: StringWithAlternates) -> (r: Series)
        ensures
            r@ == series_new(name@),
            localized_wf(name@) ==> series_wf(r@),
    {
        let alt_identifier: Vec<AltIdentifier> = Vec::new();
        let links: Vec<Link> = Vec::new();
        let chapter: Vec<Chapter> = Vec::new();
        let episode: Vec<Episode> = Vec::new();
        let issue: Vec<Issue> = Vec::new();
        let season: Vec<Season> = Vec::new();
        let story_arc: Vec<StoryArc> = Vec::new();
        let volume: Vec<Volume> = Vec::new();
        proof {
            assert(alt_identifier_views(alt_identifier@) =~= Seq::<AltIdentifierView>::empty());
            assert(link_views(links@) =~= Seq::<LinkView>::empty());
            assert(chapter_views(chapter@) =~= Seq::<ChapterView>::empty());
            assert(episode_views(episode@) =~= Seq::<EpisodeView>::empty());
            assert(issue_views(issue@) =~= Seq::<IssueView>::empty());
            assert(season_views(season@) =~= Seq::<SeasonView>::empty());
            assert(story_arc_views(story_arc@) =~= Seq::<StoryArcView>::empty());
            assert(volume_views(volume@) =~= Seq::<VolumeView>::empty());
        }
        Series {
            name,
            sort_as: None,
            identifier: None,
            alt_identifier,
            position: None,
            links,
            chapter,
            episode,
            issue,
            season,
            story_arc,
            volume,
        }
    }

    /// Reads a series from the members of an object.
    pub fn from_members(members: &Vec<(String, Value)>) -> (r: Result<Series, ParseError>)
        ensures
            parsed(r) == series_from_members(members_of(members@)),
            r matches Ok(x) ==> series_wf(x@),
        decreases members, 1int,
    {
        let name = match get_localized(members, "name") {
            Ok(x) => x,
            Err(e) => {
                return Err(e);
            },
        };
        let sort_as = match get_opt_localized(members, "sortAs") {
            Ok(x) => x,
            Err(e) => {
                return Err(e);
            },
        };
        let identifier = match get_opt_identifier(members, "identifier") {
            Ok(x) => x,
            Err(e) => {
                return Err(e);
            },
        };
        let alt_identifier = match get_alt_identifier_flat(members, "altIdentifier") {
            Ok(x) => x,
            Err(e) => {
                return Err(e);
            },
        };
        let position = match get_opt_natural(members, "position") {
            Ok(x) => x,
            Err(e) => {
                return Err(e);
            },
        };
        let links = match get_link_list(members, "links") {
            Ok(x) => x,
            Err(e) => {
                return Err(e);
            },
        };
        let chapter = match get_chapter_flat(members, "chapter") {
            Ok(x) => x,
            Err(e) => {
                return Err(e);
            },
        };
        let episode = match get_episode_flat(members, "episode") {
            Ok(x) => x,
            Err(e) => {
                return Err(e);
            },
        };
        let issue = match get_issue_flat(members, "issue") {
            Ok(x) => x,
            Err(e) => {
                return Err(e);
            },
        };
        let season = match get_season_flat(members, "season") {
            Ok(x) => x,
            Err(e) => {
                return Err(e);
            },
        };
        let story_arc = match get_story_arc_flat(members, "storyArc") {
            Ok(x) => x,
            Err(e) => {
                return Err(e);
            },
        };
        let volume = match get_volume_flat(members, "volume") {
            Ok(x) => x,
            Err(e) => {
                return Err(e);
            },
        };
        Ok(Series {
            name,
            sort_as,
            identifier,
            alt_identifier,
            position,
            links,
            chapter,
            episode,
            issue,
            season,
            story_arc,
            volume,
        })
    }

    /// Reads a series from a value found under `field`.
    pub fn parse(v: &Value, field: &str) -> (r: Result<Series, ParseError>)
        ensures
            parsed(r) == decode_series(v@, field@),
            r matches Ok(x) ==> series_wf(x@),
        decreases v, 0int,
    {
        let given = match v {
            Value::Object(members) => {
                proof {
                    assert(decreases_to!(v => v->Object_0));
                }
                match Series::from_members(members) {
                    Ok(x) => StringyObject::Object(x),
                    Err(e) => {
                        return Err(e);
                    },
                }
            },
            Value::String(s) => StringyObject::String(s.clone()),
            _ => {
                return Err(wrong_shape(field, shapes2(Shape::String, Shape::Object), v));
            },
        };
        Ok(given.into_inner())
    }

    /// Reads a whole document as a series. A document in which arrays and
    /// objects nest more deeply than [`MAX_DEPTH`] is refused before anything
    /// is read from it.
    pub fn from_value(v: &Value) -> (r: Result<Series, ParseError>)
        ensures
            parsed(r) == series_from_doc(v@),
            r matches Ok(x) ==> series_wf(x@),
    {
        if !v.within_depth(MAX_DEPTH) {
            return Err(ParseError::RecursionLimitExceeded(MAX_DEPTH));
        }
        Series::parse(v, "")
    }

    /// Writes the members of this series.
    pub fn to_members(&self) -> (members: Vec<(String, Value)>)
        ensures
            members_of(members@) == series_members(self@),
        decreases self, 1int,
    {
        let mut m: Vec<(String, Value)> = Vec::new();
        assert(members_of(m@) =~= Seq::<(Seq<char>, Doc)>::empty());
        put_member(&mut m, "name", make_localized(&self.name));
        put_member(&mut m, "sortAs", make_opt_localized(&self.sort_as));
        put_member(&mut m, "identifier", make_opt_identifier(&self.identifier));
        put_member(&mut m, "altIdentifier", make_alt_identifier_flat(&self.alt_identifier));
        put_member(&mut m, "position", make_opt_natural(&self.position));
        put_member(&mut m, "links", make_link_list(&self.links));
        put_member(&mut m, "chapter", make_chapter_flat(&self.chapter));
        put_member(&mut m, "episode", make_episode_flat(&self.episode));
        put_member(&mut m, "issue", make_issue_flat(&self.issue));
        put_member(&mut m, "season", make_season_flat(&self.season));
        put_member(&mut m, "storyArc", make_story_arc_flat(&self.story_arc));
        put_member(&mut m, "volume", make_volume_flat(&self.volume));
        m
    }

    /// Writes this series as a value: always the full object.
    pub fn to_value(&self) -> (v: Value)
        ensures
            v@ == encode_series(self@),
        decreases self, 2int,
    {
        Value::Object(self.to_members())
    }
}

/// A copy of a series.
pub(crate) fn copy_series(x: &Series) -> (r: Series)
    ensures
        r@ == x@,
    decreases x, 1int,
{
    Series {
        name: x.name.clone(),
        sort_as: copy_opt_localized(&x.sort_as),
        identifier: copy_opt_identifier(&x.identifier),
        alt_identifier: copy_alt_identifier_seq(&x.alt_identifier),
        position: x.position,
        links: copy_link_seq(&x.links),
        chapter: copy_chapter_seq(&x.chapter),
        episode: copy_episode_seq(&x.episode),
        issue: copy_issue_seq(&x.issue),
        season: copy_season_seq(&x.season),
        story_arc: copy_story_arc_seq(&x.story_arc),
        volume: copy_volume_seq(&x.volume),
    }
}

impl Clone for Series {
    /// A copy that holds the same.
    fn clone(&self) -> (r: Series)
        ensures
            r@ == self@,
    {
        copy_series(self)
    }
}

impl FromSpecImpl<String> for Series {
    open spec fn obeys_from_spec() -> bool {
        false
    }

    open spec fn from_spec(name: String) -> Self {
        arbitrary()
    }
}

impl From<String> for Series {
    /// The series that has the text as its name, and nothing else.
    fn from(name: String) -> (r: Series)
        ensures
            r@ == series_new(Localized::Always(name@)),
            series_wf(r@),
    {
        Series::new(StringWithAlternates::Always(name))
    }
}

/// In the written form of a series, each field's name leads to what that field
/// wrote.
#[verifier::rlimit(40)]
pub proof fn lemma_series_members(x: SeriesView)
    ensures
        lookup(series_members(x), "name"@) == write_localized(x.name),
        lookup(series_members(x), "sortAs"@) == write_opt_localized(x.sort_as),
        lookup(series_members(x), "identifier"@) == write_opt_identifier(x.identifier),
        lookup(series_members(x), "altIdentifier"@) == write_alt_identifier_flat(x.alt_identifier),
        lookup(series_members(x), "position"@) == write_opt_natural(x.position),
        lookup(series_members(x), "links"@) == write_link_list(x.links),
        lookup(series_members(x), "chapter"@) == write_chapter_flat(x.chapter),
        lookup(series_members(x), "episode"@) == write_episode_flat(x.episode),
        lookup(series_members(x), "issue"@) == write_issue_flat(x.issue),
        lookup(series_members(x), "season"@) == write_season_flat(x.season),
        lookup(series_members(x), "storyArc"@) == write_story_arc_flat(x.story_arc),
        lookup(series_members(x), "volume"@) == write_volume_flat(x.volume),
{
    broadcast use {lemma_lookup_after_put, lemma_lookup_empty};
    spell_name();
    spell_sort_as();
    spell_identifier();
    spell_alt_identifier();
    spell_position();
    spell_links();
    spell_chapter();
    spell_episode();
    spell_issue();
    spell_season();
    spell_story_arc();
    spell_volume();
}

/// A series that is well formed, written and read again, is the same series.
#[verifier::rlimit(40)]
pub proof fn lemma_series_round_trip(x: SeriesView, field: Seq<char>)
    requires
        series_wf(x),
    ensures
        decode_series(encode_series(x), field) == Ok::<SeriesView, Fault>(x),
    decreases x, 2int,
{
    lemma_series_members(x);
    let m = series_members(x);
    assert(read_localized(m, "name"@) == Ok::<Localized, Fault>(x.name)) by {
        lemma_localized_field_round_trip(x.name, m, "name"@);
    }
    assert(read_opt_localized(m, "sortAs"@) == Ok::<Option<Localized>, Fault>(x.sort_as)) by {
        lemma_opt_localized_round_trip(x.sort_as, m, "sortAs"@);
    }
    assert(read_opt_identifier(m, "identifier"@)
        == Ok::<Option<IdentifierView>, Fault>(x.identifier));
    assert(read_alt_identifier_flat(m, "altIdentifier"@)
        == Ok::<Seq<AltIdentifierView>, Fault>(x.alt_identifier)) by {
        lemma_alt_identifier_flat_round_trip(x.alt_identifier, m, "altIdentifier"@);
    }
    assert(read_opt_natural(m, "position"@) == Ok::<Option<usize>, Fault>(x.position));
    assert(read_link_list(m, "links"@) == Ok::<Seq<LinkView>, Fault>(x.links)) by {
        lemma_link_list_round_trip(x.links, m, "links"@);
    }
    assert(read_chapter_flat(m, "chapter"@) == Ok::<Seq<ChapterView>, Fault>(x.chapter)) by {
        lemma_chapter_flat_round_trip(x.chapter, m, "chapter"@);
    }
    assert(read_episode_flat(m, "episode"@) == Ok::<Seq<EpisodeView>, Fault>(x.episode)) by {
        lemma_episode_flat_round_trip(x.episode, m, "episode"@);
    }
    assert(read_issue_flat(m, "issue"@) == Ok::<Seq<IssueView>, Fault>(x.issue)) by {
        lemma_issue_flat_round_trip(x.issue, m, "issue"@);
    }
    assert(read_season_flat(m, "season"@) == Ok::<Seq<SeasonView>, Fault>(x.season)) by {
        lemma_season_flat_round_trip(x.season, m, "season"@);
    }
    assert(read_story_arc_flat(m, "storyArc"@) == Ok::<Seq<StoryArcView>, Fault>(x.story_arc)) by {
        lemma_story_arc_flat_round_trip(x.story_arc, m, "storyArc"@);
    }
    assert(read_volume_flat(m, "volume"@) == Ok::<Seq<VolumeView>, Fault>(x.volume)) by {
        lemma_volume_flat_round_trip(x.volume, m, "volume"@);
    }
}

/// What the members of an object give as a series is well formed.
pub proof fn lemma_series_from_members_wf(m: Seq<(Seq<char>, Doc)>)
    ensures
        series_from_members(m) matches Ok(x) ==> series_wf(x),
    decreases m, 1int,
{
    lemma_read_localized_wf(m, "name"@);
    lemma_read_opt_localized_wf(m, "sortAs"@);
    lemma_read_opt_identifier_wf(m, "identifier"@);
    lemma_read_alt_identifier_flat_wf(m, "altIdentifier"@);
    lemma_read_link_list_wf(m, "links"@);
    lemma_read_chapter_flat_wf(m, "chapter"@);
    lemma_read_episode_flat_wf(m, "episode"@);
    lemma_read_issue_flat_wf(m, "issue"@);
    lemma_read_season_flat_wf(m, "season"@);
    lemma_read_story_arc_flat_wf(m, "storyArc"@);
    lemma_read_volume_flat_wf(m, "volume"@);
}

/// What is read as a series is well formed.
pub proof fn lemma_decode_series_wf(d: Doc, field: Seq<char>)
    ensures
        decode_series(d, field) matches Ok(x) ==> series_wf(x),
    decreases d, 0int,
{
    if let Doc::Object(m) = d {
        lemma_series_from_members_wf(m);
    }
}

/// A series that was read, in whatever spelling, is read again as the same
/// series from its written form.
pub proof fn lemma_series_reread(d: Doc, field: Seq<char>)
    ensures
        decode_series(d, field) matches Ok(x)
            ==> decode_series(encode_series(x), field) == Ok::<SeriesView, Fault>(x),
{
    lemma_decode_series_wf(d, field);
    if let Ok(x) = decode_series(d, field) {
        lemma_series_round_trip(x, field);
    }
}

/// A series that is well formed and whose written form nests no more deeply
/// than the ceiling is read back whole from that form.
pub proof fn lemma_series_doc_round_trip(x: SeriesView)
    requires
        series_wf(x),
        depth(encode_series(x)) <= MAX_DEPTH,
    ensures
        series_from_doc(encode_series(x)) == Ok::<SeriesView, Fault>(x),
{
    lemma_series_round_trip(x, ""@);
}

/// A volume of a publication.
#[derive(Debug, PartialEq, Eq)]
pub struct Volume {
    /// The name.
    pub name: Option<StringWithAlternates>,
    /// The name in the form by which it is sorted.
    pub sort_as: Option<StringWithAlternates>,
    /// An identifier: a URL or a URN.
    pub identifier: Option<Identifier>,
    /// Alternates to the identifier.
    pub alt_identifier: Vec<AltIdentifier>,
    /// The position among its like.
    pub position: usize,
    /// Links that belong to it.
    pub links: Vec<Link>,
    pub chapter: Vec<Chapter>,
    pub issue: Vec<Issue>,
    pub story_arc: Vec<StoryArc>,
}

/// The mathematical model of a volume.
pub struct VolumeView {
    pub name: Option<Localized>,
    pub sort_as: Option<Localized>,
    pub identifier: Option<IdentifierView>,
    pub alt_identifier: Seq<AltIdentifierView>,
    pub position: usize,
    pub links: Seq<LinkView>,
    pub chapter: Seq<ChapterView>,
    pub issue: Seq<IssueView>,
    pub story_arc: Seq<StoryArcView>,
}

/// The model of a volume.
pub open spec fn volume_view(x: Volume) -> VolumeView
    decreases x,
{
    VolumeView {
        name: opt_localized(x.name),
        sort_as: opt_localized(x.sort_as),
        identifier: opt_identifier(x.identifier),
        alt_identifier: alt_identifier_views(x.alt_identifier@),
        position: x.position,
        links: link_views(x.links@),
        chapter: chapter_views(x.chapter@),
        issue: issue_views(x.issue@),
        story_arc: story_arc_views(x.story_arc@),
    }
}

impl View for Volume {
    type V = VolumeView;

    open spec fn view(&self) -> VolumeView {
        volume_view(*self)
    }
}

/// A volume is well formed when everything it holds is.
pub open spec fn volume_wf(x: VolumeView) -> bool
    decreases x,
{
    &&& opt_localized_wf(x.name)
    &&& opt_localized_wf(x.sort_as)
    &&& opt_identifier_wf(x.identifier)
    &&& alt_identifier_seq_wf(x.alt_identifier)
    &&& link_seq_wf(x.links)
    &&& chapter_seq_wf(x.chapter)
    &&& issue_seq_wf(x.issue)
    &&& story_arc_seq_wf(x.story_arc)
}

/// The volume made from its position, with nothing else in it.
pub open spec fn volume_new(position: usize) -> VolumeView {
    VolumeView {
        name: None,
        sort_as: None,
        identifier: None,
        alt_identifier: Seq::empty(),
        position,
        links: Seq::empty(),
        chapter: Seq::empty(),
        issue: Seq::empty(),
        story_arc: Seq::empty(),
    }
}

/// The members that a volume is written as: one for each field that holds
/// something, in the order of the fields.
pub open spec fn volume_members(x: VolumeView) -> Seq<(Seq<char>, Doc)>
    decreases x, 1int,
{
    let m = Seq::<(Seq<char>, Doc)>::empty();
    let m = put(m, "name"@, write_opt_localized(x.name));
    let m = put(m, "sortAs"@, write_opt_localized(x.sort_as));
    let m = put(m, "identifier"@, write_opt_identifier(x.identifier));
    let m = put(m, "altIdentifier"@, write_alt_identifier_flat(x.alt_identifier));
    let m = put(m, "position"@, write_natural(x.position));
    let m = put(m, "links"@, write_link_list(x.links));
    let m = put(m, "chapter"@, write_chapter_flat(x.chapter));
    let m = put(m, "issue"@, write_issue_flat(x.issue));
    let m = put(m, "storyArc"@, write_story_arc_flat(x.story_arc));
    m
}

/// The written form of a volume: always the full object.
pub open spec fn encode_volume(x: VolumeView) -> Doc
    decreases x, 2int,
{
    Doc::Object(volume_members(x))
}

/// The volume that the members of an object stand for, or the error of the
/// first field, in the order of the fields, that cannot be read.
pub open spec fn volume_from_members(m: Seq<(Seq<char>, Doc)>) -> Result<VolumeView, Fault>
    decreases m, 1int,
{
    let name = read_opt_localized(m, "name"@);
    let sort_as = read_opt_localized(m, "sortAs"@);
    let identifier = read_opt_identifier(m, "identifier"@);
    let alt_identifier = read_alt_identifier_flat(m, "altIdentifier"@);
    let position = read_natural(m, "position"@);
    let links = read_link_list(m, "links"@);
    let chapter = read_chapter_flat(m, "chapter"@);
    let issue = read_issue_flat(m, "issue"@);
    let story_arc = read_story_arc_flat(m, "storyArc"@);
    if name is Err {
        Err(name->Err_0)
    } else if sort_as is Err {
        Err(sort_as->Err_0)
    } else if identifier is Err {
        Err(identifier->Err_0)
    } else if alt_identifier is Err {
        Err(alt_identifier->Err_0)
    } else if position is Err {
        Err(position->Err_0)
    } else if links is Err {
        Err(links->Err_0)
    } else if chapter is Err {
        Err(chapter->Err_0)
    } else if issue is Err {
        Err(issue->Err_0)
    } else if story_arc is Err {
        Err(story_arc->Err_0)
    } else {
        Ok(VolumeView {
            name: name->Ok_0,
            sort_as: sort_as->Ok_0,
            identifier: identifier->Ok_0,
            alt_identifier: alt_identifier->Ok_0,
            position: position->Ok_0,
            links: links->Ok_0,
            chapter: chapter->Ok_0,
            issue: issue->Ok_0,
            story_arc: story_arc->Ok_0,
        })
    }
}

/// The volume that a value stands for: an object, or the number that is its
/// position.
pub open spec fn decode_volume(d: Doc, field: Seq<char>) -> Result<VolumeView, Fault>
    decreases d, 0int,
{
    match d {
        Doc::Object(m) => volume_from_members(m),
        Doc::Number(n) => match natural_of(n) {
            Some(k) => Ok(volume_new(k)),
            None => Err(mismatch(field, numbered_shapes(), shape_of(d))),
        },
        _ => Err(mismatch(field, numbered_shapes(), shape_of(d))),
    }
}

/// What reading a whole document as a volume gives: an error where arrays and
/// objects nest more deeply than the ceiling.
pub open spec fn volume_from_doc(d: Doc) -> Result<VolumeView, Fault> {
    if depth(d) > MAX_DEPTH {
        Err(Fault::RecursionLimitExceeded(MAX_DEPTH))
    } else {
        decode_volume(d, ""@)
    }
}

impl Volume {
    /// A volume at that position, with nothing else in it.
    pub(crate) fn new(position: usize) -> (r: Volume)
        ensures
            r@ == volume_new(position),
            volume_wf(r@),
    {
        let alt_identifier: Vec<AltIdentifier> = Vec::new();
        let links: Vec<Link> = Vec::new();
        let chapter: Vec<Chapter> = Vec::new();
        let issue: Vec<Issue> = Vec::new();
        let story_arc: Vec<StoryArc> = Vec::new();
        proof {
            assert(alt_identifier_views(alt_identifier@) =~= Seq::<AltIdentifierView>::empty());
            assert(link_views(links@) =~= Seq::<LinkView>::empty());
            assert(chapter_views(chapter@) =~= Seq::<ChapterView>::empty());
            assert(issue_views(issue@) =~= Seq::<IssueView>::empty());
            assert(story_arc_views(story_arc@) =~= Seq::<StoryArcView>::empty());
        }
        Volume {
            name: None,
            sort_as: None,
            identifier: None,
            alt_identifier,
            position,
            links,
            chapter,
            issue,
            story_arc,
        }
    }

    /// Reads a volume from the members of an object.
    pub fn from_members(members: &Vec<(String, Value)>) -> (r: Result<Volume, ParseError>)
        ensures
            parsed(r) == volume_from_members(members_of(members@)),
            r matches Ok(x) ==> volume_wf(x@),
        decreases members, 1int,
    {
        let name = match get_opt_localized(members, "name") {
            Ok(x) => x,
            Err(e) => {
                return Err(e);
            },
        };
        let sort_as = match get_opt_localized(members, "sortAs") {
            Ok(x) => x,
            Err(e) => {
                return Err(e);
            },
        };
        let identifier = match get_opt_identifier(members, "identifier") {
            Ok(x) => x,
            Err(e) => {
                return Err(e);
            },
        };
        let alt_identifier = match get_alt_identifier_flat(members, "altIdentifier") {
            Ok(x) => x,
            Err(e) => {
                return Err(e);
            },
        };
        let position = match get_natural(members, "position") {
            Ok(x) => x,
            Err(e) => {
                return Err(e);
            },
        };
        let links = match get_link_list(members, "links") {
            Ok(x) => x,
            Err(e) => {
                return Err(e);
            },
        };
        let chapter = match get_chapter_flat(members, "chapter") {
            Ok(x) => x,
            Err(e) => {
                return Err(e);
            },
        };
        let issue = match get_issue_flat(members, "issue") {
            Ok(x) => x,
            Err(e) => {
                return Err(e);
            },
        };
        let story_arc = match get_story_arc_flat(members, "storyArc") {
            Ok(x) => x,
            Err(e) => {
                return Err(e);
            },
        };
        Ok(Volume {
            name,
            sort_as,
            identifier,
            alt_identifier,
            position,
            links,
            chapter,
            issue,
            story_arc,
        })
    }

    /// Reads a volume from a value found under `field`.
    pub fn parse(v: &Value, field: &str) -> (r: Result<Volume, ParseError>)
        ensures
            parsed(r) == decode_volume(v@, field@),
            r matches Ok(x) ==> volume_wf(x@),
        decreases v, 0int,
    {
        let given = match v {
            Value::Object(members) => {
                proof {
                    assert(decreases_to!(v => v->Object_0));
                }
                match Volume::from_members(members) {
                    Ok(x) => NumlikeObject::Object(x),
                    Err(e) => {
                        return Err(e);
                    },
                }
            },
            Value::Number(n) => match natural(*n) {
                Some(k) => NumlikeObject::Number(k),
                None => {
                    return Err(wrong_shape(field, shapes2(Shape::Natural, Shape::Object), v));
                },
            },
            _ => {
                return Err(wrong_shape(field, shapes2(Shape::Natural, Shape::Object), v));
            },
        };
        Ok(given.into_inner())
    }

    /// Reads a whole document as a volume. A document in which arrays and
    /// objects nest more deeply than [`MAX_DEPTH`] is refused before anything
    /// is read from it.
    pub fn from_value(v: &Value) -> (r: Result<Volume, ParseError>)
        ensures
            parsed(r) == volume_from_doc(v@),
            r matches Ok(x) ==> volume_wf(x@),
    {
        if !v.within_depth(MAX_DEPTH) {
            return Err(ParseError::RecursionLimitExceeded(MAX_DEPTH));
        }
        Volume::parse(v, "")
    }

    /// Writes the members of this volume.
    pub fn to_members(&self) -> (members: Vec<(String, Value)>)
        ensures
            members_of(members@) == volume_members(self@),
        decreases self, 1int,
    {
        let mut m: Vec<(String, Value)> = Vec::new();
        assert(members_of(m@) =~= Seq::<(Seq<char>, Doc)>::empty());
        put_member(&mut m, "name", make_opt_localized(&self.name));
        put_member(&mut m, "sortAs", make_opt_localized(&self.sort_as));
        put_member(&mut m, "identifier", make_opt_identifier(&self.identifier));
        put_member(&mut m, "altIdentifier", make_alt_identifier_flat(&self.alt_identifier));
        put_member(&mut m, "position", make_natural(self.position));
        put_member(&mut m, "links", make_link_list(&self.links));
        put_member(&mut m, "chapter", make_chapter_flat(&self.chapter));
        put_member(&mut m, "issue", make_issue_flat(&self.issue));
        put_member(&mut m, "storyArc", make_story_arc_flat(&self.story_arc));
        m
    }

    /// Writes this volume as a value: always the full object.
    pub fn to_value(&self) -> (v: Value)
        ensures
            v@ == encode_volume(self@),
        decreases self, 2int,
    {
        Value::Object(self.to_members())
    }
}

/// A copy of a volume.
pub(crate) fn copy_volume(x: &Volume) -> (r: Volume)
    ensures
        r@ == x@,
    decreases x, 1int,
{
    Volume {
        name: copy_opt_localized(&x.name),
        sort_as: copy_opt_localized(&x.sort_as),
        identifier: copy_opt_identifier(&x.identifier),
        alt_identifier: copy_alt_identifier_seq(&x.alt_identifier),
        position: x.position,
        links: copy_link_seq(&x.links),
        chapter: copy_chapter_seq(&x.chapter),
        issue: copy_issue_seq(&x.issue),
        story_arc: copy_story_arc_seq(&x.story_arc),
    }
}

impl Clone for Volume {
    /// A copy that holds the same.
    fn clone(&self) -> (r: Volume)
        ensures
            r@ == self@,
    {
        copy_volume(self)
    }
}

impl FromSpecImpl<usize> for Volume {
    open spec fn obeys_from_spec() -> bool {
        false
    }

    open spec fn from_spec(position: usize) -> Self {
        arbitrary()
    }
}

impl From<usize> for Volume {
    /// The volume that has the number as its position, and nothing else.
    fn from(position: usize) -> (r: Volume)
        ensures
            r@ == volume_new(position),
            volume_wf(r@),
    {
        Volume::new(position)
    }
}

/// In the written form of a volume, each field's name leads to what that field
/// wrote.
pub proof fn lemma_volume_members(x: VolumeView)
    ensures
        lookup(volume_members(x), "name"@) == write_opt_localized(x.name),
        lookup(volume_members(x), "sortAs"@) == write_opt_localized(x.sort_as),
        lookup(volume_members(x), "identifier"@) == write_opt_identifier(x.identifier),
        lookup(volume_members(x), "altIdentifier"@) == write_alt_identifier_flat(x.alt_identifier),
        lookup(volume_members(x), "position"@) == write_natural(x.position),
        lookup(volume_members(x), "links"@) == write_link_list(x.links),
        lookup(volume_members(x), "chapter"@) == write_chapter_flat(x.chapter),
        lookup(volume_members(x), "issue"@) == write_issue_flat(x.issue),
        lookup(volume_members(x), "storyArc"@) == write_story_arc_flat(x.story_arc),
{
    broadcast use {lemma_lookup_after_put, lemma_lookup_empty};
    spell_name();
    spell_sort_as();
    spell_identifier();
    spell_alt_identifier();
    spell_position();
    spell_links();
    spell_chapter();
    spell_issue();
    spell_story_arc();
}

/// A volume that is well formed, written and read again, is the same volume.
pub proof fn lemma_volume_round_trip(x: VolumeView, field: Seq<char>)
    requires
        volume_wf(x),
    ensures
        decode_volume(encode_volume(x), field) == Ok::<VolumeView, Fault>(x),
    decreases x, 2int,
{
    lemma_volume_members(x);
    let m = volume_members(x);
    assert(read_opt_localized(m, "name"@) == Ok::<Option<Localized>, Fault>(x.name)) by {
        lemma_opt_localized_round_trip(x.name, m, "name"@);
    }
    assert(read_opt_localized(m, "sortAs"@) == Ok::<Option<Localized>, Fault>(x.sort_as)) by {
        lemma_opt_localized_round_trip(x.sort_as, m, "sortAs"@);
    }
    assert(read_opt_identifier(m, "identifier"@)
        == Ok::<Option<IdentifierView>, Fault>(x.identifier));
    assert(read_alt_identifier_flat(m, "altIdentifier"@)
        == Ok::<Seq<AltIdentifierView>, Fault>(x.alt_identifier)) by {
        lemma_alt_identifier_flat_round_trip(x.alt_identifier, m, "altIdentifier"@);
    }
    assert(read_natural(m, "position"@) == Ok::<usize, Fault>(x.position));
    assert(read_link_list(m, "links"@) == Ok::<Seq<LinkView>, Fault>(x.links)) by {
        lemma_link_list_round_trip(x.links, m, "links"@);
    }
    assert(read_chapter_flat(m, "chapter"@) == Ok::<Seq<ChapterView>, Fault>(x.chapter)) by {
        lemma_chapter_flat_round_trip(x.chapter, m, "chapter"@);
    }
    assert(read_issue_flat(m, "issue"@) == Ok::<Seq<IssueView>, Fault>(x.issue)) by {
        lemma_issue_flat_round_trip(x.issue, m, "issue"@);
    }
    assert(read_story_arc_flat(m, "storyArc"@) == Ok::<Seq<StoryArcView>, Fault>(x.story_arc)) by {
        lemma_story_arc_flat_round_trip(x.story_arc, m, "storyArc"@);
    }
}

/// What the members of an object give as a volume is well formed.
pub proof fn lemma_volume_from_members_wf(m: Seq<(Seq<char>, Doc)>)
    ensures
        volume_from_members(m) matches Ok(x) ==> volume_wf(x),
    decreases m, 1int,
{
    lemma_read_opt_localized_wf(m, "name"@);
    lemma_read_opt_localized_wf(m, "sortAs"@);
    lemma_read_opt_identifier_wf(m, "identifier"@);
    lemma_read_alt_identifier_flat_wf(m, "altIdentifier"@);
    lemma_read_link_list_wf(m, "links"@);
    lemma_read_chapter_flat_wf(m, "chapter"@);
    lemma_read_issue_flat_wf(m, "issue"@);
    lemma_read_story_arc_flat_wf(m, "storyArc"@);
}

/// What is read as a volume is well formed.
pub proof fn lemma_decode_volume_wf(d: Doc, field: Seq<char>)
    ensures
        decode_volume(d, field) matches Ok(x) ==> volume_wf(x),
    decreases d, 0int,
{
    if let Doc::Object(m) = d {
        lemma_volume_from_members_wf(m);
    }
}

/// A volume that was read, in whatever spelling, is read again as the same
/// volume from its written form.
pub proof fn lemma_volume_reread(d: Doc, field: Seq<char>)
    ensures
        decode_volume(d, field) matches Ok(x)
            ==> decode_volume(encode_volume(x), field) == Ok::<VolumeView, Fault>(x),
{
    lemma_decode_volume_wf(d, field);
    if let Ok(x) = decode_volume(d, field) {
        lemma_volume_round_trip(x, field);
    }
}

/// A volume that is well formed and whose written form nests no more deeply
/// than the ceiling is read back whole from that form.
pub proof fn lemma_volume_doc_round_trip(x: VolumeView)
    requires
        volume_wf(x),
        depth(encode_volume(x)) <= MAX_DEPTH,
    ensures
        volume_from_doc(encode_volume(x)) == Ok::<VolumeView, Fault>(x),
{
    lemma_volume_round_trip(x, ""@);
}

/// The models of a run of seasons.
pub open spec fn season_views(xs: Seq<Season>) -> Seq<SeasonView>
    decreases xs,
{
    Seq::new(
        xs.len(),
        |i: int|
            if 0 <= i < xs.len() {
                season_view(xs[i])
            } else {
                arbitrary()
            },
    )
}

/// Whether every season of a run is well formed.
pub open spec fn season_seq_wf(xs: Seq<SeasonView>) -> bool
    decreases xs,
{
    forall|i: int| 0 <= i < xs.len() ==> season_wf((#[trigger] xs[i]))
}

/// The seasons that the items of a sequence stand for, or the error
/// of the first item that stands for none.
pub open spec fn decode_season_seq(
    items: Seq<Doc>,
    field: Seq<char>,
) -> Result<Seq<SeasonView>, Fault>
    decreases items, 0int,
{
    if items.len() == 0 {
        Ok(Seq::empty())
    } else {
        match decode_season_seq(items.drop_last(), field) {
            Err(e) => Err(e),
            Ok(init) => match decode_season(items.last(), field) {
                Err(e) => Err(e),
                Ok(x) => Ok(init.push(x)),
            },
        }
    }
}

/// The written forms of a run of seasons.
pub open spec fn encode_season_seq(xs: Seq<SeasonView>) -> Seq<Doc>
    decreases xs, 0int,
{
    Seq::new(
        xs.len(),
        |i: int|
            if 0 <= i < xs.len() {
                encode_season(xs[i])
            } else {
                Doc::Null
            },
    )
}

/// Where the items before `i` can be read and item `i` cannot, the
/// sequence gives the error of item `i`.
pub proof fn lemma_season_seq_fails(items: Seq<Doc>, field: Seq<char>, i: int)
    requires
        0 <= i < items.len(),
        decode_season_seq(items.take(i), field) is Ok,
        decode_season(items[i], field) is Err,
    ensures
        decode_season_seq(items, field)
            == Err::<Seq<SeasonView>, Fault>(decode_season(items[i], field)->Err_0),
    decreases items.len(),
{
    if i == items.len() - 1 {
        assert(items.take(i) =~= items.drop_last());
    } else {
        assert(items.drop_last().take(i) =~= items.take(i));
        lemma_season_seq_fails(items.drop_last(), field, i);
    }
}

/// Reads the items of a sequence as seasons.
pub fn parse_season_seq(items: &Vec<Value>, field: &str) -> (r: Result<Vec<Season>, ParseError>)
    ensures
        match r {
            Ok(xs) => decode_season_seq(docs_of(items@), field@)
                == Ok::<Seq<SeasonView>, Fault>(season_views(xs@)),
            Err(e) => decode_season_seq(docs_of(items@), field@)
                == Err::<Seq<SeasonView>, Fault>(e@),
        },
        r matches Ok(xs) ==> season_seq_wf(season_views(xs@)),
    decreases items, 0int,
{
    let mut out: Vec<Season> = Vec::new();
    let mut i: usize = 0;
    proof {
        assert(season_views(out@) =~= Seq::<SeasonView>::empty());
    }
    while i < items.len()
        invariant
            i <= items.len(),
            decode_season_seq(docs_of(items@).take(i as int), field@)
                == Ok::<Seq<SeasonView>, Fault>(
                season_views(out@),
            ),
            season_seq_wf(season_views(out@)),
        decreases items.len() - i,
    {
        let ghost all = docs_of(items@);
        let ghost before = out@;
        proof {
            assert(all.take(i + 1).drop_last() =~= all.take(i as int));
            assert(all.take(i + 1).last() == items@[i as int]@);
            assert(decreases_to!(*items => items@));
            assert(decreases_to!(items@ => items@[i as int]));
        }
        match Season::parse(&items[i], field) {
            Ok(x) => {
                let ghost one = season_view(x);
                out.push(x);
                proof {
                    assert(season_views(out@) =~= season_views(before).push(one));
                }
            },
            Err(e) => {
                proof {
                    lemma_season_seq_fails(all, field@, i as int);
                }
                return Err(e);
            },
        }
        i += 1;
    }
    proof {
        assert(docs_of(items@).take(i as int) =~= docs_of(items@));
    }
    Ok(out)
}

/// Writes a run of seasons.
pub fn emit_season_seq(xs: &Vec<Season>) -> (out: Vec<Value>)
    ensures
        docs_of(out@) == encode_season_seq(season_views(xs@)),
    decreases xs, 0int,
{
    let mut out: Vec<Value> = Vec::new();
    let mut i: usize = 0;
    while i < xs.len()
        invariant
            i <= xs.len(),
            out@.len() == i,
            forall|j: int| 0 <= j < i
                ==> (#[trigger] out@[j])@ == encode_season(season_view(xs@[j])),
        decreases xs.len() - i,
    {
        proof {
            assert(decreases_to!(*xs => xs@));
            assert(decreases_to!(xs@ => xs@[i as int]));
        }
        out.push(xs[i].to_value());
        i += 1;
    }
    proof {
        assert(docs_of(out@) =~= encode_season_seq(season_views(xs@)));
    }
    out
}

/// A run of well-formed seasons written and read again is the same
/// run.
pub proof fn lemma_season_seq_round_trip(xs: Seq<SeasonView>, field: Seq<char>)
    requires
        season_seq_wf(xs),
    ensures
        decode_season_seq(encode_season_seq(xs), field) == Ok::<Seq<SeasonView>, Fault>(xs),
    decreases xs, 0int,
{
    if xs.len() > 0 {
        let docs = encode_season_seq(xs);
        assert(docs.drop_last() =~= encode_season_seq(xs.drop_last()));
        assert(season_seq_wf(xs.drop_last())) by {
            assert forall|i: int| 0 <= i < xs.drop_last().len()
                implies season_wf((#[trigger] xs.drop_last()[i])) by {
                assert(xs.drop_last()[i] == xs[i]);
            }
        }
        lemma_season_seq_round_trip(xs.drop_last(), field);
        assert(season_wf(xs.last()));
        lemma_season_round_trip(xs.last(), field);
        assert(xs.drop_last().push(xs.last()) =~= xs);
    } else {
        assert(xs =~= Seq::<SeasonView>::empty());
    }
}

/// A copy of a run of seasons.
pub(crate) fn copy_season_seq(xs: &Vec<Season>) -> (out: Vec<Season>)
    ensures
        season_views(out@) == season_views(xs@),
    decreases xs, 0int,
{
    let mut out: Vec<Season> = Vec::new();
    let mut i: usize = 0;
    while i < xs.len()
        invariant
            i <= xs.len(),
            out@.len() == i,
            forall|j: int| 0 <= j < i ==> season_view((#[trigger] out@[j])) == season_view(xs@[j]),
        decreases xs.len() - i,
    {
        proof {
            assert(decreases_to!(*xs => xs@));
            assert(decreases_to!(xs@ => xs@[i as int]));
        }
        out.push(copy_season(&xs[i]));
        i += 1;
    }
    proof {
        assert(season_views(out@) =~= season_views(xs@));
    }
    out
}

/// What the items of a sequence give as seasons is well formed.
pub proof fn lemma_decode_season_seq_wf(items: Seq<Doc>, field: Seq<char>)
    ensures
        decode_season_seq(items, field) matches Ok(xs) ==> season_seq_wf(xs),
    decreases items, 0int,
{
    if items.len() > 0 {
        lemma_decode_season_seq_wf(items.drop_last(), field);
        lemma_decode_season_wf(items.last(), field);
        if let Ok(init) = decode_season_seq(items.drop_last(), field) {
            if let Ok(x) = decode_season(items.last(), field) {
                let xs = init.push(x);
                assert forall|i: int| 0 <= i < xs.len() implies season_wf((#[trigger] xs[i])) by {
                    if i < init.len() {
                        assert(xs[i] == init[i]);
                    }
                }
            }
        }
    }
}

/// What a field of seasons gives that may be written as one bare
/// season is well formed.
pub proof fn lemma_read_season_flat_wf(m: Seq<(Seq<char>, Doc)>, key: Seq<char>)
    ensures
        read_season_flat(m, key) matches Ok(xs) ==> season_seq_wf(xs),
    decreases m, 0int,
{
    lemma_index_of(m, key);
    let i = index_of(m, key);
    if 0 <= i < m.len() {
        assert(decreases_to!(m => m[i]));
        assert(decreases_to!(m[i] => m[i].1));
        if let Doc::Array(items) = m[i].1 {
            assert(decreases_to!(m[i].1 => m[i].1->Array_0));
            lemma_decode_season_seq_wf(items, key);
        } else {
            lemma_decode_season_wf(m[i].1, key);
        }
    }
}

/// What a field of seasons holds that may be written as one bare
/// season: nothing where it is absent, the items of a sequence, or the
/// one season that stands there.
pub open spec fn read_season_flat(
    m: Seq<(Seq<char>, Doc)>,
    key: Seq<char>,
) -> Result<Seq<SeasonView>, Fault>
    decreases m, 0int,
{
    let i = index_of(m, key);
    if 0 <= i < m.len() {
        match m[i].1 {
            Doc::Array(items) => decode_season_seq(items, key),
            _ => if shape_of(m[i].1) == Shape::Natural || shape_of(m[i].1) == Shape::Object {
                match decode_season(m[i].1, key) {
                    Ok(x) => Ok(seq![x]),
                    Err(e) => Err(e),
                }
            } else {
                Err(mismatch(key, flat_numbered_shapes(), shape_of(m[i].1)))
            },
        }
    } else {
        Ok(Seq::empty())
    }
}

/// The written form of such a field: left out where the list is empty,
/// the bare season where there is one, a sequence otherwise.
pub open spec fn write_season_flat(xs: Seq<SeasonView>) -> Option<Doc>
    decreases xs, 1int,
{
    collapsed(encode_season_seq(xs))
}

/// Reads a field of seasons that may be written as one bare season.
pub fn get_season_flat(
    members: &Vec<(String, Value)>,
    key: &str,
) -> (r: Result<Vec<Season>, ParseError>)
    ensures
        match r {
            Ok(xs) => read_season_flat(members_of(members@), key@)
                == Ok::<Seq<SeasonView>, Fault>(season_views(xs@)),
            Err(e) => read_season_flat(members_of(members@), key@)
                == Err::<Seq<SeasonView>, Fault>(e@),
        },
        r matches Ok(xs) ==> season_seq_wf(season_views(xs@)),
    decreases members, 0int,
{
    match position(members, key) {
        None => {
            let xs: Vec<Season> = Vec::new();
            proof {
                assert(season_views(xs@) =~= Seq::<SeasonView>::empty());
            }
            Ok(xs)
        },
        Some(i) => {
            proof {
                assert(members_of(members@)[i as int].1 == members@[i as int].1@);
                assert(decreases_to!(*members => members@));
                assert(decreases_to!(members@ => members@[i as int]));
                assert(decreases_to!(members@[i as int] => members@[i as int].1));
            }
            match &members[i].1 {
                Value::Array(items) => {
                    proof {
                        assert(decreases_to!(members@[i as int].1 => members@[i as int].1->Array_0));
                    }
                    match parse_season_seq(items, key) {
                        Ok(xs) => Ok(FlattenedVec::Vec(xs).into_vec()),
                        Err(e) => Err(e),
                    }
                },
                v => {
                    let shape = v.shape();
                    if shape == Shape::Natural || shape == Shape::Object {
                        match Season::parse(v, key) {
                            Ok(x) => {
                                let ghost one = season_view(x);
                                let xs = FlattenedVec::Singleton(x).into_vec();
                                proof {
                                    assert(season_views(xs@) =~= seq![one]);
                                }
                                Ok(xs)
                            },
                            Err(e) => Err(e),
                        }
                    } else {
                        Err(wrong_shape(key, shapes3(Shape::Natural, Shape::Object, Shape::Array), v))
                    }
                },
            }
        },
    }
}

/// Writes a field of seasons that may be cut short.
pub fn make_season_flat(xs: &Vec<Season>) -> (r: Option<Value>)
    ensures
        opt_doc(r) == write_season_flat(season_views(xs@)),
    decreases xs, 1int,
{
    collapse(emit_season_seq(xs))
}

/// A field of well-formed seasons that may be cut short holds the same
/// seasons when it is written and read again.
pub proof fn lemma_season_flat_round_trip(
    xs: Seq<SeasonView>,
    m: Seq<(Seq<char>, Doc)>,
    key: Seq<char>,
)
    requires
        season_seq_wf(xs),
        lookup(m, key) == write_season_flat(xs),
    ensures
        read_season_flat(m, key) == Ok::<Seq<SeasonView>, Fault>(xs),
    decreases xs, 1int,
{
    lemma_lookup_index(m, key);
    if xs.len() == 0 {
        assert(xs =~= Seq::<SeasonView>::empty());
    } else if xs.len() == 1 {
        assert(season_wf(xs[0]));
        lemma_season_round_trip(xs[0], key);
        assert(encode_season_seq(xs)[0] == encode_season(xs[0]));
        assert(seq![xs[0]] =~= xs);
    } else {
        lemma_season_seq_round_trip(xs, key);
    }
}

/// The models of a run of story arcs.
pub open spec fn story_arc_views(xs: Seq<StoryArc>) -> Seq<StoryArcView>
    decreases xs,
{
    Seq::new(
        xs.len(),
        |i: int|
            if 0 <= i < xs.len() {
                story_arc_view(xs[i])
            } else {
                arbitrary()
            },
    )
}

/// Whether every story arc of a run is well formed.
pub open spec fn story_arc_seq_wf(xs: Seq<StoryArcView>) -> bool
    decreases xs,
{
    forall|i: int| 0 <= i < xs.len() ==> story_arc_wf((#[trigger] xs[i]))
}

/// The story arcs that the items of a sequence stand for, or the error
/// of the first item that stands for none.
pub open spec fn decode_story_arc_seq(
    items: Seq<Doc>,
    field: Seq<char>,
) -> Result<Seq<StoryArcView>, Fault>
    decreases items, 0int,
{
    if items.len() == 0 {
        Ok(Seq::empty())
    } else {
        match decode_story_arc_seq(items.drop_last(), field) {
            Err(e) => Err(e),
            Ok(init) => match decode_story_arc(items.last(), field) {
                Err(e) => Err(e),
                Ok(x) => Ok(init.push(x)),
            },
        }
    }
}

/// The written forms of a run of story arcs.
pub open spec fn encode_story_arc_seq(xs: Seq<StoryArcView>) -> Seq<Doc>
    decreases xs, 0int,
{
    Seq::new(
        xs.len(),
        |i: int|
            if 0 <= i < xs.len() {
                encode_story_arc(xs[i])
            } else {
                Doc::Null
            },
    )
}

/// Where the items before `i` can be read and item `i` cannot, the
/// sequence gives the error of item `i`.
pub proof fn lemma_story_arc_seq_fails(items: Seq<Doc>, field: Seq<char>, i: int)
    requires
        0 <= i < items.len(),
        decode_story_arc_seq(items.take(i), field) is Ok,
        decode_story_arc(items[i], field) is Err,
    ensures
        decode_story_arc_seq(items, field)
            == Err::<Seq<StoryArcView>, Fault>(decode_story_arc(items[i], field)->Err_0),
    decreases items.len(),
{
    if i == items.len() - 1 {
        assert(items.take(i) =~= items.drop_last());
    } else {
        assert(items.drop_last().take(i) =~= items.take(i));
        lemma_story_arc_seq_fails(items.drop_last(), field, i);
    }
}

/// Reads the items of a sequence as story arcs.
pub fn parse_story_arc_seq(
    items: &Vec<Value>,
    field: &str,
) -> (r: Result<Vec<StoryArc>, ParseError>)
    ensures
        match r {
            Ok(xs) => decode_story_arc_seq(docs_of(items@), field@)
                == Ok::<Seq<StoryArcView>, Fault>(story_arc_views(xs@)),
            Err(e) => decode_story_arc_seq(docs_of(items@), field@)
                == Err::<Seq<StoryArcView>, Fault>(e@),
        },
        r matches Ok(xs) ==> story_arc_seq_wf(story_arc_views(xs@)),
    decreases items, 0int,
{
    let mut out: Vec<StoryArc> = Vec::new();
    let mut i: usize = 0;
    proof {
        assert(story_arc_views(out@) =~= Seq::<StoryArcView>::empty());
    }
    while i < items.len()
        invariant
            i <= items.len(),
            decode_story_arc_seq(docs_of(items@).take(i as int), field@)
                == Ok::<Seq<StoryArcView>, Fault>(
                story_arc_views(out@),
            ),
            story_arc_seq_wf(story_arc_views(out@)),
        decreases items.len() - i,
    {
        let ghost all = docs_of(items@);
        let ghost before = out@;
        proof {
            assert(all.take(i + 1).drop_last() =~= all.take(i as int));
            assert(all.take(i + 1).last() == items@[i as int]@);
            assert(decreases_to!(*items => items@));
            assert(decreases_to!(items@ => items@[i as int]));
        }
        match StoryArc::parse(&items[i], field) {
            Ok(x) => {
                let ghost one = story_arc_view(x);
                out.push(x);
                proof {
                    assert(story_arc_views(out@) =~= story_arc_views(before).push(one));
                }
            },
            Err(e) => {
                proof {
                    lemma_story_arc_seq_fails(all, field@, i as int);
                }
                return Err(e);
            },
        }
        i += 1;
    }
    proof {
        assert(docs_of(items@).take(i as int) =~= docs_of(items@));
    }
    Ok(out)
}

/// Writes a run of story arcs.
pub fn emit_story_arc_seq(xs: &Vec<StoryArc>) -> (out: Vec<Value>)
    ensures
        docs_of(out@) == encode_story_arc_seq(story_arc_views(xs@)),
    decreases xs, 0int,
{
    let mut out: Vec<Value> = Vec::new();
    let mut i: usize = 0;
    while i < xs.len()
        invariant
            i <= xs.len(),
            out@.len() == i,
            forall|j: int| 0 <= j < i
                ==> (#[trigger] out@[j])@ == encode_story_arc(story_arc_view(xs@[j])),
        decreases xs.len() - i,
    {
        proof {
            assert(decreases_to!(*xs => xs@));
            assert(decreases_to!(xs@ => xs@[i as int]));
        }
        out.push(xs[i].to_value());
        i += 1;
    }
    proof {
        assert(docs_of(out@) =~= encode_story_arc_seq(story_arc_views(xs@)));
    }
    out
}

/// A run of well-formed story arcs written and read again is the same
/// run.
pub proof fn lemma_story_arc_seq_round_trip(xs: Seq<StoryArcView>, field: Seq<char>)
    requires
        story_arc_seq_wf(xs),
    ensures
        decode_story_arc_seq(encode_story_arc_seq(xs), field) == Ok::<Seq<StoryArcView>, Fault>(xs),
    decreases xs, 0int,
{
    if xs.len() > 0 {
        let docs = encode_story_arc_seq(xs);
        assert(docs.drop_last() =~= encode_story_arc_seq(xs.drop_last()));
        assert(story_arc_seq_wf(xs.drop_last())) by {
            assert forall|i: int| 0 <= i < xs.drop_last().len()
                implies story_arc_wf((#[trigger] xs.drop_last()[i])) by {
                assert(xs.drop_last()[i] == xs[i]);
            }
        }
        lemma_story_arc_seq_round_trip(xs.drop_last(), field);
        assert(story_arc_wf(xs.last()));
        lemma_story_arc_round_trip(xs.last(), field);
        assert(xs.drop_last().push(xs.last()) =~= xs);
    } else {
        assert(xs =~= Seq::<StoryArcView>::empty());
    }
}

/// A copy of a run of story arcs.
pub(crate) fn copy_story_arc_seq(xs: &Vec<StoryArc>) -> (out: Vec<StoryArc>)
    ensures
        story_arc_views(out@) == story_arc_views(xs@),
    decreases xs, 0int,
{
    let mut out: Vec<StoryArc> = Vec::new();
    let mut i: usize = 0;
    while i < xs.len()
        invariant
            i <= xs.len(),
            out@.len() == i,
            forall|j: int| 0 <= j < i
                ==> story_arc_view((#[trigger] out@[j])) == story_arc_view(xs@[j]),
        decreases xs.len() - i,
    {
        proof {
            assert(decreases_to!(*xs => xs@));
            assert(decreases_to!(xs@ => xs@[i as int]));
        }
        out.push(copy_story_arc(&xs[i]));
        i += 1;
    }
    proof {
        assert(story_arc_views(out@) =~= story_arc_views(xs@));
    }
    out
}

/// What the items of a sequence give as story arcs is well formed.
pub proof fn lemma_decode_story_arc_seq_wf(items: Seq<Doc>, field: Seq<char>)
    ensures
        decode_story_arc_seq(items, field) matches Ok(xs) ==> story_arc_seq_wf(xs),
    decreases items, 0int,
{
    if items.len() > 0 {
        lemma_decode_story_arc_seq_wf(items.drop_last(), field);
        lemma_decode_story_arc_wf(items.last(), field);
        if let Ok(init) = decode_story_arc_seq(items.drop_last(), field) {
            if let Ok(x) = decode_story_arc(items.last(), field) {
                let xs = init.push(x);
                assert forall|i: int| 0 <= i < xs.len()
                    implies story_arc_wf((#[trigger] xs[i])) by {
                    if i < init.len() {
                        assert(xs[i] == init[i]);
                    }
                }
            }
        }
    }
}

/// What a field of story arcs gives that may be written as one bare
/// story arc is well formed.
pub proof fn lemma_read_story_arc_flat_wf(m: Seq<(Seq<char>, Doc)>, key: Seq<char>)
    ensures
        read_story_arc_flat(m, key) matches Ok(xs) ==> story_arc_seq_wf(xs),
    decreases m, 0int,
{
    lemma_index_of(m, key);
    let i = index_of(m, key);
    if 0 <= i < m.len() {
        assert(decreases_to!(m => m[i]));
        assert(decreases_to!(m[i] => m[i].1));
        if let Doc::Array(items) = m[i].1 {
            assert(decreases_to!(m[i].1 => m[i].1->Array_0));
            lemma_decode_story_arc_seq_wf(items, key);
        } else {
            lemma_decode_story_arc_wf(m[i].1, key);
        }
    }
}

/// What a field of story arcs holds that may be written as one bare
/// story arc: nothing where it is absent, the items of a sequence, or the
/// one story arc that stands there.
pub open spec fn read_story_arc_flat(
    m: Seq<(Seq<char>, Doc)>,
    key: Seq<char>,
) -> Result<Seq<StoryArcView>, Fault>
    decreases m, 0int,
{
    let i = index_of(m, key);
    if 0 <= i < m.len() {
        match m[i].1 {
            Doc::Array(items) => decode_story_arc_seq(items, key),
            _ => if shape_of(m[i].1) == Shape::Natural || shape_of(m[i].1) == Shape::Object {
                match decode_story_arc(m[i].1, key) {
                    Ok(x) => Ok(seq![x]),
                    Err(e) => Err(e),
                }
            } else {
                Err(mismatch(key, flat_numbered_shapes(), shape_of(m[i].1)))
            },
        }
    } else {
        Ok(Seq::empty())
    }
}

/// The written form of such a field: left out where the list is empty,
/// the bare story arc where there is one, a sequence otherwise.
pub open spec fn write_story_arc_flat(xs: Seq<StoryArcView>) -> Option<Doc>
    decreases xs, 1int,
{
    collapsed(encode_story_arc_seq(xs))
}

/// Reads a field of story arcs that may be written as one bare story arc.
pub fn get_story_arc_flat(
    members: &Vec<(String, Value)>,
    key: &str,
) -> (r: Result<Vec<StoryArc>, ParseError>)
    ensures
        match r {
            Ok(xs) => read_story_arc_flat(members_of(members@), key@)
                == Ok::<Seq<StoryArcView>, Fault>(story_arc_views(xs@)),
            Err(e) => read_story_arc_flat(members_of(members@), key@)
                == Err::<Seq<StoryArcView>, Fault>(e@),
        },
        r matches Ok(xs) ==> story_arc_seq_wf(story_arc_views(xs@)),
    decreases members, 0int,
{
    match position(members, key) {
        None => {
            let xs: Vec<StoryArc> = Vec::new();
            proof {
                assert(story_arc_views(xs@) =~= Seq::<StoryArcView>::empty());
            }
            Ok(xs)
        },
        Some(i) => {
            proof {
                assert(members_of(members@)[i as int].1 == members@[i as int].1@);
                assert(decreases_to!(*members => members@));
                assert(decreases_to!(members@ => members@[i as int]));
                assert(decreases_to!(members@[i as int] => members@[i as int].1));
            }
            match &members[i].1 {
                Value::Array(items) => {
                    proof {
                        assert(decreases_to!(members@[i as int].1 => members@[i as int].1->Array_0));
                    }
                    match parse_story_arc_seq(items, key) {
                        Ok(xs) => Ok(FlattenedVec::Vec(xs).into_vec()),
                        Err(e) => Err(e),
                    }
                },
                v => {
                    let shape = v.shape();
                    if shape == Shape::Natural || shape == Shape::Object {
                        match StoryArc::parse(v, key) {
                            Ok(x) => {
                                let ghost one = story_arc_view(x);
                                let xs = FlattenedVec::Singleton(x).into_vec();
                                proof {
                                    assert(story_arc_views(xs@) =~= seq![one]);
                                }
                                Ok(xs)
                            },
                            Err(e) => Err(e),
                        }
                    } else {
                        Err(wrong_shape(key, shapes3(Shape::Natural, Shape::Object, Shape::Array), v))
                    }
                },
            }
        },
    }
}

/// Writes a field of story arcs that may be cut short.
pub fn make_story_arc_flat(xs: &Vec<StoryArc>) -> (r: Option<Value>)
    ensures
        opt_doc(r) == write_story_arc_flat(story_arc_views(xs@)),
    decreases xs, 1int,
{
    collapse(emit_story_arc_seq(xs))
}

/// A field of well-formed story arcs that may be cut short holds the same
/// story arcs when it is written and read again.
pub proof fn lemma_story_arc_flat_round_trip(
    xs: Seq<StoryArcView>,
    m: Seq<(Seq<char>, Doc)>,
    key: Seq<char>,
)
    requires
        story_arc_seq_wf(xs),
        lookup(m, key) == write_story_arc_flat(xs),
    ensures
        read_story_arc_flat(m, key) == Ok::<Seq<StoryArcView>, Fault>(xs),
    decreases xs, 1int,
{
    lemma_lookup_index(m, key);
    if xs.len() == 0 {
        assert(xs =~= Seq::<StoryArcView>::empty());
    } else if xs.len() == 1 {
        assert(story_arc_wf(xs[0]));
        lemma_story_arc_round_trip(xs[0], key);
        assert(encode_story_arc_seq(xs)[0] == encode_story_arc(xs[0]));
        assert(seq![xs[0]] =~= xs);
    } else {
        lemma_story_arc_seq_round_trip(xs, key);
    }
}

/// The models of a run of issues.
pub open spec fn issue_views(xs: Seq<Issue>) -> Seq<IssueView>
    decreases xs,
{
    Seq::new(
        xs.len(),
        |i: int|
            if 0 <= i < xs.len() {
                issue_view(xs[i])
            } else {
                arbitrary()
            },
    )
}

/// Whether every issue of a run is well formed.
pub open spec fn issue_seq_wf(xs: Seq<IssueView>) -> bool
    decreases xs,
{
    forall|i: int| 0 <= i < xs.len() ==> issue_wf((#[trigger] xs[i]))
}

/// The issues that the items of a sequence stand for, or the error
/// of the first item that stands for none.
pub open spec fn decode_issue_seq(
    items: Seq<Doc>,
    field: Seq<char>,
) -> Result<Seq<IssueView>, Fault>
    decreases items, 0int,
{
    if items.len() == 0 {
        Ok(Seq::empty())
    } else {
        match decode_issue_seq(items.drop_last(), field) {
            Err(e) => Err(e),
            Ok(init) => match decode_issue(items.last(), field) {
                Err(e) => Err(e),
                Ok(x) => Ok(init.push(x)),
            },
        }
    }
}

/// The written forms of a run of issues.
pub open spec fn encode_issue_seq(xs: Seq<IssueView>) -> Seq<Doc>
    decreases xs, 0int,
{
    Seq::new(
        xs.len(),
        |i: int|
            if 0 <= i < xs.len() {
                encode_issue(xs[i])
            } else {
                Doc::Null
            },
    )
}

/// Where the items before `i` can be read and item `i` cannot, the
/// sequence gives the error of item `i`.
pub proof fn lemma_issue_seq_fails(items: Seq<Doc>, field: Seq<char>, i: int)
    requires
        0 <= i < items.len(),
        decode_issue_seq(items.take(i), field) is Ok,
        decode_issue(items[i], field) is Err,
    ensures
        decode_issue_seq(items, field)
            == Err::<Seq<IssueView>, Fault>(decode_issue(items[i], field)->Err_0),
    decreases items.len(),
{
    if i == items.len() - 1 {
        assert(items.take(i) =~= items.drop_last());
    } else {
        assert(items.drop_last().take(i) =~= items.take(i));
        lemma_issue_seq_fails(items.drop_last(), field, i);
    }
}

/// Reads the items of a sequence as issues.
pub fn parse_issue_seq(items: &Vec<Value>, field: &str) -> (r: Result<Vec<Issue>, ParseError>)
    ensures
        match r {
            Ok(xs) => decode_issue_seq(docs_of(items@), field@)
                == Ok::<Seq<IssueView>, Fault>(issue_views(xs@)),
            Err(e) => decode_issue_seq(docs_of(items@), field@) == Err::<Seq<IssueView>, Fault>(e@),
        },
        r matches Ok(xs) ==> issue_seq_wf(issue_views(xs@)),
    decreases items, 0int,
{
    let mut out: Vec<Issue> = Vec::new();
    let mut i: usize = 0;
    proof {
        assert(issue_views(out@) =~= Seq::<IssueView>::empty());
    }
    while i < items.len()
        invariant
            i <= items.len(),
            decode_issue_seq(docs_of(items@).take(i as int), field@) == Ok::<Seq<IssueView>, Fault>(
                issue_views(out@),
            ),
            issue_seq_wf(issue_views(out@)),
        decreases items.len() - i,
    {
        let ghost all = docs_of(items@);
        let ghost before = out@;
        proof {
            assert(all.take(i + 1).drop_last() =~= all.take(i as int));
            assert(all.take(i + 1).last() == items@[i as int]@);
            assert(decreases_to!(*items => items@));
            assert(decreases_to!(items@ => items@[i as int]));
        }
        match Issue::parse(&items[i], field) {
            Ok(x) => {
                let ghost one = issue_view(x);
                out.push(x);
                proof {
                    assert(issue_views(out@) =~= issue_views(before).push(one));
                }
            },
            Err(e) => {
                proof {
                    lemma_issue_seq_fails(all, field@, i as int);
                }
                return Err(e);
            },
        }
        i += 1;
    }
    proof {
        assert(docs_of(items@).take(i as int) =~= docs_of(items@));
    }
    Ok(out)
}

/// Writes a run of issues.
pub fn emit_issue_seq(xs: &Vec<Issue>) -> (out: Vec<Value>)
    ensures
        docs_of(out@) == encode_issue_seq(issue_views(xs@)),
    decreases xs, 0int,
{
    let mut out: Vec<Value> = Vec::new();
    let mut i: usize = 0;
    while i < xs.len()
        invariant
            i <= xs.len(),
            out@.len() == i,
            forall|j: int| 0 <= j < i ==> (#[trigger] out@[j])@ == encode_issue(issue_view(xs@[j])),
        decreases xs.len() - i,
    {
        proof {
            assert(decreases_to!(*xs => xs@));
            assert(decreases_to!(xs@ => xs@[i as int]));
        }
        out.push(xs[i].to_value());
        i += 1;
    }
    proof {
        assert(docs_of(out@) =~= encode_issue_seq(issue_views(xs@)));
    }
    out
}

/// A run of well-formed issues written and read again is the same
/// run.
pub proof fn lemma_issue_seq_round_trip(xs: Seq<IssueView>, field: Seq<char>)
    requires
        issue_seq_wf(xs),
    ensures
        decode_issue_seq(encode_issue_seq(xs), field) == Ok::<Seq<IssueView>, Fault>(xs),
    decreases xs, 0int,
{
    if xs.len() > 0 {
        let docs = encode_issue_seq(xs);
        assert(docs.drop_last() =~= encode_issue_seq(xs.drop_last()));
        assert(issue_seq_wf(xs.drop_last())) by {
            assert forall|i: int| 0 <= i < xs.drop_last().len()
                implies issue_wf((#[trigger] xs.drop_last()[i])) by {
                assert(xs.drop_last()[i] == xs[i]);
            }
        }
        lemma_issue_seq_round_trip(xs.drop_last(), field);
        assert(issue_wf(xs.last()));
        lemma_issue_round_trip(xs.last(), field);
        assert(xs.drop_last().push(xs.last()) =~= xs);
    } else {
        assert(xs =~= Seq::<IssueView>::empty());
    }
}

/// A copy of a run of issues.
pub(crate) fn copy_issue_seq(xs: &Vec<Issue>) -> (out: Vec<Issue>)
    ensures
        issue_views(out@) == issue_views(xs@),
    decreases xs, 0int,
{
    let mut out: Vec<Issue> = Vec::new();
    let mut i: usize = 0;
    while i < xs.len()
        invariant
            i <= xs.len(),
            out@.len() == i,
            forall|j: int| 0 <= j < i ==> issue_view((#[trigger] out@[j])) == issue_view(xs@[j]),
        decreases xs.len() - i,
    {
        proof {
            assert(decreases_to!(*xs => xs@));
            assert(decreases_to!(xs@ => xs@[i as int]));
        }
        out.push(copy_issue(&xs[i]));
        i += 1;
    }
    proof {
        assert(issue_views(out@) =~= issue_views(xs@));
    }
    out
}

/// What the items of a sequence give as issues is well formed.
pub proof fn lemma_decode_issue_seq_wf(items: Seq<Doc>, field: Seq<char>)
    ensures
        decode_issue_seq(items, field) matches Ok(xs) ==> issue_seq_wf(xs),
    decreases items, 0int,
{
    if items.len() > 0 {
        lemma_decode_issue_seq_wf(items.drop_last(), field);
        lemma_decode_issue_wf(items.last(), field);
        if let Ok(init) = decode_issue_seq(items.drop_last(), field) {
            if let Ok(x) = decode_issue(items.last(), field) {
                let xs = init.push(x);
                assert forall|i: int| 0 <= i < xs.len() implies issue_wf((#[trigger] xs[i])) by {
                    if i < init.len() {
                        assert(xs[i] == init[i]);
                    }
                }
            }
        }
    }
}

/// What a field of issues gives that may be written as one bare
/// issue is well formed.
pub proof fn lemma_read_issue_flat_wf(m: Seq<(Seq<char>, Doc)>, key: Seq<char>)
    ensures
        read_issue_flat(m, key) matches Ok(xs) ==> issue_seq_wf(xs),
    decreases m, 0int,
{
    lemma_index_of(m, key);
    let i = index_of(m, key);
    if 0 <= i < m.len() {
        assert(decreases_to!(m => m[i]));
        assert(decreases_to!(m[i] => m[i].1));
        if let Doc::Array(items) = m[i].1 {
            assert(decreases_to!(m[i].1 => m[i].1->Array_0));
            lemma_decode_issue_seq_wf(items, key);
        } else {
            lemma_decode_issue_wf(m[i].1, key);
        }
    }
}

/// What a field of issues holds that may be written as one bare
/// issue: nothing where it is absent, the items of a sequence, or the
/// one issue that stands there.
pub open spec fn read_issue_flat(
    m: Seq<(Seq<char>, Doc)>,
    key: Seq<char>,
) -> Result<Seq<IssueView>, Fault>
    decreases m, 0int,
{
    let i = index_of(m, key);
    if 0 <= i < m.len() {
        match m[i].1 {
            Doc::Array(items) => decode_issue_seq(items, key),
            _ => if shape_of(m[i].1) == Shape::Natural || shape_of(m[i].1) == Shape::Object {
                match decode_issue(m[i].1, key) {
                    Ok(x) => Ok(seq![x]),
                    Err(e) => Err(e),
                }
            } else {
                Err(mismatch(key, flat_numbered_shapes(), shape_of(m[i].1)))
            },
        }
    } else {
        Ok(Seq::empty())
    }
}

/// The written form of such a field: left out where the list is empty,
/// the bare issue where there is one, a sequence otherwise.
pub open spec fn write_issue_flat(xs: Seq<IssueView>) -> Option<Doc>
    decreases xs, 1int,
{
    collapsed(encode_issue_seq(xs))
}

/// Reads a field of issues that may be written as one bare issue.
pub fn get_issue_flat(
    members: &Vec<(String, Value)>,
    key: &str,
) -> (r: Result<Vec<Issue>, ParseError>)
    ensures
        match r {
            Ok(xs) => read_issue_flat(members_of(members@), key@)
                == Ok::<Seq<IssueView>, Fault>(issue_views(xs@)),
            Err(e) => read_issue_flat(members_of(members@), key@)
                == Err::<Seq<IssueView>, Fault>(e@),
        },
        r matches Ok(xs) ==> issue_seq_wf(issue_views(xs@)),
    decreases members, 0int,
{
    match position(members, key) {
        None => {
            let xs: Vec<Issue> = Vec::new();
            proof {
                assert(issue_views(xs@) =~= Seq::<IssueView>::empty());
            }
            Ok(xs)
        },
        Some(i) => {
            proof {
                assert(members_of(members@)[i as int].1 == members@[i as int].1@);
                assert(decreases_to!(*members => members@));
                assert(decreases_to!(members@ => members@[i as int]));
                assert(decreases_to!(members@[i as int] => members@[i as int].1));
            }
            match &members[i].1 {
                Value::Array(items) => {
                    proof {
                        assert(decreases_to!(members@[i as int].1 => members@[i as int].1->Array_0));
                    }
                    match parse_issue_seq(items, key) {
                        Ok(xs) => Ok(FlattenedVec::Vec(xs).into_vec()),
                        Err(e) => Err(e),
                    }
                },
                v => {
                    let shape = v.shape();
                    if shape == Shape::Natural || shape == Shape::Object {
                        match Issue::parse(v, key) {
                            Ok(x) => {
                                let ghost one = issue_view(x);
                                let xs = FlattenedVec::Singleton(x).into_vec();
                                proof {
                                    assert(issue_views(xs@) =~= seq![one]);
                                }
                                Ok(xs)
                            },
                            Err(e) => Err(e),
                        }
                    } else {
                        Err(wrong_shape(key, shapes3(Shape::Natural, Shape::Object, Shape::Array), v))
                    }
                },
            }
        },
    }
}

/// Writes a field of issues that may be cut short.
pub fn make_issue_flat(xs: &Vec<Issue>) -> (r: Option<Value>)
    ensures
        opt_doc(r) == write_issue_flat(issue_views(xs@)),
    decreases xs, 1int,
{
    collapse(emit_issue_seq(xs))
}

/// A field of well-formed issues that may be cut short holds the same
/// issues when it is written and read again.
pub proof fn lemma_issue_flat_round_trip(
    xs: Seq<IssueView>,
    m: Seq<(Seq<char>, Doc)>,
    key: Seq<char>,
)
    requires
        issue_seq_wf(xs),
        lookup(m, key) == write_issue_flat(xs),
    ensures
        read_issue_flat(m, key) == Ok::<Seq<IssueView>, Fault>(xs),
    decreases xs, 1int,
{
    lemma_lookup_index(m, key);
    if xs.len() == 0 {
        assert(xs =~= Seq::<IssueView>::empty());
    } else if xs.len() == 1 {
        assert(issue_wf(xs[0]));
        lemma_issue_round_trip(xs[0], key);
        assert(encode_issue_seq(xs)[0] == encode_issue(xs[0]));
        assert(seq![xs[0]] =~= xs);
    } else {
        lemma_issue_seq_round_trip(xs, key);
    }
}

/// The models of a run of chapters.
pub open spec fn chapter_views(xs: Seq<Chapter>) -> Seq<ChapterView>
    decreases xs,
{
    Seq::new(
        xs.len(),
        |i: int|
            if 0 <= i < xs.len() {
                chapter_view(xs[i])
            } else {
                arbitrary()
            },
    )
}

/// Whether every chapter of a run is well formed.
pub open spec fn chapter_seq_wf(xs: Seq<ChapterView>) -> bool
    decreases xs,
{
    forall|i: int| 0 <= i < xs.len() ==> chapter_wf((#[trigger] xs[i]))
}

/// The chapters that the items of a sequence stand for, or the error
/// of the first item that stands for none.
pub open spec fn decode_chapter_seq(
    items: Seq<Doc>,
    field: Seq<char>,
) -> Result<Seq<ChapterView>, Fault>
    decreases items, 0int,
{
    if items.len() == 0 {
        Ok(Seq::empty())
    } else {
        match decode_chapter_seq(items.drop_last(), field) {
            Err(e) => Err(e),
            Ok(init) => match decode_chapter(items.last(), field) {
                Err(e) => Err(e),
                Ok(x) => Ok(init.push(x)),
            },
        }
    }
}

/// The written forms of a run of chapters.
pub open spec fn encode_chapter_seq(xs: Seq<ChapterView>) -> Seq<Doc>
    decreases xs, 0int,
{
    Seq::new(
        xs.len(),
        |i: int|
            if 0 <= i < xs.len() {
                encode_chapter(xs[i])
            } else {
                Doc::Null
            },
    )
}

/// Where the items before `i` can be read and item `i` cannot, the
/// sequence gives the error of item `i`.
pub proof fn lemma_chapter_seq_fails(items: Seq<Doc>, field: Seq<char>, i: int)
    requires
        0 <= i < items.len(),
        decode_chapter_seq(items.take(i), field) is Ok,
        decode_chapter(items[i], field) is Err,
    ensures
        decode_chapter_seq(items, field)
            == Err::<Seq<ChapterView>, Fault>(decode_chapter(items[i], field)->Err_0),
    decreases items.len(),
{
    if i == items.len() - 1 {
        assert(items.take(i) =~= items.drop_last());
    } else {
        assert(items.drop_last().take(i) =~= items.take(i));
        lemma_chapter_seq_fails(items.drop_last(), field, i);
    }
}

/// Reads the items of a sequence as chapters.
pub fn parse_chapter_seq(items: &Vec<Value>, field: &str) -> (r: Result<Vec<Chapter>, ParseError>)
    ensures
        match r {
            Ok(xs) => decode_chapter_seq(docs_of(items@), field@)
                == Ok::<Seq<ChapterView>, Fault>(chapter_views(xs@)),
            Err(e) => decode_chapter_seq(docs_of(items@), field@)
                == Err::<Seq<ChapterView>, Fault>(e@),
        },
        r matches Ok(xs) ==> chapter_seq_wf(chapter_views(xs@)),
    decreases items, 0int,
{
    let mut out: Vec<Chapter> = Vec::new();
    let mut i: usize = 0;
    proof {
        assert(chapter_views(out@) =~= Seq::<ChapterView>::empty());
    }
    while i < items.len()
        invariant
            i <= items.len(),
            decode_chapter_seq(docs_of(items@).take(i as int), field@)
                == Ok::<Seq<ChapterView>, Fault>(
                chapter_views(out@),
            ),
            chapter_seq_wf(chapter_views(out@)),
        decreases items.len() - i,
    {
        let ghost all = docs_of(items@);
        let ghost before = out@;
        proof {
            assert(all.take(i + 1).drop_last() =~= all.take(i as int));
            assert(all.take(i + 1).last() == items@[i as int]@);
            assert(decreases_to!(*items => items@));
            assert(decreases_to!(items@ => items@[i as int]));
        }
        match Chapter::parse(&items[i], field) {
            Ok(x) => {
                let ghost one = chapter_view(x);
                out.push(x);
                proof {
                    assert(chapter_views(out@) =~= chapter_views(before).push(one));
                }
            },
            Err(e) => {
                proof {
                    lemma_chapter_seq_fails(all, field@, i as int);
                }
                return Err(e);
            },
        }
        i += 1;
    }
    proof {
        assert(docs_of(items@).take(i as int) =~= docs_of(items@));
    }
    Ok(out)
}

/// Writes a run of chapters.
pub fn emit_chapter_seq(xs: &Vec<Chapter>) -> (out: Vec<Value>)
    ensures
        docs_of(out@) == encode_chapter_seq(chapter_views(xs@)),
    decreases xs, 0int,
{
    let mut out: Vec<Value> = Vec::new();
    let mut i: usize = 0;
    while i < xs.len()
        invariant
            i <= xs.len(),
            out@.len() == i,
            forall|j: int| 0 <= j < i
                ==> (#[trigger] out@[j])@ == encode_chapter(chapter_view(xs@[j])),
        decreases xs.len() - i,
    {
        proof {
            assert(decreases_to!(*xs => xs@));
            assert(decreases_to!(xs@ => xs@[i as int]));
        }
        out.push(xs[i].to_value());
        i += 1;
    }
    proof {
        assert(docs_of(out@) =~= encode_chapter_seq(chapter_views(xs@)));
    }
    out
}

/// A run of well-formed chapters written and read again is the same
/// run.
pub proof fn lemma_chapter_seq_round_trip(xs: Seq<ChapterView>, field: Seq<char>)
    requires
        chapter_seq_wf(xs),
    ensures
        decode_chapter_seq(encode_chapter_seq(xs), field) == Ok::<Seq<ChapterView>, Fault>(xs),
    decreases xs, 0int,
{
    if xs.len() > 0 {
        let docs = encode_chapter_seq(xs);
        assert(docs.drop_last() =~= encode_chapter_seq(xs.drop_last()));
        assert(chapter_seq_wf(xs.drop_last())) by {
            assert forall|i: int| 0 <= i < xs.drop_last().len()
                implies chapter_wf((#[trigger] xs.drop_last()[i])) by {
                assert(xs.drop_last()[i] == xs[i]);
            }
        }
        lemma_chapter_seq_round_trip(xs.drop_last(), field);
        assert(chapter_wf(xs.last()));
        lemma_chapter_round_trip(xs.last(), field);
        assert(xs.drop_last().push(xs.last()) =~= xs);
    } else {
        assert(xs =~= Seq::<ChapterView>::empty());
    }
}

/// A copy of a run of chapters.
pub(crate) fn copy_chapter_seq(xs: &Vec<Chapter>) -> (out: Vec<Chapter>)
    ensures
        chapter_views(out@) == chapter_views(xs@),
    decreases xs, 0int,
{
    let mut out: Vec<Chapter> = Vec::new();
    let mut i: usize = 0;
    while i < xs.len()
        invariant
            i <= xs.len(),
            out@.len() == i,
            forall|j: int| 0 <= j < i
                ==> chapter_view((#[trigger] out@[j])) == chapter_view(xs@[j]),
        decreases xs.len() - i,
    {
        proof {
            assert(decreases_to!(*xs => xs@));
            assert(decreases_to!(xs@ => xs@[i as int]));
        }
        out.push(copy_chapter(&xs[i]));
        i += 1;
    }
    proof {
        assert(chapter_views(out@) =~= chapter_views(xs@));
    }
    out
}

/// What the items of a sequence give as chapters is well formed.
pub proof fn lemma_decode_chapter_seq_wf(items: Seq<Doc>, field: Seq<char>)
    ensures
        decode_chapter_seq(items, field) matches Ok(xs) ==> chapter_seq_wf(xs),
    decreases items, 0int,
{
    if items.len() > 0 {
        lemma_decode_chapter_seq_wf(items.drop_last(), field);
        lemma_decode_chapter_wf(items.last(), field);
        if let Ok(init) = decode_chapter_seq(items.drop_last(), field) {
            if let Ok(x) = decode_chapter(items.last(), field) {
                let xs = init.push(x);
                assert forall|i: int| 0 <= i < xs.len() implies chapter_wf((#[trigger] xs[i])) by {
                    if i < init.len() {
                        assert(xs[i] == init[i]);
                    }
                }
            }
        }
    }
}

/// What a field of chapters gives that may be written as one bare
/// chapter is well formed.
pub proof fn lemma_read_chapter_flat_wf(m: Seq<(Seq<char>, Doc)>, key: Seq<char>)
    ensures
        read_chapter_flat(m, key) matches Ok(xs) ==> chapter_seq_wf(xs),
    decreases m, 0int,
{
    lemma_index_of(m, key);
    let i = index_of(m, key);
    if 0 <= i < m.len() {
        assert(decreases_to!(m => m[i]));
        assert(decreases_to!(m[i] => m[i].1));
        if let Doc::Array(items) = m[i].1 {
            assert(decreases_to!(m[i].1 => m[i].1->Array_0));
            lemma_decode_chapter_seq_wf(items, key);
        } else {
            lemma_decode_chapter_wf(m[i].1, key);
        }
    }
}

/// What a field of chapters holds that may be written as one bare
/// chapter: nothing where it is absent, the items of a sequence, or the
/// one chapter that stands there.
pub open spec fn read_chapter_flat(
    m: Seq<(Seq<char>, Doc)>,
    key: Seq<char>,
) -> Result<Seq<ChapterView>, Fault>
    decreases m, 0int,
{
    let i = index_of(m, key);
    if 0 <= i < m.len() {
        match m[i].1 {
            Doc::Array(items) => decode_chapter_seq(items, key),
            _ => if shape_of(m[i].1) == Shape::Natural || shape_of(m[i].1) == Shape::Object {
                match decode_chapter(m[i].1, key) {
                    Ok(x) => Ok(seq![x]),
                    Err(e) => Err(e),
                }
            } else {
                Err(mismatch(key, flat_numbered_shapes(), shape_of(m[i].1)))
            },
        }
    } else {
        Ok(Seq::empty())
    }
}

/// The written form of such a field: left out where the list is empty,
/// the bare chapter where there is one, a sequence otherwise.
pub open spec fn write_chapter_flat(xs: Seq<ChapterView>) -> Option<Doc>
    decreases xs, 1int,
{
    collapsed(encode_chapter_seq(xs))
}

/// Reads a field of chapters that may be written as one bare chapter.
pub fn get_chapter_flat(
    members: &Vec<(String, Value)>,
    key: &str,
) -> (r: Result<Vec<Chapter>, ParseError>)
    ensures
        match r {
            Ok(xs) => read_chapter_flat(members_of(members@), key@)
                == Ok::<Seq<ChapterView>, Fault>(chapter_views(xs@)),
            Err(e) => read_chapter_flat(members_of(members@), key@)
                == Err::<Seq<ChapterView>, Fault>(e@),
        },
        r matches Ok(xs) ==> chapter_seq_wf(chapter_views(xs@)),
    decreases members, 0int,
{
    match position(members, key) {
        None => {
            let xs: Vec<Chapter> = Vec::new();
            proof {
                assert(chapter_views(xs@) =~= Seq::<ChapterView>::empty());
            }
            Ok(xs)
        },
        Some(i) => {
            proof {
                assert(members_of(members@)[i as int].1 == members@[i as int].1@);
                assert(decreases_to!(*members => members@));
                assert(decreases_to!(members@ => members@[i as int]));
                assert(decreases_to!(members@[i as int] => members@[i as int].1));
            }
            match &members[i].1 {
                Value::Array(items) => {
                    proof {
                        assert(decreases_to!(members@[i as int].1 => members@[i as int].1->Array_0));
                    }
                    match parse_chapter_seq(items, key) {
                        Ok(xs) => Ok(FlattenedVec::Vec(xs).into_vec()),
                        Err(e) => Err(e),
                    }
                },
                v => {
                    let shape = v.shape();
                    if shape == Shape::Natural || shape == Shape::Object {
                        match Chapter::parse(v, key) {
                            Ok(x) => {
                                let ghost one = chapter_view(x);
                                let xs = FlattenedVec::Singleton(x).into_vec();
                                proof {
                                    assert(chapter_views(xs@) =~= seq![one]);
                                }
                                Ok(xs)
                            },
                            Err(e) => Err(e),
                        }
                    } else {
                        Err(wrong_shape(key, shapes3(Shape::Natural, Shape::Object, Shape::Array), v))
                    }
                },
            }
        },
    }
}

/// Writes a field of chapters that may be cut short.
pub fn make_chapter_flat(xs: &Vec<Chapter>) -> (r: Option<Value>)
    ensures
        opt_doc(r) == write_chapter_flat(chapter_views(xs@)),
    decreases xs, 1int,
{
    collapse(emit_chapter_seq(xs))
}

/// A field of well-formed chapters that may be cut short holds the same
/// chapters when it is written and read again.
pub proof fn lemma_chapter_flat_round_trip(
    xs: Seq<ChapterView>,
    m: Seq<(Seq<char>, Doc)>,
    key: Seq<char>,
)
    requires
        chapter_seq_wf(xs),
        lookup(m, key) == write_chapter_flat(xs),
    ensures
        read_chapter_flat(m, key) == Ok::<Seq<ChapterView>, Fault>(xs),
    decreases xs, 1int,
{
    lemma_lookup_index(m, key);
    if xs.len() == 0 {
        assert(xs =~= Seq::<ChapterView>::empty());
    } else if xs.len() == 1 {
        assert(chapter_wf(xs[0]));
        lemma_chapter_round_trip(xs[0], key);
        assert(encode_chapter_seq(xs)[0] == encode_chapter(xs[0]));
        assert(seq![xs[0]] =~= xs);
    } else {
        lemma_chapter_seq_round_trip(xs, key);
    }
}

/// The models of a run of series.
pub open spec fn series_views(xs: Seq<Series>) -> Seq<SeriesView>
    decreases xs,
{
    Seq::new(
        xs.len(),
        |i: int|
            if 0 <= i < xs.len() {
                series_view(xs[i])
            } else {
                arbitrary()
            },
    )
}

/// Whether every series of a run is well formed.
pub open spec fn series_seq_wf(xs: Seq<SeriesView>) -> bool
    decreases xs,
{
    forall|i: int| 0 <= i < xs.len() ==> series_wf((#[trigger] xs[i]))
}

/// The series that the items of a sequence stand for, or the error
/// of the first item that stands for none.
pub open spec fn decode_series_seq(
    items: Seq<Doc>,
    field: Seq<char>,
) -> Result<Seq<SeriesView>, Fault>
    decreases items, 0int,
{
    if items.len() == 0 {
        Ok(Seq::empty())
    } else {
        match decode_series_seq(items.drop_last(), field) {
            Err(e) => Err(e),
            Ok(init) => match decode_series(items.last(), field) {
                Err(e) => Err(e),
                Ok(x) => Ok(init.push(x)),
            },
        }
    }
}

/// The written forms of a run of series.
pub open spec fn encode_series_seq(xs: Seq<SeriesView>) -> Seq<Doc>
    decreases xs, 0int,
{
    Seq::new(
        xs.len(),
        |i: int|
            if 0 <= i < xs.len() {
                encode_series(xs[i])
            } else {
                Doc::Null
            },
    )
}

/// Where the items before `i` can be read and item `i` cannot, the
/// sequence gives the error of item `i`.
pub proof fn lemma_series_seq_fails(items: Seq<Doc>, field: Seq<char>, i: int)
    requires
        0 <= i < items.len(),
        decode_series_seq(items.take(i), field) is Ok,
        decode_series(items[i], field) is Err,
    ensures
        decode_series_seq(items, field)
            == Err::<Seq<SeriesView>, Fault>(decode_series(items[i], field)->Err_0),
    decreases items.len(),
{
    if i == items.len() - 1 {
        assert(items.take(i) =~= items.drop_last());
    } else {
        assert(items.drop_last().take(i) =~= items.take(i));
        lemma_series_seq_fails(items.drop_last(), field, i);
    }
}

/// Reads the items of a sequence as series.
pub fn parse_series_seq(items: &Vec<Value>, field: &str) -> (r: Result<Vec<Series>, ParseError>)
    ensures
        match r {
            Ok(xs) => decode_series_seq(docs_of(items@), field@)
                == Ok::<Seq<SeriesView>, Fault>(series_views(xs@)),
            Err(e) => decode_series_seq(docs_of(items@), field@)
                == Err::<Seq<SeriesView>, Fault>(e@),
        },
        r matches Ok(xs) ==> series_seq_wf(series_views(xs@)),
    decreases items, 0int,
{
    let mut out: Vec<Series> = Vec::new();
    let mut i: usize = 0;
    proof {
        assert(series_views(out@) =~= Seq::<SeriesView>::empty());
    }
    while i < items.len()
        invariant
            i <= items.len(),
            decode_series_seq(docs_of(items@).take(i as int), field@)
                == Ok::<Seq<SeriesView>, Fault>(
                series_views(out@),
            ),
            series_seq_wf(series_views(out@)),
        decreases items.len() - i,
    {
        let ghost all = docs_of(items@);
        let ghost before = out@;
        proof {
            assert(all.take(i + 1).drop_last() =~= all.take(i as int));
            assert(all.take(i + 1).last() == items@[i as int]@);
            assert(decreases_to!(*items => items@));
            assert(decreases_to!(items@ => items@[i as int]));
        }
        match Series::parse(&items[i], field) {
            Ok(x) => {
                let ghost one = series_view(x);
                out.push(x);
                proof {
                    assert(series_views(out@) =~= series_views(before).push(one));
                }
            },
            Err(e) => {
                proof {
                    lemma_series_seq_fails(all, field@, i as int);
                }
                return Err(e);
            },
        }
        i += 1;
    }
    proof {
        assert(docs_of(items@).take(i as int) =~= docs_of(items@));
    }
    Ok(out)
}

/// Writes a run of series.
pub fn emit_series_seq(xs: &Vec<Series>) -> (out: Vec<Value>)
    ensures
        docs_of(out@) == encode_series_seq(series_views(xs@)),
    decreases xs, 0int,
{
    let mut out: Vec<Value> = Vec::new();
    let mut i: usize = 0;
    while i < xs.len()
        invariant
            i <= xs.len(),
            out@.len() == i,
            forall|j: int| 0 <= j < i
                ==> (#[trigger] out@[j])@ == encode_series(series_view(xs@[j])),
        decreases xs.len() - i,
    {
        proof {
            assert(decreases_to!(*xs => xs@));
            assert(decreases_to!(xs@ => xs@[i as int]));
        }
        out.push(xs[i].to_value());
        i += 1;
    }
    proof {
        assert(docs_of(out@) =~= encode_series_seq(series_views(xs@)));
    }
    out
}

/// A run of well-formed series written and read again is the same
/// run.
pub proof fn lemma_series_seq_round_trip(xs: Seq<SeriesView>, field: Seq<char>)
    requires
        series_seq_wf(xs),
    ensures
        decode_series_seq(encode_series_seq(xs), field) == Ok::<Seq<SeriesView>, Fault>(xs),
    decreases xs, 0int,
{
    if xs.len() > 0 {
        let docs = encode_series_seq(xs);
        assert(docs.drop_last() =~= encode_series_seq(xs.drop_last()));
        assert(series_seq_wf(xs.drop_last())) by {
            assert forall|i: int| 0 <= i < xs.drop_last().len()
                implies series_wf((#[trigger] xs.drop_last()[i])) by {
                assert(xs.drop_last()[i] == xs[i]);
            }
        }
        lemma_series_seq_round_trip(xs.drop_last(), field);
        assert(series_wf(xs.last()));
        lemma_series_round_trip(xs.last(), field);
        assert(xs.drop_last().push(xs.last()) =~= xs);
    } else {
        assert(xs =~= Seq::<SeriesView>::empty());
    }
}

/// A copy of a run of series.
pub(crate) fn copy_series_seq(xs: &Vec<Series>) -> (out: Vec<Series>)
    ensures
        series_views(out@) == series_views(xs@),
    decreases xs, 0int,
{
    let mut out: Vec<Series> = Vec::new();
    let mut i: usize = 0;
    while i < xs.len()
        invariant
            i <= xs.len(),
            out@.len() == i,
            forall|j: int| 0 <= j < i ==> series_view((#[trigger] out@[j])) == series_view(xs@[j]),
        decreases xs.len() - i,
    {
        proof {
            assert(decreases_to!(*xs => xs@));
            assert(decreases_to!(xs@ => xs@[i as int]));
        }
        out.push(copy_series(&xs[i]));
        i += 1;
    }
    proof {
        assert(series_views(out@) =~= series_views(xs@));
    }
    out
}

/// What the items of a sequence give as series is well formed.
pub proof fn lemma_decode_series_seq_wf(items: Seq<Doc>, field: Seq<char>)
    ensures
        decode_series_seq(items, field) matches Ok(xs) ==> series_seq_wf(xs),
    decreases items, 0int,
{
    if items.len() > 0 {
        lemma_decode_series_seq_wf(items.drop_last(), field);
        lemma_decode_series_wf(items.last(), field);
        if let Ok(init) = decode_series_seq(items.drop_last(), field) {
            if let Ok(x) = decode_series(items.last(), field) {
                let xs = init.push(x);
                assert forall|i: int| 0 <= i < xs.len() implies series_wf((#[trigger] xs[i])) by {
                    if i < init.len() {
                        assert(xs[i] == init[i]);
                    }
                }
            }
        }
    }
}

/// What a field of series gives that may be written as one bare
/// series is well formed.
pub proof fn lemma_read_series_flat_wf(m: Seq<(Seq<char>, Doc)>, key: Seq<char>)
    ensures
        read_series_flat(m, key) matches Ok(xs) ==> series_seq_wf(xs),
    decreases m, 0int,
{
    lemma_index_of(m, key);
    let i = index_of(m, key);
    if 0 <= i < m.len() {
        assert(decreases_to!(m => m[i]));
        assert(decreases_to!(m[i] => m[i].1));
        if let Doc::Array(items) = m[i].1 {
            assert(decreases_to!(m[i].1 => m[i].1->Array_0));
            lemma_decode_series_seq_wf(items, key);
        } else {
            lemma_decode_series_wf(m[i].1, key);
        }
    }
}

/// What a field of series holds that may be written as one bare
/// series: nothing where it is absent, the items of a sequence, or the
/// one series that stands there.
pub open spec fn read_series_flat(
    m: Seq<(Seq<char>, Doc)>,
    key: Seq<char>,
) -> Result<Seq<SeriesView>, Fault>
    decreases m, 0int,
{
    let i = index_of(m, key);
    if 0 <= i < m.len() {
        match m[i].1 {
            Doc::Array(items) => decode_series_seq(items, key),
            _ => if shape_of(m[i].1) == Shape::String || shape_of(m[i].1) == Shape::Object {
                match decode_series(m[i].1, key) {
                    Ok(x) => Ok(seq![x]),
                    Err(e) => Err(e),
                }
            } else {
                Err(mismatch(key, flat_named_shapes(), shape_of(m[i].1)))
            },
        }
    } else {
        Ok(Seq::empty())
    }
}

/// The written form of such a field: left out where the list is empty,
/// the bare series where there is one, a sequence otherwise.
pub open spec fn write_series_flat(xs: Seq<SeriesView>) -> Option<Doc>
    decreases xs, 1int,
{
    collapsed(encode_series_seq(xs))
}

/// Reads a field of series that may be written as one bare series.
pub fn get_series_flat(
    members: &Vec<(String, Value)>,
    key: &str,
) -> (r: Result<Vec<Series>, ParseError>)
    ensures
        match r {
            Ok(xs) => read_series_flat(members_of(members@), key@)
                == Ok::<Seq<SeriesView>, Fault>(series_views(xs@)),
            Err(e) => read_series_flat(members_of(members@), key@)
                == Err::<Seq<SeriesView>, Fault>(e@),
        },
        r matches Ok(xs) ==> series_seq_wf(series_views(xs@)),
    decreases members, 0int,
{
    match position(members, key) {
        None => {
            let xs: Vec<Series> = Vec::new();
            proof {
                assert(series_views(xs@) =~= Seq::<SeriesView>::empty());
            }
            Ok(xs)
        },
        Some(i) => {
            proof {
                assert(members_of(members@)[i as int].1 == members@[i as int].1@);
                assert(decreases_to!(*members => members@));
                assert(decreases_to!(members@ => members@[i as int]));
                assert(decreases_to!(members@[i as int] => members@[i as int].1));
            }
            match &members[i].1 {
                Value::Array(items) => {
                    proof {
                        assert(decreases_to!(members@[i as int].1 => members@[i as int].1->Array_0));
                    }
                    match parse_series_seq(items, key) {
                        Ok(xs) => Ok(FlattenedVec::Vec(xs).into_vec()),
                        Err(e) => Err(e),
                    }
                },
                v => {
                    let shape = v.shape();
                    if shape == Shape::String || shape == Shape::Object {
                        match Series::parse(v, key) {
                            Ok(x) => {
                                let ghost one = series_view(x);
                                let xs = FlattenedVec::Singleton(x).into_vec();
                                proof {
                                    assert(series_views(xs@) =~= seq![one]);
                                }
                                Ok(xs)
                            },
                            Err(e) => Err(e),
                        }
                    } else {
                        Err(wrong_shape(key, shapes3(Shape::String, Shape::Object, Shape::Array), v))
                    }
                },
            }
        },
    }
}

/// Writes a field of series that may be cut short.
pub fn make_series_flat(xs: &Vec<Series>) -> (r: Option<Value>)
    ensures
        opt_doc(r) == write_series_flat(series_views(xs@)),
    decreases xs, 1int,
{
    collapse(emit_series_seq(xs))
}

/// A field of well-formed series that may be cut short holds the same
/// series when it is written and read again.
pub proof fn lemma_series_flat_round_trip(
    xs: Seq<SeriesView>,
    m: Seq<(Seq<char>, Doc)>,
    key: Seq<char>,
)
    requires
        series_seq_wf(xs),
        lookup(m, key) == write_series_flat(xs),
    ensures
        read_series_flat(m, key) == Ok::<Seq<SeriesView>, Fault>(xs),
    decreases xs, 1int,
{
    lemma_lookup_index(m, key);
    if xs.len() == 0 {
        assert(xs =~= Seq::<SeriesView>::empty());
    } else if xs.len() == 1 {
        assert(series_wf(xs[0]));
        lemma_series_round_trip(xs[0], key);
        assert(encode_series_seq(xs)[0] == encode_series(xs[0]));
        assert(seq![xs[0]] =~= xs);
    } else {
        lemma_series_seq_round_trip(xs, key);
    }
}

/// The models of a run of volumes.
pub open spec fn volume_views(xs: Seq<Volume>) -> Seq<VolumeView>
    decreases xs,
{
    Seq::new(
        xs.len(),
        |i: int|
            if 0 <= i < xs.len() {
                volume_view(xs[i])
            } else {
                arbitrary()
            },
    )
}

/// Whether every volume of a run is well formed.
pub open spec fn volume_seq_wf(xs: Seq<VolumeView>) -> bool
    decreases xs,
{
    forall|i: int| 0 <= i < xs.len() ==> volume_wf((#[trigger] xs[i]))
}

/// The volumes that the items of a sequence stand for, or the error
/// of the first item that stands for none.
pub open spec fn decode_volume_seq(
    items: Seq<Doc>,
    field: Seq<char>,
) -> Result<Seq<VolumeView>, Fault>
    decreases items, 0int,
{
    if items.len() == 0 {
        Ok(Seq::empty())
    } else {
        match decode_volume_seq(items.drop_last(), field) {
            Err(e) => Err(e),
            Ok(init) => match decode_volume(items.last(), field) {
                Err(e) => Err(e),
                Ok(x) => Ok(init.push(x)),
            },
        }
    }
}

/// The written forms of a run of volumes.
pub open spec fn encode_volume_seq(xs: Seq<VolumeView>) -> Seq<Doc>
    decreases xs, 0int,
{
    Seq::new(
        xs.len(),
        |i: int|
            if 0 <= i < xs.len() {
                encode_volume(xs[i])
            } else {
                Doc::Null
            },
    )
}

/// Where the items before `i` can be read and item `i` cannot, the
/// sequence gives the error of item `i`.
pub proof fn lemma_volume_seq_fails(items: Seq<Doc>, field: Seq<char>, i: int)
    requires
        0 <= i < items.len(),
        decode_volume_seq(items.take(i), field) is Ok,
        decode_volume(items[i], field) is Err,
    ensures
        decode_volume_seq(items, field)
            == Err::<Seq<VolumeView>, Fault>(decode_volume(items[i], field)->Err_0),
    decreases items.len(),
{
    if i == items.len() - 1 {
        assert(items.take(i) =~= items.drop_last());
    } else {
        assert(items.drop_last().take(i) =~= items.take(i));
        lemma_volume_seq_fails(items.drop_last(), field, i);
    }
}

/// Reads the items of a sequence as volumes.
pub fn parse_volume_seq(items: &Vec<Value>, field: &str) -> (r: Result<Vec<Volume>, ParseError>)
    ensures
        match r {
            Ok(xs) => decode_volume_seq(docs_of(items@), field@)
                == Ok::<Seq<VolumeView>, Fault>(volume_views(xs@)),
            Err(e) => decode_volume_seq(docs_of(items@), field@)
                == Err::<Seq<VolumeView>, Fault>(e@),
        },
        r matches Ok(xs) ==> volume_seq_wf(volume_views(xs@)),
    decreases items, 0int,
{
    let mut out: Vec<Volume> = Vec::new();
    let mut i: usize = 0;
    proof {
        assert(volume_views(out@) =~= Seq::<VolumeView>::empty());
    }
    while i < items.len()
        invariant
            i <= items.len(),
            decode_volume_seq(docs_of(items@).take(i as int), field@)
                == Ok::<Seq<VolumeView>, Fault>(
                volume_views(out@),
            ),
            volume_seq_wf(volume_views(out@)),
        decreases items.len() - i,
    {
        let ghost all = docs_of(items@);
        let ghost before = out@;
        proof {
            assert(all.take(i + 1).drop_last() =~= all.take(i as int));
            assert(all.take(i + 1).last() == items@[i as int]@);
            assert(decreases_to!(*items => items@));
            assert(decreases_to!(items@ => items@[i as int]));
        }
        match Volume::parse(&items[i], field) {
            Ok(x) => {
                let ghost one = volume_view(x);
                out.push(x);
                proof {
                    assert(volume_views(out@) =~= volume_views(before).push(one));
                }
            },
            Err(e) => {
                proof {
                    lemma_volume_seq_fails(all, field@, i as int);
                }
                return Err(e);
            },
        }
        i += 1;
    }
    proof {
        assert(docs_of(items@).take(i as int) =~= docs_of(items@));
    }
    Ok(out)
}

/// Writes a run of volumes.
pub fn emit_volume_seq(xs: &Vec<Volume>) -> (out: Vec<Value>)
    ensures
        docs_of(out@) == encode_volume_seq(volume_views(xs@)),
    decreases xs, 0int,
{
    let mut out: Vec<Value> = Vec::new();
    let mut i: usize = 0;
    while i < xs.len()
        invariant
            i <= xs.len(),
            out@.len() == i,
            forall|j: int| 0 <= j < i
                ==> (#[trigger] out@[j])@ == encode_volume(volume_view(xs@[j])),
        decreases xs.len() - i,
    {
        proof {
            assert(decreases_to!(*xs => xs@));
            assert(decreases_to!(xs@ => xs@[i as int]));
        }
        out.push(xs[i].to_value());
        i += 1;
    }
    proof {
        assert(docs_of(out@) =~= encode_volume_seq(volume_views(xs@)));
    }
    out
}

/// A run of well-formed volumes written and read again is the same
/// run.
pub proof fn lemma_volume_seq_round_trip(xs: Seq<VolumeView>, field: Seq<char>)
    requires
        volume_seq_wf(xs),
    ensures
        decode_volume_seq(encode_volume_seq(xs), field) == Ok::<Seq<VolumeView>, Fault>(xs),
    decreases xs, 0int,
{
    if xs.len() > 0 {
        let docs = encode_volume_seq(xs);
        assert(docs.drop_last() =~= encode_volume_seq(xs.drop_last()));
        assert(volume_seq_wf(xs.drop_last())) by {
            assert forall|i: int| 0 <= i < xs.drop_last().len()
                implies volume_wf((#[trigger] xs.drop_last()[i])) by {
                assert(xs.drop_last()[i] == xs[i]);
            }
        }
        lemma_volume_seq_round_trip(xs.drop_last(), field);
        assert(volume_wf(xs.last()));
        lemma_volume_round_trip(xs.last(), field);
        assert(xs.drop_last().push(xs.last()) =~= xs);
    } else {
        assert(xs =~= Seq::<VolumeView>::empty());
    }
}

/// A copy of a run of volumes.
pub(crate) fn copy_volume_seq(xs: &Vec<Volume>) -> (out: Vec<Volume>)
    ensures
        volume_views(out@) == volume_views(xs@),
    decreases xs, 0int,
{
    let mut out: Vec<Volume> = Vec::new();
    let mut i: usize = 0;
    while i < xs.len()
        invariant
            i <= xs.len(),
            out@.len() == i,
            forall|j: int| 0 <= j < i ==> volume_view((#[trigger] out@[j])) == volume_view(xs@[j]),
        decreases xs.len() - i,
    {
        proof {
            assert(decreases_to!(*xs => xs@));
            assert(decreases_to!(xs@ => xs@[i as int]));
        }
        out.push(copy_volume(&xs[i]));
        i += 1;
    }
    proof {
        assert(volume_views(out@) =~= volume_views(xs@));
    }
    out
}

/// What the items of a sequence give as volumes is well formed.
pub proof fn lemma_decode_volume_seq_wf(items: Seq<Doc>, field: Seq<char>)
    ensures
        decode_volume_seq(items, field) matches Ok(xs) ==> volume_seq_wf(xs),
    decreases items, 0int,
{
    if items.len() > 0 {
        lemma_decode_volume_seq_wf(items.drop_last(), field);
        lemma_decode_volume_wf(items.last(), field);
        if let Ok(init) = decode_volume_seq(items.drop_last(), field) {
            if let Ok(x) = decode_volume(items.last(), field) {
                let xs = init.push(x);
                assert forall|i: int| 0 <= i < xs.len() implies volume_wf((#[trigger] xs[i])) by {
                    if i < init.len() {
                        assert(xs[i] == init[i]);
                    }
                }
            }
        }
    }
}

/// What a field of volumes gives that may be written as one bare
/// volume is well formed.
pub proof fn lemma_read_volume_flat_wf(m: Seq<(Seq<char>, Doc)>, key: Seq<char>)
    ensures
        read_volume_flat(m, key) matches Ok(xs) ==> volume_seq_wf(xs),
    decreases m, 0int,
{
    lemma_index_of(m, key);
    let i = index_of(m, key);
    if 0 <= i < m.len() {
        assert(decreases_to!(m => m[i]));
        assert(decreases_to!(m[i] => m[i].1));
        if let Doc::Array(items) = m[i].1 {
            assert(decreases_to!(m[i].1 => m[i].1->Array_0));
            lemma_decode_volume_seq_wf(items, key);
        } else {
            lemma_decode_volume_wf(m[i].1, key);
        }
    }
}

/// What a field of volumes holds that may be written as one bare
/// volume: nothing where it is absent, the items of a sequence, or the
/// one volume that stands there.
pub open spec fn read_volume_flat(
    m: Seq<(Seq<char>, Doc)>,
    key: Seq<char>,
) -> Result<Seq<VolumeView>, Fault>
    decreases m, 0int,
{
    let i = index_of(m, key);
    if 0 <= i < m.len() {
        match m[i].1 {
            Doc::Array(items) => decode_volume_seq(items, key),
            _ => if shape_of(m[i].1) == Shape::Natural || shape_of(m[i].1) == Shape::Object {
                match decode_volume(m[i].1, key) {
                    Ok(x) => Ok(seq![x]),
                    Err(e) => Err(e),
                }
            } else {
                Err(mismatch(key, flat_numbered_shapes(), shape_of(m[i].1)))
            },
        }
    } else {
        Ok(Seq::empty())
    }
}

/// The written form of such a field: left out where the list is empty,
/// the bare volume where there is one, a sequence otherwise.
pub open spec fn write_volume_flat(xs: Seq<VolumeView>) -> Option<Doc>
    decreases xs, 1int,
{
    collapsed(encode_volume_seq(xs))
}

/// Reads a field of volumes that may be written as one bare volume.
pub fn get_volume_flat(
    members: &Vec<(String, Value)>,
    key: &str,
) -> (r: Result<Vec<Volume>, ParseError>)
    ensures
        match r {
            Ok(xs) => read_volume_flat(members_of(members@), key@)
                == Ok::<Seq<VolumeView>, Fault>(volume_views(xs@)),
            Err(e) => read_volume_flat(members_of(members@), key@)
                == Err::<Seq<VolumeView>, Fault>(e@),
        },
        r matches Ok(xs) ==> volume_seq_wf(volume_views(xs@)),
    decreases members, 0int,
{
    match position(members, key) {
        None => {
            let xs: Vec<Volume> = Vec::new();
            proof {
                assert(volume_views(xs@) =~= Seq::<VolumeView>::empty());
            }
            Ok(xs)
        },
        Some(i) => {
            proof {
                assert(members_of(members@)[i as int].1 == members@[i as int].1@);
                assert(decreases_to!(*members => members@));
                assert(decreases_to!(members@ => members@[i as int]));
                assert(decreases_to!(members@[i as int] => members@[i as int].1));
            }
            match &members[i].1 {
                Value::Array(items) => {
                    proof {
                        assert(decreases_to!(members@[i as int].1 => members@[i as int].1->Array_0));
                    }
                    match parse_volume_seq(items, key) {
                        Ok(xs) => Ok(FlattenedVec::Vec(xs).into_vec()),
                        Err(e) => Err(e),
                    }
                },
                v => {
                    let shape = v.shape();
                    if shape == Shape::Natural || shape == Shape::Object {
                        match Volume::parse(v, key) {
                            Ok(x) => {
                                let ghost one = volume_view(x);
                                let xs = FlattenedVec::Singleton(x).into_vec();
                                proof {
                                    assert(volume_views(xs@) =~= seq![one]);
                                }
                                Ok(xs)
                            },
                            Err(e) => Err(e),
                        }
                    } else {
                        Err(wrong_shape(key, shapes3(Shape::Natural, Shape::Object, Shape::Array), v))
                    }
                },
            }
        },
    }
}

/// Writes a field of volumes that may be cut short.
pub fn make_volume_flat(xs: &Vec<Volume>) -> (r: Option<Value>)
    ensures
        opt_doc(r) == write_volume_flat(volume_views(xs@)),
    decreases xs, 1int,
{
    collapse(emit_volume_seq(xs))
}

/// A field of well-formed volumes that may be cut short holds the same
/// volumes when it is written and read again.
pub proof fn lemma_volume_flat_round_trip(
    xs: Seq<VolumeView>,
    m: Seq<(Seq<char>, Doc)>,
    key: Seq<char>,
)
    requires
        volume_seq_wf(xs),
        lookup(m, key) == write_volume_flat(xs),
    ensures
        read_volume_flat(m, key) == Ok::<Seq<VolumeView>, Fault>(xs),
    decreases xs, 1int,
{
    lemma_lookup_index(m, key);
    if xs.len() == 0 {
        assert(xs =~= Seq::<VolumeView>::empty());
    } else if xs.len() == 1 {
        assert(volume_wf(xs[0]));
        lemma_volume_round_trip(xs[0], key);
        assert(encode_volume_seq(xs)[0] == encode_volume(xs[0]));
        assert(seq![xs[0]] =~= xs);
    } else {
        lemma_volume_seq_round_trip(xs, key);
    }
}

} // verus!
