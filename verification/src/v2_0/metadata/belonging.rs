//! The two directions of containment that a publication's metadata holds.
use vstd::prelude::*;
use crate::error::{Fault, ParseError, mismatch, parsed, record_shapes};
use crate::helpers::{shapes1, wrong_shape};
use crate::v2_0::metadata::containment::{
    Article, ArticleView, Collection, CollectionView, Episode, EpisodeView, Periodical,
    PeriodicalView, article_seq_wf, article_views, collection_seq_wf, collection_views,
    copy_article_seq, copy_collection_seq, copy_episode_seq, copy_periodical_seq, episode_seq_wf,
    episode_views, get_article_flat, get_collection_flat, get_episode_flat, get_periodical_flat,
    lemma_article_flat_round_trip, lemma_collection_flat_round_trip,
    lemma_episode_flat_round_trip, lemma_periodical_flat_round_trip, lemma_read_article_flat_wf,
    lemma_read_collection_flat_wf, lemma_read_episode_flat_wf, lemma_read_periodical_flat_wf,
    make_article_flat, make_collection_flat, make_episode_flat, make_periodical_flat,
    periodical_seq_wf, periodical_views, read_article_flat, read_collection_flat,
    read_episode_flat, read_periodical_flat, write_article_flat, write_collection_flat,
    write_episode_flat, write_periodical_flat,
};
use crate::v2_0::metadata::nesting::{
    Chapter, ChapterView, Issue, IssueView, Season, SeasonView, Series, SeriesView, StoryArc,
    StoryArcView, Volume, VolumeView, chapter_seq_wf, chapter_views, copy_chapter_seq,
    copy_issue_seq, copy_season_seq, copy_series_seq, copy_story_arc_seq, copy_volume_seq,
    get_chapter_flat, get_issue_flat, get_season_flat, get_series_flat, get_story_arc_flat,
    get_volume_flat, issue_seq_wf, issue_views, lemma_chapter_flat_round_trip,
    lemma_issue_flat_round_trip, lemma_read_chapter_flat_wf, lemma_read_issue_flat_wf,
    lemma_read_season_flat_wf, lemma_read_series_flat_wf, lemma_read_story_arc_flat_wf,
    lemma_read_volume_flat_wf, lemma_season_flat_round_trip, lemma_series_flat_round_trip,
    lemma_story_arc_flat_round_trip, lemma_volume_flat_round_trip, make_chapter_flat,
    make_issue_flat, make_season_flat, make_series_flat, make_story_arc_flat, make_volume_flat,
    read_chapter_flat, read_issue_flat, read_season_flat, read_series_flat, read_story_arc_flat,
    read_volume_flat, season_seq_wf, season_views, series_seq_wf, series_views, story_arc_seq_wf,
    story_arc_views, volume_seq_wf, volume_views, write_chapter_flat, write_issue_flat,
    write_season_flat, write_series_flat, write_story_arc_flat, write_volume_flat,
};
use crate::v2_0::spelling::{
    spell_article, spell_chapter, spell_collection, spell_episode, spell_issue, spell_journal,
    spell_magazine, spell_newspaper, spell_periodical, spell_season, spell_series,
    spell_story_arc, spell_volume,
};
use crate::value::{
    Doc, MAX_DEPTH, Shape, Value, depth, index_of, lemma_index_of, lemma_lookup_after_put,
    lemma_lookup_empty, lemma_lookup_index, lookup, members_of, opt_doc, position, put,
    put_member, shape_of,
};

verus! {

/// A "belongs to" relationship.
#[derive(Debug, PartialEq, Eq)]
#[non_exhaustive]
pub struct BelongsTo {
    pub collection: Vec<Collection>,
    pub journal: Vec<Periodical>,
    pub magazine: Vec<Periodical>,
    pub newspaper: Vec<Periodical>,
    pub periodical: Vec<Periodical>,
    pub season: Vec<Season>,
    pub series: Vec<Series>,
    pub story_arc: Vec<StoryArc>,
    pub volume: Vec<Volume>,
}

/// The mathematical model of a record of belonging.
pub struct BelongsToView {
    pub collection: Seq<CollectionView>,
    pub journal: Seq<PeriodicalView>,
    pub magazine: Seq<PeriodicalView>,
    pub newspaper: Seq<PeriodicalView>,
    pub periodical: Seq<PeriodicalView>,
    pub season: Seq<SeasonView>,
    pub series: Seq<SeriesView>,
    pub story_arc: Seq<StoryArcView>,
    pub volume: Seq<VolumeView>,
}

/// The model of a record of belonging.
pub open spec fn belongs_to_view(x: BelongsTo) -> BelongsToView {
    BelongsToView {
        collection: collection_views(x.collection@),
        journal: periodical_views(x.journal@),
        magazine: periodical_views(x.magazine@),
        newspaper: periodical_views(x.newspaper@),
        periodical: periodical_views(x.periodical@),
        season: season_views(x.season@),
        series: series_views(x.series@),
        story_arc: story_arc_views(x.story_arc@),
        volume: volume_views(x.volume@),
    }
}

impl View for BelongsTo {
    type V = BelongsToView;

    open spec fn view(&self) -> BelongsToView {
        belongs_to_view(*self)
    }
}

/// A record of belonging is well formed when everything it holds is.
pub open spec fn belongs_to_wf(x: BelongsToView) -> bool {
    &&& collection_seq_wf(x.collection)
    &&& periodical_seq_wf(x.journal)
    &&& periodical_seq_wf(x.magazine)
    &&& periodical_seq_wf(x.newspaper)
    &&& periodical_seq_wf(x.periodical)
    &&& season_seq_wf(x.season)
    &&& series_seq_wf(x.series)
    &&& story_arc_seq_wf(x.story_arc)
    &&& volume_seq_wf(x.volume)
}

/// The record of belonging that holds nothing.
pub open spec fn belongs_to_default() -> BelongsToView {
    BelongsToView {
        collection: Seq::empty(),
        journal: Seq::empty(),
        magazine: Seq::empty(),
        newspaper: Seq::empty(),
        periodical: Seq::empty(),
        season: Seq::empty(),
        series: Seq::empty(),
        story_arc: Seq::empty(),
        volume: Seq::empty(),
    }
}

/// The members that a record of belonging is written as: one for each field
/// that holds something, in the order of the fields.
pub open spec fn belongs_to_members(x: BelongsToView) -> Seq<(Seq<char>, Doc)> {
    let m = Seq::<(Seq<char>, Doc)>::empty();
    let m = put(m, "collection"@, write_collection_flat(x.collection));
    let m = put(m, "journal"@, write_periodical_flat(x.journal));
    let m = put(m, "magazine"@, write_periodical_flat(x.magazine));
    let m = put(m, "newspaper"@, write_periodical_flat(x.newspaper));
    let m = put(m, "periodical"@, write_periodical_flat(x.periodical));
    let m = put(m, "season"@, write_season_flat(x.season));
    let m = put(m, "series"@, write_series_flat(x.series));
    let m = put(m, "storyArc"@, write_story_arc_flat(x.story_arc));
    let m = put(m, "volume"@, write_volume_flat(x.volume));
    m
}

/// The written form of a record of belonging: always the full object.
pub open spec fn encode_belongs_to(x: BelongsToView) -> Doc {
    Doc::Object(belongs_to_members(x))
}

/// The record of belonging that the members of an object stand for, or the
/// error of the first field, in the order of the fields, that cannot be read.
pub open spec fn belongs_to_from_members(m: Seq<(Seq<char>, Doc)>) -> Result<BelongsToView, Fault> {
    let collection = read_collection_flat(m, "collection"@);
    let journal = read_periodical_flat(m, "journal"@);
    let magazine = read_periodical_flat(m, "magazine"@);
    let newspaper = read_periodical_flat(m, "newspaper"@);
    let periodical = read_periodical_flat(m, "periodical"@);
    let season = read_season_flat(m, "season"@);
    let series = read_series_flat(m, "series"@);
    let story_arc = read_story_arc_flat(m, "storyArc"@);
    let volume = read_volume_flat(m, "volume"@);
    if collection is Err {
        Err(collection->Err_0)
    } else if journal is Err {
        Err(journal->Err_0)
    } else if magazine is Err {
        Err(magazine->Err_0)
    } else if newspaper is Err {
        Err(newspaper->Err_0)
    } else if periodical is Err {
        Err(periodical->Err_0)
    } else if season is Err {
        Err(season->Err_0)
    } else if series is Err {
        Err(series->Err_0)
    } else if story_arc is Err {
        Err(story_arc->Err_0)
    } else if volume is Err {
        Err(volume->Err_0)
    } else {
        Ok(BelongsToView {
            collection: collection->Ok_0,
            journal: journal->Ok_0,
            magazine: magazine->Ok_0,
            newspaper: newspaper->Ok_0,
            periodical: periodical->Ok_0,
            season: season->Ok_0,
            series: series->Ok_0,
            story_arc: story_arc->Ok_0,
            volume: volume->Ok_0,
        })
    }
}

/// The record of belonging that a value stands for: an object.
pub open spec fn decode_belongs_to(d: Doc, field: Seq<char>) -> Result<BelongsToView, Fault> {
    match d {
        Doc::Object(m) => belongs_to_from_members(m),
        _ => Err(mismatch(field, record_shapes(), shape_of(d))),
    }
}

/// What reading a whole document as a record of belonging gives: an error where
/// arrays and objects nest more deeply than the ceiling.
pub open spec fn belongs_to_from_doc(d: Doc) -> Result<BelongsToView, Fault> {
    if depth(d) > MAX_DEPTH {
        Err(Fault::RecursionLimitExceeded(MAX_DEPTH))
    } else {
        decode_belongs_to(d, ""@)
    }
}

impl BelongsTo {
    /// Reads a record of belonging from the members of an object.
    pub fn from_members(members: &Vec<(String, Value)>) -> (r: Result<BelongsTo, ParseError>)
        ensures
            parsed(r) == belongs_to_from_members(members_of(members@)),
            r matches Ok(x) ==> belongs_to_wf(x@),
    {
        let collection = match get_collection_flat(members, "collection") {
            Ok(x) => x,
            Err(e) => {
                return Err(e);
            },
        };
        let journal = match get_periodical_flat(members, "journal") {
            Ok(x) => x,
            Err(e) => {
                return Err(e);
            },
        };
        let magazine = match get_periodical_flat(members, "magazine") {
            Ok(x) => x,
            Err(e) => {
                return Err(e);
            },
        };
        let newspaper = match get_periodical_flat(members, "newspaper") {
            Ok(x) => x,
            Err(e) => {
                return Err(e);
            },
        };
        let periodical = match get_periodical_flat(members, "periodical") {
            Ok(x) => x,
            Err(e) => {
                return Err(e);
            },
        };
        let season = match get_season_flat(members, "season") {
            Ok(x) => x,
            Err(e) => {
                return Err(e);
            },
        };
        let series = match get_series_flat(members, "series") {
            Ok(x) => x,
            Err(e) => {
                return Err(e);
            },
        };
        let story_arc = match get_story_arc_flat(members, "storyArc") {
            Ok(x) => x,
            Err(e) => {
                return Err(e);
            },
        };
        let volume = match get_volume_flat(members, "volume") {
            Ok(x) => x,
            Err(e) => {
                return Err(e);
            },
        };
        Ok(BelongsTo {
            collection,
            journal,
            magazine,
            newspaper,
            periodical,
            season,
            series,
            story_arc,
            volume,
        })
    }

    /// Reads a record of belonging from a value found under `field`.
    pub fn parse(v: &Value, field: &str) -> (r: Result<BelongsTo, ParseError>)
        ensures
            parsed(r) == decode_belongs_to(v@, field@),
            r matches Ok(x) ==> belongs_to_wf(x@),
    {
        match v {
            Value::Object(members) => {
                BelongsTo::from_members(members)
            },
            _ => Err(wrong_shape(field, shapes1(Shape::Object), v)),
        }
    }

    /// Reads a whole document as a record of belonging. A document in which
    /// arrays and objects nest more deeply than [`MAX_DEPTH`] is refused before
    /// anything is read from it.
    pub fn from_value(v: &Value) -> (r: Result<BelongsTo, ParseError>)
        ensures
            parsed(r) == belongs_to_from_doc(v@),
            r matches Ok(x) ==> belongs_to_wf(x@),
    {
        if !v.within_depth(MAX_DEPTH) {
            return Err(ParseError::RecursionLimitExceeded(MAX_DEPTH));
        }
        BelongsTo::parse(v, "")
    }

    /// Writes the members of this record of belonging.
    pub fn to_members(&self) -> (members: Vec<(String, Value)>)
        ensures
            members_of(members@) == belongs_to_members(self@),
    {
        let mut m: Vec<(String, Value)> = Vec::new();
        assert(members_of(m@) =~= Seq::<(Seq<char>, Doc)>::empty());
        put_member(&mut m, "collection", make_collection_flat(&self.collection));
        put_member(&mut m, "journal", make_periodical_flat(&self.journal));
        put_member(&mut m, "magazine", make_periodical_flat(&self.magazine));
        put_member(&mut m, "newspaper", make_periodical_flat(&self.newspaper));
        put_member(&mut m, "periodical", make_periodical_flat(&self.periodical));
        put_member(&mut m, "season", make_season_flat(&self.season));
        put_member(&mut m, "series", make_series_flat(&self.series));
        put_member(&mut m, "storyArc", make_story_arc_flat(&self.story_arc));
        put_member(&mut m, "volume", make_volume_flat(&self.volume));
        m
    }

    /// Writes this record of belonging as a value: always the full object.
    pub fn to_value(&self) -> (v: Value)
        ensures
            v@ == encode_belongs_to(self@),
    {
        Value::Object(self.to_members())
    }
}

/// A copy of a record of belonging.
pub(crate) fn copy_belongs_to(x: &BelongsTo) -> (r: BelongsTo)
    ensures
        r@ == x@,
{
    BelongsTo {
        collection: copy_collection_seq(&x.collection),
        journal: copy_periodical_seq(&x.journal),
        magazine: copy_periodical_seq(&x.magazine),
        newspaper: copy_periodical_seq(&x.newspaper),
        periodical: copy_periodical_seq(&x.periodical),
        season: copy_season_seq(&x.season),
        series: copy_series_seq(&x.series),
        story_arc: copy_story_arc_seq(&x.story_arc),
        volume: copy_volume_seq(&x.volume),
    }
}

impl Clone for BelongsTo {
    /// A copy that holds the same.
    fn clone(&self) -> (r: BelongsTo)
        ensures
            r@ == self@,
    {
        copy_belongs_to(self)
    }
}

impl Default for BelongsTo {
    /// The record of belonging that holds nothing.
    fn default() -> (r: BelongsTo)
        ensures
            r@ == belongs_to_default(),
            belongs_to_wf(r@),
    {
        let collection: Vec<Collection> = Vec::new();
        let journal: Vec<Periodical> = Vec::new();
        let magazine: Vec<Periodical> = Vec::new();
        let newspaper: Vec<Periodical> = Vec::new();
        let periodical: Vec<Periodical> = Vec::new();
        let season: Vec<Season> = Vec::new();
        let series: Vec<Series> = Vec::new();
        let story_arc: Vec<StoryArc> = Vec::new();
        let volume: Vec<Volume> = Vec::new();
        proof {
            assert(collection_views(collection@) =~= Seq::<CollectionView>::empty());
            assert(periodical_views(journal@) =~= Seq::<PeriodicalView>::empty());
            assert(periodical_views(magazine@) =~= Seq::<PeriodicalView>::empty());
            assert(periodical_views(newspaper@) =~= Seq::<PeriodicalView>::empty());
            assert(periodical_views(periodical@) =~= Seq::<PeriodicalView>::empty());
            assert(season_views(season@) =~= Seq::<SeasonView>::empty());
            assert(series_views(series@) =~= Seq::<SeriesView>::empty());
            assert(story_arc_views(story_arc@) =~= Seq::<StoryArcView>::empty());
            assert(volume_views(volume@) =~= Seq::<VolumeView>::empty());
        }
        BelongsTo {
            collection,
            journal,
            magazine,
            newspaper,
            periodical,
            season,
            series,
            story_arc,
            volume,
        }
    }
}

/// In the written form of a record of belonging, each field's name leads to
/// what that field wrote.
pub proof fn lemma_belongs_to_members(x: BelongsToView)
    ensures
        lookup(belongs_to_members(x), "collection"@) == write_collection_flat(x.collection),
        lookup(belongs_to_members(x), "journal"@) == write_periodical_flat(x.journal),
        lookup(belongs_to_members(x), "magazine"@) == write_periodical_flat(x.magazine),
        lookup(belongs_to_members(x), "newspaper"@) == write_periodical_flat(x.newspaper),
        lookup(belongs_to_members(x), "periodical"@) == write_periodical_flat(x.periodical),
        lookup(belongs_to_members(x), "season"@) == write_season_flat(x.season),
        lookup(belongs_to_members(x), "series"@) == write_series_flat(x.series),
        lookup(belongs_to_members(x), "storyArc"@) == write_story_arc_flat(x.story_arc),
        lookup(belongs_to_members(x), "volume"@) == write_volume_flat(x.volume),
{
    broadcast use {lemma_lookup_after_put, lemma_lookup_empty};
    spell_collection();
    spell_journal();
    spell_magazine();
    spell_newspaper();
    spell_periodical();
    spell_season();
    spell_series();
    spell_story_arc();
    spell_volume();
}

/// A record of belonging that is well formed, written and read again, is the
/// same record of belonging.
pub proof fn lemma_belongs_to_round_trip(x: BelongsToView, field: Seq<char>)
    requires
        belongs_to_wf(x),
    ensures
        decode_belongs_to(encode_belongs_to(x), field) == Ok::<BelongsToView, Fault>(x),
{
    lemma_belongs_to_members(x);
    let m = belongs_to_members(x);
    assert(read_collection_flat(m, "collection"@)
        == Ok::<Seq<CollectionView>, Fault>(x.collection)) by {
        lemma_collection_flat_round_trip(x.collection, m, "collection"@);
    }
    assert(read_periodical_flat(m, "journal"@) == Ok::<Seq<PeriodicalView>, Fault>(x.journal)) by {
        lemma_periodical_flat_round_trip(x.journal, m, "journal"@);
    }
    assert(read_periodical_flat(m, "magazine"@)
        == Ok::<Seq<PeriodicalView>, Fault>(x.magazine)) by {
        lemma_periodical_flat_round_trip(x.magazine, m, "magazine"@);
    }
    assert(read_periodical_flat(m, "newspaper"@)
        == Ok::<Seq<PeriodicalView>, Fault>(x.newspaper)) by {
        lemma_periodical_flat_round_trip(x.newspaper, m, "newspaper"@);
    }
    assert(read_periodical_flat(m, "periodical"@)
        == Ok::<Seq<PeriodicalView>, Fault>(x.periodical)) by {
        lemma_periodical_flat_round_trip(x.periodical, m, "periodical"@);
    }
    assert(read_season_flat(m, "season"@) == Ok::<Seq<SeasonView>, Fault>(x.season)) by {
        lemma_season_flat_round_trip(x.season, m, "season"@);
    }
    assert(read_series_flat(m, "series"@) == Ok::<Seq<SeriesView>, Fault>(x.series)) by {
        lemma_series_flat_round_trip(x.series, m, "series"@);
    }
    assert(read_story_arc_flat(m, "storyArc"@) == Ok::<Seq<StoryArcView>, Fault>(x.story_arc)) by {
        lemma_story_arc_flat_round_trip(x.story_arc, m, "storyArc"@);
    }
    assert(read_volume_flat(m, "volume"@) == Ok::<Seq<VolumeView>, Fault>(x.volume)) by {
        lemma_volume_flat_round_trip(x.volume, m, "volume"@);
    }
}

/// What the members of an object give as a record of belonging is well formed.
pub proof fn lemma_belongs_to_from_members_wf(m: Seq<(Seq<char>, Doc)>)
    ensures
        belongs_to_from_members(m) matches Ok(x) ==> belongs_to_wf(x),
{
    lemma_read_collection_flat_wf(m, "collection"@);
    lemma_read_periodical_flat_wf(m, "journal"@);
    lemma_read_periodical_flat_wf(m, "magazine"@);
    lemma_read_periodical_flat_wf(m, "newspaper"@);
    lemma_read_periodical_flat_wf(m, "periodical"@);
    lemma_read_season_flat_wf(m, "season"@);
    lemma_read_series_flat_wf(m, "series"@);
    lemma_read_story_arc_flat_wf(m, "storyArc"@);
    lemma_read_volume_flat_wf(m, "volume"@);
}

/// What is read as a record of belonging is well formed.
pub proof fn lemma_decode_belongs_to_wf(d: Doc, field: Seq<char>)
    ensures
        decode_belongs_to(d, field) matches Ok(x) ==> belongs_to_wf(x),
{
    if let Doc::Object(m) = d {
        lemma_belongs_to_from_members_wf(m);
    }
}

/// A record of belonging that was read, in whatever spelling, is read again as
/// the same record of belonging from its written form.
pub proof fn lemma_belongs_to_reread(d: Doc, field: Seq<char>)
    ensures
        decode_belongs_to(d, field) matches Ok(x)
            ==> decode_belongs_to(encode_belongs_to(x), field) == Ok::<BelongsToView, Fault>(x),
{
    lemma_decode_belongs_to_wf(d, field);
    if let Ok(x) = decode_belongs_to(d, field) {
        lemma_belongs_to_round_trip(x, field);
    }
}

/// A record of belonging that is well formed and whose written form nests no
/// more deeply than the ceiling is read back whole from that form.
pub proof fn lemma_belongs_to_doc_round_trip(x: BelongsToView)
    requires
        belongs_to_wf(x),
        depth(encode_belongs_to(x)) <= MAX_DEPTH,
    ensures
        belongs_to_from_doc(encode_belongs_to(x)) == Ok::<BelongsToView, Fault>(x),
{
    lemma_belongs_to_round_trip(x, ""@);
}

/// A "contains" relationship.
#[derive(Debug, PartialEq, Eq)]
#[non_exhaustive]
pub struct Contains {
    pub article: Vec<Article>,
    pub chapter: Vec<Chapter>,
    pub episode: Vec<Episode>,
    pub issue: Vec<Issue>,
    pub season: Vec<Season>,
    pub series: Vec<Series>,
    pub story_arc: Vec<StoryArc>,
    pub volume: Vec<Volume>,
}

/// The mathematical model of a record of contents.
pub struct ContainsView {
    pub article: Seq<ArticleView>,
    pub chapter: Seq<ChapterView>,
    pub episode: Seq<EpisodeView>,
    pub issue: Seq<IssueView>,
    pub season: Seq<SeasonView>,
    pub series: Seq<SeriesView>,
    pub story_arc: Seq<StoryArcView>,
    pub volume: Seq<VolumeView>,
}

/// The model of a record of contents.
pub open spec fn contains_view(x: Contains) -> ContainsView {
    ContainsView {
        article: article_views(x.article@),
        chapter: chapter_views(x.chapter@),
        episode: episode_views(x.episode@),
        issue: issue_views(x.issue@),
        season: season_views(x.season@),
        series: series_views(x.series@),
        story_arc: story_arc_views(x.story_arc@),
        volume: volume_views(x.volume@),
    }
}

impl View for Contains {
    type V = ContainsView;

    open spec fn view(&self) -> ContainsView {
        contains_view(*self)
    }
}

/// A record of contents is well formed when everything it holds is.
pub open spec fn contains_wf(x: ContainsView) -> bool {
    &&& article_seq_wf(x.article)
    &&& chapter_seq_wf(x.chapter)
    &&& episode_seq_wf(x.episode)
    &&& issue_seq_wf(x.issue)
    &&& season_seq_wf(x.season)
    &&& series_seq_wf(x.series)
    &&& story_arc_seq_wf(x.story_arc)
    &&& volume_seq_wf(x.volume)
}

/// The record of contents that holds nothing.
pub open spec fn contains_default() -> ContainsView {
    ContainsView {
        article: Seq::empty(),
        chapter: Seq::empty(),
        episode: Seq::empty(),
        issue: Seq::empty(),
        season: Seq::empty(),
        series: Seq::empty(),
        story_arc: Seq::empty(),
        volume: Seq::empty(),
    }
}

/// The members that a record of contents is written as: one for each field that
/// holds something, in the order of the fields.
pub open spec fn contains_members(x: ContainsView) -> Seq<(Seq<char>, Doc)> {
    let m = Seq::<(Seq<char>, Doc)>::empty();
    let m = put(m, "article"@, write_article_flat(x.article));
    let m = put(m, "chapter"@, write_chapter_flat(x.chapter));
    let m = put(m, "episode"@, write_episode_flat(x.episode));
    let m = put(m, "issue"@, write_issue_flat(x.issue));
    let m = put(m, "season"@, write_season_flat(x.season));
    let m = put(m, "series"@, write_series_flat(x.series));
    let m = put(m, "storyArc"@, write_story_arc_flat(x.story_arc));
    let m = put(m, "volume"@, write_volume_flat(x.volume));
    m
}

/// The written form of a record of contents: always the full object.
pub open spec fn encode_contains(x: ContainsView) -> Doc {
    Doc::Object(contains_members(x))
}

/// The record of contents that the members of an object stand for, or the error
/// of the first field, in the order of the fields, that cannot be read.
pub open spec fn contains_from_members(m: Seq<(Seq<char>, Doc)>) -> Result<ContainsView, Fault> {
    let article = read_article_flat(m, "article"@);
    let chapter = read_chapter_flat(m, "chapter"@);
    let episode = read_episode_flat(m, "episode"@);
    let issue = read_issue_flat(m, "issue"@);
    let season = read_season_flat(m, "season"@);
    let series = read_series_flat(m, "series"@);
    let story_arc = read_story_arc_flat(m, "storyArc"@);
    let volume = read_volume_flat(m, "volume"@);
    if article is Err {
        Err(article->Err_0)
    } else if chapter is Err {
        Err(chapter->Err_0)
    } else if episode is Err {
        Err(episode->Err_0)
    } else if issue is Err {
        Err(issue->Err_0)
    } else if season is Err {
        Err(season->Err_0)
    } else if series is Err {
        Err(series->Err_0)
    } else if story_arc is Err {
        Err(story_arc->Err_0)
    } else if volume is Err {
        Err(volume->Err_0)
    } else {
        Ok(ContainsView {
            article: article->Ok_0,
            chapter: chapter->Ok_0,
            episode: episode->Ok_0,
            issue: issue->Ok_0,
            season: season->Ok_0,
            series: series->Ok_0,
            story_arc: story_arc->Ok_0,
            volume: volume->Ok_0,
        })
    }
}

/// The record of contents that a value stands for: an object.
pub open spec fn decode_contains(d: Doc, field: Seq<char>) -> Result<ContainsView, Fault> {
    match d {
        Doc::Object(m) => contains_from_members(m),
        _ => Err(mismatch(field, record_shapes(), shape_of(d))),
    }
}

/// What reading a whole document as a record of contents gives: an error where
/// arrays and objects nest more deeply than the ceiling.
pub open spec fn contains_from_doc(d: Doc) -> Result<ContainsView, Fault> {
    if depth(d) > MAX_DEPTH {
        Err(Fault::RecursionLimitExceeded(MAX_DEPTH))
    } else {
        decode_contains(d, ""@)
    }
}

impl Contains {
    /// Reads a record of contents from the members of an object.
    pub fn from_members(members: &Vec<(String, Value)>) -> (r: Result<Contains, ParseError>)
        ensures
            parsed(r) == contains_from_members(members_of(members@)),
            r matches Ok(x) ==> contains_wf(x@),
    {
        let article = match get_article_flat(members, "article") {
            Ok(x) => x,
            Err(e) => {
                return Err(e);
            },
        };
        let chapter = match get_chapter_flat(members, "chapter") {
            Ok(x) => x,
            Err(e) => {
                return Err(e);
            },
        };
        let episode = match get_episode_flat(members, "episode") {
            Ok(x) => x,
            Err(e) => {
                return Err(e);
            },
        };
        let issue = match get_issue_flat(members, "issue") {
            Ok(x) => x,
            Err(e) => {
                return Err(e);
            },
        };
        let season = match get_season_flat(members, "season") {
            Ok(x) => x,
            Err(e) => {
                return Err(e);
            },
        };
        let series = match get_series_flat(members, "series") {
            Ok(x) => x,
            Err(e) => {
                return Err(e);
            },
        };
        let story_arc = match get_story_arc_flat(members, "storyArc") {
            Ok(x) => x,
            Err(e) => {
                return Err(e);
            },
        };
        let volume = match get_volume_flat(members, "volume") {
            Ok(x) => x,
            Err(e) => {
                return Err(e);
            },
        };
        Ok(Contains { article, chapter, episode, issue, season, series, story_arc, volume })
    }

    /// Reads a record of contents from a value found under `field`.
    pub fn parse(v: &Value, field: &str) -> (r: Result<Contains, ParseError>)
        ensures
            parsed(r) == decode_contains(v@, field@),
            r matches Ok(x) ==> contains_wf(x@),
    {
        match v {
            Value::Object(members) => {
                Contains::from_members(members)
            },
            _ => Err(wrong_shape(field, shapes1(Shape::Object), v)),
        }
    }

    /// Reads a whole document as a record of contents. A document in which
    /// arrays and objects nest more deeply than [`MAX_DEPTH`] is refused before
    /// anything is read from it.
    pub fn from_value(v: &Value) -> (r: Result<Contains, ParseError>)
        ensures
            parsed(r) == contains_from_doc(v@),
            r matches Ok(x) ==> contains_wf(x@),
    {
        if !v.within_depth(MAX_DEPTH) {
            return Err(ParseError::RecursionLimitExceeded(MAX_DEPTH));
        }
        Contains::parse(v, "")
    }

    /// Writes the members of this record of contents.
    pub fn to_members(&self) -> (members: Vec<(String, Value)>)
        ensures
            members_of(members@) == contains_members(self@),
    {
        let mut m: Vec<(String, Value)> = Vec::new();
        assert(members_of(m@) =~= Seq::<(Seq<char>, Doc)>::empty());
        put_member(&mut m, "article", make_article_flat(&self.article));
        put_member(&mut m, "chapter", make_chapter_flat(&self.chapter));
        put_member(&mut m, "episode", make_episode_flat(&self.episode));
        put_member(&mut m, "issue", make_issue_flat(&self.issue));
        put_member(&mut m, "season", make_season_flat(&self.season));
        put_member(&mut m, "series", make_series_flat(&self.series));
        put_member(&mut m, "storyArc", make_story_arc_flat(&self.story_arc));
        put_member(&mut m, "volume", make_volume_flat(&self.volume));
        m
    }

    /// Writes this record of contents as a value: always the full object.
    pub fn to_value(&self) -> (v: Value)
        ensures
            v@ == encode_contains(self@),
    {
        Value::Object(self.to_members())
    }
}

/// A copy of a record of contents.
pub(crate) fn copy_contains(x: &Contains) -> (r: Contains)
    ensures
        r@ == x@,
{
    Contains {
        article: copy_article_seq(&x.article),
        chapter: copy_chapter_seq(&x.chapter),
        episode: copy_episode_seq(&x.episode),
        issue: copy_issue_seq(&x.issue),
        season: copy_season_seq(&x.season),
        series: copy_series_seq(&x.series),
        story_arc: copy_story_arc_seq(&x.story_arc),
        volume: copy_volume_seq(&x.volume),
    }
}

impl Clone for Contains {
    /// A copy that holds the same.
    fn clone(&self) -> (r: Contains)
        ensures
            r@ == self@,
    {
        copy_contains(self)
    }
}

impl Default for Contains {
    /// The record of contents that holds nothing.
    fn default() -> (r: Contains)
        ensures
            r@ == contains_default(),
            contains_wf(r@),
    {
        let article: Vec<Article> = Vec::new();
        let chapter: Vec<Chapter> = Vec::new();
        let episode: Vec<Episode> = Vec::new();
        let issue: Vec<Issue> = Vec::new();
        let season: Vec<Season> = Vec::new();
        let series: Vec<Series> = Vec::new();
        let story_arc: Vec<StoryArc> = Vec::new();
        let volume: Vec<Volume> = Vec::new();
        proof {
            assert(article_views(article@) =~= Seq::<ArticleView>::empty());
            assert(chapter_views(chapter@) =~= Seq::<ChapterView>::empty());
            assert(episode_views(episode@) =~= Seq::<EpisodeView>::empty());
            assert(issue_views(issue@) =~= Seq::<IssueView>::empty());
            assert(season_views(season@) =~= Seq::<SeasonView>::empty());
            assert(series_views(series@) =~= Seq::<SeriesView>::empty());
            assert(story_arc_views(story_arc@) =~= Seq::<StoryArcView>::empty());
            assert(volume_views(volume@) =~= Seq::<VolumeView>::empty());
        }
        Contains {
            article,
            chapter,
            episode,
            issue,
            season,
            series,
            story_arc,
            volume,
        }
    }
}

/// In the written form of a record of contents, each field's name leads to what
/// that field wrote.
pub proof fn lemma_contains_members(x: ContainsView)
    ensures
        lookup(contains_members(x), "article"@) == write_article_flat(x.article),
        lookup(contains_members(x), "chapter"@) == write_chapter_flat(x.chapter),
        lookup(contains_members(x), "episode"@) == write_episode_flat(x.episode),
        lookup(contains_members(x), "issue"@) == write_issue_flat(x.issue),
        lookup(contains_members(x), "season"@) == write_season_flat(x.season),
        lookup(contains_members(x), "series"@) == write_series_flat(x.series),
        lookup(contains_members(x), "storyArc"@) == write_story_arc_flat(x.story_arc),
        lookup(contains_members(x), "volume"@) == write_volume_flat(x.volume),
{
    broadcast use {lemma_lookup_after_put, lemma_lookup_empty};
    spell_article();
    spell_chapter();
    spell_episode();
    spell_issue();
    spell_season();
    spell_series();
    spell_story_arc();
    spell_volume();
}

/// A record of contents that is well formed, written and read again, is the
/// same record of contents.
pub proof fn lemma_contains_round_trip(x: ContainsView, field: Seq<char>)
    requires
        contains_wf(x),
    ensures
        decode_contains(encode_contains(x), field) == Ok::<ContainsView, Fault>(x),
{
    lemma_contains_members(x);
    let m = contains_members(x);
    assert(read_article_flat(m, "article"@) == Ok::<Seq<ArticleView>, Fault>(x.article)) by {
        lemma_article_flat_round_trip(x.article, m, "article"@);
    }
    assert(read_chapter_flat(m, "chapter"@) == Ok::<Seq<ChapterView>, Fault>(x.chapter)) by {
        lemma_chapter_flat_round_trip(x.chapter, m, "chapter"@);
    }
    assert(read_episode_flat(m, "episode"@) == Ok::<Seq<EpisodeView>, Fault>(x.episode)) by {
        lemma_episode_flat_round_trip(x.episode, m, "episode"@);
    }
    assert(read_issue_flat(m, "issue"@) == Ok::<Seq<IssueView>, Fault>(x.issue)) by {
        lemma_issue_flat_round_trip(x.issue, m, "issue"@);
    }
    assert(read_season_flat(m, "season"@) == Ok::<Seq<SeasonView>, Fault>(x.season)) by {
        lemma_season_flat_round_trip(x.season, m, "season"@);
    }
    assert(read_series_flat(m, "series"@) == Ok::<Seq<SeriesView>, Fault>(x.series)) by {
        lemma_series_flat_round_trip(x.series, m, "series"@);
    }
    assert(read_story_arc_flat(m, "storyArc"@) == Ok::<Seq<StoryArcView>, Fault>(x.story_arc)) by {
        lemma_story_arc_flat_round_trip(x.story_arc, m, "storyArc"@);
    }
    assert(read_volume_flat(m, "volume"@) == Ok::<Seq<VolumeView>, Fault>(x.volume)) by {
        lemma_volume_flat_round_trip(x.volume, m, "volume"@);
    }
}

/// What the members of an object give as a record of contents is well formed.
pub proof fn lemma_contains_from_members_wf(m: Seq<(Seq<char>, Doc)>)
    ensures
        contains_from_members(m) matches Ok(x) ==> contains_wf(x),
{
    lemma_read_article_flat_wf(m, "article"@);
    lemma_read_chapter_flat_wf(m, "chapter"@);
    lemma_read_episode_flat_wf(m, "episode"@);
    lemma_read_issue_flat_wf(m, "issue"@);
    lemma_read_season_flat_wf(m, "season"@);
    lemma_read_series_flat_wf(m, "series"@);
    lemma_read_story_arc_flat_wf(m, "storyArc"@);
    lemma_read_volume_flat_wf(m, "volume"@);
}

/// What is read as a record of contents is well formed.
pub proof fn lemma_decode_contains_wf(d: Doc, field: Seq<char>)
    ensures
        decode_contains(d, field) matches Ok(x) ==> contains_wf(x),
{
    if let Doc::Object(m) = d {
        lemma_contains_from_members_wf(m);
    }
}

/// A record of contents that was read, in whatever spelling, is read again as
/// the same record of contents from its written form.
pub proof fn lemma_contains_reread(d: Doc, field: Seq<char>)
    ensures
        decode_contains(d, field) matches Ok(x)
            ==> decode_contains(encode_contains(x), field) == Ok::<ContainsView, Fault>(x),
{
    lemma_decode_contains_wf(d, field);
    if let Ok(x) = decode_contains(d, field) {
        lemma_contains_round_trip(x, field);
    }
}

/// A record of contents that is well formed and whose written form nests no
/// more deeply than the ceiling is read back whole from that form.
pub proof fn lemma_contains_doc_round_trip(x: ContainsView)
    requires
        contains_wf(x),
        depth(encode_contains(x)) <= MAX_DEPTH,
    ensures
        contains_from_doc(encode_contains(x)) == Ok::<ContainsView, Fault>(x),
{
    lemma_contains_round_trip(x, ""@);
}

/// The model of an optional record of belonging.
pub open spec fn opt_belongs_to(o: Option<BelongsTo>) -> Option<BelongsToView> {
    match o {
        Some(x) => Some(belongs_to_view(x)),
        None => None,
    }
}

/// Whether an optional record of belonging is well formed.
pub open spec fn opt_belongs_to_wf(o: Option<BelongsToView>) -> bool {
    o matches Some(x) ==> belongs_to_wf(x)
}

/// A copy of an optional record of belonging.
pub(crate) fn copy_opt_belongs_to(o: &Option<BelongsTo>) -> (r: Option<BelongsTo>)
    ensures
        opt_belongs_to(r) == opt_belongs_to(*o),
{
    match o {
        Some(x) => Some(copy_belongs_to(x)),
        None => None,
    }
}

/// What a field gives that may be a record of belonging is well formed.
pub proof fn lemma_read_opt_belongs_to_wf(m: Seq<(Seq<char>, Doc)>, key: Seq<char>)
    ensures
        read_opt_belongs_to(m, key) matches Ok(o) ==> opt_belongs_to_wf(o),
{
    lemma_index_of(m, key);
    let i = index_of(m, key);
    if 0 <= i < m.len() {
        lemma_decode_belongs_to_wf(m[i].1, key);
    }
}

/// What a field holds that may be a record of belonging: nothing where it is
/// absent or null.
pub open spec fn read_opt_belongs_to(
    m: Seq<(Seq<char>, Doc)>,
    key: Seq<char>,
) -> Result<Option<BelongsToView>, Fault> {
    let i = index_of(m, key);
    if 0 <= i < m.len() {
        if m[i].1 is Null {
            Ok(None)
        } else {
            match decode_belongs_to(m[i].1, key) {
                Ok(x) => Ok(Some(x)),
                Err(e) => Err(e),
            }
        }
    } else {
        Ok(None)
    }
}

/// The written form of such a field: left out where there is nothing.
pub open spec fn write_opt_belongs_to(o: Option<BelongsToView>) -> Option<Doc> {
    match o {
        Some(x) => Some(encode_belongs_to(x)),
        None => None,
    }
}

/// Reads a field that may be a record of belonging.
pub fn get_opt_belongs_to(
    members: &Vec<(String, Value)>,
    key: &str,
) -> (r: Result<Option<BelongsTo>, ParseError>)
    ensures
        match r {
            Ok(o) => read_opt_belongs_to(members_of(members@), key@)
                == Ok::<Option<BelongsToView>, Fault>(opt_belongs_to(o)),
            Err(e) => read_opt_belongs_to(members_of(members@), key@)
                == Err::<Option<BelongsToView>, Fault>(e@),
        },
        r matches Ok(o) ==> opt_belongs_to_wf(opt_belongs_to(o)),
{
    match position(members, key) {
        None => Ok(None),
        Some(i) => {
            proof {
                assert(members_of(members@)[i as int].1 == members@[i as int].1@);
            }
            match &members[i].1 {
                Value::Null => Ok(None),
                v => match BelongsTo::parse(v, key) {
                    Ok(x) => Ok(Some(x)),
                    Err(e) => Err(e),
                },
            }
        },
    }
}

/// Writes such a field.
pub fn make_opt_belongs_to(o: &Option<BelongsTo>) -> (r: Option<Value>)
    ensures
        opt_doc(r) == write_opt_belongs_to(opt_belongs_to(*o)),
{
    match o {
        Some(x) => Some(x.to_value()),
        None => None,
    }
}

/// Such a field, written and read again, holds the same.
pub proof fn lemma_opt_belongs_to_round_trip(
    o: Option<BelongsToView>,
    m: Seq<(Seq<char>, Doc)>,
    key: Seq<char>,
)
    requires
        opt_belongs_to_wf(o),
        lookup(m, key) == write_opt_belongs_to(o),
    ensures
        read_opt_belongs_to(m, key) == Ok::<Option<BelongsToView>, Fault>(o),
{
    lemma_lookup_index(m, key);
    if let Some(x) = o {
        lemma_belongs_to_round_trip(x, key);
    }
}

/// The model of an optional record of contents.
pub open spec fn opt_contains(o: Option<Contains>) -> Option<ContainsView> {
    match o {
        Some(x) => Some(contains_view(x)),
        None => None,
    }
}

/// Whether an optional record of contents is well formed.
pub open spec fn opt_contains_wf(o: Option<ContainsView>) -> bool {
    o matches Some(x) ==> contains_wf(x)
}

/// A copy of an optional record of contents.
pub(crate) fn copy_opt_contains(o: &Option<Contains>) -> (r: Option<Contains>)
    ensures
        opt_contains(r) == opt_contains(*o),
{
    match o {
        Some(x) => Some(copy_contains(x)),
        None => None,
    }
}

/// What a field gives that may be a record of contents is well formed.
pub proof fn lemma_read_opt_contains_wf(m: Seq<(Seq<char>, Doc)>, key: Seq<char>)
    ensures
        read_opt_contains(m, key) matches Ok(o) ==> opt_contains_wf(o),
{
    lemma_index_of(m, key);
    let i = index_of(m, key);
    if 0 <= i < m.len() {
        lemma_decode_contains_wf(m[i].1, key);
    }
}

/// What a field holds that may be a record of contents: nothing where it is
/// absent or null.
pub open spec fn read_opt_contains(
    m: Seq<(Seq<char>, Doc)>,
    key: Seq<char>,
) -> Result<Option<ContainsView>, Fault> {
    let i = index_of(m, key);
    if 0 <= i < m.len() {
        if m[i].1 is Null {
            Ok(None)
        } else {
            match decode_contains(m[i].1, key) {
                Ok(x) => Ok(Some(x)),
                Err(e) => Err(e),
            }
        }
    } else {
        Ok(None)
    }
}

/// The written form of such a field: left out where there is nothing.
pub open spec fn write_opt_contains(o: Option<ContainsView>) -> Option<Doc> {
    match o {
        Some(x) => Some(encode_contains(x)),
        None => None,
    }
}

/// Reads a field that may be a record of contents.
pub fn get_opt_contains(
    members: &Vec<(String, Value)>,
    key: &str,
) -> (r: Result<Option<Contains>, ParseError>)
    ensures
        match r {
            Ok(o) => read_opt_contains(members_of(members@), key@)
                == Ok::<Option<ContainsView>, Fault>(opt_contains(o)),
            Err(e) => read_opt_contains(members_of(members@), key@)
                == Err::<Option<ContainsView>, Fault>(e@),
        },
        r matches Ok(o) ==> opt_contains_wf(opt_contains(o)),
{
    match position(members, key) {
        None => Ok(None),
        Some(i) => {
            proof {
                assert(members_of(members@)[i as int].1 == members@[i as int].1@);
            }
            match &members[i].1 {
                Value::Null => Ok(None),
                v => match Contains::parse(v, key) {
                    Ok(x) => Ok(Some(x)),
                    Err(e) => Err(e),
                },
            }
        },
    }
}

/// Writes such a field.
pub fn make_opt_contains(o: &Option<Contains>) -> (r: Option<Value>)
    ensures
        opt_doc(r) == write_opt_contains(opt_contains(*o)),
{
    match o {
        Some(x) => Some(x.to_value()),
        None => None,
    }
}

/// Such a field, written and read again, holds the same.
pub proof fn lemma_opt_contains_round_trip(
    o: Option<ContainsView>,
    m: Seq<(Seq<char>, Doc)>,
    key: Seq<char>,
)
    requires
        opt_contains_wf(o),
        lookup(m, key) == write_opt_contains(o),
    ensures
        read_opt_contains(m, key) == Ok::<Option<ContainsView>, Fault>(o),
{
    lemma_lookup_index(m, key);
    if let Some(x) = o {
        lemma_contains_round_trip(x, key);
    }
}

} // verus!
