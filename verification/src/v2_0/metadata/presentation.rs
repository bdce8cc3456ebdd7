//! How a publication and its resources are laid out and offered.
use vstd::prelude::*;
use crate::error::{Fault, ParseError, mismatch, text_shapes};
use crate::helpers::{missing, parsed_plain, shapes1, wrong_shape};
use crate::text::same_text;
use crate::value::{Doc, Shape, Value, find, lookup, members_of, opt_doc, shape_of};

verus! {

/// How a resource is placed in a spread of two pages.
#[derive(Clone, Copy, Debug, PartialEq, Eq, Structural)]
pub enum PageDisplay {
    Left,
    Right,
    Center,
}

/// The name under which a variant of [`PageDisplay`] is written.
pub open spec fn page_display_name(x: PageDisplay) -> Seq<char> {
    match x {
        PageDisplay::Left => "left"@,
        PageDisplay::Right => "right"@,
        PageDisplay::Center => "center"@,
    }
}

/// The variant of [`PageDisplay`] that a name stands for.
pub open spec fn page_display_named(s: Seq<char>) -> Option<PageDisplay> {
    if s == "left"@ {
        Some(PageDisplay::Left)
    } else if s == "right"@ {
        Some(PageDisplay::Right)
    } else if s == "center"@ {
        Some(PageDisplay::Center)
    } else {
        None
    }
}

/// The variant that a value stands for: the value has to be text, and
/// the text one of the names.
pub open spec fn decode_page_display(d: Doc, field: Seq<char>) -> Result<PageDisplay, Fault> {
    match d {
        Doc::String(s) => match page_display_named(s) {
            Some(x) => Ok(x),
            None => Err(Fault::InvalidEnumValue { field, value: s }),
        },
        _ => Err(mismatch(field, text_shapes(), shape_of(d))),
    }
}

/// The written form of a variant: its name.
pub open spec fn encode_page_display(x: PageDisplay) -> Doc {
    Doc::String(page_display_name(x))
}

impl PageDisplay {
    /// The name under which this variant is written.
    pub fn name(&self) -> (s: &'static str)
        ensures
            s@ == page_display_name(*self),
    {
        match self {
            PageDisplay::Left => "left",
            PageDisplay::Right => "right",
            PageDisplay::Center => "center",
        }
    }

    /// The variant that a name stands for.
    pub fn from_name(s: &str) -> (r: Option<PageDisplay>)
        ensures
            r == page_display_named(s@),
    {
        if same_text(s, "left") {
            Some(PageDisplay::Left)
        } else if same_text(s, "right") {
            Some(PageDisplay::Right)
        } else if same_text(s, "center") {
            Some(PageDisplay::Center)
        } else {
            None
        }
    }

    /// Reads a variant from a value found under `field`.
    pub fn parse(v: &Value, field: &str) -> (r: Result<PageDisplay, ParseError>)
        ensures
            parsed_plain(r) == decode_page_display(v@, field@),
    {
        match v {
            Value::String(s) => match PageDisplay::from_name(s.as_str()) {
                Some(x) => Ok(x),
                None => Err(ParseError::InvalidEnumValue { field: field.to_owned(), value: s.clone() }),
            },
            _ => Err(wrong_shape(field, shapes1(Shape::String), v)),
        }
    }

    /// Writes this variant as a value.
    pub fn to_value(&self) -> (v: Value)
        ensures
            v@ == encode_page_display(*self),
    {
        Value::String(self.name().to_owned())
    }
}

/// A name read back gives the variant it was written for.
pub proof fn lemma_page_display_round_trip(x: PageDisplay)
    ensures
        page_display_named(page_display_name(x)) == Some(x),
{
    reveal_strlit("left");
    reveal_strlit("right");
    reveal_strlit("center");
    assert("left"@.len() == 4 && "left"@[0] == 'l' && "left"@[1] == 'e' && "left"@[2] == 'f'
        && "left"@[3] == 't');
    assert("right"@.len() == 5 && "right"@[0] == 'r' && "right"@[1] == 'i' && "right"@[2] == 'g'
        && "right"@[3] == 'h' && "right"@[4] == 't');
    assert("center"@.len() == 6 && "center"@[0] == 'c' && "center"@[1] == 'e' && "center"@[2] == 'n'
        && "center"@[3] == 't' && "center"@[4] == 'e' && "center"@[5] == 'r');
}

/// What a field holds that may name a variant of [`PageDisplay`].
pub open spec fn read_opt_page_display(
    m: Seq<(Seq<char>, Doc)>,
    key: Seq<char>,
) -> Result<Option<PageDisplay>, Fault> {
    match lookup(m, key) {
        None => Ok(None),
        Some(Doc::Null) => Ok(None),
        Some(d) => match decode_page_display(d, key) {
            Ok(x) => Ok(Some(x)),
            Err(e) => Err(e),
        },
    }
}

/// The written form of such a field.
pub open spec fn write_opt_page_display(o: Option<PageDisplay>) -> Option<Doc> {
    match o {
        Some(x) => Some(encode_page_display(x)),
        None => None,
    }
}

/// Reads a field that may name a variant of [`PageDisplay`].
pub fn get_opt_page_display(
    members: &Vec<(String, Value)>,
    key: &str,
) -> (r: Result<Option<PageDisplay>, ParseError>)
    ensures
        parsed_plain(r) == read_opt_page_display(members_of(members@), key@),
{
    match find(members, key) {
        None => Ok(None),
        Some(v) => match v {
            Value::Null => Ok(None),
            _ => match PageDisplay::parse(v, key) {
                Ok(x) => Ok(Some(x)),
                Err(e) => Err(e),
            },
        },
    }
}

/// Writes such a field.
pub fn make_opt_page_display(o: &Option<PageDisplay>) -> (r: Option<Value>)
    ensures
        opt_doc(r) == write_opt_page_display(*o),
{
    match o {
        Some(x) => Some(x.to_value()),
        None => None,
    }
}

/// Hints for how the layout of the publication should be presented.
#[derive(Clone, Copy, Debug, PartialEq, Eq, Structural)]
pub enum PublicationLayout {
    Fixed,
    Reflowable,
    Scrolled,
}

/// The name under which a variant of [`PublicationLayout`] is written.
pub open spec fn publication_layout_name(x: PublicationLayout) -> Seq<char> {
    match x {
        PublicationLayout::Fixed => "fixed"@,
        PublicationLayout::Reflowable => "reflowable"@,
        PublicationLayout::Scrolled => "scrolled"@,
    }
}

/// The variant of [`PublicationLayout`] that a name stands for.
pub open spec fn publication_layout_named(s: Seq<char>) -> Option<PublicationLayout> {
    if s == "fixed"@ {
        Some(PublicationLayout::Fixed)
    } else if s == "reflowable"@ {
        Some(PublicationLayout::Reflowable)
    } else if s == "scrolled"@ {
        Some(PublicationLayout::Scrolled)
    } else {
        None
    }
}

/// The variant that a value stands for: the value has to be text, and
/// the text one of the names.
pub open spec fn decode_publication_layout(
    d: Doc,
    field: Seq<char>,
) -> Result<PublicationLayout, Fault> {
    match d {
        Doc::String(s) => match publication_layout_named(s) {
            Some(x) => Ok(x),
            None => Err(Fault::InvalidEnumValue { field, value: s }),
        },
        _ => Err(mismatch(field, text_shapes(), shape_of(d))),
    }
}

/// The written form of a variant: its name.
pub open spec fn encode_publication_layout(x: PublicationLayout) -> Doc {
    Doc::String(publication_layout_name(x))
}

impl PublicationLayout {
    /// The name under which this variant is written.
    pub fn name(&self) -> (s: &'static str)
        ensures
            s@ == publication_layout_name(*self),
    {
        match self {
            PublicationLayout::Fixed => "fixed",
            PublicationLayout::Reflowable => "reflowable",
            PublicationLayout::Scrolled => "scrolled",
        }
    }

    /// The variant that a name stands for.
    pub fn from_name(s: &str) -> (r: Option<PublicationLayout>)
        ensures
            r == publication_layout_named(s@),
    {
        if same_text(s, "fixed") {
            Some(PublicationLayout::Fixed)
        } else if same_text(s, "reflowable") {
            Some(PublicationLayout::Reflowable)
        } else if same_text(s, "scrolled") {
            Some(PublicationLayout::Scrolled)
        } else {
            None
        }
    }

    /// Reads a variant from a value found under `field`.
    pub fn parse(v: &Value, field: &str) -> (r: Result<PublicationLayout, ParseError>)
        ensures
            parsed_plain(r) == decode_publication_layout(v@, field@),
    {
        match v {
            Value::String(s) => match PublicationLayout::from_name(s.as_str()) {
                Some(x) => Ok(x),
                None => Err(ParseError::InvalidEnumValue { field: field.to_owned(), value: s.clone() }),
            },
            _ => Err(wrong_shape(field, shapes1(Shape::String), v)),
        }
    }

    /// Writes this variant as a value.
    pub fn to_value(&self) -> (v: Value)
        ensures
            v@ == encode_publication_layout(*self),
    {
        Value::String(self.name().to_owned())
    }
}

/// A name read back gives the variant it was written for.
pub proof fn lemma_publication_layout_round_trip(x: PublicationLayout)
    ensures
        publication_layout_named(publication_layout_name(x)) == Some(x),
{
    reveal_strlit("fixed");
    reveal_strlit("reflowable");
    reveal_strlit("scrolled");
    assert("fixed"@.len() == 5 && "fixed"@[0] == 'f' && "fixed"@[1] == 'i' && "fixed"@[2] == 'x'
        && "fixed"@[3] == 'e' && "fixed"@[4] == 'd');
    assert("reflowable"@.len() == 10 && "reflowable"@[0] == 'r' && "reflowable"@[1] == 'e'
        && "reflowable"@[2] == 'f' && "reflowable"@[3] == 'l' && "reflowable"@[4] == 'o'
        && "reflowable"@[5] == 'w' && "reflowable"@[6] == 'a' && "reflowable"@[7] == 'b'
        && "reflowable"@[8] == 'l' && "reflowable"@[9] == 'e');
    assert("scrolled"@.len() == 8 && "scrolled"@[0] == 's' && "scrolled"@[1] == 'c'
        && "scrolled"@[2] == 'r' && "scrolled"@[3] == 'o' && "scrolled"@[4] == 'l'
        && "scrolled"@[5] == 'l' && "scrolled"@[6] == 'e' && "scrolled"@[7] == 'd');
}

/// What a field holds that may name a variant of [`PublicationLayout`].
pub open spec fn read_opt_publication_layout(
    m: Seq<(Seq<char>, Doc)>,
    key: Seq<char>,
) -> Result<Option<PublicationLayout>, Fault> {
    match lookup(m, key) {
        None => Ok(None),
        Some(Doc::Null) => Ok(None),
        Some(d) => match decode_publication_layout(d, key) {
            Ok(x) => Ok(Some(x)),
            Err(e) => Err(e),
        },
    }
}

/// The written form of such a field.
pub open spec fn write_opt_publication_layout(o: Option<PublicationLayout>) -> Option<Doc> {
    match o {
        Some(x) => Some(encode_publication_layout(x)),
        None => None,
    }
}

/// Reads a field that may name a variant of [`PublicationLayout`].
pub fn get_opt_publication_layout(
    members: &Vec<(String, Value)>,
    key: &str,
) -> (r: Result<Option<PublicationLayout>, ParseError>)
    ensures
        parsed_plain(r) == read_opt_publication_layout(members_of(members@), key@),
{
    match find(members, key) {
        None => Ok(None),
        Some(v) => match v {
            Value::Null => Ok(None),
            _ => match PublicationLayout::parse(v, key) {
                Ok(x) => Ok(Some(x)),
                Err(e) => Err(e),
            },
        },
    }
}

/// Writes such a field.
pub fn make_opt_publication_layout(o: &Option<PublicationLayout>) -> (r: Option<Value>)
    ensures
        opt_doc(r) == write_opt_publication_layout(*o),
{
    match o {
        Some(x) => Some(x.to_value()),
        None => None,
    }
}

/// The direction in which a publication is read.
#[derive(Clone, Copy, Debug, PartialEq, Eq, Structural)]
pub enum ReadingProgression {
    RightToLeft,
    LeftToRight,
}

/// The name under which a variant of [`ReadingProgression`] is written.
pub open spec fn reading_progression_name(x: ReadingProgression) -> Seq<char> {
    match x {
        ReadingProgression::RightToLeft => "rtl"@,
        ReadingProgression::LeftToRight => "ltr"@,
    }
}

/// The variant of [`ReadingProgression`] that a name stands for.
pub open spec fn reading_progression_named(s: Seq<char>) -> Option<ReadingProgression> {
    if s == "rtl"@ {
        Some(ReadingProgression::RightToLeft)
    } else if s == "ltr"@ {
        Some(ReadingProgression::LeftToRight)
    } else {
        None
    }
}

/// The variant that a value stands for: the value has to be text, and
/// the text one of the names.
pub open spec fn decode_reading_progression(
    d: Doc,
    field: Seq<char>,
) -> Result<ReadingProgression, Fault> {
    match d {
        Doc::String(s) => match reading_progression_named(s) {
            Some(x) => Ok(x),
            None => Err(Fault::InvalidEnumValue { field, value: s }),
        },
        _ => Err(mismatch(field, text_shapes(), shape_of(d))),
    }
}

/// The written form of a variant: its name.
pub open spec fn encode_reading_progression(x: ReadingProgression) -> Doc {
    Doc::String(reading_progression_name(x))
}

impl ReadingProgression {
    /// The name under which this variant is written.
    pub fn name(&self) -> (s: &'static str)
        ensures
            s@ == reading_progression_name(*self),
    {
        match self {
            ReadingProgression::RightToLeft => "rtl",
            ReadingProgression::LeftToRight => "ltr",
        }
    }

    /// The variant that a name stands for.
    pub fn from_name(s: &str) -> (r: Option<ReadingProgression>)
        ensures
            r == reading_progression_named(s@),
    {
        if same_text(s, "rtl") {
            Some(ReadingProgression::RightToLeft)
        } else if same_text(s, "ltr") {
            Some(ReadingProgression::LeftToRight)
        } else {
            None
        }
    }

    /// Reads a variant from a value found under `field`.
    pub fn parse(v: &Value, field: &str) -> (r: Result<ReadingProgression, ParseError>)
        ensures
            parsed_plain(r) == decode_reading_progression(v@, field@),
    {
        match v {
            Value::String(s) => match ReadingProgression::from_name(s.as_str()) {
                Some(x) => Ok(x),
                None => Err(ParseError::InvalidEnumValue { field: field.to_owned(), value: s.clone() }),
            },
            _ => Err(wrong_shape(field, shapes1(Shape::String), v)),
        }
    }

    /// Writes this variant as a value.
    pub fn to_value(&self) -> (v: Value)
        ensures
            v@ == encode_reading_progression(*self),
    {
        Value::String(self.name().to_owned())
    }
}

impl Default for ReadingProgression {
    /// From left to right.
    fn default() -> (r: ReadingProgression)
        ensures
            r == ReadingProgression::LeftToRight,
    {
        ReadingProgression::LeftToRight
    }
}

/// A name read back gives the variant it was written for.
pub proof fn lemma_reading_progression_round_trip(x: ReadingProgression)
    ensures
        reading_progression_named(reading_progression_name(x)) == Some(x),
{
    reveal_strlit("rtl");
    reveal_strlit("ltr");
    assert("rtl"@.len() == 3 && "rtl"@[0] == 'r' && "rtl"@[1] == 't' && "rtl"@[2] == 'l');
    assert("ltr"@.len() == 3 && "ltr"@[0] == 'l' && "ltr"@[1] == 't' && "ltr"@[2] == 'r');
}

/// What a field holds that may name a variant of [`ReadingProgression`].
pub open spec fn read_opt_reading_progression(
    m: Seq<(Seq<char>, Doc)>,
    key: Seq<char>,
) -> Result<Option<ReadingProgression>, Fault> {
    match lookup(m, key) {
        None => Ok(None),
        Some(Doc::Null) => Ok(None),
        Some(d) => match decode_reading_progression(d, key) {
            Ok(x) => Ok(Some(x)),
            Err(e) => Err(e),
        },
    }
}

/// The written form of such a field.
pub open spec fn write_opt_reading_progression(o: Option<ReadingProgression>) -> Option<Doc> {
    match o {
        Some(x) => Some(encode_reading_progression(x)),
        None => None,
    }
}

/// Reads a field that may name a variant of [`ReadingProgression`].
pub fn get_opt_reading_progression(
    members: &Vec<(String, Value)>,
    key: &str,
) -> (r: Result<Option<ReadingProgression>, ParseError>)
    ensures
        parsed_plain(r) == read_opt_reading_progression(members_of(members@), key@),
{
    match find(members, key) {
        None => Ok(None),
        Some(v) => match v {
            Value::Null => Ok(None),
            _ => match ReadingProgression::parse(v, key) {
                Ok(x) => Ok(Some(x)),
                Err(e) => Err(e),
            },
        },
    }
}

/// Writes such a field.
pub fn make_opt_reading_progression(o: &Option<ReadingProgression>) -> (r: Option<Value>)
    ensures
        opt_doc(r) == write_opt_reading_progression(*o),
{
    match o {
        Some(x) => Some(x.to_value()),
        None => None,
    }
}

/// A resource's current availability state.
#[derive(Clone, Copy, Debug, PartialEq, Eq, Structural)]
#[non_exhaustive]
pub enum AvailabilityState {
    Available,
    Unavailable,
    Reserved,
    Ready,
}

/// The name under which a variant of [`AvailabilityState`] is written.
pub open spec fn availability_state_name(x: AvailabilityState) -> Seq<char> {
    match x {
        AvailabilityState::Available => "available"@,
        AvailabilityState::Unavailable => "unavailable"@,
        AvailabilityState::Reserved => "reserved"@,
        AvailabilityState::Ready => "ready"@,
    }
}

/// The variant of [`AvailabilityState`] that a name stands for.
pub open spec fn availability_state_named(s: Seq<char>) -> Option<AvailabilityState> {
    if s == "available"@ {
        Some(AvailabilityState::Available)
    } else if s == "unavailable"@ {
        Some(AvailabilityState::Unavailable)
    } else if s == "reserved"@ {
        Some(AvailabilityState::Reserved)
    } else if s == "ready"@ {
        Some(AvailabilityState::Ready)
    } else {
        None
    }
}

/// The variant that a value stands for: the value has to be text, and
/// the text one of the names.
pub open spec fn decode_availability_state(
    d: Doc,
    field: Seq<char>,
) -> Result<AvailabilityState, Fault> {
    match d {
        Doc::String(s) => match availability_state_named(s) {
            Some(x) => Ok(x),
            None => Err(Fault::InvalidEnumValue { field, value: s }),
        },
        _ => Err(mismatch(field, text_shapes(), shape_of(d))),
    }
}

/// The written form of a variant: its name.
pub open spec fn encode_availability_state(x: AvailabilityState) -> Doc {
    Doc::String(availability_state_name(x))
}

impl AvailabilityState {
    /// The name under which this variant is written.
    pub fn name(&self) -> (s: &'static str)
        ensures
            s@ == availability_state_name(*self),
    {
        match self {
            AvailabilityState::Available => "available",
            AvailabilityState::Unavailable => "unavailable",
            AvailabilityState::Reserved => "reserved",
            AvailabilityState::Ready => "ready",
        }
    }

    /// The variant that a name stands for.
    pub fn from_name(s: &str) -> (r: Option<AvailabilityState>)
        ensures
            r == availability_state_named(s@),
    {
        if same_text(s, "available") {
            Some(AvailabilityState::Available)
        } else if same_text(s, "unavailable") {
            Some(AvailabilityState::Unavailable)
        } else if same_text(s, "reserved") {
            Some(AvailabilityState::Reserved)
        } else if same_text(s, "ready") {
            Some(AvailabilityState::Ready)
        } else {
            None
        }
    }

    /// Reads a variant from a value found under `field`.
    pub fn parse(v: &Value, field: &str) -> (r: Result<AvailabilityState, ParseError>)
        ensures
            parsed_plain(r) == decode_availability_state(v@, field@),
    {
        match v {
            Value::String(s) => match AvailabilityState::from_name(s.as_str()) {
                Some(x) => Ok(x),
                None => Err(ParseError::InvalidEnumValue { field: field.to_owned(), value: s.clone() }),
            },
            _ => Err(wrong_shape(field, shapes1(Shape::String), v)),
        }
    }

    /// Writes this variant as a value.
    pub fn to_value(&self) -> (v: Value)
        ensures
            v@ == encode_availability_state(*self),
    {
        Value::String(self.name().to_owned())
    }
}

/// A name read back gives the variant it was written for.
pub proof fn lemma_availability_state_round_trip(x: AvailabilityState)
    ensures
        availability_state_named(availability_state_name(x)) == Some(x),
{
    reveal_strlit("available");
    reveal_strlit("unavailable");
    reveal_strlit("reserved");
    reveal_strlit("ready");
    assert("available"@.len() == 9 && "available"@[0] == 'a' && "available"@[1] == 'v'
        && "available"@[2] == 'a' && "available"@[3] == 'i' && "available"@[4] == 'l'
        && "available"@[5] == 'a' && "available"@[6] == 'b' && "available"@[7] == 'l'
        && "available"@[8] == 'e');
    assert("unavailable"@.len() == 11 && "unavailable"@[0] == 'u' && "unavailable"@[1] == 'n'
        && "unavailable"@[2] == 'a' && "unavailable"@[3] == 'v' && "unavailable"@[4] == 'a'
        && "unavailable"@[5] == 'i' && "unavailable"@[6] == 'l' && "unavailable"@[7] == 'a'
        && "unavailable"@[8] == 'b' && "unavailable"@[9] == 'l' && "unavailable"@[10] == 'e');
    assert("reserved"@.len() == 8 && "reserved"@[0] == 'r' && "reserved"@[1] == 'e'
        && "reserved"@[2] == 's' && "reserved"@[3] == 'e' && "reserved"@[4] == 'r'
        && "reserved"@[5] == 'v' && "reserved"@[6] == 'e' && "reserved"@[7] == 'd');
    assert("ready"@.len() == 5 && "ready"@[0] == 'r' && "ready"@[1] == 'e' && "ready"@[2] == 'a'
        && "ready"@[3] == 'd' && "ready"@[4] == 'y');
}

/// What a field holds that has to name a variant of [`AvailabilityState`].
pub open spec fn read_availability_state(
    m: Seq<(Seq<char>, Doc)>,
    key: Seq<char>,
) -> Result<AvailabilityState, Fault> {
    match lookup(m, key) {
        None => Err(Fault::MissingRequiredField(key)),
        Some(d) => decode_availability_state(d, key),
    }
}

/// The written form of such a field.
pub open spec fn write_availability_state(x: AvailabilityState) -> Option<Doc> {
    Some(encode_availability_state(x))
}

/// Reads a field that has to name a variant of [`AvailabilityState`].
pub fn get_availability_state(
    members: &Vec<(String, Value)>,
    key: &str,
) -> (r: Result<AvailabilityState, ParseError>)
    ensures
        parsed_plain(r) == read_availability_state(members_of(members@), key@),
{
    match find(members, key) {
        None => Err(missing(key)),
        Some(v) => AvailabilityState::parse(v, key),
    }
}

/// Writes such a field.
pub fn make_availability_state(x: AvailabilityState) -> (r: Option<Value>)
    ensures
        opt_doc(r) == write_availability_state(x),
{
    Some(x.to_value())
}

/// What is reserved of the rights to mine a publication's text and data.
#[derive(Clone, Copy, Debug, PartialEq, Eq, Structural)]
#[non_exhaustive]
pub enum Reservation {
    All,
    Nothing,
}

/// The name under which a variant of [`Reservation`] is written.
pub open spec fn reservation_name(x: Reservation) -> Seq<char> {
    match x {
        Reservation::All => "all"@,
        Reservation::Nothing => "none"@,
    }
}

/// The variant of [`Reservation`] that a name stands for.
pub open spec fn reservation_named(s: Seq<char>) -> Option<Reservation> {
    if s == "all"@ {
        Some(Reservation::All)
    } else if s == "none"@ {
        Some(Reservation::Nothing)
    } else {
        None
    }
}

/// The variant that a value stands for: the value has to be text, and
/// the text one of the names.
pub open spec fn decode_reservation(d: Doc, field: Seq<char>) -> Result<Reservation, Fault> {
    match d {
        Doc::String(s) => match reservation_named(s) {
            Some(x) => Ok(x),
            None => Err(Fault::InvalidEnumValue { field, value: s }),
        },
        _ => Err(mismatch(field, text_shapes(), shape_of(d))),
    }
}

/// The written form of a variant: its name.
pub open spec fn encode_reservation(x: Reservation) -> Doc {
    Doc::String(reservation_name(x))
}

impl Reservation {
    /// The name under which this variant is written.
    pub fn name(&self) -> (s: &'static str)
        ensures
            s@ == reservation_name(*self),
    {
        match self {
            Reservation::All => "all",
            Reservation::Nothing => "none",
        }
    }

    /// The variant that a name stands for.
    pub fn from_name(s: &str) -> (r: Option<Reservation>)
        ensures
            r == reservation_named(s@),
    {
        if same_text(s, "all") {
            Some(Reservation::All)
        } else if same_text(s, "none") {
            Some(Reservation::Nothing)
        } else {
            None
        }
    }

    /// Reads a variant from a value found under `field`.
    pub fn parse(v: &Value, field: &str) -> (r: Result<Reservation, ParseError>)
        ensures
            parsed_plain(r) == decode_reservation(v@, field@),
    {
        match v {
            Value::String(s) => match Reservation::from_name(s.as_str()) {
                Some(x) => Ok(x),
                None => Err(ParseError::InvalidEnumValue { field: field.to_owned(), value: s.clone() }),
            },
            _ => Err(wrong_shape(field, shapes1(Shape::String), v)),
        }
    }

    /// Writes this variant as a value.
    pub fn to_value(&self) -> (v: Value)
        ensures
            v@ == encode_reservation(*self),
    {
        Value::String(self.name().to_owned())
    }
}

/// A name read back gives the variant it was written for.
pub proof fn lemma_reservation_round_trip(x: Reservation)
    ensures
        reservation_named(reservation_name(x)) == Some(x),
{
    reveal_strlit("all");
    reveal_strlit("none");
    assert("all"@.len() == 3 && "all"@[0] == 'a' && "all"@[1] == 'l' && "all"@[2] == 'l');
    assert("none"@.len() == 4 && "none"@[0] == 'n' && "none"@[1] == 'o' && "none"@[2] == 'n'
        && "none"@[3] == 'e');
}

/// What a field holds that has to name a variant of [`Reservation`].
pub open spec fn read_reservation(
    m: Seq<(Seq<char>, Doc)>,
    key: Seq<char>,
) -> Result<Reservation, Fault> {
    match lookup(m, key) {
        None => Err(Fault::MissingRequiredField(key)),
        Some(d) => decode_reservation(d, key),
    }
}

/// The written form of such a field.
pub open spec fn write_reservation(x: Reservation) -> Option<Doc> {
    Some(encode_reservation(x))
}

/// Reads a field that has to name a variant of [`Reservation`].
pub fn get_reservation(
    members: &Vec<(String, Value)>,
    key: &str,
) -> (r: Result<Reservation, ParseError>)
    ensures
        parsed_plain(r) == read_reservation(members_of(members@), key@),
{
    match find(members, key) {
        None => Err(missing(key)),
        Some(v) => Reservation::parse(v, key),
    }
}

/// Writes such a field.
pub fn make_reservation(x: Reservation) -> (r: Option<Value>)
    ensures
        opt_doc(r) == write_reservation(x),
{
    Some(x.to_value())
}

} // verus!
