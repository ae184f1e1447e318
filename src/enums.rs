use vstd::prelude::*;
use crate::convert::NativeValue;
use crate::value::{Value, ValueModel};

verus! {

/// An enumeration of the interpreted language, known to the host by the
/// enumeration's name and the textual name of each member.
pub trait EnumMembers: Sized {
    spec fn type_name_spec() -> Seq<char>;

    spec fn member_spec(self) -> Seq<char>;

    fn enumeration_name() -> (r: &'static str)
        ensures
            r@ == Self::type_name_spec(),
    ;

    fn member_name(&self) -> (r: &'static str)
        ensures
            r@ == self.member_spec(),
    ;

    /// The member whose textual name is `s`, if any.
    fn parse_member(s: &String) -> (r: Option<Self>)
        ensures
            match r {
                Some(e) => e.member_spec() == s@,
                None => forall|e: Self| e.member_spec() != s@,
            },
    ;

    /// No two members share a textual name.
    proof fn lemma_member_injective(a: Self, b: Self)
        ensures
            a.member_spec() == b.member_spec() ==> a == b,
    ;
}

pub open spec fn enum_encode<E: EnumMembers>(e: E) -> ValueModel {
    ValueModel::Enumeration(E::type_name_spec(), e.member_spec())
}

/// An enumeration value reads back as a member of `E` when it names `E` and
/// one of its members.
pub open spec fn enum_decode<E: EnumMembers>(m: ValueModel) -> Option<E> {
    match m {
        ValueModel::Enumeration(t, s) => if t == E::type_name_spec() && exists|e: E| e.member_spec() == s {
            Some(choose|e: E| e.member_spec() == s)
        } else {
            None
        },
        _ => None,
    }
}

pub proof fn lemma_enum_round_trip<E: EnumMembers>(x: E)
    ensures
        enum_decode::<E>(enum_encode(x)) == Some(x),
{
    let s = x.member_spec();
    assert(exists|e: E| e.member_spec() == s) by {
        assert(x.member_spec() == s);
    }
    let c = choose|e: E| e.member_spec() == s;
    E::lemma_member_injective(c, x);
}

/// A value that names an enumeration other than `E` never reads back as a
/// member of `E`, whatever member text it carries.
pub proof fn lemma_enum_name_mismatch<E: EnumMembers>(t: Seq<char>, s: Seq<char>)
    requires
        t != E::type_name_spec(),
    ensures
        enum_decode::<E>(ValueModel::Enumeration(t, s)) is None,
{
}

fn text_is(s: &String, lit: &str) -> (r: bool)
    ensures
        r == (s@ == lit@),
{
    *s == lit.to_owned()
}

/// The enumeration value for member `e`.
pub fn enum_into_value<E: EnumMembers>(e: E) -> (r: Value)
    ensures
        r.model() == enum_encode(e),
{
    Value::EnumerationValue(E::enumeration_name().to_owned(), e.member_name().to_owned())
}

/// The member of `E` that `v` names, or `v` itself back.
pub fn enum_from_value<E: EnumMembers>(v: Value) -> (r: Result<E, Value>)
    ensures
        match enum_decode::<E>(v.model()) {
            Some(e) => r == Ok::<E, Value>(e),
            None => r == Err::<E, Value>(v),
        },
{
    let found: Option<E> = match &v {
        Value::EnumerationValue(t, m) => {
            if text_is(t, E::enumeration_name()) {
                E::parse_member(m)
            } else {
                None
            }
        },
        _ => None,
    };
    match found {
        Some(e) => {
            proof {
                lemma_enum_round_trip(e);
            }
            Ok(e)
        },
        None => Err(v),
    }
}

/// Horizontal alignment of text.
#[derive(Clone, Copy, Debug, PartialEq, Eq, Structural)]
pub enum TextHorizontalAlignment {
    Left,
    Center,
    Right,
}

impl EnumMembers for TextHorizontalAlignment {
    open spec fn type_name_spec() -> Seq<char> {
        "TextHorizontalAlignment"@
    }

    open spec fn member_spec(self) -> Seq<char> {
        match self {
            TextHorizontalAlignment::Left => "left"@,
            TextHorizontalAlignment::Center => "center"@,
            TextHorizontalAlignment::Right => "right"@,
        }
    }

    fn enumeration_name() -> (r: &'static str) {
        "TextHorizontalAlignment"
    }

    fn member_name(&self) -> (r: &'static str) {
        match self {
            TextHorizontalAlignment::Left => "left",
            TextHorizontalAlignment::Center => "center",
            TextHorizontalAlignment::Right => "right",
        }
    }

    fn parse_member(s: &String) -> (r: Option<TextHorizontalAlignment>) {
        proof {
        reveal_strlit("left");
        reveal_strlit("center");
        reveal_strlit("right");
        }
        if text_is(s, "left") {
            Some(TextHorizontalAlignment::Left)
        } else if text_is(s, "center") {
            Some(TextHorizontalAlignment::Center)
        } else if text_is(s, "right") {
            Some(TextHorizontalAlignment::Right)
        } else {
            None
        }
    }

    proof fn lemma_member_injective(a: TextHorizontalAlignment, b: TextHorizontalAlignment) {
        reveal_strlit("left");
        reveal_strlit("center");
        reveal_strlit("right");
        assert(TextHorizontalAlignment::Left.member_spec().len() != TextHorizontalAlignment::Center.member_spec().len());
        assert(TextHorizontalAlignment::Left.member_spec().len() != TextHorizontalAlignment::Right.member_spec().len());
        assert(TextHorizontalAlignment::Center.member_spec().len() != TextHorizontalAlignment::Right.member_spec().len());
    }
}

impl NativeValue for TextHorizontalAlignment {
    type Model = TextHorizontalAlignment;

    open spec fn native_model(&self) -> TextHorizontalAlignment {
        *self
    }

    open spec fn encode(x: TextHorizontalAlignment) -> ValueModel {
        enum_encode(x)
    }

    open spec fn decode(m: ValueModel) -> Option<TextHorizontalAlignment> {
        enum_decode(m)
    }

    fn into_value(self) -> (r: Value) {
        enum_into_value(self)
    }

    fn from_value(v: Value) -> (r: Result<TextHorizontalAlignment, Value>) {
        enum_from_value(v)
    }

    proof fn lemma_decode_encode(x: TextHorizontalAlignment) {
        lemma_enum_round_trip(x);
    }
}

/// Vertical alignment of text.
#[derive(Clone, Copy, Debug, PartialEq, Eq, Structural)]
pub enum TextVerticalAlignment {
    Top,
    Center,
    Bottom,
}

impl EnumMembers for TextVerticalAlignment {
    open spec fn type_name_spec() -> Seq<char> {
        "TextVerticalAlignment"@
    }

    open spec fn member_spec(self) -> Seq<char> {
        match self {
            TextVerticalAlignment::Top => "top"@,
            TextVerticalAlignment::Center => "center"@,
            TextVerticalAlignment::Bottom => "bottom"@,
        }
    }

    fn enumeration_name() -> (r: &'static str) {
        "TextVerticalAlignment"
    }

    fn member_name(&self) -> (r: &'static str) {
        match self {
            TextVerticalAlignment::Top => "top",
            TextVerticalAlignment::Center => "center",
            TextVerticalAlignment::Bottom => "bottom",
        }
    }

    fn parse_member(s: &String) -> (r: Option<TextVerticalAlignment>) {
        proof {
        reveal_strlit("top");
        reveal_strlit("center");
        reveal_strlit("bottom");
        }
        if text_is(s, "top") {
            Some(TextVerticalAlignment::Top)
        } else if text_is(s, "center") {
            Some(TextVerticalAlignment::Center)
        } else if text_is(s, "bottom") {
            Some(TextVerticalAlignment::Bottom)
        } else {
            None
        }
    }

    proof fn lemma_member_injective(a: TextVerticalAlignment, b: TextVerticalAlignment) {
        reveal_strlit("top");
        reveal_strlit("center");
        reveal_strlit("bottom");
        assert(TextVerticalAlignment::Top.member_spec().len() != TextVerticalAlignment::Center.member_spec().len());
        assert(TextVerticalAlignment::Top.member_spec().len() != TextVerticalAlignment::Bottom.member_spec().len());
        assert(TextVerticalAlignment::Center.member_spec()[0] != TextVerticalAlignment::Bottom.member_spec()[0]);
    }
}

impl NativeValue for TextVerticalAlignment {
    type Model = TextVerticalAlignment;

    open spec fn native_model(&self) -> TextVerticalAlignment {
        *self
    }

    open spec fn encode(x: TextVerticalAlignment) -> ValueModel {
        enum_encode(x)
    }

    open spec fn decode(m: ValueModel) -> Option<TextVerticalAlignment> {
        enum_decode(m)
    }

    fn into_value(self) -> (r: Value) {
        enum_into_value(self)
    }

    fn from_value(v: Value) -> (r: Result<TextVerticalAlignment, Value>) {
        enum_from_value(v)
    }

    proof fn lemma_decode_encode(x: TextVerticalAlignment) {
        lemma_enum_round_trip(x);
    }
}

/// What happens to text that does not fit.
#[derive(Clone, Copy, Debug, PartialEq, Eq, Structural)]
pub enum TextOverflow {
    Clip,
    Elide,
}

impl EnumMembers for TextOverflow {
    open spec fn type_name_spec() -> Seq<char> {
        "TextOverflow"@
    }

    open spec fn member_spec(self) -> Seq<char> {
        match self {
            TextOverflow::Clip => "clip"@,
            TextOverflow::Elide => "elide"@,
        }
    }

    fn enumeration_name() -> (r: &'static str) {
        "TextOverflow"
    }

    fn member_name(&self) -> (r: &'static str) {
        match self {
            TextOverflow::Clip => "clip",
            TextOverflow::Elide => "elide",
        }
    }

    fn parse_member(s: &String) -> (r: Option<TextOverflow>) {
        proof {
        reveal_strlit("clip");
        reveal_strlit("elide");
        }
        if text_is(s, "clip") {
            Some(TextOverflow::Clip)
        } else if text_is(s, "elide") {
            Some(TextOverflow::Elide)
        } else {
            None
        }
    }

    proof fn lemma_member_injective(a: TextOverflow, b: TextOverflow) {
        reveal_strlit("clip");
        reveal_strlit("elide");
        assert(TextOverflow::Clip.member_spec().len() != TextOverflow::Elide.member_spec().len());
    }
}

impl NativeValue for TextOverflow {
    type Model = TextOverflow;

    open spec fn native_model(&self) -> TextOverflow {
        *self
    }

    open spec fn encode(x: TextOverflow) -> ValueModel {
        enum_encode(x)
    }

    open spec fn decode(m: ValueModel) -> Option<TextOverflow> {
        enum_decode(m)
    }

    fn into_value(self) -> (r: Value) {
        enum_into_value(self)
    }

    fn from_value(v: Value) -> (r: Result<TextOverflow, Value>) {
        enum_from_value(v)
    }

    proof fn lemma_decode_encode(x: TextOverflow) {
        lemma_enum_round_trip(x);
    }
}

/// Whether text wraps.
#[derive(Clone, Copy, Debug, PartialEq, Eq, Structural)]
pub enum TextWrap {
    NoWrap,
    WordWrap,
}

impl EnumMembers for TextWrap {
    open spec fn type_name_spec() -> Seq<char> {
        "TextWrap"@
    }

    open spec fn member_spec(self) -> Seq<char> {
        match self {
            TextWrap::NoWrap => "no_wrap"@,
            TextWrap::WordWrap => "word_wrap"@,
        }
    }

    fn enumeration_name() -> (r: &'static str) {
        "TextWrap"
    }

    fn member_name(&self) -> (r: &'static str) {
        match self {
            TextWrap::NoWrap => "no_wrap",
            TextWrap::WordWrap => "word_wrap",
        }
    }

    fn parse_member(s: &String) -> (r: Option<TextWrap>) {
        proof {
        reveal_strlit("no_wrap");
        reveal_strlit("word_wrap");
        }
        if text_is(s, "no_wrap") {
            Some(TextWrap::NoWrap)
        } else if text_is(s, "word_wrap") {
            Some(TextWrap::WordWrap)
        } else {
            None
        }
    }

    proof fn lemma_member_injective(a: TextWrap, b: TextWrap) {
        reveal_strlit("no_wrap");
        reveal_strlit("word_wrap");
        assert(TextWrap::NoWrap.member_spec().len() != TextWrap::WordWrap.member_spec().len());
    }
}

impl NativeValue for TextWrap {
    type Model = TextWrap;

    open spec fn native_model(&self) -> TextWrap {
        *self
    }

    open spec fn encode(x: TextWrap) -> ValueModel {
        enum_encode(x)
    }

    open spec fn decode(m: ValueModel) -> Option<TextWrap> {
        enum_decode(m)
    }

    fn into_value(self) -> (r: Value) {
        enum_into_value(self)
    }

    fn from_value(v: Value) -> (r: Result<TextWrap, Value>) {
        enum_from_value(v)
    }

    proof fn lemma_decode_encode(x: TextWrap) {
        lemma_enum_round_trip(x);
    }
}

/// Alignment of the items of a layout.
#[derive(Clone, Copy, Debug, PartialEq, Eq, Structural)]
pub enum LayoutAlignment {
    Stretch,
    Center,
    Start,
    End,
    SpaceBetween,
    SpaceAround,
}

impl EnumMembers for LayoutAlignment {
    open spec fn type_name_spec() -> Seq<char> {
        "LayoutAlignment"@
    }

    open spec fn member_spec(self) -> Seq<char> {
        match self {
            LayoutAlignment::Stretch => "stretch"@,
            LayoutAlignment::Center => "center"@,
            LayoutAlignment::Start => "start"@,
            LayoutAlignment::End => "end"@,
            LayoutAlignment::SpaceBetween => "space_between"@,
            LayoutAlignment::SpaceAround => "space_around"@,
        }
    }

    fn enumeration_name() -> (r: &'static str) {
        "LayoutAlignment"
    }

    fn member_name(&self) -> (r: &'static str) {
        match self {
            LayoutAlignment::Stretch => "stretch",
            LayoutAlignment::Center => "center",
            LayoutAlignment::Start => "start",
            LayoutAlignment::End => "end",
            LayoutAlignment::SpaceBetween => "space_between",
            LayoutAlignment::SpaceAround => "space_around",
        }
    }

    fn parse_member(s: &String) -> (r: Option<LayoutAlignment>) {
        proof {
        reveal_strlit("stretch");
        reveal_strlit("center");
        reveal_strlit("start");
        reveal_strlit("end");
        reveal_strlit("space_between");
        reveal_strlit("space_around");
        }
        if text_is(s, "stretch") {
            Some(LayoutAlignment::Stretch)
        } else if text_is(s, "center") {
            Some(LayoutAlignment::Center)
        } else if text_is(s, "start") {
            Some(LayoutAlignment::Start)
        } else if text_is(s, "end") {
            Some(LayoutAlignment::End)
        } else if text_is(s, "space_between") {
            Some(LayoutAlignment::SpaceBetween)
        } else if text_is(s, "space_around") {
            Some(LayoutAlignment::SpaceAround)
        } else {
            None
        }
    }

    proof fn lemma_member_injective(a: LayoutAlignment, b: LayoutAlignment) {
        reveal_strlit("stretch");
        reveal_strlit("center");
        reveal_strlit("start");
        reveal_strlit("end");
        reveal_strlit("space_between");
        reveal_strlit("space_around");
        assert(LayoutAlignment::Stretch.member_spec().len() != LayoutAlignment::Center.member_spec().len());
        assert(LayoutAlignment::Stretch.member_spec().len() != LayoutAlignment::Start.member_spec().len());
        assert(LayoutAlignment::Stretch.member_spec().len() != LayoutAlignment::End.member_spec().len());
        assert(LayoutAlignment::Stretch.member_spec().len() != LayoutAlignment::SpaceBetween.member_spec().len());
        assert(LayoutAlignment::Stretch.member_spec().len() != LayoutAlignment::SpaceAround.member_spec().len());
        assert(LayoutAlignment::Center.member_spec().len() != LayoutAlignment::Start.member_spec().len());
        assert(LayoutAlignment::Center.member_spec().len() != LayoutAlignment::End.member_spec().len());
        assert(LayoutAlignment::Center.member_spec().len() != LayoutAlignment::SpaceBetween.member_spec().len());
        assert(LayoutAlignment::Center.member_spec().len() != LayoutAlignment::SpaceAround.member_spec().len());
        assert(LayoutAlignment::Start.member_spec().len() != LayoutAlignment::End.member_spec().len());
        assert(LayoutAlignment::Start.member_spec().len() != LayoutAlignment::SpaceBetween.member_spec().len());
        assert(LayoutAlignment::Start.member_spec().len() != LayoutAlignment::SpaceAround.member_spec().len());
        assert(LayoutAlignment::End.member_spec().len() != LayoutAlignment::SpaceBetween.member_spec().len());
        assert(LayoutAlignment::End.member_spec().len() != LayoutAlignment::SpaceAround.member_spec().len());
        assert(LayoutAlignment::SpaceBetween.member_spec().len() != LayoutAlignment::SpaceAround.member_spec().len());
    }
}

impl NativeValue for LayoutAlignment {
    type Model = LayoutAlignment;

    open spec fn native_model(&self) -> LayoutAlignment {
        *self
    }

    open spec fn encode(x: LayoutAlignment) -> ValueModel {
        enum_encode(x)
    }

    open spec fn decode(m: ValueModel) -> Option<LayoutAlignment> {
        enum_decode(m)
    }

    fn into_value(self) -> (r: Value) {
        enum_into_value(self)
    }

    fn from_value(v: Value) -> (r: Result<LayoutAlignment, Value>) {
        enum_from_value(v)
    }

    proof fn lemma_decode_encode(x: LayoutAlignment) {
        lemma_enum_round_trip(x);
    }
}

/// How an image fills its area.
#[derive(Clone, Copy, Debug, PartialEq, Eq, Structural)]
pub enum ImageFit {
    Fill,
    Contain,
    Cover,
}

impl EnumMembers for ImageFit {
    open spec fn type_name_spec() -> Seq<char> {
        "ImageFit"@
    }

    open spec fn member_spec(self) -> Seq<char> {
        match self {
            ImageFit::Fill => "fill"@,
            ImageFit::Contain => "contain"@,
            ImageFit::Cover => "cover"@,
        }
    }

    fn enumeration_name() -> (r: &'static str) {
        "ImageFit"
    }

    fn member_name(&self) -> (r: &'static str) {
        match self {
            ImageFit::Fill => "fill",
            ImageFit::Contain => "contain",
            ImageFit::Cover => "cover",
        }
    }

    fn parse_member(s: &String) -> (r: Option<ImageFit>) {
        proof {
        reveal_strlit("fill");
        reveal_strlit("contain");
        reveal_strlit("cover");
        }
        if text_is(s, "fill") {
            Some(ImageFit::Fill)
        } else if text_is(s, "contain") {
            Some(ImageFit::Contain)
        } else if text_is(s, "cover") {
            Some(ImageFit::Cover)
        } else {
            None
        }
    }

    proof fn lemma_member_injective(a: ImageFit, b: ImageFit) {
        reveal_strlit("fill");
        reveal_strlit("contain");
        reveal_strlit("cover");
        assert(ImageFit::Fill.member_spec().len() != ImageFit::Contain.member_spec().len());
        assert(ImageFit::Fill.member_spec().len() != ImageFit::Cover.member_spec().len());
        assert(ImageFit::Contain.member_spec().len() != ImageFit::Cover.member_spec().len());
    }
}

impl NativeValue for ImageFit {
    type Model = ImageFit;

    open spec fn native_model(&self) -> ImageFit {
        *self
    }

    open spec fn encode(x: ImageFit) -> ValueModel {
        enum_encode(x)
    }

    open spec fn decode(m: ValueModel) -> Option<ImageFit> {
        enum_decode(m)
    }

    fn into_value(self) -> (r: Value) {
        enum_into_value(self)
    }

    fn from_value(v: Value) -> (r: Result<ImageFit, Value>) {
        enum_from_value(v)
    }

    proof fn lemma_decode_encode(x: ImageFit) {
        lemma_enum_round_trip(x);
    }
}

/// Whether a key went down or up.
#[derive(Clone, Copy, Debug, PartialEq, Eq, Structural)]
pub enum KeyEventType {
    KeyPressed,
    KeyReleased,
}

impl EnumMembers for KeyEventType {
    open spec fn type_name_spec() -> Seq<char> {
        "KeyEventType"@
    }

    open spec fn member_spec(self) -> Seq<char> {
        match self {
            KeyEventType::KeyPressed => "KeyPressed"@,
            KeyEventType::KeyReleased => "KeyReleased"@,
        }
    }

    fn enumeration_name() -> (r: &'static str) {
        "KeyEventType"
    }

    fn member_name(&self) -> (r: &'static str) {
        match self {
            KeyEventType::KeyPressed => "KeyPressed",
            KeyEventType::KeyReleased => "KeyReleased",
        }
    }

    fn parse_member(s: &String) -> (r: Option<KeyEventType>) {
        proof {
        reveal_strlit("KeyPressed");
        reveal_strlit("KeyReleased");
        }
        if text_is(s, "KeyPressed") {
            Some(KeyEventType::KeyPressed)
        } else if text_is(s, "KeyReleased") {
            Some(KeyEventType::KeyReleased)
        } else {
            None
        }
    }

    proof fn lemma_member_injective(a: KeyEventType, b: KeyEventType) {
        reveal_strlit("KeyPressed");
        reveal_strlit("KeyReleased");
        assert(KeyEventType::KeyPressed.member_spec().len() != KeyEventType::KeyReleased.member_spec().len());
    }
}

impl NativeValue for KeyEventType {
    type Model = KeyEventType;

    open spec fn native_model(&self) -> KeyEventType {
        *self
    }

    open spec fn encode(x: KeyEventType) -> ValueModel {
        enum_encode(x)
    }

    open spec fn decode(m: ValueModel) -> Option<KeyEventType> {
        enum_decode(m)
    }

    fn into_value(self) -> (r: Value) {
        enum_into_value(self)
    }

    fn from_value(v: Value) -> (r: Result<KeyEventType, Value>) {
        enum_from_value(v)
    }

    proof fn lemma_decode_encode(x: KeyEventType) {
        lemma_enum_round_trip(x);
    }
}

/// Whether an event was taken.
#[derive(Clone, Copy, Debug, PartialEq, Eq, Structural)]
pub enum EventResult {
    Reject,
    Accept,
}

impl EnumMembers for EventResult {
    open spec fn type_name_spec() -> Seq<char> {
        "EventResult"@
    }

    open spec fn member_spec(self) -> Seq<char> {
        match self {
            EventResult::Reject => "reject"@,
            EventResult::Accept => "accept"@,
        }
    }

    fn enumeration_name() -> (r: &'static str) {
        "EventResult"
    }

    fn member_name(&self) -> (r: &'static str) {
        match self {
            EventResult::Reject => "reject",
            EventResult::Accept => "accept",
        }
    }

    fn parse_member(s: &String) -> (r: Option<EventResult>) {
        proof {
        reveal_strlit("reject");
        reveal_strlit("accept");
        }
        if text_is(s, "reject") {
            Some(EventResult::Reject)
        } else if text_is(s, "accept") {
            Some(EventResult::Accept)
        } else {
            None
        }
    }

    proof fn lemma_member_injective(a: EventResult, b: EventResult) {
        reveal_strlit("reject");
        reveal_strlit("accept");
        assert(EventResult::Reject.member_spec()[0] != EventResult::Accept.member_spec()[0]);
    }
}

impl NativeValue for EventResult {
    type Model = EventResult;

    open spec fn native_model(&self) -> EventResult {
        *self
    }

    open spec fn encode(x: EventResult) -> ValueModel {
        enum_encode(x)
    }

    open spec fn decode(m: ValueModel) -> Option<EventResult> {
        enum_decode(m)
    }

    fn into_value(self) -> (r: Value) {
        enum_into_value(self)
    }

    fn from_value(v: Value) -> (r: Result<EventResult, Value>) {
        enum_from_value(v)
    }

    proof fn lemma_decode_encode(x: EventResult) {
        lemma_enum_round_trip(x);
    }
}

/// Which points a path's fill covers.
#[derive(Clone, Copy, Debug, PartialEq, Eq, Structural)]
pub enum FillRule {
    Nonzero,
    Evenodd,
}

impl EnumMembers for FillRule {
    open spec fn type_name_spec() -> Seq<char> {
        "FillRule"@
    }

    open spec fn member_spec(self) -> Seq<char> {
        match self {
            FillRule::Nonzero => "nonzero"@,
            FillRule::Evenodd => "evenodd"@,
        }
    }

    fn enumeration_name() -> (r: &'static str) {
        "FillRule"
    }

    fn member_name(&self) -> (r: &'static str) {
        match self {
            FillRule::Nonzero => "nonzero",
            FillRule::Evenodd => "evenodd",
        }
    }

    fn parse_member(s: &String) -> (r: Option<FillRule>) {
        proof {
        reveal_strlit("nonzero");
        reveal_strlit("evenodd");
        }
        if text_is(s, "nonzero") {
            Some(FillRule::Nonzero)
        } else if text_is(s, "evenodd") {
            Some(FillRule::Evenodd)
        } else {
            None
        }
    }

    proof fn lemma_member_injective(a: FillRule, b: FillRule) {
        reveal_strlit("nonzero");
        reveal_strlit("evenodd");
        assert(FillRule::Nonzero.member_spec()[0] != FillRule::Evenodd.member_spec()[0]);
    }
}

impl NativeValue for FillRule {
    type Model = FillRule;

    open spec fn native_model(&self) -> FillRule {
        *self
    }

    open spec fn encode(x: FillRule) -> ValueModel {
        enum_encode(x)
    }

    open spec fn decode(m: ValueModel) -> Option<FillRule> {
        enum_decode(m)
    }

    fn into_value(self) -> (r: Value) {
        enum_into_value(self)
    }

    fn from_value(v: Value) -> (r: Result<FillRule, Value>) {
        enum_from_value(v)
    }

    proof fn lemma_decode_encode(x: FillRule) {
        lemma_enum_round_trip(x);
    }
}

} // verus!
