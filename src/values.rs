//! Value objects and enumerated fields that appear among resource attributes.
use vstd::prelude::*;
use crate::json::{
    DecodeError, JsonValue, Members, Problem, Record, bool_of, field, lookup, opt_encode, opt_field,
    opt_string_value, opt_text_of, opt_view, put, read_bool, read_field, read_opt_field,
    read_opt_text, read_text, read_u32, string_value, text, text_of, u32_of, u8_of,
};
use crate::wire::{parse_utc, url_is_valid, url_parses, utc_instant};

verus! {

/// An absolute URL, kept as the text it was read from.
pub struct WebUrl {
    text: String,
}

impl WebUrl {
    #[verifier::type_invariant]
    spec fn inv(self) -> bool {
        url_parses(self.text@)
    }

    /// The URL's text.
    pub closed spec fn view_text(self) -> Seq<char> {
        self.text@
    }

    /// The URL written in `s`; `None` where `s` is not an absolute URL.
    pub fn parse(s: &str) -> (r: Option<WebUrl>)
        ensures
            r is Some <==> url_parses(s@),
            r matches Some(u) ==> u.view_text() == s@,
    {
        if url_is_valid(s) {
            Some(WebUrl { text: text(s) })
        } else {
            None
        }
    }

    pub fn as_str(&self) -> (r: &str)
        ensures
            r@ == self.view_text(),
    {
        self.text.as_str()
    }
}

impl Record for WebUrl {
    open spec fn decodes(j: JsonValue, x: Self) -> bool {
        j matches JsonValue::Str(t) && t@ == x.view_text() && url_parses(t@)
    }

    fn decode(j: &JsonValue) -> (r: Result<Self, DecodeError>) {
        match j {
            JsonValue::Str(t) => {
                if url_is_valid(t.as_str()) {
                    let r = WebUrl { text: t.clone() };
                    assert(Self::decodes(*j, r));
                    Ok(r)
                } else {
                    Err(DecodeError { path: Vec::new(), problem: Problem::MalformedUrl(t.clone()) })
                }
            },
            _ => Err(DecodeError { path: Vec::new(), problem: Problem::TypeMismatch }),
        }
    }

    fn encode(&self) -> (r: JsonValue) {
        proof {
            use_type_invariant(self);
        }
        JsonValue::Str(self.text.clone())
    }
}

/// An instant in UTC, kept as the RFC 3339 text it was read from together
/// with the instant that the text denotes.
pub struct Timestamp {
    text: String,
    secs: i64,
    nanos: u32,
}

impl Timestamp {
    #[verifier::type_invariant]
    spec fn inv(self) -> bool {
        utc_instant(self.text@) == Some((self.secs, self.nanos))
    }

    pub closed spec fn view_text(self) -> Seq<char> {
        self.text@
    }

    /// Whole seconds since the Unix epoch, and the nanoseconds past them.
    pub closed spec fn instant(self) -> (i64, u32) {
        (self.secs, self.nanos)
    }

    /// The instant written in `s`; `None` where `s` is not an RFC 3339 timestamp.
    pub fn parse(s: &str) -> (r: Option<Timestamp>)
        ensures
            r is Some <==> utc_instant(s@) is Some,
            r matches Some(t) ==> t.view_text() == s@ && utc_instant(s@) == Some(t.instant()),
    {
        match parse_utc(s) {
            Some((secs, nanos)) => Some(Timestamp { text: text(s), secs, nanos }),
            None => None,
        }
    }

    pub fn as_str(&self) -> (r: &str)
        ensures
            r@ == self.view_text(),
    {
        self.text.as_str()
    }

    pub fn unix_seconds(&self) -> (r: i64)
        ensures
            r == self.instant().0,
    {
        self.secs
    }

    pub fn subsec_nanos(&self) -> (r: u32)
        ensures
            r == self.instant().1,
    {
        self.nanos
    }
}

impl Record for Timestamp {
    open spec fn decodes(j: JsonValue, x: Self) -> bool {
        j matches JsonValue::Str(t) && t@ == x.view_text() && utc_instant(t@) == Some(x.instant())
    }

    fn decode(j: &JsonValue) -> (r: Result<Self, DecodeError>) {
        match j {
            JsonValue::Str(t) => match parse_utc(t.as_str()) {
                Some((secs, nanos)) => {
                    let r = Timestamp { text: t.clone(), secs, nanos };
                    assert(Self::decodes(*j, r));
                    Ok(r)
                },
                None => Err(
                    DecodeError { path: Vec::new(), problem: Problem::MalformedTimestamp(t.clone()) },
                ),
            },
            _ => Err(DecodeError { path: Vec::new(), problem: Problem::TypeMismatch }),
        }
    }

    fn encode(&self) -> (r: JsonValue) {
        proof {
            use_type_invariant(self);
        }
        JsonValue::Str(self.text.clone())
    }
}

/// A colour as the API writes it, e.g. the `color` of a story.
pub struct Color {
    pub hex: String,
    pub rgb: [u8; 3],
}

impl Record for Color {
    open spec fn decodes(j: JsonValue, x: Self) -> bool {
        &&& j matches JsonValue::Object(m)
        &&& text_of(lookup(m@, "hex"@)) == Some(x.hex@)
        &&& lookup(m@, "rgb"@) matches Some(JsonValue::Array(a))
        &&& a@.len() == 3
        &&& forall|i: int| 0 <= i < 3 ==> u8_of(#[trigger] a@[i]) == Some(x.rgb@[i])
    }

    fn decode(j: &JsonValue) -> (r: Result<Self, DecodeError>) {
        match j {
            JsonValue::Object(m) => {
                let hex = read_text(m, "hex")?;
                let a = match crate::json::member(m, "rgb") {
                    Some(JsonValue::Array(a)) => a,
                    Some(_) => { return Err(crate::json::error_at("rgb", Problem::TypeMismatch)); },
                    None => { return Err(crate::json::error_at("rgb", Problem::MissingField)); },
                };
                if a.len() != 3 {
                    return Err(crate::json::error_at("rgb", Problem::TypeMismatch));
                }
                let mut rgb: [u8; 3] = [0u8, 0u8, 0u8];
                let mut i: usize = 0;
                while i < 3
                    invariant
                        0 <= i <= 3,
                        a@.len() == 3,
                        *j == JsonValue::Object(*m),
                        lookup(m@, "rgb"@) == Some(JsonValue::Array(*a)),
                        forall|k: int| 0 <= k < i ==> u8_of(#[trigger] a@[k]) == Some(rgb@[k]),
                    decreases 3 - i,
                {
                    match &a[i] {
                        JsonValue::Number(n) => {
                            if *n <= 255u64 {
                                rgb[i] = *n as u8;
                            } else {
                                assert forall|x: Color| !Self::decodes(*j, x) by {
                                    if Self::decodes(*j, x) {
                                        assert(u8_of(a@[i as int]) == Some(x.rgb@[i as int]));
                                    }
                                }
                                return Err(crate::json::error_at("rgb", Problem::TypeMismatch));
                            }
                        },
                        _ => {
                            assert forall|x: Color| !Self::decodes(*j, x) by {
                                if Self::decodes(*j, x) {
                                    assert(u8_of(a@[i as int]) == Some(x.rgb@[i as int]));
                                }
                            }
                            return Err(crate::json::error_at("rgb", Problem::TypeMismatch));
                        },
                    }
                    i = i + 1;
                }
                let r = Color { hex, rgb };
                assert(Self::decodes(*j, r));
                Ok(r)
            },
            _ => Err(DecodeError { path: Vec::new(), problem: Problem::TypeMismatch }),
        }
    }

    fn encode(&self) -> (r: JsonValue) {
        proof {
            reveal_strlit("hex");
            reveal_strlit("rgb");
            assert("hex"@[0] == 'h');
            assert("rgb"@[0] == 'r');
        }
        let mut a: Vec<JsonValue> = Vec::new();
        a.push(JsonValue::Number(self.rgb[0] as u64));
        a.push(JsonValue::Number(self.rgb[1] as u64));
        a.push(JsonValue::Number(self.rgb[2] as u64));
        let mut m: Members = Vec::new();
        put(&mut m, "hex", string_value(&self.hex));
        put(&mut m, "rgb", JsonValue::Array(a));
        JsonValue::Object(m)
    }
}

/// Position of an author's note.
#[derive(PartialEq, Eq, Structural, Clone, Copy, Debug)]
pub enum Position {
    Top,
    Bottom,
}

impl Position {
    /// The wire name of each member.
    pub open spec fn wire(self) -> Seq<char> {
        match self {
            Position::Top => "top"@,
            Position::Bottom => "bottom"@,
        }
    }

    pub fn as_wire(&self) -> (r: &'static str)
        ensures
            r@ == self.wire(),
    {
        match self {
            Position::Top => "top",
            Position::Bottom => "bottom",
        }
    }

    /// The member whose wire name is `s`, matched exactly and case-sensitively.
    pub fn from_wire(s: &String) -> (r: Result<Self, DecodeError>)
        ensures
            r matches Ok(v) ==> v.wire() == s@,
            r is Err <==> (forall|v: Self| v.wire() != s@),
            r matches Err(e) ==> e.problem == Problem::UnknownEnumValue(*s),
    {
        if *s == text("top") {
            proof {
                assert(Position::Top.wire() == s@);
            }
            Ok(Position::Top)
        } else if *s == text("bottom") {
            proof {
                assert(Position::Bottom.wire() == s@);
            }
            Ok(Position::Bottom)
        } else {
            Err(DecodeError { path: Vec::new(), problem: Problem::UnknownEnumValue(s.clone()) })
        }
    }

    /// No two members share a wire name.
    pub proof fn lemma_wire_injective(a: Self, b: Self)
        requires
            a.wire() == b.wire(),
        ensures
            a == b,
    {
        reveal_strlit("top");
        reveal_strlit("bottom");
        assert("top"@.len() == 3);
        assert("bottom"@.len() == 6);
    }
}

impl Record for Position {
    open spec fn decodes(j: JsonValue, x: Self) -> bool {
        j matches JsonValue::Str(t) && t@ == x.wire()
    }

    fn decode(j: &JsonValue) -> (r: Result<Self, DecodeError>) {
        match j {
            JsonValue::Str(t) => {
                let r = Self::from_wire(t);
                if let Ok(v) = r {
                    assert(Self::decodes(*j, v));
                }
                r
            },
            _ => Err(DecodeError { path: Vec::new(), problem: Problem::TypeMismatch }),
        }
    }

    fn encode(&self) -> (r: JsonValue) {
        JsonValue::Str(text(self.as_wire()))
    }
}

/// Privacy settings of a bookshelf.
#[derive(PartialEq, Eq, Structural, Clone, Copy, Debug)]
pub enum Privacy {
    Private,
    Unlisted,
    Public,
}

impl Privacy {
    /// The wire name of each member.
    pub open spec fn wire(self) -> Seq<char> {
        match self {
            Privacy::Private => "private"@,
            Privacy::Unlisted => "unlisted"@,
            Privacy::Public => "public"@,
        }
    }

    pub fn as_wire(&self) -> (r: &'static str)
        ensures
            r@ == self.wire(),
    {
        match self {
            Privacy::Private => "private",
            Privacy::Unlisted => "unlisted",
            Privacy::Public => "public",
        }
    }

    /// The member whose wire name is `s`, matched exactly and case-sensitively.
    pub fn from_wire(s: &String) -> (r: Result<Self, DecodeError>)
        ensures
            r matches Ok(v) ==> v.wire() == s@,
            r is Err <==> (forall|v: Self| v.wire() != s@),
            r matches Err(e) ==> e.problem == Problem::UnknownEnumValue(*s),
    {
        if *s == text("private") {
            proof {
                assert(Privacy::Private.wire() == s@);
            }
            Ok(Privacy::Private)
        } else if *s == text("unlisted") {
            proof {
                assert(Privacy::Unlisted.wire() == s@);
            }
            Ok(Privacy::Unlisted)
        } else if *s == text("public") {
            proof {
                assert(Privacy::Public.wire() == s@);
            }
            Ok(Privacy::Public)
        } else {
            Err(DecodeError { path: Vec::new(), problem: Problem::UnknownEnumValue(s.clone()) })
        }
    }

    /// No two members share a wire name.
    pub proof fn lemma_wire_injective(a: Self, b: Self)
        requires
            a.wire() == b.wire(),
        ensures
            a == b,
    {
        reveal_strlit("private");
        reveal_strlit("unlisted");
        reveal_strlit("public");
        assert("private"@.len() == 7);
        assert("unlisted"@.len() == 8);
        assert("public"@.len() == 6);
    }
}

impl Record for Privacy {
    open spec fn decodes(j: JsonValue, x: Self) -> bool {
        j matches JsonValue::Str(t) && t@ == x.wire()
    }

    fn decode(j: &JsonValue) -> (r: Result<Self, DecodeError>) {
        match j {
            JsonValue::Str(t) => {
                let r = Self::from_wire(t);
                if let Ok(v) = r {
                    assert(Self::decodes(*j, v));
                }
                r
            },
            _ => Err(DecodeError { path: Vec::new(), problem: Problem::TypeMismatch }),
        }
    }

    fn encode(&self) -> (r: JsonValue) {
        JsonValue::Str(text(self.as_wire()))
    }
}

/// Publish status of a story.
#[derive(PartialEq, Eq, Structural, Clone, Copy, Debug)]
pub enum PublishStatus {
    Visible,
    NotVisible,
    ApproveQueue,
    PostQueue,
}

impl PublishStatus {
    /// The wire name of each member.
    pub open spec fn wire(self) -> Seq<char> {
        match self {
            PublishStatus::Visible => "visible"@,
            PublishStatus::NotVisible => "not_visible"@,
            PublishStatus::ApproveQueue => "approve_queue"@,
            PublishStatus::PostQueue => "post_queue"@,
        }
    }

    pub fn as_wire(&self) -> (r: &'static str)
        ensures
            r@ == self.wire(),
    {
        match self {
            PublishStatus::Visible => "visible",
            PublishStatus::NotVisible => "not_visible",
            PublishStatus::ApproveQueue => "approve_queue",
            PublishStatus::PostQueue => "post_queue",
        }
    }

    /// The member whose wire name is `s`, matched exactly and case-sensitively.
    pub fn from_wire(s: &String) -> (r: Result<Self, DecodeError>)
        ensures
            r matches Ok(v) ==> v.wire() == s@,
            r is Err <==> (forall|v: Self| v.wire() != s@),
            r matches Err(e) ==> e.problem == Problem::UnknownEnumValue(*s),
    {
        if *s == text("visible") {
            proof {
                assert(PublishStatus::Visible.wire() == s@);
            }
            Ok(PublishStatus::Visible)
        } else if *s == text("not_visible") {
            proof {
                assert(PublishStatus::NotVisible.wire() == s@);
            }
            Ok(PublishStatus::NotVisible)
        } else if *s == text("approve_queue") {
            proof {
                assert(PublishStatus::ApproveQueue.wire() == s@);
            }
            Ok(PublishStatus::ApproveQueue)
        } else if *s == text("post_queue") {
            proof {
                assert(PublishStatus::PostQueue.wire() == s@);
            }
            Ok(PublishStatus::PostQueue)
        } else {
            Err(DecodeError { path: Vec::new(), problem: Problem::UnknownEnumValue(s.clone()) })
        }
    }

    /// No two members share a wire name.
    pub proof fn lemma_wire_injective(a: Self, b: Self)
        requires
            a.wire() == b.wire(),
        ensures
            a == b,
    {
        reveal_strlit("visible");
        reveal_strlit("not_visible");
        reveal_strlit("approve_queue");
        reveal_strlit("post_queue");
        assert("visible"@.len() == 7);
        assert("not_visible"@.len() == 11);
        assert("approve_queue"@.len() == 13);
        assert("post_queue"@.len() == 10);
    }
}

impl Record for PublishStatus {
    open spec fn decodes(j: JsonValue, x: Self) -> bool {
        j matches JsonValue::Str(t) && t@ == x.wire()
    }

    fn decode(j: &JsonValue) -> (r: Result<Self, DecodeError>) {
        match j {
            JsonValue::Str(t) => {
                let r = Self::from_wire(t);
                if let Ok(v) = r {
                    assert(Self::decodes(*j, v));
                }
                r
            },
            _ => Err(DecodeError { path: Vec::new(), problem: Problem::TypeMismatch }),
        }
    }

    fn encode(&self) -> (r: JsonValue) {
        JsonValue::Str(text(self.as_wire()))
    }
}

/// Completion status of a story.
#[derive(PartialEq, Eq, Structural, Clone, Copy, Debug)]
pub enum CompletionStatus {
    Incomplete,
    Complete,
    Hiatus,
    Cancelled,
}

impl CompletionStatus {
    /// The wire name of each member.
    pub open spec fn wire(self) -> Seq<char> {
        match self {
            CompletionStatus::Incomplete => "incomplete"@,
            CompletionStatus::Complete => "complete"@,
            CompletionStatus::Hiatus => "hiatus"@,
            CompletionStatus::Cancelled => "cancelled"@,
        }
    }

    pub fn as_wire(&self) -> (r: &'static str)
        ensures
            r@ == self.wire(),
    {
        match self {
            CompletionStatus::Incomplete => "incomplete",
            CompletionStatus::Complete => "complete",
            CompletionStatus::Hiatus => "hiatus",
            CompletionStatus::Cancelled => "cancelled",
        }
    }

    /// The member whose wire name is `s`, matched exactly and case-sensitively.
    pub fn from_wire(s: &String) -> (r: Result<Self, DecodeError>)
        ensures
            r matches Ok(v) ==> v.wire() == s@,
            r is Err <==> (forall|v: Self| v.wire() != s@),
            r matches Err(e) ==> e.problem == Problem::UnknownEnumValue(*s),
    {
        if *s == text("incomplete") {
            proof {
                assert(CompletionStatus::Incomplete.wire() == s@);
            }
            Ok(CompletionStatus::Incomplete)
        } else if *s == text("complete") {
            proof {
                assert(CompletionStatus::Complete.wire() == s@);
            }
            Ok(CompletionStatus::Complete)
        } else if *s == text("hiatus") {
            proof {
                assert(CompletionStatus::Hiatus.wire() == s@);
            }
            Ok(CompletionStatus::Hiatus)
        } else if *s == text("cancelled") {
            proof {
                assert(CompletionStatus::Cancelled.wire() == s@);
            }
            Ok(CompletionStatus::Cancelled)
        } else {
            Err(DecodeError { path: Vec::new(), problem: Problem::UnknownEnumValue(s.clone()) })
        }
    }

    /// No two members share a wire name.
    pub proof fn lemma_wire_injective(a: Self, b: Self)
        requires
            a.wire() == b.wire(),
        ensures
            a == b,
    {
        reveal_strlit("incomplete");
        reveal_strlit("complete");
        reveal_strlit("hiatus");
        reveal_strlit("cancelled");
        assert("incomplete"@.len() == 10);
        assert("complete"@.len() == 8);
        assert("hiatus"@.len() == 6);
        assert("cancelled"@.len() == 9);
    }
}

impl Record for CompletionStatus {
    open spec fn decodes(j: JsonValue, x: Self) -> bool {
        j matches JsonValue::Str(t) && t@ == x.wire()
    }

    fn decode(j: &JsonValue) -> (r: Result<Self, DecodeError>) {
        match j {
            JsonValue::Str(t) => {
                let r = Self::from_wire(t);
                if let Ok(v) = r {
                    assert(Self::decodes(*j, v));
                }
                r
            },
            _ => Err(DecodeError { path: Vec::new(), problem: Problem::TypeMismatch }),
        }
    }

    fn encode(&self) -> (r: JsonValue) {
        JsonValue::Str(text(self.as_wire()))
    }
}

/// Content rating of a story.
#[derive(PartialEq, Eq, Structural, Clone, Copy, Debug)]
pub enum ContentRating {
    Everyone,
    Teen,
    Mature,
}

impl ContentRating {
    /// The wire name of each member.
    pub open spec fn wire(self) -> Seq<char> {
        match self {
            ContentRating::Everyone => "everyone"@,
            ContentRating::Teen => "teen"@,
            ContentRating::Mature => "mature"@,
        }
    }

    pub fn as_wire(&self) -> (r: &'static str)
        ensures
            r@ == self.wire(),
    {
        match self {
            ContentRating::Everyone => "everyone",
            ContentRating::Teen => "teen",
            ContentRating::Mature => "mature",
        }
    }

    /// The member whose wire name is `s`, matched exactly and case-sensitively.
    pub fn from_wire(s: &String) -> (r: Result<Self, DecodeError>)
        ensures
            r matches Ok(v) ==> v.wire() == s@,
            r is Err <==> (forall|v: Self| v.wire() != s@),
            r matches Err(e) ==> e.problem == Problem::UnknownEnumValue(*s),
    {
        if *s == text("everyone") {
            proof {
                assert(ContentRating::Everyone.wire() == s@);
            }
            Ok(ContentRating::Everyone)
        } else if *s == text("teen") {
            proof {
                assert(ContentRating::Teen.wire() == s@);
            }
            Ok(ContentRating::Teen)
        } else if *s == text("mature") {
            proof {
                assert(ContentRating::Mature.wire() == s@);
            }
            Ok(ContentRating::Mature)
        } else {
            Err(DecodeError { path: Vec::new(), problem: Problem::UnknownEnumValue(s.clone()) })
        }
    }

    /// No two members share a wire name.
    pub proof fn lemma_wire_injective(a: Self, b: Self)
        requires
            a.wire() == b.wire(),
        ensures
            a == b,
    {
        reveal_strlit("everyone");
        reveal_strlit("teen");
        reveal_strlit("mature");
        assert("everyone"@.len() == 8);
        assert("teen"@.len() == 4);
        assert("mature"@.len() == 6);
    }
}

impl Record for ContentRating {
    open spec fn decodes(j: JsonValue, x: Self) -> bool {
        j matches JsonValue::Str(t) && t@ == x.wire()
    }

    fn decode(j: &JsonValue) -> (r: Result<Self, DecodeError>) {
        match j {
            JsonValue::Str(t) => {
                let r = Self::from_wire(t);
                if let Ok(v) = r {
                    assert(Self::decodes(*j, v));
                }
                r
            },
            _ => Err(DecodeError { path: Vec::new(), problem: Problem::TypeMismatch }),
        }
    }

    fn encode(&self) -> (r: JsonValue) {
        JsonValue::Str(text(self.as_wire()))
    }
}

/// Kind of a story tag.
#[derive(PartialEq, Eq, Structural, Clone, Copy, Debug)]
pub enum TagType {
    Character,
    Genre,
    Rating,
    Content,
    Series,
    Warning,
    Universe,
}

impl TagType {
    /// The wire name of each member.
    pub open spec fn wire(self) -> Seq<char> {
        match self {
            TagType::Character => "character"@,
            TagType::Genre => "genre"@,
            TagType::Rating => "rating"@,
            TagType::Content => "content"@,
            TagType::Series => "series"@,
            TagType::Warning => "warning"@,
            TagType::Universe => "universe"@,
        }
    }

    pub fn as_wire(&self) -> (r: &'static str)
        ensures
            r@ == self.wire(),
    {
        match self {
            TagType::Character => "character",
            TagType::Genre => "genre",
            TagType::Rating => "rating",
            TagType::Content => "content",
            TagType::Series => "series",
            TagType::Warning => "warning",
            TagType::Universe => "universe",
        }
    }

    /// The member whose wire name is `s`, matched exactly and case-sensitively.
    pub fn from_wire(s: &String) -> (r: Result<Self, DecodeError>)
        ensures
            r matches Ok(v) ==> v.wire() == s@,
            r is Err <==> (forall|v: Self| v.wire() != s@),
            r matches Err(e) ==> e.problem == Problem::UnknownEnumValue(*s),
    {
        if *s == text("character") {
            proof {
                assert(TagType::Character.wire() == s@);
            }
            Ok(TagType::Character)
        } else if *s == text("genre") {
            proof {
                assert(TagType::Genre.wire() == s@);
            }
            Ok(TagType::Genre)
        } else if *s == text("rating") {
            proof {
                assert(TagType::Rating.wire() == s@);
            }
            Ok(TagType::Rating)
        } else if *s == text("content") {
            proof {
                assert(TagType::Content.wire() == s@);
            }
            Ok(TagType::Content)
        } else if *s == text("series") {
            proof {
                assert(TagType::Series.wire() == s@);
            }
            Ok(TagType::Series)
        } else if *s == text("warning") {
            proof {
                assert(TagType::Warning.wire() == s@);
            }
            Ok(TagType::Warning)
        } else if *s == text("universe") {
            proof {
                assert(TagType::Universe.wire() == s@);
            }
            Ok(TagType::Universe)
        } else {
            Err(DecodeError { path: Vec::new(), problem: Problem::UnknownEnumValue(s.clone()) })
        }
    }

    /// No two members share a wire name.
    pub proof fn lemma_wire_injective(a: Self, b: Self)
        requires
            a.wire() == b.wire(),
        ensures
            a == b,
    {
        reveal_strlit("character");
        reveal_strlit("genre");
        reveal_strlit("rating");
        reveal_strlit("content");
        reveal_strlit("series");
        reveal_strlit("warning");
        reveal_strlit("universe");
        assert("character"@.len() == 9);
        assert("genre"@.len() == 5);
        assert("rating"@.len() == 6);
        assert("content"@.len() == 7);
        assert("series"@.len() == 6);
        assert("warning"@.len() == 7);
        assert("universe"@.len() == 8);
        assert("content"@[0] == 'c');
        assert("rating"@[0] == 'r');
        assert("series"@[0] == 's');
        assert("warning"@[0] == 'w');
    }
}

impl Record for TagType {
    open spec fn decodes(j: JsonValue, x: Self) -> bool {
        j matches JsonValue::Str(t) && t@ == x.wire()
    }

    fn decode(j: &JsonValue) -> (r: Result<Self, DecodeError>) {
        match j {
            JsonValue::Str(t) => {
                let r = Self::from_wire(t);
                if let Ok(v) = r {
                    assert(Self::decodes(*j, v));
                }
                r
            },
            _ => Err(DecodeError { path: Vec::new(), problem: Problem::TypeMismatch }),
        }
    }

    fn encode(&self) -> (r: JsonValue) {
        JsonValue::Str(text(self.as_wire()))
    }
}

/// Bookshelf icon: a glyph of an icon font, not a raster image.
pub struct Icon {
    pub name: String,
    pub type_: String,
    pub data: String,
}

impl Record for Icon {
    open spec fn decodes(j: JsonValue, x: Self) -> bool {
        &&& j matches JsonValue::Object(m)
        &&& text_of(lookup(m@, "name"@)) == Some(x.name@)
        &&& text_of(lookup(m@, "type"@)) == Some(x.type_@)
        &&& text_of(lookup(m@, "data"@)) == Some(x.data@)
    }

    fn decode(j: &JsonValue) -> (r: Result<Self, DecodeError>) {
        match j {
            JsonValue::Object(m) => {
                let name = read_text(m, "name")?;
                let type_ = read_text(m, "type")?;
                let data = read_text(m, "data")?;
                let r = Icon { name, type_, data };
                assert(Self::decodes(*j, r));
                Ok(r)
            },
            _ => Err(DecodeError { path: Vec::new(), problem: Problem::TypeMismatch }),
        }
    }

    fn encode(&self) -> (r: JsonValue) {
        proof {
            reveal_strlit("name");
            reveal_strlit("type");
            reveal_strlit("data");
            assert("data"@[0] == 'd');
            assert("name"@[0] == 'n');
            assert("type"@[0] == 't');
        }
        let mut m: Members = Vec::new();
        put(&mut m, "name", string_value(&self.name));
        put(&mut m, "type", string_value(&self.type_));
        put(&mut m, "data", string_value(&self.data));
        JsonValue::Object(m)
    }
}

/// Links to a story's cover image, one per size.
pub struct CoverImage {
    pub thumbnail: WebUrl,
    pub medium: WebUrl,
    pub large: WebUrl,
    pub full: WebUrl,
}

impl Record for CoverImage {
    open spec fn decodes(j: JsonValue, x: Self) -> bool {
        &&& j matches JsonValue::Object(m)
        &&& field(m@, "thumbnail"@, x.thumbnail)
        &&& field(m@, "medium"@, x.medium)
        &&& field(m@, "large"@, x.large)
        &&& field(m@, "full"@, x.full)
    }

    fn decode(j: &JsonValue) -> (r: Result<Self, DecodeError>) {
        match j {
            JsonValue::Object(m) => {
                let thumbnail = read_field(m, "thumbnail")?;
                let medium = read_field(m, "medium")?;
                let large = read_field(m, "large")?;
                let full = read_field(m, "full")?;
                let r = CoverImage { thumbnail, medium, large, full };
                assert(Self::decodes(*j, r));
                Ok(r)
            },
            _ => Err(DecodeError { path: Vec::new(), problem: Problem::TypeMismatch }),
        }
    }

    fn encode(&self) -> (r: JsonValue) {
        proof {
            reveal_strlit("thumbnail");
            reveal_strlit("medium");
            reveal_strlit("large");
            reveal_strlit("full");
            assert("thumbnail"@.len() == 9);
            assert("medium"@.len() == 6);
            assert("large"@.len() == 5);
            assert("full"@.len() == 4);
        }
        let mut m: Members = Vec::new();
        put(&mut m, "thumbnail", self.thumbnail.encode());
        put(&mut m, "medium", self.medium.encode());
        put(&mut m, "large", self.large.encode());
        put(&mut m, "full", self.full.encode());
        JsonValue::Object(m)
    }
}

/// Avatar images by pixel size. Sizes 16 and 192 are absent from the
/// records of some endpoints; the other eight are always there.
pub struct Avatar {
    /// 16 pixels (absent from some endpoints)
    pub size16: Option<WebUrl>,
    /// 32 pixels
    pub size32: WebUrl,
    /// 48 pixels
    pub size48: WebUrl,
    /// 64 pixels
    pub size64: WebUrl,
    /// 96 pixels
    pub size96: WebUrl,
    /// 128 pixels
    pub size128: WebUrl,
    /// 192 pixels (absent from some endpoints)
    pub size192: Option<WebUrl>,
    /// 256 pixels
    pub size256: WebUrl,
    /// 384 pixels
    pub size384: WebUrl,
    /// 512 pixels
    pub size512: WebUrl,
}

impl Record for Avatar {
    open spec fn decodes(j: JsonValue, x: Self) -> bool {
        &&& j matches JsonValue::Object(m)
        &&& opt_field(m@, "16"@, x.size16)
        &&& field(m@, "32"@, x.size32)
        &&& field(m@, "48"@, x.size48)
        &&& field(m@, "64"@, x.size64)
        &&& field(m@, "96"@, x.size96)
        &&& field(m@, "128"@, x.size128)
        &&& opt_field(m@, "192"@, x.size192)
        &&& field(m@, "256"@, x.size256)
        &&& field(m@, "384"@, x.size384)
        &&& field(m@, "512"@, x.size512)
    }

    fn decode(j: &JsonValue) -> (r: Result<Self, DecodeError>) {
        match j {
            JsonValue::Object(m) => {
                let size16 = read_opt_field(m, "16")?;
                let size32 = read_field(m, "32")?;
                let size48 = read_field(m, "48")?;
                let size64 = read_field(m, "64")?;
                let size96 = read_field(m, "96")?;
                let size128 = read_field(m, "128")?;
                let size192 = read_opt_field(m, "192")?;
                let size256 = read_field(m, "256")?;
                let size384 = read_field(m, "384")?;
                let size512 = read_field(m, "512")?;
                let r = Avatar { size16, size32, size48, size64, size96, size128, size192, size256, size384, size512 };
                assert(Self::decodes(*j, r));
                Ok(r)
            },
            _ => Err(DecodeError { path: Vec::new(), problem: Problem::TypeMismatch }),
        }
    }

    #[verifier::rlimit(100)]
    fn encode(&self) -> (r: JsonValue) {
        proof {
            reveal_strlit("16");
            reveal_strlit("32");
            reveal_strlit("48");
            reveal_strlit("64");
            reveal_strlit("96");
            reveal_strlit("128");
            reveal_strlit("192");
            reveal_strlit("256");
            reveal_strlit("384");
            reveal_strlit("512");
            assert("16"@.len() == 2);
            assert("32"@.len() == 2);
            assert("48"@.len() == 2);
            assert("64"@.len() == 2);
            assert("96"@.len() == 2);
            assert("128"@.len() == 3);
            assert("192"@.len() == 3);
            assert("256"@.len() == 3);
            assert("384"@.len() == 3);
            assert("512"@.len() == 3);
            assert("128"@[0] == '1');
            assert("128"@[1] == '2');
            assert("16"@[0] == '1');
            assert("192"@[0] == '1');
            assert("192"@[1] == '9');
            assert("256"@[0] == '2');
            assert("32"@[0] == '3');
            assert("384"@[0] == '3');
            assert("48"@[0] == '4');
            assert("512"@[0] == '5');
            assert("64"@[0] == '6');
            assert("96"@[0] == '9');
        }
        let mut m: Members = Vec::new();
        put(&mut m, "16", opt_encode(&self.size16));
        put(&mut m, "32", self.size32.encode());
        put(&mut m, "48", self.size48.encode());
        put(&mut m, "64", self.size64.encode());
        put(&mut m, "96", self.size96.encode());
        put(&mut m, "128", self.size128.encode());
        put(&mut m, "192", opt_encode(&self.size192));
        put(&mut m, "256", self.size256.encode());
        put(&mut m, "384", self.size384.encode());
        put(&mut m, "512", self.size512.encode());
        JsonValue::Object(m)
    }
}

} // verus!
