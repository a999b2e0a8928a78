use fimfiction_api::json::{JsonValue, Problem, Record};
use fimfiction_api::resources::{
    resolve, ChapterAttributes, Data, Document, Resource, ResourceId, ResourceKind,
};
use fimfiction_api::response::ApiResponse;
use fimfiction_api::values::{Avatar, Color, PublishStatus, TagType, Timestamp, WebUrl};

fn s(t: &str) -> JsonValue {
    JsonValue::Str(t.to_string())
}

fn n(v: u64) -> JsonValue {
    JsonValue::Number(v)
}

fn b(v: bool) -> JsonValue {
    JsonValue::Bool(v)
}

fn obj(members: Vec<(&str, JsonValue)>) -> JsonValue {
    JsonValue::Object(members.into_iter().map(|(k, v)| (k.to_string(), v)).collect())
}

fn members(j: JsonValue) -> Vec<(String, JsonValue)> {
    match j {
        JsonValue::Object(m) => m,
        _ => panic!("not an object"),
    }
}

fn without(j: JsonValue, key: &str) -> JsonValue {
    JsonValue::Object(members(j).into_iter().filter(|(k, _)| k != key).collect())
}

fn with(j: JsonValue, key: &str, v: JsonValue) -> JsonValue {
    let mut m: Vec<(String, JsonValue)> = members(without(j, key));
    m.push((key.to_string(), v));
    JsonValue::Object(m)
}

const TS: &str = "2018-01-26T18:30:09Z";

fn url(path: &str) -> JsonValue {
    s(&format!("https://cdn-img.fimfiction.net/{}", path))
}

fn avatar() -> JsonValue {
    obj(["16", "32", "48", "64", "96", "128", "192", "256", "384", "512"]
        .iter()
        .map(|k| (*k, url(&format!("user/{}.png", k))))
        .collect())
}

fn color() -> JsonValue {
    obj(vec![("hex", s("4f6ab1")), ("rgb", JsonValue::Array(vec![n(79), n(106), n(177)]))])
}

fn reference(kind: &str, id: &str) -> JsonValue {
    obj(vec![("data", obj(vec![("type", s(kind)), ("id", s(id))]))])
}

fn attributes(kind: &str) -> JsonValue {
    match kind {
        "blog_post" => obj(vec![
            ("title", s("News")),
            ("date_posted", s(TS)),
            ("intro", JsonValue::Null),
            ("content_html", s("<p>hi</p>")),
            ("num_views", n(10)),
            ("num_comments", n(2)),
            ("site_post", b(false)),
            ("tags", JsonValue::Array(vec![s("update")])),
        ]),
        "bookshelf" => obj(vec![
            ("name", s("Favourites")),
            ("privacy", s("public")),
            ("description", s("")),
            ("color", s("#ff0000")),
            ("icon", obj(vec![("name", s("star")), ("type", s("font")), ("data", s("\u{f005}"))])),
            ("num_stories", n(3)),
            ("num_unread", n(1)),
            ("track_unread", b(true)),
            ("quick_add", b(false)),
            ("email_on_update", b(false)),
            ("date_created", s(TS)),
            ("date_modified", s(TS)),
            ("order", n(0)),
        ]),
        "chapter" => obj(vec![
            ("chapter_number", n(1)),
            ("title", s("Prologue")),
            ("published", b(true)),
            ("num_views", n(400)),
            ("date_published", s(TS)),
            ("date_modified", s(TS)),
            ("content_html", s("<p>Once</p>")),
            ("authors_note_html", JsonValue::Null),
            ("authors_note_position", s("bottom")),
        ]),
        "follow" => obj(vec![("date_followed", s(TS))]),
        "group" => obj(vec![
            ("name", s("Readers")),
            ("description", s("d")),
            ("description_html", s("<p>d</p>")),
            ("num_members", n(50)),
            ("num_stories", n(7)),
            ("nsfw", b(false)),
            ("open", b(true)),
            ("hidden", b(false)),
            ("date_created", s(TS)),
            ("icon", avatar()),
        ]),
        "group_thread" => obj(vec![
            ("title", s("Welcome")),
            ("num_posts", n(4)),
            ("date_created", s(TS)),
            ("date_last_posted", s(TS)),
            ("sticky", b(true)),
            ("locked", b(false)),
        ]),
        "private_message" => obj(vec![
            ("subject", s("Hello")),
            ("content_html", s("<p>Hi</p>")),
            ("date_sent", s(TS)),
            ("read", b(false)),
        ]),
        "story" => obj(vec![
            ("title", s("A Tale")),
            ("short_description", s("short")),
            ("description", s("long")),
            ("description_html", s("<p>long</p>")),
            ("published", b(true)),
            ("status", s("visible")),
            ("submitted", b(true)),
            ("date_published", s(TS)),
            ("date_modified", s(TS)),
            ("date_updated", s(TS)),
            ("num_views", n(100)),
            ("total_num_views", n(250)),
            ("num_words", n(12000)),
            ("num_comments", n(9)),
            ("color", color()),
            (
                "cover_image",
                obj(vec![
                    ("thumbnail", url("story/t.jpg")),
                    ("medium", url("story/m.jpg")),
                    ("large", url("story/l.jpg")),
                    ("full", url("story/f.jpg")),
                ]),
            ),
            ("num_chapters", n(3)),
            ("rating", n(95)),
            ("completion_status", s("complete")),
            ("content_rating", s("teen")),
            ("num_likes", n(40)),
            ("num_dislikes", n(1)),
        ]),
        "story_tag" => obj(vec![
            ("name", s("Adventure")),
            ("description", JsonValue::Null),
            ("type", s("genre")),
            ("num_stories", n(1000)),
        ]),
        "user" => obj(vec![
            ("name", s("Writer")),
            ("bio_html", s("<p>bio</p>")),
            ("num_followers", n(12)),
            ("num_stories", n(3)),
            ("num_blog_posts", n(2)),
            ("date_joined", s(TS)),
            ("avatar", avatar()),
            ("color", color()),
        ]),
        _ => panic!("no such kind"),
    }
}

fn relationships(kind: &str) -> Option<JsonValue> {
    match kind {
        "blog_post" => Some(obj(vec![("author", reference("user", "5")), ("tagged_story", reference("story", "9"))])),
        "bookshelf" => Some(obj(vec![("user", reference("user", "5"))])),
        "chapter" => Some(obj(vec![("story", reference("story", "9"))])),
        "follow" => Some(obj(vec![("user", reference("user", "5")), ("following", reference("user", "6"))])),
        "group" => Some(obj(vec![("founder", reference("user", "5"))])),
        "group_thread" => Some(obj(vec![
            ("creator", reference("user", "5")),
            ("group", reference("group", "2")),
            ("last_poster", reference("user", "6")),
        ])),
        "private_message" => Some(obj(vec![("sender", reference("user", "5")), ("receiver", reference("user", "6"))])),
        "story" => Some(obj(vec![
            ("author", reference("user", "5")),
            (
                "tags",
                obj(vec![(
                    "data",
                    JsonValue::Array(vec![
                        obj(vec![("type", s("story_tag")), ("id", s("1"))]),
                        obj(vec![("type", s("story_tag")), ("id", s("2"))]),
                    ]),
                )]),
            ),
        ])),
        _ => None,
    }
}

fn record(kind: &str, id: &str, top_level: bool) -> JsonValue {
    let mut m = vec![("type", s(kind)), ("id", s(id)), ("attributes", attributes(kind))];
    if top_level {
        if let Some(r) = relationships(kind) {
            m.push(("relationships", r));
        }
    }
    obj(m)
}

const KINDS: [(&str, ResourceKind); 10] = [
    ("blog_post", ResourceKind::BlogPost),
    ("bookshelf", ResourceKind::Bookshelf),
    ("chapter", ResourceKind::Chapter),
    ("follow", ResourceKind::Follow),
    ("group", ResourceKind::Group),
    ("group_thread", ResourceKind::GroupThread),
    ("private_message", ResourceKind::PrivateMessage),
    ("story", ResourceKind::Story),
    ("story_tag", ResourceKind::StoryTag),
    ("user", ResourceKind::User),
];

fn text_of(j: &JsonValue) -> String {
    match j {
        JsonValue::Str(t) => t.clone(),
        _ => panic!("not a string"),
    }
}

fn field<'a>(j: &'a JsonValue, key: &str) -> Option<&'a JsonValue> {
    match j {
        JsonValue::Object(m) => m.iter().find(|(k, _)| k == key).map(|(_, v)| v),
        _ => None,
    }
}

#[test]
fn every_kind_decodes_to_its_variant() {
    for (wire, kind) in KINDS.iter() {
        let r = Resource::decode(record(wire, "42", true)).unwrap_or_else(|_| panic!("{} failed", wire));
        assert_eq!(r.resource_kind(), *kind);
        assert_eq!(r.id(), "42");
    }
}

#[test]
fn unknown_type_is_rejected() {
    for t in ["novel", "Story", "storytag", ""] {
        let j = with(record("story", "1", true), "type", s(t));
        match Resource::decode(j) {
            Err(e) => assert!(matches!(e.problem, Problem::UnknownResourceType(ref v) if v == t)),
            Ok(_) => panic!("accepted {}", t),
        }
    }
}

#[test]
fn every_kind_round_trips() {
    for (wire, kind) in KINDS.iter() {
        for top in [true, false] {
            let first = Resource::decode(record(wire, "7", top)).ok().unwrap();
            let written = first.into_json();
            assert_eq!(text_of(field(&written, "type").unwrap()), *wire);
            let again = Resource::decode(written).ok().unwrap();
            assert_eq!(again.resource_kind(), *kind);
            assert_eq!(again.id(), "7");
            let rewritten = again.into_json();
            let attrs = field(&rewritten, "attributes").unwrap();
            let sent = attributes(wire);
            for (k, v) in members(sent) {
                if let JsonValue::Str(t) = v {
                    assert_eq!(text_of(field(attrs, &k).unwrap()), t, "{} {}", wire, k);
                }
            }
            assert_eq!(field(&rewritten, "relationships").is_some(), top && relationships(wire).is_some());
        }
    }
}

#[test]
fn story_round_trip_keeps_every_field() {
    let story = match Resource::decode(record("story", "9", true)).ok().unwrap() {
        Resource::Story(x) => x,
        _ => panic!("not a story"),
    };
    let back = match Resource::decode(Resource::Story(story).into_json()).ok().unwrap() {
        Resource::Story(x) => x,
        _ => panic!("not a story"),
    };
    let a = &back.attributes;
    assert_eq!(a.title, "A Tale");
    assert_eq!(a.status, PublishStatus::Visible);
    assert_eq!(a.num_words, 12000);
    assert_eq!(a.total_num_views, 250);
    assert_eq!(a.color.rgb, [79, 106, 177]);
    assert_eq!(a.cover_image.full.as_str(), "https://cdn-img.fimfiction.net/story/f.jpg");
    assert_eq!(a.date_updated.unix_seconds(), 1516991409);
    let rel = back.relationships.unwrap();
    assert_eq!(rel.author.data.id, "5");
    assert_eq!(rel.tags.data.len(), 2);
    assert_eq!(rel.tags.data[1].type_, ResourceKind::StoryTag);
    assert_eq!(rel.tags.data[1].id, "2");
}

#[test]
fn chapter_content_absent_differs_from_empty() {
    let absent = ChapterAttributes::decode(&attributes("chapter")).ok().unwrap();
    let empty = ChapterAttributes::decode(&with(attributes("chapter"), "content", s(""))).ok().unwrap();
    assert_eq!(absent.content, None);
    assert_eq!(empty.content, Some(String::new()));
    assert_ne!(absent.content, empty.content);
    let null = ChapterAttributes::decode(&with(attributes("chapter"), "content", JsonValue::Null)).ok().unwrap();
    assert_eq!(null.content, None);
}

#[test]
fn relationships_only_when_sent() {
    let top = Resource::decode(record("story", "9", true)).ok().unwrap();
    let inc = Resource::decode(record("story", "9", false)).ok().unwrap();
    match (top, inc) {
        (Resource::Story(t), Resource::Story(i)) => {
            assert!(t.relationships.is_some());
            assert!(i.relationships.is_none());
        },
        _ => panic!("not stories"),
    }
    let empty = Resource::decode(with(record("story", "9", false), "relationships", obj(vec![])));
    assert!(empty.is_err());
}

#[test]
fn resolve_finds_the_named_resource() {
    let included = vec![
        Resource::decode(record("user", "5", false)).ok().unwrap(),
        Resource::decode(record("story", "9", false)).ok().unwrap(),
    ];
    let user5 = ResourceId { type_: ResourceKind::User, id: "5".to_string() };
    let found = resolve(&user5, &included).unwrap();
    assert_eq!(found.resource_kind(), ResourceKind::User);
    assert_eq!(found.id(), "5");
    let user99 = ResourceId { type_: ResourceKind::User, id: "99".to_string() };
    assert!(resolve(&user99, &included).is_none());
    let story5 = ResourceId { type_: ResourceKind::Story, id: "5".to_string() };
    assert!(resolve(&story5, &included).is_none());
}

#[test]
fn resolve_takes_the_first_duplicate() {
    let first = with(record("user", "5", false), "meta", obj(vec![("rank", n(1))]));
    let second = with(record("user", "5", false), "meta", obj(vec![("rank", n(2))]));
    let included = vec![Resource::decode(first).ok().unwrap(), Resource::decode(second).ok().unwrap()];
    let user5 = ResourceId { type_: ResourceKind::User, id: "5".to_string() };
    match resolve(&user5, &included) {
        Some(Resource::User(u)) => assert!(matches!(u.meta[0].1, JsonValue::Number(1))),
        _ => panic!("missing"),
    }
}

#[test]
fn publish_status_wire_names() {
    assert_eq!(PublishStatus::from_wire(&"approve_queue".to_string()).ok(), Some(PublishStatus::ApproveQueue));
    assert_eq!(PublishStatus::from_wire(&"not_visible".to_string()).ok(), Some(PublishStatus::NotVisible));
    match PublishStatus::from_wire(&"pending".to_string()) {
        Err(e) => assert!(matches!(e.problem, Problem::UnknownEnumValue(ref v) if v == "pending")),
        Ok(_) => panic!("accepted"),
    }
    assert!(PublishStatus::from_wire(&"Visible".to_string()).is_err());
    assert_eq!(TagType::from_wire(&"universe".to_string()).ok(), Some(TagType::Universe));
    let j = with(attributes("story"), "status", s("pending"));
    assert!(fimfiction_api::resources::StoryAttributes::decode(&j).is_err());
    assert_eq!(PublishStatus::PostQueue.as_wire(), "post_queue");
}

#[test]
fn sparse_avatar_decodes() {
    let j = without(without(avatar(), "16"), "192");
    let a = Avatar::decode(&j).ok().unwrap();
    assert!(a.size16.is_none());
    assert!(a.size192.is_none());
    assert_eq!(a.size32.as_str(), "https://cdn-img.fimfiction.net/user/32.png");
    assert_eq!(a.size512.as_str(), "https://cdn-img.fimfiction.net/user/512.png");
    let full = Avatar::decode(&avatar()).ok().unwrap();
    assert_eq!(full.size16.unwrap().as_str(), "https://cdn-img.fimfiction.net/user/16.png");
}

#[test]
fn avatar_without_a_mandatory_size_fails() {
    for k in ["32", "48", "64", "96", "128", "256", "384", "512"] {
        match Avatar::decode(&without(avatar(), k)) {
            Err(e) => {
                assert!(matches!(e.problem, Problem::MissingField));
                assert_eq!(e.path, vec![k.to_string()]);
            },
            Ok(_) => panic!("accepted without {}", k),
        }
    }
}

#[test]
fn malformed_url_and_timestamp() {
    match Avatar::decode(&with(avatar(), "32", s("not a url"))) {
        Err(e) => assert!(matches!(e.problem, Problem::MalformedUrl(ref v) if v == "not a url")),
        Ok(_) => panic!("accepted"),
    }
    let j = with(attributes("follow"), "date_followed", s("yesterday"));
    match fimfiction_api::resources::FollowAttributes::decode(&j) {
        Err(e) => {
            assert!(matches!(e.problem, Problem::MalformedTimestamp(ref v) if v == "yesterday"));
            assert_eq!(e.path, vec!["date_followed".to_string()]);
        },
        Ok(_) => panic!("accepted"),
    }
}

#[test]
fn timestamp_reads_the_instant() {
    let t = Timestamp::parse("2018-01-26T18:30:09.453+02:00").unwrap();
    assert_eq!(t.unix_seconds(), 1516991409 - 7200);
    assert_eq!(t.subsec_nanos(), 453_000_000);
    assert_eq!(t.as_str(), "2018-01-26T18:30:09.453+02:00");
    assert!(Timestamp::parse("2018-13-01T00:00:00Z").is_none());
    assert!(WebUrl::parse("https://www.fimfiction.net/story/9").is_some());
    assert!(WebUrl::parse("/story/9").is_none());
}

#[test]
fn numbers_and_shapes_are_checked() {
    let big = with(attributes("story_tag"), "num_stories", n(4294967296));
    match fimfiction_api::resources::StoryTagAttributes::decode(&big) {
        Err(e) => assert!(matches!(e.problem, Problem::TypeMismatch)),
        Ok(_) => panic!("accepted"),
    }
    let max = with(attributes("story_tag"), "num_stories", n(4294967295));
    assert_eq!(fimfiction_api::resources::StoryTagAttributes::decode(&max).ok().unwrap().num_stories, u32::MAX);
    let bad_rgb = obj(vec![("hex", s("fff")), ("rgb", JsonValue::Array(vec![n(1), n(256), n(3)]))]);
    assert!(Color::decode(&bad_rgb).is_err());
    let short_rgb = obj(vec![("hex", s("fff")), ("rgb", JsonValue::Array(vec![n(1), n(2)]))]);
    assert!(Color::decode(&short_rgb).is_err());
    let wrong = with(attributes("story_tag"), "name", n(3));
    assert!(fimfiction_api::resources::StoryTagAttributes::decode(&wrong).is_err());
}

#[test]
fn missing_attribute_names_its_path() {
    let j = with(record("chapter", "3", true), "attributes", without(attributes("chapter"), "title"));
    match Resource::decode(j) {
        Err(e) => {
            assert!(matches!(e.problem, Problem::MissingField));
            let path: Vec<&str> = e.path.iter().map(|p| p.as_str()).collect();
            assert_eq!(path, vec!["chapter", "attributes", "title"]);
        },
        Ok(_) => panic!("accepted"),
    }
}

#[test]
fn links_and_meta_default_to_empty() {
    let r = match Resource::decode(record("user", "5", false)).ok().unwrap() {
        Resource::User(u) => u,
        _ => panic!("not a user"),
    };
    assert!(r.links.is_empty());
    assert!(r.meta.is_empty());
    let j = with(record("user", "5", false), "links", obj(vec![("self", s("https://www.fimfiction.net/user/5"))]));
    match Resource::decode(j).ok().unwrap() {
        Resource::User(u) => {
            assert_eq!(u.links[0].0, "self");
            assert_eq!(u.links[0].1.as_str(), "https://www.fimfiction.net/user/5");
        },
        _ => panic!("not a user"),
    }
    let bad = with(record("user", "5", false), "links", obj(vec![("self", s("relative/5"))]));
    assert!(Resource::decode(bad).is_err());
}

#[test]
fn response_envelope_decodes() {
    let j = obj(vec![
        ("data", record("story", "9", true)),
        ("included", JsonValue::Array(vec![record("user", "5", false), record("story_tag", "1", false)])),
        ("uri", s("/api/v2/stories/9")),
        ("method", s("GET")),
        ("debug", obj(vec![("duration", s("1ms"))])),
    ]);
    let r = ApiResponse::from_json(j).ok().unwrap();
    assert_eq!(r.data.resource_kind(), ResourceKind::Story);
    assert_eq!(r.included.len(), 2);
    assert_eq!(r.included[1].resource_kind(), ResourceKind::StoryTag);
    assert_eq!(r.uri, "/api/v2/stories/9");
    assert_eq!(r.method, "GET");
    assert_eq!(r.debug[0].0, "duration");
    let typed = fimfiction_api::response::StoryResponse::from_json(r.into_json()).ok().unwrap();
    assert_eq!(typed.data.attributes.title, "A Tale");
    let reference = &typed.data.relationships.as_ref().unwrap().author;
    let author: &Data<ResourceId> = reference;
    assert_eq!(resolve(&author.data, &typed.included).unwrap().id(), "5");
}

#[test]
fn response_rejects_a_bad_included_item() {
    let j = obj(vec![
        ("data", record("story", "9", true)),
        ("included", JsonValue::Array(vec![with(record("user", "5", false), "type", s("person"))])),
        ("uri", s("/api/v2/stories/9")),
        ("method", s("GET")),
        ("debug", obj(vec![])),
    ]);
    match ApiResponse::from_json(j) {
        Err(e) => assert!(matches!(e.problem, Problem::UnknownResourceType(_))),
        Ok(_) => panic!("accepted"),
    }
}
