//! The resources that the API returns, their shared envelope, and the
//! union over all kinds with its discriminator.
use vstd::prelude::*;
use crate::json::{
    DecodeError, JsonValue, Members, Problem, Record, bool_of, error_at, field, find, lookup,
    opt_encode, opt_field, opt_string_value, opt_text_of, opt_view, put, put_front, read_bool,
    read_field, read_opt_field, read_opt_text, read_text, read_u32, string_value, take, text,
    text_of, u32_of, within,
};
use crate::values::{
    Avatar, Color, CompletionStatus, ContentRating, CoverImage, Icon, Position, Privacy,
    PublishStatus, TagType, Timestamp, WebUrl,
};

verus! {

impl Record for String {
    open spec fn decodes(j: JsonValue, x: Self) -> bool {
        j matches JsonValue::Str(t) && t@ == x@
    }

    fn decode(j: &JsonValue) -> (r: Result<Self, DecodeError>) {
        match j {
            JsonValue::Str(t) => {
                let r = t.clone();
                assert(Self::decodes(*j, r));
                Ok(r)
            },
            _ => Err(DecodeError { path: Vec::new(), problem: Problem::TypeMismatch }),
        }
    }

    fn encode(&self) -> (r: JsonValue) {
        JsonValue::Str(self.clone())
    }
}

/// A list is a JSON array of its items, in order.
impl<T: Record> Record for Vec<T> {
    open spec fn decodes(j: JsonValue, x: Self) -> bool {
        &&& j matches JsonValue::Array(a)
        &&& a@.len() == x@.len()
        &&& forall|i: int| 0 <= i < a@.len() ==> T::decodes(#[trigger] a@[i], x@[i])
    }

    fn decode(j: &JsonValue) -> (r: Result<Self, DecodeError>) {
        match j {
            JsonValue::Array(a) => {
                let mut out: Vec<T> = Vec::new();
                let mut i: usize = 0;
                while i < a.len()
                    invariant
                        0 <= i <= a@.len(),
                        out@.len() == i,
                        *j == JsonValue::Array(*a),
                        forall|k: int| 0 <= k < i ==> T::decodes(#[trigger] a@[k], out@[k]),
                    decreases a@.len() - i,
                {
                    match T::decode(&a[i]) {
                        Ok(x) => out.push(x),
                        Err(e) => {
                            assert forall|x: Vec<T>| !Self::decodes(*j, x) by {
                                if Self::decodes(*j, x) {
                                    assert(T::decodes(a@[i as int], x@[i as int]));
                                }
                            }
                            return Err(e);
                        },
                    }
                    i = i + 1;
                }
                assert(Self::decodes(*j, out));
                Ok(out)
            },
            _ => Err(DecodeError { path: Vec::new(), problem: Problem::TypeMismatch }),
        }
    }

    fn encode(&self) -> (r: JsonValue) {
        let mut a: Vec<JsonValue> = Vec::new();
        let mut i: usize = 0;
        while i < self.len()
            invariant
                0 <= i <= self@.len(),
                a@.len() == i,
                forall|k: int| 0 <= k < i ==> T::decodes(#[trigger] a@[k], self@[k]),
            decreases self@.len() - i,
        {
            a.push(self[i].encode());
            i = i + 1;
        }
        JsonValue::Array(a)
    }
}

/// The relationship payload of a kind that has none: any object.
impl Record for () {
    open spec fn decodes(j: JsonValue, x: Self) -> bool {
        j is Object
    }

    fn decode(j: &JsonValue) -> (r: Result<Self, DecodeError>) {
        match j {
            JsonValue::Object(_) => {
                assert(Self::decodes(*j, ()));
                Ok(())
            },
            _ => Err(DecodeError { path: Vec::new(), problem: Problem::TypeMismatch }),
        }
    }

    fn encode(&self) -> (r: JsonValue) {
        JsonValue::Object(Vec::new())
    }
}

/// A value wrapped under a `data` key, as the API often sends it.
pub struct Data<T> {
    pub data: T,
}

impl<T: Record> Record for Data<T> {
    open spec fn decodes(j: JsonValue, x: Self) -> bool {
        j matches JsonValue::Object(m) && field(m@, "data"@, x.data)
    }

    fn decode(j: &JsonValue) -> (r: Result<Self, DecodeError>) {
        match j {
            JsonValue::Object(m) => {
                let data = read_field(m, "data")?;
                let r = Data { data };
                assert(Self::decodes(*j, r));
                Ok(r)
            },
            _ => Err(DecodeError { path: Vec::new(), problem: Problem::TypeMismatch }),
        }
    }

    fn encode(&self) -> (r: JsonValue) {
        let mut m: Members = Vec::new();
        put(&mut m, "data", self.data.encode());
        JsonValue::Object(m)
    }
}

/// The kinds of resource; each has its own attributes and relationships.
#[derive(PartialEq, Eq, Structural, Clone, Copy, Debug)]
pub enum ResourceKind {
    BlogPost,
    Bookshelf,
    Chapter,
    Follow,
    Group,
    GroupThread,
    PrivateMessage,
    Story,
    StoryTag,
    User,
}

impl ResourceKind {
    /// The wire name of each member.
    pub open spec fn wire(self) -> Seq<char> {
        match self {
            ResourceKind::BlogPost => "blog_post"@,
            ResourceKind::Bookshelf => "bookshelf"@,
            ResourceKind::Chapter => "chapter"@,
            ResourceKind::Follow => "follow"@,
            ResourceKind::Group => "group"@,
            ResourceKind::GroupThread => "group_thread"@,
            ResourceKind::PrivateMessage => "private_message"@,
            ResourceKind::Story => "story"@,
            ResourceKind::StoryTag => "story_tag"@,
            ResourceKind::User => "user"@,
        }
    }

    pub fn as_wire(&self) -> (r: &'static str)
        ensures
            r@ == self.wire(),
    {
        match self {
            ResourceKind::BlogPost => "blog_post",
            ResourceKind::Bookshelf => "bookshelf",
            ResourceKind::Chapter => "chapter",
            ResourceKind::Follow => "follow",
            ResourceKind::Group => "group",
            ResourceKind::GroupThread => "group_thread",
            ResourceKind::PrivateMessage => "private_message",
            ResourceKind::Story => "story",
            ResourceKind::StoryTag => "story_tag",
            ResourceKind::User => "user",
        }
    }

    /// The member whose wire name is `s`, matched exactly and case-sensitively.
    pub fn from_wire(s: &String) -> (r: Result<Self, DecodeError>)
        ensures
            r matches Ok(v) ==> v.wire() == s@,
            r is Err <==> (forall|v: Self| v.wire() != s@),
            r matches Err(e) ==> e.problem == Problem::UnknownEnumValue(*s),
    {
        if *s == text("blog_post") {
            proof {
                assert(ResourceKind::BlogPost.wire() == s@);
            }
            Ok(ResourceKind::BlogPost)
        } else if *s == text("bookshelf") {
            proof {
                assert(ResourceKind::Bookshelf.wire() == s@);
            }
            Ok(ResourceKind::Bookshelf)
        } else if *s == text("chapter") {
            proof {
                assert(ResourceKind::Chapter.wire() == s@);
            }
            Ok(ResourceKind::Chapter)
        } else if *s == text("follow") {
            proof {
                assert(ResourceKind::Follow.wire() == s@);
            }
            Ok(ResourceKind::Follow)
        } else if *s == text("group") {
            proof {
                assert(ResourceKind::Group.wire() == s@);
            }
            Ok(ResourceKind::Group)
        } else if *s == text("group_thread") {
            proof {
                assert(ResourceKind::GroupThread.wire() == s@);
            }
            Ok(ResourceKind::GroupThread)
        } else if *s == text("private_message") {
            proof {
                assert(ResourceKind::PrivateMessage.wire() == s@);
            }
            Ok(ResourceKind::PrivateMessage)
        } else if *s == text("story") {
            proof {
                assert(ResourceKind::Story.wire() == s@);
            }
            Ok(ResourceKind::Story)
        } else if *s == text("story_tag") {
            proof {
                assert(ResourceKind::StoryTag.wire() == s@);
            }
            Ok(ResourceKind::StoryTag)
        } else if *s == text("user") {
            proof {
                assert(ResourceKind::User.wire() == s@);
            }
            Ok(ResourceKind::User)
        } else {
            Err(DecodeError { path: Vec::new(), problem: Problem::UnknownEnumValue(s.clone()) })
        }
    }

    /// No two members share a wire name.
    pub proof fn lemma_wire_injective(a: Self, b: Self)
        requires
            a.wire() == b.wire(),
        ensures
            a == b,
    {
        reveal_strlit("blog_post");
        reveal_strlit("bookshelf");
        reveal_strlit("chapter");
        reveal_strlit("follow");
        reveal_strlit("group");
        reveal_strlit("group_thread");
        reveal_strlit("private_message");
        reveal_strlit("story");
        reveal_strlit("story_tag");
        reveal_strlit("user");
        assert("blog_post"@.len() == 9);
        assert("bookshelf"@.len() == 9);
        assert("chapter"@.len() == 7);
        assert("follow"@.len() == 6);
        assert("group"@.len() == 5);
        assert("group_thread"@.len() == 12);
        assert("private_message"@.len() == 15);
        assert("story"@.len() == 5);
        assert("story_tag"@.len() == 9);
        assert("user"@.len() == 4);
        assert("blog_post"@[0] == 'b');
        assert("blog_post"@[1] == 'l');
        assert("bookshelf"@[0] == 'b');
        assert("bookshelf"@[1] == 'o');
        assert("group"@[0] == 'g');
        assert("story"@[0] == 's');
        assert("story_tag"@[0] == 's');
    }
}

impl Record for ResourceKind {
    open spec fn decodes(j: JsonValue, x: Self) -> bool {
        j matches JsonValue::Str(t) && t@ == x.wire()
    }

    fn decode(j: &JsonValue) -> (r: Result<Self, DecodeError>) {
        match j {
            JsonValue::Str(t) => {
                let r = Self::from_wire(t);
                if let Ok(v) = r {
                    assert(Self::decodes(*j, v));
                }
                r
            },
            _ => Err(DecodeError { path: Vec::new(), problem: Problem::TypeMismatch }),
        }
    }

    fn encode(&self) -> (r: JsonValue) {
        JsonValue::Str(text(self.as_wire()))
    }
}

/// A reference to another resource by kind and id. It only names the
/// resource: finding it is a lookup among the included resources.
pub struct ResourceId {
    pub type_: ResourceKind,
    /// Decimal digits on the wire.
    pub id: String,
}

impl Record for ResourceId {
    open spec fn decodes(j: JsonValue, x: Self) -> bool {
        &&& j matches JsonValue::Object(m)
        &&& field(m@, "type"@, x.type_)
        &&& text_of(lookup(m@, "id"@)) == Some(x.id@)
    }

    fn decode(j: &JsonValue) -> (r: Result<Self, DecodeError>) {
        match j {
            JsonValue::Object(m) => {
                let type_ = read_field(m, "type")?;
                let id = read_text(m, "id")?;
                let r = ResourceId { type_, id };
                assert(Self::decodes(*j, r));
                Ok(r)
            },
            _ => Err(DecodeError { path: Vec::new(), problem: Problem::TypeMismatch }),
        }
    }

    fn encode(&self) -> (r: JsonValue) {
        proof {
            reveal_strlit("type");
            reveal_strlit("id");
            assert("type"@.len() == 4);
            assert("id"@.len() == 2);
        }
        let mut m: Members = Vec::new();
        put(&mut m, "type", self.type_.encode());
        put(&mut m, "id", string_value(&self.id));
        JsonValue::Object(m)
    }
}

/// Attributes of a BlogPost resource.
pub struct BlogPostAttributes {
    /// Title of the post
    pub title: String,
    /// When the post went up
    pub date_posted: Timestamp,
    /// HTML intro, truncated
    pub intro: Option<String>,
    /// HTML content
    pub content_html: Option<String>,
    pub num_views: u32,
    pub num_comments: u32,
    /// Whether it is a site post
    pub site_post: bool,
    /// Sent only for site posts
    pub site_post_tag: Option<String>,
    pub tags: Vec<String>,
}

impl Record for BlogPostAttributes {
    open spec fn decodes(j: JsonValue, x: Self) -> bool {
        &&& j matches JsonValue::Object(m)
        &&& text_of(lookup(m@, "title"@)) == Some(x.title@)
        &&& field(m@, "date_posted"@, x.date_posted)
        &&& opt_text_of(lookup(m@, "intro"@)) == Some(opt_view(x.intro))
        &&& opt_text_of(lookup(m@, "content_html"@)) == Some(opt_view(x.content_html))
        &&& u32_of(lookup(m@, "num_views"@)) == Some(x.num_views)
        &&& u32_of(lookup(m@, "num_comments"@)) == Some(x.num_comments)
        &&& bool_of(lookup(m@, "site_post"@)) == Some(x.site_post)
        &&& opt_text_of(lookup(m@, "site_post_tag"@)) == Some(opt_view(x.site_post_tag))
        &&& field(m@, "tags"@, x.tags)
    }

    fn decode(j: &JsonValue) -> (r: Result<Self, DecodeError>) {
        match j {
            JsonValue::Object(m) => {
                let title = read_text(m, "title")?;
                let date_posted = read_field(m, "date_posted")?;
                let intro = read_opt_text(m, "intro")?;
                let content_html = read_opt_text(m, "content_html")?;
                let num_views = read_u32(m, "num_views")?;
                let num_comments = read_u32(m, "num_comments")?;
                let site_post = read_bool(m, "site_post")?;
                let site_post_tag = read_opt_text(m, "site_post_tag")?;
                let tags = read_field(m, "tags")?;
                let r = BlogPostAttributes { title, date_posted, intro, content_html, num_views, num_comments, site_post, site_post_tag, tags };
                assert(Self::decodes(*j, r));
                Ok(r)
            },
            _ => Err(DecodeError { path: Vec::new(), problem: Problem::TypeMismatch }),
        }
    }

    #[verifier::rlimit(100)]
    fn encode(&self) -> (r: JsonValue) {
        proof {
            reveal_strlit("title");
            reveal_strlit("date_posted");
            reveal_strlit("intro");
            reveal_strlit("content_html");
            reveal_strlit("num_views");
            reveal_strlit("num_comments");
            reveal_strlit("site_post");
            reveal_strlit("site_post_tag");
            reveal_strlit("tags");
            assert("title"@.len() == 5);
            assert("date_posted"@.len() == 11);
            assert("intro"@.len() == 5);
            assert("content_html"@.len() == 12);
            assert("num_views"@.len() == 9);
            assert("num_comments"@.len() == 12);
            assert("site_post"@.len() == 9);
            assert("site_post_tag"@.len() == 13);
            assert("tags"@.len() == 4);
            assert("content_html"@[0] == 'c');
            assert("intro"@[0] == 'i');
            assert("num_comments"@[0] == 'n');
            assert("num_views"@[0] == 'n');
            assert("site_post"@[0] == 's');
            assert("title"@[0] == 't');
        }
        let mut m: Members = Vec::new();
        put(&mut m, "title", string_value(&self.title));
        put(&mut m, "date_posted", self.date_posted.encode());
        put(&mut m, "intro", opt_string_value(&self.intro));
        put(&mut m, "content_html", opt_string_value(&self.content_html));
        put(&mut m, "num_views", JsonValue::Number(self.num_views as u64));
        put(&mut m, "num_comments", JsonValue::Number(self.num_comments as u64));
        put(&mut m, "site_post", JsonValue::Bool(self.site_post));
        put(&mut m, "site_post_tag", opt_string_value(&self.site_post_tag));
        put(&mut m, "tags", self.tags.encode());
        JsonValue::Object(m)
    }
}

/// Relationships of a BlogPost resource.
pub struct BlogPostRelationships {
    pub author: Data<ResourceId>,
    pub tagged_story: Data<ResourceId>,
}

impl Record for BlogPostRelationships {
    open spec fn decodes(j: JsonValue, x: Self) -> bool {
        &&& j matches JsonValue::Object(m)
        &&& field(m@, "author"@, x.author)
        &&& field(m@, "tagged_story"@, x.tagged_story)
    }

    fn decode(j: &JsonValue) -> (r: Result<Self, DecodeError>) {
        match j {
            JsonValue::Object(m) => {
                let author = read_field(m, "author")?;
                let tagged_story = read_field(m, "tagged_story")?;
                let r = BlogPostRelationships { author, tagged_story };
                assert(Self::decodes(*j, r));
                Ok(r)
            },
            _ => Err(DecodeError { path: Vec::new(), problem: Problem::TypeMismatch }),
        }
    }

    fn encode(&self) -> (r: JsonValue) {
        proof {
            reveal_strlit("author");
            reveal_strlit("tagged_story");
            assert("author"@.len() == 6);
            assert("tagged_story"@.len() == 12);
        }
        let mut m: Members = Vec::new();
        put(&mut m, "author", self.author.encode());
        put(&mut m, "tagged_story", self.tagged_story.encode());
        JsonValue::Object(m)
    }
}

/// Attributes of a Bookshelf resource.
pub struct BookshelfAttributes {
    pub name: String,
    pub privacy: Privacy,
    pub description: String,
    pub color: String,
    pub icon: Icon,
    pub num_stories: u32,
    pub num_unread: u32,
    pub track_unread: bool,
    pub quick_add: bool,
    pub email_on_update: bool,
    pub date_created: Timestamp,
    pub date_modified: Timestamp,
    pub order: u32,
}

impl Record for BookshelfAttributes {
    open spec fn decodes(j: JsonValue, x: Self) -> bool {
        &&& j matches JsonValue::Object(m)
        &&& text_of(lookup(m@, "name"@)) == Some(x.name@)
        &&& field(m@, "privacy"@, x.privacy)
        &&& text_of(lookup(m@, "description"@)) == Some(x.description@)
        &&& text_of(lookup(m@, "color"@)) == Some(x.color@)
        &&& field(m@, "icon"@, x.icon)
        &&& u32_of(lookup(m@, "num_stories"@)) == Some(x.num_stories)
        &&& u32_of(lookup(m@, "num_unread"@)) == Some(x.num_unread)
        &&& bool_of(lookup(m@, "track_unread"@)) == Some(x.track_unread)
        &&& bool_of(lookup(m@, "quick_add"@)) == Some(x.quick_add)
        &&& bool_of(lookup(m@, "email_on_update"@)) == Some(x.email_on_update)
        &&& field(m@, "date_created"@, x.date_created)
        &&& field(m@, "date_modified"@, x.date_modified)
        &&& u32_of(lookup(m@, "order"@)) == Some(x.order)
    }

    fn decode(j: &JsonValue) -> (r: Result<Self, DecodeError>) {
        match j {
            JsonValue::Object(m) => {
                let name = read_text(m, "name")?;
                let privacy = read_field(m, "privacy")?;
                let description = read_text(m, "description")?;
                let color = read_text(m, "color")?;
                let icon = read_field(m, "icon")?;
                let num_stories = read_u32(m, "num_stories")?;
                let num_unread = read_u32(m, "num_unread")?;
                let track_unread = read_bool(m, "track_unread")?;
                let quick_add = read_bool(m, "quick_add")?;
                let email_on_update = read_bool(m, "email_on_update")?;
                let date_created = read_field(m, "date_created")?;
                let date_modified = read_field(m, "date_modified")?;
                let order = read_u32(m, "order")?;
                let r = BookshelfAttributes { name, privacy, description, color, icon, num_stories, num_unread, track_unread, quick_add, email_on_update, date_created, date_modified, order };
                assert(Self::decodes(*j, r));
                Ok(r)
            },
            _ => Err(DecodeError { path: Vec::new(), problem: Problem::TypeMismatch }),
        }
    }

    #[verifier::rlimit(100)]
    fn encode(&self) -> (r: JsonValue) {
        proof {
            reveal_strlit("name");
            reveal_strlit("privacy");
            reveal_strlit("description");
            reveal_strlit("color");
            reveal_strlit("icon");
            reveal_strlit("num_stories");
            reveal_strlit("num_unread");
            reveal_strlit("track_unread");
            reveal_strlit("quick_add");
            reveal_strlit("email_on_update");
            reveal_strlit("date_created");
            reveal_strlit("date_modified");
            reveal_strlit("order");
            assert("name"@.len() == 4);
            assert("privacy"@.len() == 7);
            assert("description"@.len() == 11);
            assert("color"@.len() == 5);
            assert("icon"@.len() == 4);
            assert("num_stories"@.len() == 11);
            assert("num_unread"@.len() == 10);
            assert("track_unread"@.len() == 12);
            assert("quick_add"@.len() == 9);
            assert("email_on_update"@.len() == 15);
            assert("date_created"@.len() == 12);
            assert("date_modified"@.len() == 13);
            assert("order"@.len() == 5);
            assert("color"@[0] == 'c');
            assert("date_created"@[0] == 'd');
            assert("description"@[0] == 'd');
            assert("icon"@[0] == 'i');
            assert("name"@[0] == 'n');
            assert("num_stories"@[0] == 'n');
            assert("order"@[0] == 'o');
            assert("track_unread"@[0] == 't');
        }
        let mut m: Members = Vec::new();
        put(&mut m, "name", string_value(&self.name));
        put(&mut m, "privacy", self.privacy.encode());
        put(&mut m, "description", string_value(&self.description));
        put(&mut m, "color", string_value(&self.color));
        put(&mut m, "icon", self.icon.encode());
        put(&mut m, "num_stories", JsonValue::Number(self.num_stories as u64));
        put(&mut m, "num_unread", JsonValue::Number(self.num_unread as u64));
        put(&mut m, "track_unread", JsonValue::Bool(self.track_unread));
        put(&mut m, "quick_add", JsonValue::Bool(self.quick_add));
        put(&mut m, "email_on_update", JsonValue::Bool(self.email_on_update));
        put(&mut m, "date_created", self.date_created.encode());
        put(&mut m, "date_modified", self.date_modified.encode());
        put(&mut m, "order", JsonValue::Number(self.order as u64));
        JsonValue::Object(m)
    }
}

/// Relationships of a Bookshelf resource.
pub struct BookshelfRelationships {
    pub user: Data<ResourceId>,
}

impl Record for BookshelfRelationships {
    open spec fn decodes(j: JsonValue, x: Self) -> bool {
        &&& j matches JsonValue::Object(m)
        &&& field(m@, "user"@, x.user)
    }

    fn decode(j: &JsonValue) -> (r: Result<Self, DecodeError>) {
        match j {
            JsonValue::Object(m) => {
                let user = read_field(m, "user")?;
                let r = BookshelfRelationships { user };
                assert(Self::decodes(*j, r));
                Ok(r)
            },
            _ => Err(DecodeError { path: Vec::new(), problem: Problem::TypeMismatch }),
        }
    }

    fn encode(&self) -> (r: JsonValue) {
        proof {
            reveal_strlit("user");
        }
        let mut m: Members = Vec::new();
        put(&mut m, "user", self.user.encode());
        JsonValue::Object(m)
    }
}

/// Attributes of a Chapter resource.
pub struct ChapterAttributes {
    pub chapter_number: u32,
    pub title: String,
    pub published: bool,
    pub num_views: u32,
    pub date_published: Timestamp,
    pub date_modified: Timestamp,
    /// Absent and empty are distinct
    pub content: Option<String>,
    pub content_html: Option<String>,
    pub authors_note_html: Option<String>,
    pub authors_note_position: Position,
}

impl Record for ChapterAttributes {
    open spec fn decodes(j: JsonValue, x: Self) -> bool {
        &&& j matches JsonValue::Object(m)
        &&& u32_of(lookup(m@, "chapter_number"@)) == Some(x.chapter_number)
        &&& text_of(lookup(m@, "title"@)) == Some(x.title@)
        &&& bool_of(lookup(m@, "published"@)) == Some(x.published)
        &&& u32_of(lookup(m@, "num_views"@)) == Some(x.num_views)
        &&& field(m@, "date_published"@, x.date_published)
        &&& field(m@, "date_modified"@, x.date_modified)
        &&& opt_text_of(lookup(m@, "content"@)) == Some(opt_view(x.content))
        &&& opt_text_of(lookup(m@, "content_html"@)) == Some(opt_view(x.content_html))
        &&& opt_text_of(lookup(m@, "authors_note_html"@)) == Some(opt_view(x.authors_note_html))
        &&& field(m@, "authors_note_position"@, x.authors_note_position)
    }

    fn decode(j: &JsonValue) -> (r: Result<Self, DecodeError>) {
        match j {
            JsonValue::Object(m) => {
                let chapter_number = read_u32(m, "chapter_number")?;
                let title = read_text(m, "title")?;
                let published = read_bool(m, "published")?;
                let num_views = read_u32(m, "num_views")?;
                let date_published = read_field(m, "date_published")?;
                let date_modified = read_field(m, "date_modified")?;
                let content = read_opt_text(m, "content")?;
                let content_html = read_opt_text(m, "content_html")?;
                let authors_note_html = read_opt_text(m, "authors_note_html")?;
                let authors_note_position = read_field(m, "authors_note_position")?;
                let r = ChapterAttributes { chapter_number, title, published, num_views, date_published, date_modified, content, content_html, authors_note_html, authors_note_position };
                assert(Self::decodes(*j, r));
                Ok(r)
            },
            _ => Err(DecodeError { path: Vec::new(), problem: Problem::TypeMismatch }),
        }
    }

    #[verifier::rlimit(100)]
    fn encode(&self) -> (r: JsonValue) {
        proof {
            reveal_strlit("chapter_number");
            reveal_strlit("title");
            reveal_strlit("published");
            reveal_strlit("num_views");
            reveal_strlit("date_published");
            reveal_strlit("date_modified");
            reveal_strlit("content");
            reveal_strlit("content_html");
            reveal_strlit("authors_note_html");
            reveal_strlit("authors_note_position");
            assert("chapter_number"@.len() == 14);
            assert("title"@.len() == 5);
            assert("published"@.len() == 9);
            assert("num_views"@.len() == 9);
            assert("date_published"@.len() == 14);
            assert("date_modified"@.len() == 13);
            assert("content"@.len() == 7);
            assert("content_html"@.len() == 12);
            assert("authors_note_html"@.len() == 17);
            assert("authors_note_position"@.len() == 21);
            assert("chapter_number"@[0] == 'c');
            assert("date_published"@[0] == 'd');
            assert("num_views"@[0] == 'n');
            assert("published"@[0] == 'p');
        }
        let mut m: Members = Vec::new();
        put(&mut m, "chapter_number", JsonValue::Number(self.chapter_number as u64));
        put(&mut m, "title", string_value(&self.title));
        put(&mut m, "published", JsonValue::Bool(self.published));
        put(&mut m, "num_views", JsonValue::Number(self.num_views as u64));
        put(&mut m, "date_published", self.date_published.encode());
        put(&mut m, "date_modified", self.date_modified.encode());
        put(&mut m, "content", opt_string_value(&self.content));
        put(&mut m, "content_html", opt_string_value(&self.content_html));
        put(&mut m, "authors_note_html", opt_string_value(&self.authors_note_html));
        put(&mut m, "authors_note_position", self.authors_note_position.encode());
        JsonValue::Object(m)
    }
}

/// Relationships of a Chapter resource.
pub struct ChapterRelationships {
    pub story: Data<ResourceId>,
}

impl Record for ChapterRelationships {
    open spec fn decodes(j: JsonValue, x: Self) -> bool {
        &&& j matches JsonValue::Object(m)
        &&& field(m@, "story"@, x.story)
    }

    fn decode(j: &JsonValue) -> (r: Result<Self, DecodeError>) {
        match j {
            JsonValue::Object(m) => {
                let story = read_field(m, "story")?;
                let r = ChapterRelationships { story };
                assert(Self::decodes(*j, r));
                Ok(r)
            },
            _ => Err(DecodeError { path: Vec::new(), problem: Problem::TypeMismatch }),
        }
    }

    fn encode(&self) -> (r: JsonValue) {
        proof {
            reveal_strlit("story");
        }
        let mut m: Members = Vec::new();
        put(&mut m, "story", self.story.encode());
        JsonValue::Object(m)
    }
}

/// Attributes of a Follow resource.
pub struct FollowAttributes {
    pub date_followed: Timestamp,
}

impl Record for FollowAttributes {
    open spec fn decodes(j: JsonValue, x: Self) -> bool {
        &&& j matches JsonValue::Object(m)
        &&& field(m@, "date_followed"@, x.date_followed)
    }

    fn decode(j: &JsonValue) -> (r: Result<Self, DecodeError>) {
        match j {
            JsonValue::Object(m) => {
                let date_followed = read_field(m, "date_followed")?;
                let r = FollowAttributes { date_followed };
                assert(Self::decodes(*j, r));
                Ok(r)
            },
            _ => Err(DecodeError { path: Vec::new(), problem: Problem::TypeMismatch }),
        }
    }

    fn encode(&self) -> (r: JsonValue) {
        proof {
            reveal_strlit("date_followed");
        }
        let mut m: Members = Vec::new();
        put(&mut m, "date_followed", self.date_followed.encode());
        JsonValue::Object(m)
    }
}

/// Relationships of a Follow resource.
pub struct FollowRelationships {
    pub user: Data<ResourceId>,
    pub following: Data<ResourceId>,
}

impl Record for FollowRelationships {
    open spec fn decodes(j: JsonValue, x: Self) -> bool {
        &&& j matches JsonValue::Object(m)
        &&& field(m@, "user"@, x.user)
        &&& field(m@, "following"@, x.following)
    }

    fn decode(j: &JsonValue) -> (r: Result<Self, DecodeError>) {
        match j {
            JsonValue::Object(m) => {
                let user = read_field(m, "user")?;
                let following = read_field(m, "following")?;
                let r = FollowRelationships { user, following };
                assert(Self::decodes(*j, r));
                Ok(r)
            },
            _ => Err(DecodeError { path: Vec::new(), problem: Problem::TypeMismatch }),
        }
    }

    fn encode(&self) -> (r: JsonValue) {
        proof {
            reveal_strlit("user");
            reveal_strlit("following");
            assert("user"@.len() == 4);
            assert("following"@.len() == 9);
        }
        let mut m: Members = Vec::new();
        put(&mut m, "user", self.user.encode());
        put(&mut m, "following", self.following.encode());
        JsonValue::Object(m)
    }
}

/// Attributes of a Group resource.
pub struct GroupAttributes {
    pub name: String,
    pub description: String,
    pub description_html: String,
    pub num_members: u32,
    pub num_stories: u32,
    pub nsfw: bool,
    pub open: bool,
    pub hidden: bool,
    pub date_created: Timestamp,
    pub icon: Avatar,
}

impl Record for GroupAttributes {
    open spec fn decodes(j: JsonValue, x: Self) -> bool {
        &&& j matches JsonValue::Object(m)
        &&& text_of(lookup(m@, "name"@)) == Some(x.name@)
        &&& text_of(lookup(m@, "description"@)) == Some(x.description@)
        &&& text_of(lookup(m@, "description_html"@)) == Some(x.description_html@)
        &&& u32_of(lookup(m@, "num_members"@)) == Some(x.num_members)
        &&& u32_of(lookup(m@, "num_stories"@)) == Some(x.num_stories)
        &&& bool_of(lookup(m@, "nsfw"@)) == Some(x.nsfw)
        &&& bool_of(lookup(m@, "open"@)) == Some(x.open)
        &&& bool_of(lookup(m@, "hidden"@)) == Some(x.hidden)
        &&& field(m@, "date_created"@, x.date_created)
        &&& field(m@, "icon"@, x.icon)
    }

    fn decode(j: &JsonValue) -> (r: Result<Self, DecodeError>) {
        match j {
            JsonValue::Object(m) => {
                let name = read_text(m, "name")?;
                let description = read_text(m, "description")?;
                let description_html = read_text(m, "description_html")?;
                let num_members = read_u32(m, "num_members")?;
                let num_stories = read_u32(m, "num_stories")?;
                let nsfw = read_bool(m, "nsfw")?;
                let open = read_bool(m, "open")?;
                let hidden = read_bool(m, "hidden")?;
                let date_created = read_field(m, "date_created")?;
                let icon = read_field(m, "icon")?;
                let r = GroupAttributes { name, description, description_html, num_members, num_stories, nsfw, open, hidden, date_created, icon };
                assert(Self::decodes(*j, r));
                Ok(r)
            },
            _ => Err(DecodeError { path: Vec::new(), problem: Problem::TypeMismatch }),
        }
    }

    #[verifier::rlimit(100)]
    fn encode(&self) -> (r: JsonValue) {
        proof {
            reveal_strlit("name");
            reveal_strlit("description");
            reveal_strlit("description_html");
            reveal_strlit("num_members");
            reveal_strlit("num_stories");
            reveal_strlit("nsfw");
            reveal_strlit("open");
            reveal_strlit("hidden");
            reveal_strlit("date_created");
            reveal_strlit("icon");
            assert("name"@.len() == 4);
            assert("description"@.len() == 11);
            assert("description_html"@.len() == 16);
            assert("num_members"@.len() == 11);
            assert("num_stories"@.len() == 11);
            assert("nsfw"@.len() == 4);
            assert("open"@.len() == 4);
            assert("hidden"@.len() == 6);
            assert("date_created"@.len() == 12);
            assert("icon"@.len() == 4);
            assert("description"@[0] == 'd');
            assert("icon"@[0] == 'i');
            assert("name"@[0] == 'n');
            assert("name"@[1] == 'a');
            assert("nsfw"@[0] == 'n');
            assert("nsfw"@[1] == 's');
            assert("num_members"@[0] == 'n');
            assert("num_members"@[4] == 'm');
            assert("num_stories"@[0] == 'n');
            assert("num_stories"@[4] == 's');
            assert("open"@[0] == 'o');
        }
        let mut m: Members = Vec::new();
        put(&mut m, "name", string_value(&self.name));
        put(&mut m, "description", string_value(&self.description));
        put(&mut m, "description_html", string_value(&self.description_html));
        put(&mut m, "num_members", JsonValue::Number(self.num_members as u64));
        put(&mut m, "num_stories", JsonValue::Number(self.num_stories as u64));
        put(&mut m, "nsfw", JsonValue::Bool(self.nsfw));
        put(&mut m, "open", JsonValue::Bool(self.open));
        put(&mut m, "hidden", JsonValue::Bool(self.hidden));
        put(&mut m, "date_created", self.date_created.encode());
        put(&mut m, "icon", self.icon.encode());
        JsonValue::Object(m)
    }
}

/// Relationships of a Group resource.
pub struct GroupRelationships {
    pub founder: Data<ResourceId>,
}

impl Record for GroupRelationships {
    open spec fn decodes(j: JsonValue, x: Self) -> bool {
        &&& j matches JsonValue::Object(m)
        &&& field(m@, "founder"@, x.founder)
    }

    fn decode(j: &JsonValue) -> (r: Result<Self, DecodeError>) {
        match j {
            JsonValue::Object(m) => {
                let founder = read_field(m, "founder")?;
                let r = GroupRelationships { founder };
                assert(Self::decodes(*j, r));
                Ok(r)
            },
            _ => Err(DecodeError { path: Vec::new(), problem: Problem::TypeMismatch }),
        }
    }

    fn encode(&self) -> (r: JsonValue) {
        proof {
            reveal_strlit("founder");
        }
        let mut m: Members = Vec::new();
        put(&mut m, "founder", self.founder.encode());
        JsonValue::Object(m)
    }
}

/// Attributes of a GroupThread resource.
pub struct GroupThreadAttributes {
    pub title: String,
    pub num_posts: u32,
    pub date_created: Timestamp,
    pub date_last_posted: Timestamp,
    pub sticky: bool,
    pub locked: bool,
}

impl Record for GroupThreadAttributes {
    open spec fn decodes(j: JsonValue, x: Self) -> bool {
        &&& j matches JsonValue::Object(m)
        &&& text_of(lookup(m@, "title"@)) == Some(x.title@)
        &&& u32_of(lookup(m@, "num_posts"@)) == Some(x.num_posts)
        &&& field(m@, "date_created"@, x.date_created)
        &&& field(m@, "date_last_posted"@, x.date_last_posted)
        &&& bool_of(lookup(m@, "sticky"@)) == Some(x.sticky)
        &&& bool_of(lookup(m@, "locked"@)) == Some(x.locked)
    }

    fn decode(j: &JsonValue) -> (r: Result<Self, DecodeError>) {
        match j {
            JsonValue::Object(m) => {
                let title = read_text(m, "title")?;
                let num_posts = read_u32(m, "num_posts")?;
                let date_created = read_field(m, "date_created")?;
                let date_last_posted = read_field(m, "date_last_posted")?;
                let sticky = read_bool(m, "sticky")?;
                let locked = read_bool(m, "locked")?;
                let r = GroupThreadAttributes { title, num_posts, date_created, date_last_posted, sticky, locked };
                assert(Self::decodes(*j, r));
                Ok(r)
            },
            _ => Err(DecodeError { path: Vec::new(), problem: Problem::TypeMismatch }),
        }
    }

    fn encode(&self) -> (r: JsonValue) {
        proof {
            reveal_strlit("title");
            reveal_strlit("num_posts");
            reveal_strlit("date_created");
            reveal_strlit("date_last_posted");
            reveal_strlit("sticky");
            reveal_strlit("locked");
            assert("title"@.len() == 5);
            assert("num_posts"@.len() == 9);
            assert("date_created"@.len() == 12);
            assert("date_last_posted"@.len() == 16);
            assert("sticky"@.len() == 6);
            assert("locked"@.len() == 6);
            assert("locked"@[0] == 'l');
            assert("sticky"@[0] == 's');
        }
        let mut m: Members = Vec::new();
        put(&mut m, "title", string_value(&self.title));
        put(&mut m, "num_posts", JsonValue::Number(self.num_posts as u64));
        put(&mut m, "date_created", self.date_created.encode());
        put(&mut m, "date_last_posted", self.date_last_posted.encode());
        put(&mut m, "sticky", JsonValue::Bool(self.sticky));
        put(&mut m, "locked", JsonValue::Bool(self.locked));
        JsonValue::Object(m)
    }
}

/// Relationships of a GroupThread resource.
pub struct GroupThreadRelationships {
    pub creator: Data<ResourceId>,
    pub group: Data<ResourceId>,
    pub last_poster: Data<ResourceId>,
}

impl Record for GroupThreadRelationships {
    open spec fn decodes(j: JsonValue, x: Self) -> bool {
        &&& j matches JsonValue::Object(m)
        &&& field(m@, "creator"@, x.creator)
        &&& field(m@, "group"@, x.group)
        &&& field(m@, "last_poster"@, x.last_poster)
    }

    fn decode(j: &JsonValue) -> (r: Result<Self, DecodeError>) {
        match j {
            JsonValue::Object(m) => {
                let creator = read_field(m, "creator")?;
                let group = read_field(m, "group")?;
                let last_poster = read_field(m, "last_poster")?;
                let r = GroupThreadRelationships { creator, group, last_poster };
                assert(Self::decodes(*j, r));
                Ok(r)
            },
            _ => Err(DecodeError { path: Vec::new(), problem: Problem::TypeMismatch }),
        }
    }

    fn encode(&self) -> (r: JsonValue) {
        proof {
            reveal_strlit("creator");
            reveal_strlit("group");
            reveal_strlit("last_poster");
            assert("creator"@.len() == 7);
            assert("group"@.len() == 5);
            assert("last_poster"@.len() == 11);
        }
        let mut m: Members = Vec::new();
        put(&mut m, "creator", self.creator.encode());
        put(&mut m, "group", self.group.encode());
        put(&mut m, "last_poster", self.last_poster.encode());
        JsonValue::Object(m)
    }
}

/// Attributes of a PrivateMessage resource.
pub struct PrivateMessageAttributes {
    pub subject: String,
    pub content_html: String,
    pub date_sent: Timestamp,
    pub read: bool,
}

impl Record for PrivateMessageAttributes {
    open spec fn decodes(j: JsonValue, x: Self) -> bool {
        &&& j matches JsonValue::Object(m)
        &&& text_of(lookup(m@, "subject"@)) == Some(x.subject@)
        &&& text_of(lookup(m@, "content_html"@)) == Some(x.content_html@)
        &&& field(m@, "date_sent"@, x.date_sent)
        &&& bool_of(lookup(m@, "read"@)) == Some(x.read)
    }

    fn decode(j: &JsonValue) -> (r: Result<Self, DecodeError>) {
        match j {
            JsonValue::Object(m) => {
                let subject = read_text(m, "subject")?;
                let content_html = read_text(m, "content_html")?;
                let date_sent = read_field(m, "date_sent")?;
                let read = read_bool(m, "read")?;
                let r = PrivateMessageAttributes { subject, content_html, date_sent, read };
                assert(Self::decodes(*j, r));
                Ok(r)
            },
            _ => Err(DecodeError { path: Vec::new(), problem: Problem::TypeMismatch }),
        }
    }

    fn encode(&self) -> (r: JsonValue) {
        proof {
            reveal_strlit("subject");
            reveal_strlit("content_html");
            reveal_strlit("date_sent");
            reveal_strlit("read");
            assert("subject"@.len() == 7);
            assert("content_html"@.len() == 12);
            assert("date_sent"@.len() == 9);
            assert("read"@.len() == 4);
        }
        let mut m: Members = Vec::new();
        put(&mut m, "subject", string_value(&self.subject));
        put(&mut m, "content_html", string_value(&self.content_html));
        put(&mut m, "date_sent", self.date_sent.encode());
        put(&mut m, "read", JsonValue::Bool(self.read));
        JsonValue::Object(m)
    }
}

/// Relationships of a PrivateMessage resource.
pub struct PrivateMessageRelationships {
    pub sender: Data<ResourceId>,
    pub receiver: Data<ResourceId>,
}

impl Record for PrivateMessageRelationships {
    open spec fn decodes(j: JsonValue, x: Self) -> bool {
        &&& j matches JsonValue::Object(m)
        &&& field(m@, "sender"@, x.sender)
        &&& field(m@, "receiver"@, x.receiver)
    }

    fn decode(j: &JsonValue) -> (r: Result<Self, DecodeError>) {
        match j {
            JsonValue::Object(m) => {
                let sender = read_field(m, "sender")?;
                let receiver = read_field(m, "receiver")?;
                let r = PrivateMessageRelationships { sender, receiver };
                assert(Self::decodes(*j, r));
                Ok(r)
            },
            _ => Err(DecodeError { path: Vec::new(), problem: Problem::TypeMismatch }),
        }
    }

    fn encode(&self) -> (r: JsonValue) {
        proof {
            reveal_strlit("sender");
            reveal_strlit("receiver");
            assert("sender"@.len() == 6);
            assert("receiver"@.len() == 8);
        }
        let mut m: Members = Vec::new();
        put(&mut m, "sender", self.sender.encode());
        put(&mut m, "receiver", self.receiver.encode());
        JsonValue::Object(m)
    }
}

/// Attributes of a Story resource.
pub struct StoryAttributes {
    pub title: String,
    pub short_description: String,
    pub description: String,
    pub description_html: String,
    pub published: bool,
    pub status: PublishStatus,
    pub submitted: bool,
    pub date_published: Timestamp,
    pub date_modified: Timestamp,
    pub date_updated: Timestamp,
    /// Views of the most viewed chapter
    pub num_views: u32,
    /// Views over all chapters
    pub total_num_views: u32,
    pub num_words: u32,
    pub num_comments: u32,
    pub color: Color,
    pub cover_image: CoverImage,
    pub num_chapters: u32,
    pub rating: u32,
    pub completion_status: CompletionStatus,
    pub content_rating: ContentRating,
    pub num_likes: u32,
    pub num_dislikes: u32,
}

impl StoryAttributes {
    /// The first half of the fields is read from `m`.
    pub open spec fn decodes_first(m: Seq<(String, JsonValue)>, x: Self) -> bool {
        &&& text_of(lookup(m, "title"@)) == Some(x.title@)
        &&& text_of(lookup(m, "short_description"@)) == Some(x.short_description@)
        &&& text_of(lookup(m, "description"@)) == Some(x.description@)
        &&& text_of(lookup(m, "description_html"@)) == Some(x.description_html@)
        &&& bool_of(lookup(m, "published"@)) == Some(x.published)
        &&& field(m, "status"@, x.status)
        &&& bool_of(lookup(m, "submitted"@)) == Some(x.submitted)
        &&& field(m, "date_published"@, x.date_published)
        &&& field(m, "date_modified"@, x.date_modified)
        &&& field(m, "date_updated"@, x.date_updated)
        &&& u32_of(lookup(m, "num_views"@)) == Some(x.num_views)
    }

    /// `k` is the key of a field of the first half.
    pub open spec fn is_first_key(k: Seq<char>) -> bool {
        k == "title"@ || k == "short_description"@ || k == "description"@ || k == "description_html"@ || k == "published"@ || k == "status"@ || k == "submitted"@ || k == "date_published"@ || k == "date_modified"@ || k == "date_updated"@ || k == "num_views"@
    }

    /// The second half of the fields is read from `m`.
    pub open spec fn decodes_second(m: Seq<(String, JsonValue)>, x: Self) -> bool {
        &&& u32_of(lookup(m, "total_num_views"@)) == Some(x.total_num_views)
        &&& u32_of(lookup(m, "num_words"@)) == Some(x.num_words)
        &&& u32_of(lookup(m, "num_comments"@)) == Some(x.num_comments)
        &&& field(m, "color"@, x.color)
        &&& field(m, "cover_image"@, x.cover_image)
        &&& u32_of(lookup(m, "num_chapters"@)) == Some(x.num_chapters)
        &&& u32_of(lookup(m, "rating"@)) == Some(x.rating)
        &&& field(m, "completion_status"@, x.completion_status)
        &&& field(m, "content_rating"@, x.content_rating)
        &&& u32_of(lookup(m, "num_likes"@)) == Some(x.num_likes)
        &&& u32_of(lookup(m, "num_dislikes"@)) == Some(x.num_dislikes)
    }

    /// `k` is the key of a field of the second half.
    pub open spec fn is_second_key(k: Seq<char>) -> bool {
        k == "total_num_views"@ || k == "num_words"@ || k == "num_comments"@ || k == "color"@ || k == "cover_image"@ || k == "num_chapters"@ || k == "rating"@ || k == "completion_status"@ || k == "content_rating"@ || k == "num_likes"@ || k == "num_dislikes"@
    }

    #[verifier::rlimit(100)]
    fn put_first(&self, m: &mut Members)
        requires
            old(m)@.len() == 0,
        ensures
            Self::decodes_first(final(m)@, *self),
            forall|j: int| 0 <= j < final(m)@.len() ==> Self::is_first_key(#[trigger] final(m)@[j].0@),
    {
        proof {
            reveal_strlit("title");
            reveal_strlit("short_description");
            reveal_strlit("description");
            reveal_strlit("description_html");
            reveal_strlit("published");
            reveal_strlit("status");
            reveal_strlit("submitted");
            reveal_strlit("date_published");
            reveal_strlit("date_modified");
            reveal_strlit("date_updated");
            reveal_strlit("num_views");
            assert("title"@.len() == 5);
            assert("short_description"@.len() == 17);
            assert("description"@.len() == 11);
            assert("description_html"@.len() == 16);
            assert("published"@.len() == 9);
            assert("status"@.len() == 6);
            assert("submitted"@.len() == 9);
            assert("date_published"@.len() == 14);
            assert("date_modified"@.len() == 13);
            assert("date_updated"@.len() == 12);
            assert("num_views"@.len() == 9);
            assert("num_views"@[0] == 'n');
            assert("published"@[0] == 'p');
            assert("submitted"@[0] == 's');
        }
        put(m, "title", string_value(&self.title));
        put(m, "short_description", string_value(&self.short_description));
        put(m, "description", string_value(&self.description));
        put(m, "description_html", string_value(&self.description_html));
        put(m, "published", JsonValue::Bool(self.published));
        put(m, "status", self.status.encode());
        put(m, "submitted", JsonValue::Bool(self.submitted));
        put(m, "date_published", self.date_published.encode());
        put(m, "date_modified", self.date_modified.encode());
        put(m, "date_updated", self.date_updated.encode());
        put(m, "num_views", JsonValue::Number(self.num_views as u64));
    }

    #[verifier::rlimit(100)]
    fn put_second(&self, m: &mut Members)
        requires
            forall|j: int| 0 <= j < old(m)@.len() ==> Self::is_first_key(#[trigger] old(m)@[j].0@),
        ensures
            Self::decodes_second(final(m)@, *self),
            forall|k: Seq<char>| !Self::is_second_key(k) ==> lookup(final(m)@, k) == lookup(old(m)@, k),
    {
        proof {
            reveal_strlit("title");
            reveal_strlit("short_description");
            reveal_strlit("description");
            reveal_strlit("description_html");
            reveal_strlit("published");
            reveal_strlit("status");
            reveal_strlit("submitted");
            reveal_strlit("date_published");
            reveal_strlit("date_modified");
            reveal_strlit("date_updated");
            reveal_strlit("num_views");
            reveal_strlit("total_num_views");
            reveal_strlit("num_words");
            reveal_strlit("num_comments");
            reveal_strlit("color");
            reveal_strlit("cover_image");
            reveal_strlit("num_chapters");
            reveal_strlit("rating");
            reveal_strlit("completion_status");
            reveal_strlit("content_rating");
            reveal_strlit("num_likes");
            reveal_strlit("num_dislikes");
            assert("title"@.len() == 5);
            assert("short_description"@.len() == 17);
            assert("description"@.len() == 11);
            assert("description_html"@.len() == 16);
            assert("published"@.len() == 9);
            assert("status"@.len() == 6);
            assert("submitted"@.len() == 9);
            assert("date_published"@.len() == 14);
            assert("date_modified"@.len() == 13);
            assert("date_updated"@.len() == 12);
            assert("num_views"@.len() == 9);
            assert("total_num_views"@.len() == 15);
            assert("num_words"@.len() == 9);
            assert("num_comments"@.len() == 12);
            assert("color"@.len() == 5);
            assert("cover_image"@.len() == 11);
            assert("num_chapters"@.len() == 12);
            assert("rating"@.len() == 6);
            assert("completion_status"@.len() == 17);
            assert("content_rating"@.len() == 14);
            assert("num_likes"@.len() == 9);
            assert("num_dislikes"@.len() == 12);
            assert("color"@[0] == 'c');
            assert("completion_status"@[0] == 'c');
            assert("content_rating"@[0] == 'c');
            assert("cover_image"@[0] == 'c');
            assert("date_published"@[0] == 'd');
            assert("date_updated"@[0] == 'd');
            assert("description"@[0] == 'd');
            assert("num_chapters"@[0] == 'n');
            assert("num_chapters"@[4] == 'c');
            assert("num_chapters"@[5] == 'h');
            assert("num_comments"@[0] == 'n');
            assert("num_comments"@[4] == 'c');
            assert("num_comments"@[5] == 'o');
            assert("num_dislikes"@[0] == 'n');
            assert("num_dislikes"@[4] == 'd');
            assert("num_likes"@[0] == 'n');
            assert("num_likes"@[4] == 'l');
            assert("num_views"@[0] == 'n');
            assert("num_views"@[4] == 'v');
            assert("num_words"@[0] == 'n');
            assert("num_words"@[4] == 'w');
            assert("published"@[0] == 'p');
            assert("rating"@[0] == 'r');
            assert("short_description"@[0] == 's');
            assert("status"@[0] == 's');
            assert("submitted"@[0] == 's');
            assert("title"@[0] == 't');
        }
        put(m, "total_num_views", JsonValue::Number(self.total_num_views as u64));
        put(m, "num_words", JsonValue::Number(self.num_words as u64));
        put(m, "num_comments", JsonValue::Number(self.num_comments as u64));
        put(m, "color", self.color.encode());
        put(m, "cover_image", self.cover_image.encode());
        put(m, "num_chapters", JsonValue::Number(self.num_chapters as u64));
        put(m, "rating", JsonValue::Number(self.rating as u64));
        put(m, "completion_status", self.completion_status.encode());
        put(m, "content_rating", self.content_rating.encode());
        put(m, "num_likes", JsonValue::Number(self.num_likes as u64));
        put(m, "num_dislikes", JsonValue::Number(self.num_dislikes as u64));
    }
}

impl Record for StoryAttributes {
    open spec fn decodes(j: JsonValue, x: Self) -> bool {
        &&& j matches JsonValue::Object(m)
        &&& Self::decodes_first(m@, x)
        &&& Self::decodes_second(m@, x)
    }

    fn decode(j: &JsonValue) -> (r: Result<Self, DecodeError>) {
        match j {
            JsonValue::Object(m) => {
                let title = read_text(m, "title")?;
                let short_description = read_text(m, "short_description")?;
                let description = read_text(m, "description")?;
                let description_html = read_text(m, "description_html")?;
                let published = read_bool(m, "published")?;
                let status = read_field(m, "status")?;
                let submitted = read_bool(m, "submitted")?;
                let date_published = read_field(m, "date_published")?;
                let date_modified = read_field(m, "date_modified")?;
                let date_updated = read_field(m, "date_updated")?;
                let num_views = read_u32(m, "num_views")?;
                let total_num_views = read_u32(m, "total_num_views")?;
                let num_words = read_u32(m, "num_words")?;
                let num_comments = read_u32(m, "num_comments")?;
                let color = read_field(m, "color")?;
                let cover_image = read_field(m, "cover_image")?;
                let num_chapters = read_u32(m, "num_chapters")?;
                let rating = read_u32(m, "rating")?;
                let completion_status = read_field(m, "completion_status")?;
                let content_rating = read_field(m, "content_rating")?;
                let num_likes = read_u32(m, "num_likes")?;
                let num_dislikes = read_u32(m, "num_dislikes")?;
                let r = StoryAttributes { title, short_description, description, description_html, published, status, submitted, date_published, date_modified, date_updated, num_views, total_num_views, num_words, num_comments, color, cover_image, num_chapters, rating, completion_status, content_rating, num_likes, num_dislikes };
                assert(Self::decodes(*j, r));
                Ok(r)
            },
            _ => Err(DecodeError { path: Vec::new(), problem: Problem::TypeMismatch }),
        }
    }

    #[verifier::rlimit(100)]
    fn encode(&self) -> (r: JsonValue) {
        proof {
            reveal_strlit("title");
            reveal_strlit("short_description");
            reveal_strlit("description");
            reveal_strlit("description_html");
            reveal_strlit("published");
            reveal_strlit("status");
            reveal_strlit("submitted");
            reveal_strlit("date_published");
            reveal_strlit("date_modified");
            reveal_strlit("date_updated");
            reveal_strlit("num_views");
            reveal_strlit("total_num_views");
            reveal_strlit("num_words");
            reveal_strlit("num_comments");
            reveal_strlit("color");
            reveal_strlit("cover_image");
            reveal_strlit("num_chapters");
            reveal_strlit("rating");
            reveal_strlit("completion_status");
            reveal_strlit("content_rating");
            reveal_strlit("num_likes");
            reveal_strlit("num_dislikes");
            assert("title"@.len() == 5);
            assert("short_description"@.len() == 17);
            assert("description"@.len() == 11);
            assert("description_html"@.len() == 16);
            assert("published"@.len() == 9);
            assert("status"@.len() == 6);
            assert("submitted"@.len() == 9);
            assert("date_published"@.len() == 14);
            assert("date_modified"@.len() == 13);
            assert("date_updated"@.len() == 12);
            assert("num_views"@.len() == 9);
            assert("total_num_views"@.len() == 15);
            assert("num_words"@.len() == 9);
            assert("num_comments"@.len() == 12);
            assert("color"@.len() == 5);
            assert("cover_image"@.len() == 11);
            assert("num_chapters"@.len() == 12);
            assert("rating"@.len() == 6);
            assert("completion_status"@.len() == 17);
            assert("content_rating"@.len() == 14);
            assert("num_likes"@.len() == 9);
            assert("num_dislikes"@.len() == 12);
            assert("color"@[0] == 'c');
            assert("completion_status"@[0] == 'c');
            assert("content_rating"@[0] == 'c');
            assert("cover_image"@[0] == 'c');
            assert("date_published"@[0] == 'd');
            assert("date_updated"@[0] == 'd');
            assert("description"@[0] == 'd');
            assert("num_chapters"@[0] == 'n');
            assert("num_chapters"@[4] == 'c');
            assert("num_chapters"@[5] == 'h');
            assert("num_comments"@[0] == 'n');
            assert("num_comments"@[4] == 'c');
            assert("num_comments"@[5] == 'o');
            assert("num_dislikes"@[0] == 'n');
            assert("num_dislikes"@[4] == 'd');
            assert("num_likes"@[0] == 'n');
            assert("num_likes"@[4] == 'l');
            assert("num_views"@[0] == 'n');
            assert("num_views"@[4] == 'v');
            assert("num_words"@[0] == 'n');
            assert("num_words"@[4] == 'w');
            assert("published"@[0] == 'p');
            assert("rating"@[0] == 'r');
            assert("short_description"@[0] == 's');
            assert("status"@[0] == 's');
            assert("submitted"@[0] == 's');
            assert("title"@[0] == 't');
        }
        let mut m: Members = Vec::new();
        self.put_first(&mut m);
        let ghost half = m@;
        self.put_second(&mut m);
        proof {
            assert(!Self::is_second_key("title"@));
            assert(lookup(m@, "title"@) == lookup(half, "title"@));
            assert(!Self::is_second_key("short_description"@));
            assert(lookup(m@, "short_description"@) == lookup(half, "short_description"@));
            assert(!Self::is_second_key("description"@));
            assert(lookup(m@, "description"@) == lookup(half, "description"@));
            assert(!Self::is_second_key("description_html"@));
            assert(lookup(m@, "description_html"@) == lookup(half, "description_html"@));
            assert(!Self::is_second_key("published"@));
            assert(lookup(m@, "published"@) == lookup(half, "published"@));
            assert(!Self::is_second_key("status"@));
            assert(lookup(m@, "status"@) == lookup(half, "status"@));
            assert(!Self::is_second_key("submitted"@));
            assert(lookup(m@, "submitted"@) == lookup(half, "submitted"@));
            assert(!Self::is_second_key("date_published"@));
            assert(lookup(m@, "date_published"@) == lookup(half, "date_published"@));
            assert(!Self::is_second_key("date_modified"@));
            assert(lookup(m@, "date_modified"@) == lookup(half, "date_modified"@));
            assert(!Self::is_second_key("date_updated"@));
            assert(lookup(m@, "date_updated"@) == lookup(half, "date_updated"@));
            assert(!Self::is_second_key("num_views"@));
            assert(lookup(m@, "num_views"@) == lookup(half, "num_views"@));
        }
        JsonValue::Object(m)
    }
}

/// Relationships of a Story resource.
pub struct StoryRelationships {
    pub author: Data<ResourceId>,
    pub tags: Data<Vec<ResourceId>>,
}

impl Record for StoryRelationships {
    open spec fn decodes(j: JsonValue, x: Self) -> bool {
        &&& j matches JsonValue::Object(m)
        &&& field(m@, "author"@, x.author)
        &&& field(m@, "tags"@, x.tags)
    }

    fn decode(j: &JsonValue) -> (r: Result<Self, DecodeError>) {
        match j {
            JsonValue::Object(m) => {
                let author = read_field(m, "author")?;
                let tags = read_field(m, "tags")?;
                let r = StoryRelationships { author, tags };
                assert(Self::decodes(*j, r));
                Ok(r)
            },
            _ => Err(DecodeError { path: Vec::new(), problem: Problem::TypeMismatch }),
        }
    }

    fn encode(&self) -> (r: JsonValue) {
        proof {
            reveal_strlit("author");
            reveal_strlit("tags");
            assert("author"@.len() == 6);
            assert("tags"@.len() == 4);
        }
        let mut m: Members = Vec::new();
        put(&mut m, "author", self.author.encode());
        put(&mut m, "tags", self.tags.encode());
        JsonValue::Object(m)
    }
}

/// Attributes of a StoryTag resource.
pub struct StoryTagAttributes {
    pub name: String,
    pub description: Option<String>,
    pub type_: TagType,
    pub num_stories: u32,
}

impl Record for StoryTagAttributes {
    open spec fn decodes(j: JsonValue, x: Self) -> bool {
        &&& j matches JsonValue::Object(m)
        &&& text_of(lookup(m@, "name"@)) == Some(x.name@)
        &&& opt_text_of(lookup(m@, "description"@)) == Some(opt_view(x.description))
        &&& field(m@, "type"@, x.type_)
        &&& u32_of(lookup(m@, "num_stories"@)) == Some(x.num_stories)
    }

    fn decode(j: &JsonValue) -> (r: Result<Self, DecodeError>) {
        match j {
            JsonValue::Object(m) => {
                let name = read_text(m, "name")?;
                let description = read_opt_text(m, "description")?;
                let type_ = read_field(m, "type")?;
                let num_stories = read_u32(m, "num_stories")?;
                let r = StoryTagAttributes { name, description, type_, num_stories };
                assert(Self::decodes(*j, r));
                Ok(r)
            },
            _ => Err(DecodeError { path: Vec::new(), problem: Problem::TypeMismatch }),
        }
    }

    fn encode(&self) -> (r: JsonValue) {
        proof {
            reveal_strlit("name");
            reveal_strlit("description");
            reveal_strlit("type");
            reveal_strlit("num_stories");
            assert("name"@.len() == 4);
            assert("description"@.len() == 11);
            assert("type"@.len() == 4);
            assert("num_stories"@.len() == 11);
            assert("description"@[0] == 'd');
            assert("name"@[0] == 'n');
            assert("num_stories"@[0] == 'n');
            assert("type"@[0] == 't');
        }
        let mut m: Members = Vec::new();
        put(&mut m, "name", string_value(&self.name));
        put(&mut m, "description", opt_string_value(&self.description));
        put(&mut m, "type", self.type_.encode());
        put(&mut m, "num_stories", JsonValue::Number(self.num_stories as u64));
        JsonValue::Object(m)
    }
}

/// Attributes of a User resource.
pub struct UserAttributes {
    pub name: String,
    pub bio_html: String,
    pub num_followers: u32,
    pub num_stories: u32,
    pub num_blog_posts: u32,
    pub date_joined: Timestamp,
    pub avatar: Avatar,
    pub color: Color,
    /// Absent when the user comes among included resources
    pub date_last_online: Option<Timestamp>,
}

impl Record for UserAttributes {
    open spec fn decodes(j: JsonValue, x: Self) -> bool {
        &&& j matches JsonValue::Object(m)
        &&& text_of(lookup(m@, "name"@)) == Some(x.name@)
        &&& text_of(lookup(m@, "bio_html"@)) == Some(x.bio_html@)
        &&& u32_of(lookup(m@, "num_followers"@)) == Some(x.num_followers)
        &&& u32_of(lookup(m@, "num_stories"@)) == Some(x.num_stories)
        &&& u32_of(lookup(m@, "num_blog_posts"@)) == Some(x.num_blog_posts)
        &&& field(m@, "date_joined"@, x.date_joined)
        &&& field(m@, "avatar"@, x.avatar)
        &&& field(m@, "color"@, x.color)
        &&& opt_field(m@, "date_last_online"@, x.date_last_online)
    }

    fn decode(j: &JsonValue) -> (r: Result<Self, DecodeError>) {
        match j {
            JsonValue::Object(m) => {
                let name = read_text(m, "name")?;
                let bio_html = read_text(m, "bio_html")?;
                let num_followers = read_u32(m, "num_followers")?;
                let num_stories = read_u32(m, "num_stories")?;
                let num_blog_posts = read_u32(m, "num_blog_posts")?;
                let date_joined = read_field(m, "date_joined")?;
                let avatar = read_field(m, "avatar")?;
                let color = read_field(m, "color")?;
                let date_last_online = read_opt_field(m, "date_last_online")?;
                let r = UserAttributes { name, bio_html, num_followers, num_stories, num_blog_posts, date_joined, avatar, color, date_last_online };
                assert(Self::decodes(*j, r));
                Ok(r)
            },
            _ => Err(DecodeError { path: Vec::new(), problem: Problem::TypeMismatch }),
        }
    }

    #[verifier::rlimit(100)]
    fn encode(&self) -> (r: JsonValue) {
        proof {
            reveal_strlit("name");
            reveal_strlit("bio_html");
            reveal_strlit("num_followers");
            reveal_strlit("num_stories");
            reveal_strlit("num_blog_posts");
            reveal_strlit("date_joined");
            reveal_strlit("avatar");
            reveal_strlit("color");
            reveal_strlit("date_last_online");
            assert("name"@.len() == 4);
            assert("bio_html"@.len() == 8);
            assert("num_followers"@.len() == 13);
            assert("num_stories"@.len() == 11);
            assert("num_blog_posts"@.len() == 14);
            assert("date_joined"@.len() == 11);
            assert("avatar"@.len() == 6);
            assert("color"@.len() == 5);
            assert("date_last_online"@.len() == 16);
            assert("date_joined"@[0] == 'd');
            assert("num_stories"@[0] == 'n');
        }
        let mut m: Members = Vec::new();
        put(&mut m, "name", string_value(&self.name));
        put(&mut m, "bio_html", string_value(&self.bio_html));
        put(&mut m, "num_followers", JsonValue::Number(self.num_followers as u64));
        put(&mut m, "num_stories", JsonValue::Number(self.num_stories as u64));
        put(&mut m, "num_blog_posts", JsonValue::Number(self.num_blog_posts as u64));
        put(&mut m, "date_joined", self.date_joined.encode());
        put(&mut m, "avatar", self.avatar.encode());
        put(&mut m, "color", self.color.encode());
        put(&mut m, "date_last_online", opt_encode(&self.date_last_online));
        JsonValue::Object(m)
    }
}

/// A value read from a whole JSON document, which it takes over.
pub trait Document: Sized {
    /// `x` is what decoding `j` gives.
    spec fn decodes(j: JsonValue, x: Self) -> bool;

    /// Decodes `j`; fails exactly when no value can be read from it.
    fn from_json(j: JsonValue) -> (r: Result<Self, DecodeError>)
        ensures
            (r is Ok) <==> (exists|x: Self| Self::decodes(j, x)),
            r matches Ok(x) ==> Self::decodes(j, x),
    ;

    /// Writes the wire form, which decodes back to `self`.
    fn into_json(self) -> (r: JsonValue)
        ensures
            Self::decodes(r, self),
            r is Object,
    ;
}

/// `x` holds the links of the object `v`, in wire order; an absent field
/// gives none.
pub open spec fn links_of(v: Option<JsonValue>, x: Vec<(String, WebUrl)>) -> bool {
    match v {
        None => x@.len() == 0,
        Some(JsonValue::Object(o)) => {
            &&& o@.len() == x@.len()
            &&& forall|i: int|
                0 <= i < o@.len() ==> (#[trigger] o@[i]).0@ == x@[i].0@ && WebUrl::decodes(o@[i].1, x@[i].1)
        },
        _ => false,
    }
}

/// `x` holds the members of the object `v` as they are; an absent field
/// gives none.
pub open spec fn meta_of(v: Option<JsonValue>, x: Vec<(String, JsonValue)>) -> bool {
    match v {
        None => x@.len() == 0,
        Some(JsonValue::Object(o)) => x == o,
        _ => false,
    }
}

pub fn read_links(m: &Members) -> (r: Result<Vec<(String, WebUrl)>, DecodeError>)
    ensures
        (r is Ok) <==> (exists|x: Vec<(String, WebUrl)>| links_of(lookup(m@, "links"@), x)),
        r matches Ok(x) ==> links_of(lookup(m@, "links"@), x),
{
    match crate::json::member(m, "links") {
        None => {
            let r: Vec<(String, WebUrl)> = Vec::new();
            assert(links_of(lookup(m@, "links"@), r));
            Ok(r)
        },
        Some(JsonValue::Object(o)) => {
            let mut out: Vec<(String, WebUrl)> = Vec::new();
            let mut i: usize = 0;
            while i < o.len()
                invariant
                    0 <= i <= o@.len(),
                    out@.len() == i,
                    lookup(m@, "links"@) == Some(JsonValue::Object(*o)),
                    forall|k: int|
                        0 <= k < i ==> (#[trigger] o@[k]).0@ == out@[k].0@ && WebUrl::decodes(o@[k].1, out@[k].1),
                decreases o@.len() - i,
            {
                match WebUrl::decode(&o[i].1) {
                    Ok(u) => out.push((o[i].0.clone(), u)),
                    Err(e) => {
                        assert forall|x: Vec<(String, WebUrl)>| !links_of(lookup(m@, "links"@), x) by {
                            if links_of(lookup(m@, "links"@), x) {
                                assert(WebUrl::decodes(o@[i as int].1, x@[i as int].1));
                            }
                        }
                        return Err(within("links", e));
                    },
                }
                i = i + 1;
            }
            assert(links_of(lookup(m@, "links"@), out));
            Ok(out)
        },
        Some(_) => Err(error_at("links", Problem::TypeMismatch)),
    }
}

pub fn links_value(links: &Vec<(String, WebUrl)>) -> (r: JsonValue)
    ensures
        links_of(Some(r), *links),
{
    let mut o: Members = Vec::new();
    let mut i: usize = 0;
    while i < links.len()
        invariant
            0 <= i <= links@.len(),
            o@.len() == i,
            forall|k: int|
                0 <= k < i ==> (#[trigger] o@[k]).0@ == links@[k].0@ && WebUrl::decodes(o@[k].1, links@[k].1),
        decreases links@.len() - i,
    {
        o.push((links[i].0.clone(), links[i].1.encode()));
        i = i + 1;
    }
    JsonValue::Object(o)
}

/// A resource of one kind: its id, attributes, relationships, links and metadata.
pub struct TypedResource<A, R> {
    /// Decimal digits on the wire.
    pub id: String,
    pub attributes: A,
    /// Present when the resource is the top-level `data` of a response;
    /// absent (not empty) when it comes among included resources.
    pub relationships: Option<R>,
    pub links: Vec<(String, WebUrl)>,
    pub meta: Vec<(String, JsonValue)>,
}

impl<A: Record, R: Record> Document for TypedResource<A, R> {
    open spec fn decodes(j: JsonValue, x: Self) -> bool {
        &&& j matches JsonValue::Object(m)
        &&& text_of(lookup(m@, "id"@)) == Some(x.id@)
        &&& field(m@, "attributes"@, x.attributes)
        &&& opt_field(m@, "relationships"@, x.relationships)
        &&& links_of(lookup(m@, "links"@), x.links)
        &&& meta_of(lookup(m@, "meta"@), x.meta)
    }

    fn from_json(j: JsonValue) -> (r: Result<Self, DecodeError>) {
        match j {
            JsonValue::Object(m) => {
                let ghost m0 = m;
                let mut m = m;
                let id = read_text(&m, "id")?;
                let attributes = read_field(&m, "attributes")?;
                let relationships = read_opt_field(&m, "relationships")?;
                let links = read_links(&m)?;
                let meta = match take(&mut m, "meta") {
                    None => Vec::new(),
                    Some(JsonValue::Object(o)) => o,
                    Some(_) => {
                        return Err(error_at("meta", Problem::TypeMismatch));
                    },
                };
                let r = TypedResource { id, attributes, relationships, links, meta };
                assert(Self::decodes(JsonValue::Object(m0), r));
                Ok(r)
            },
            _ => Err(DecodeError { path: Vec::new(), problem: Problem::TypeMismatch }),
        }
    }

    fn into_json(self) -> (r: JsonValue) {
        proof {
            reveal_strlit("id");
            reveal_strlit("attributes");
            reveal_strlit("relationships");
            reveal_strlit("links");
            reveal_strlit("meta");
            assert("id"@.len() == 2);
            assert("attributes"@.len() == 10);
            assert("relationships"@.len() == 13);
            assert("links"@.len() == 5);
            assert("meta"@.len() == 4);
        }
        let TypedResource { id, attributes, relationships, links, meta } = self;
        let mut m: Members = Vec::new();
        put(&mut m, "id", JsonValue::Str(id));
        put(&mut m, "attributes", attributes.encode());
        match &relationships {
            Some(rel) => put(&mut m, "relationships", rel.encode()),
            None => {},
        }
        put(&mut m, "links", links_value(&links));
        put(&mut m, "meta", JsonValue::Object(meta));
        JsonValue::Object(m)
    }
}

pub type BlogPost = TypedResource<BlogPostAttributes, BlogPostRelationships>;

pub type Bookshelf = TypedResource<BookshelfAttributes, BookshelfRelationships>;

pub type Chapter = TypedResource<ChapterAttributes, ChapterRelationships>;

pub type Follow = TypedResource<FollowAttributes, FollowRelationships>;

pub type Group = TypedResource<GroupAttributes, GroupRelationships>;

pub type GroupThread = TypedResource<GroupThreadAttributes, GroupThreadRelationships>;

pub type PrivateMessage = TypedResource<PrivateMessageAttributes, PrivateMessageRelationships>;

pub type Story = TypedResource<StoryAttributes, StoryRelationships>;

pub type StoryTag = TypedResource<StoryTagAttributes, ()>;

pub type User = TypedResource<UserAttributes, ()>;

/// A resource of any kind, told apart on the wire by its `type` field.
pub enum Resource {
    BlogPost(BlogPost),
    Bookshelf(Bookshelf),
    Chapter(Chapter),
    Follow(Follow),
    Group(Group),
    GroupThread(GroupThread),
    PrivateMessage(PrivateMessage),
    Story(Story),
    StoryTag(StoryTag),
    User(User),
}

/// Puts the discriminator of `kind` in front of the members of `j`.
fn tagged(j: JsonValue, kind: ResourceKind) -> (r: JsonValue)
    requires
        j is Object,
    ensures
        r matches JsonValue::Object(m) && text_of(lookup(m@, "type"@)) == Some(kind.wire()),
        forall|k: Seq<char>|
            k != "type"@ ==> lookup(r->Object_0@, k) == #[trigger] lookup(j->Object_0@, k),
{
    match j {
        JsonValue::Object(m) => {
            let mut m = m;
            put_front(&mut m, "type", JsonValue::Str(text(kind.as_wire())));
            JsonValue::Object(m)
        },
        _ => j,
    }
}

impl Resource {
    pub open spec fn kind(self) -> ResourceKind {
        match self {
            Resource::BlogPost(_) => ResourceKind::BlogPost,
            Resource::Bookshelf(_) => ResourceKind::Bookshelf,
            Resource::Chapter(_) => ResourceKind::Chapter,
            Resource::Follow(_) => ResourceKind::Follow,
            Resource::Group(_) => ResourceKind::Group,
            Resource::GroupThread(_) => ResourceKind::GroupThread,
            Resource::PrivateMessage(_) => ResourceKind::PrivateMessage,
            Resource::Story(_) => ResourceKind::Story,
            Resource::StoryTag(_) => ResourceKind::StoryTag,
            Resource::User(_) => ResourceKind::User,
        }
    }

    pub open spec fn id_view(self) -> Seq<char> {
        match self {
            Resource::BlogPost(r) => r.id@,
            Resource::Bookshelf(r) => r.id@,
            Resource::Chapter(r) => r.id@,
            Resource::Follow(r) => r.id@,
            Resource::Group(r) => r.id@,
            Resource::GroupThread(r) => r.id@,
            Resource::PrivateMessage(r) => r.id@,
            Resource::Story(r) => r.id@,
            Resource::StoryTag(r) => r.id@,
            Resource::User(r) => r.id@,
        }
    }

    /// The envelope of `x` decodes from `j`.
    pub open spec fn body_decodes(j: JsonValue, x: Self) -> bool {
        match x {
            Resource::BlogPost(r) => <BlogPost as Document>::decodes(j, r),
            Resource::Bookshelf(r) => <Bookshelf as Document>::decodes(j, r),
            Resource::Chapter(r) => <Chapter as Document>::decodes(j, r),
            Resource::Follow(r) => <Follow as Document>::decodes(j, r),
            Resource::Group(r) => <Group as Document>::decodes(j, r),
            Resource::GroupThread(r) => <GroupThread as Document>::decodes(j, r),
            Resource::PrivateMessage(r) => <PrivateMessage as Document>::decodes(j, r),
            Resource::Story(r) => <Story as Document>::decodes(j, r),
            Resource::StoryTag(r) => <StoryTag as Document>::decodes(j, r),
            Resource::User(r) => <User as Document>::decodes(j, r),
        }
    }

    pub fn resource_kind(&self) -> (r: ResourceKind)
        ensures
            r == self.kind(),
    {
        match self {
            Resource::BlogPost(_) => ResourceKind::BlogPost,
            Resource::Bookshelf(_) => ResourceKind::Bookshelf,
            Resource::Chapter(_) => ResourceKind::Chapter,
            Resource::Follow(_) => ResourceKind::Follow,
            Resource::Group(_) => ResourceKind::Group,
            Resource::GroupThread(_) => ResourceKind::GroupThread,
            Resource::PrivateMessage(_) => ResourceKind::PrivateMessage,
            Resource::Story(_) => ResourceKind::Story,
            Resource::StoryTag(_) => ResourceKind::StoryTag,
            Resource::User(_) => ResourceKind::User,
        }
    }

    pub fn id(&self) -> (r: &String)
        ensures
            r@ == self.id_view(),
    {
        match self {
            Resource::BlogPost(r) => &r.id,
            Resource::Bookshelf(r) => &r.id,
            Resource::Chapter(r) => &r.id,
            Resource::Follow(r) => &r.id,
            Resource::Group(r) => &r.id,
            Resource::GroupThread(r) => &r.id,
            Resource::PrivateMessage(r) => &r.id,
            Resource::Story(r) => &r.id,
            Resource::StoryTag(r) => &r.id,
            Resource::User(r) => &r.id,
        }
    }

    /// Decodes a resource of the kind that its `type` field names. An
    /// unknown `type` fails with `UnknownResourceType`.
    #[verifier::rlimit(100)]
    pub fn decode(j: JsonValue) -> (r: Result<Resource, DecodeError>)
        ensures
            (r is Ok) <==> (exists|x: Resource| Self::decodes(j, x)),
            r matches Ok(x) ==> Self::decodes(j, x),
            (j matches JsonValue::Object(m) && text_of(lookup(m@, "type"@)) matches Some(t) && (forall|k: ResourceKind| k.wire() != t))
                ==> (r matches Err(e) && e.problem is UnknownResourceType),
    {
        let t = match &j {
            JsonValue::Object(m) => read_text(m, "type")?,
            _ => {
                return Err(DecodeError { path: Vec::new(), problem: Problem::TypeMismatch });
            },
        };
        let kind = match ResourceKind::from_wire(&t) {
            Ok(k) => k,
            Err(_) => {
                return Err(error_at("type", Problem::UnknownResourceType(t)));
            },
        };
        match kind {
            ResourceKind::BlogPost => match BlogPost::from_json(j) {
                Ok(x) => {
                    assert(Self::decodes(j, Resource::BlogPost(x)));
                    Ok(Resource::BlogPost(x))
                },
                Err(e) => {
                    assert forall|x: Resource| !Self::decodes(j, x) by {
                        if Self::decodes(j, x) {
                            ResourceKind::lemma_wire_injective(x.kind(), kind);
                        }
                    }
                    Err(within("blog_post", e))
                },
            },
            ResourceKind::Bookshelf => match Bookshelf::from_json(j) {
                Ok(x) => {
                    assert(Self::decodes(j, Resource::Bookshelf(x)));
                    Ok(Resource::Bookshelf(x))
                },
                Err(e) => {
                    assert forall|x: Resource| !Self::decodes(j, x) by {
                        if Self::decodes(j, x) {
                            ResourceKind::lemma_wire_injective(x.kind(), kind);
                        }
                    }
                    Err(within("bookshelf", e))
                },
            },
            ResourceKind::Chapter => match Chapter::from_json(j) {
                Ok(x) => {
                    assert(Self::decodes(j, Resource::Chapter(x)));
                    Ok(Resource::Chapter(x))
                },
                Err(e) => {
                    assert forall|x: Resource| !Self::decodes(j, x) by {
                        if Self::decodes(j, x) {
                            ResourceKind::lemma_wire_injective(x.kind(), kind);
                        }
                    }
                    Err(within("chapter", e))
                },
            },
            ResourceKind::Follow => match Follow::from_json(j) {
                Ok(x) => {
                    assert(Self::decodes(j, Resource::Follow(x)));
                    Ok(Resource::Follow(x))
                },
                Err(e) => {
                    assert forall|x: Resource| !Self::decodes(j, x) by {
                        if Self::decodes(j, x) {
                            ResourceKind::lemma_wire_injective(x.kind(), kind);
                        }
                    }
                    Err(within("follow", e))
                },
            },
            ResourceKind::Group => match Group::from_json(j) {
                Ok(x) => {
                    assert(Self::decodes(j, Resource::Group(x)));
                    Ok(Resource::Group(x))
                },
                Err(e) => {
                    assert forall|x: Resource| !Self::decodes(j, x) by {
                        if Self::decodes(j, x) {
                            ResourceKind::lemma_wire_injective(x.kind(), kind);
                        }
                    }
                    Err(within("group", e))
                },
            },
            ResourceKind::GroupThread => match GroupThread::from_json(j) {
                Ok(x) => {
                    assert(Self::decodes(j, Resource::GroupThread(x)));
                    Ok(Resource::GroupThread(x))
                },
                Err(e) => {
                    assert forall|x: Resource| !Self::decodes(j, x) by {
                        if Self::decodes(j, x) {
                            ResourceKind::lemma_wire_injective(x.kind(), kind);
                        }
                    }
                    Err(within("group_thread", e))
                },
            },
            ResourceKind::PrivateMessage => match PrivateMessage::from_json(j) {
                Ok(x) => {
                    assert(Self::decodes(j, Resource::PrivateMessage(x)));
                    Ok(Resource::PrivateMessage(x))
                },
                Err(e) => {
                    assert forall|x: Resource| !Self::decodes(j, x) by {
                        if Self::decodes(j, x) {
                            ResourceKind::lemma_wire_injective(x.kind(), kind);
                        }
                    }
                    Err(within("private_message", e))
                },
            },
            ResourceKind::Story => match Story::from_json(j) {
                Ok(x) => {
                    assert(Self::decodes(j, Resource::Story(x)));
                    Ok(Resource::Story(x))
                },
                Err(e) => {
                    assert forall|x: Resource| !Self::decodes(j, x) by {
                        if Self::decodes(j, x) {
                            ResourceKind::lemma_wire_injective(x.kind(), kind);
                        }
                    }
                    Err(within("story", e))
                },
            },
            ResourceKind::StoryTag => match StoryTag::from_json(j) {
                Ok(x) => {
                    assert(Self::decodes(j, Resource::StoryTag(x)));
                    Ok(Resource::StoryTag(x))
                },
                Err(e) => {
                    assert forall|x: Resource| !Self::decodes(j, x) by {
                        if Self::decodes(j, x) {
                            ResourceKind::lemma_wire_injective(x.kind(), kind);
                        }
                    }
                    Err(within("story_tag", e))
                },
            },
            ResourceKind::User => match User::from_json(j) {
                Ok(x) => {
                    assert(Self::decodes(j, Resource::User(x)));
                    Ok(Resource::User(x))
                },
                Err(e) => {
                    assert forall|x: Resource| !Self::decodes(j, x) by {
                        if Self::decodes(j, x) {
                            ResourceKind::lemma_wire_injective(x.kind(), kind);
                        }
                    }
                    Err(within("user", e))
                },
            },
        }
    }
}

impl Document for Resource {
    open spec fn decodes(j: JsonValue, x: Self) -> bool {
        &&& j matches JsonValue::Object(m)
        &&& text_of(lookup(m@, "type"@)) == Some(x.kind().wire())
        &&& Self::body_decodes(j, x)
    }

    fn from_json(j: JsonValue) -> (r: Result<Self, DecodeError>) {
        Resource::decode(j)
    }

    fn into_json(self) -> (r: JsonValue) {
        proof {
            reveal_strlit("type");
            reveal_strlit("id");
            reveal_strlit("attributes");
            reveal_strlit("relationships");
            reveal_strlit("links");
            reveal_strlit("meta");
            assert("type"@.len() == 4);
            assert("id"@.len() == 2);
            assert("attributes"@.len() == 10);
            assert("relationships"@.len() == 13);
            assert("links"@.len() == 5);
            assert("meta"@.len() == 4);
            assert("meta"@[0] == 'm');
            assert("type"@[0] == 't');
        }
        match self {
            Resource::BlogPost(x) => tagged(x.into_json(), ResourceKind::BlogPost),
            Resource::Bookshelf(x) => tagged(x.into_json(), ResourceKind::Bookshelf),
            Resource::Chapter(x) => tagged(x.into_json(), ResourceKind::Chapter),
            Resource::Follow(x) => tagged(x.into_json(), ResourceKind::Follow),
            Resource::Group(x) => tagged(x.into_json(), ResourceKind::Group),
            Resource::GroupThread(x) => tagged(x.into_json(), ResourceKind::GroupThread),
            Resource::PrivateMessage(x) => tagged(x.into_json(), ResourceKind::PrivateMessage),
            Resource::Story(x) => tagged(x.into_json(), ResourceKind::Story),
            Resource::StoryTag(x) => tagged(x.into_json(), ResourceKind::StoryTag),
            Resource::User(x) => tagged(x.into_json(), ResourceKind::User),
        }
    }
}

/// `x` is the resource that `reference` names: same kind, same id.
pub open spec fn refers_to(x: Resource, reference: ResourceId) -> bool {
    x.kind() == reference.type_ && x.id_view() == reference.id@
}

/// The first of `included` that `reference` names, if any. A resource may
/// come more than once among included resources; the first one wins.
pub fn resolve<'a>(reference: &ResourceId, included: &'a Vec<Resource>) -> (r: Option<&'a Resource>)
    ensures
        match r {
            Some(x) => exists|i: int|
                0 <= i < included@.len() && included@[i] == *x && refers_to(*x, *reference) && forall|j: int|
                    0 <= j < i ==> !refers_to(#[trigger] included@[j], *reference),
            None => forall|i: int| 0 <= i < included@.len() ==> !refers_to(#[trigger] included@[i], *reference),
        },
{
    let mut i: usize = 0;
    while i < included.len()
        invariant
            0 <= i <= included@.len(),
            forall|j: int| 0 <= j < i ==> !refers_to(#[trigger] included@[j], *reference),
        decreases included@.len() - i,
    {
        let x = &included[i];
        if x.resource_kind() == reference.type_ && *x.id() == reference.id {
            assert(refers_to(included@[i as int], *reference));
            return Some(x);
        }
        i = i + 1;
    }
    None
}

} // verus!
