//! The envelope that every endpoint answers with.
use vstd::prelude::*;
use crate::json::{DecodeError, JsonValue, Problem, error_at, lookup, read_text, take, text_of, within};
use crate::resources::{
    BlogPost, Bookshelf, Chapter, Document, Group, PrivateMessage, Resource, Story, User,
};

verus! {

/// A response: the requested `data`, the resources its relationships refer
/// to (`included`, in wire order, duplicates kept), and what the server
/// echoes back.
pub struct TypedApiResponse<T> {
    pub data: T,
    pub included: Vec<Resource>,
    /// Relative to the site, so not an absolute URL.
    pub uri: String,
    pub method: String,
    pub debug: Vec<(String, JsonValue)>,
}

pub type ApiResponse = TypedApiResponse<Resource>;

pub type BlogPostResponse = TypedApiResponse<BlogPost>;

pub type BookshelfResponse = TypedApiResponse<Bookshelf>;

pub type ChapterResponse = TypedApiResponse<Chapter>;

pub type GroupResponse = TypedApiResponse<Group>;

pub type PrivateMessageResponse = TypedApiResponse<PrivateMessage>;

pub type StoryResponse = TypedApiResponse<Story>;

pub type UserResponse = TypedApiResponse<User>;

/// `x` holds one resource for each item of the array `v`, in order.
pub open spec fn included_of(v: Option<JsonValue>, x: Vec<Resource>) -> bool {
    &&& v matches Some(JsonValue::Array(a))
    &&& a@.len() == x@.len()
    &&& forall|i: int| 0 <= i < a@.len() ==> Resource::decodes(#[trigger] a@[i], x@[i])
}

/// Decodes each item of `a`, in order.
pub fn decode_included(a: Vec<JsonValue>) -> (r: Result<Vec<Resource>, DecodeError>)
    ensures
        (r is Ok) <==> (exists|x: Vec<Resource>| included_of(Some(JsonValue::Array(a)), x)),
        r matches Ok(x) ==> included_of(Some(JsonValue::Array(a)), x),
{
    let ghost a0 = a@;
    let mut rest = a;
    let mut out: Vec<Resource> = Vec::new();
    while rest.len() > 0
        invariant
            out@.len() + rest@.len() == a0.len(),
            a0 == a@,
            rest@ == a0.subrange(out@.len() as int, a0.len() as int),
            forall|k: int| 0 <= k < out@.len() ==> Resource::decodes(#[trigger] a0[k], out@[k]),
        decreases rest@.len(),
    {
        let ghost i = out@.len() as int;
        let v = rest.remove(0);
        assert(v == a0[i]);
        match Resource::from_json(v) {
            Ok(x) => out.push(x),
            Err(e) => {
                assert forall|x: Vec<Resource>| !included_of(Some(JsonValue::Array(a)), x) by {
                    if included_of(Some(JsonValue::Array(a)), x) {
                        assert(Resource::decodes(a0[i], x@[i]));
                    }
                }
                return Err(within("included", e));
            },
        }
        assert(rest@ =~= a0.subrange(out@.len() as int, a0.len() as int));
    }
    assert(included_of(Some(JsonValue::Array(a)), out));
    Ok(out)
}

impl<T: Document> Document for TypedApiResponse<T> {
    open spec fn decodes(j: JsonValue, x: Self) -> bool {
        &&& j matches JsonValue::Object(m)
        &&& lookup(m@, "data"@) matches Some(d) && T::decodes(d, x.data)
        &&& included_of(lookup(m@, "included"@), x.included)
        &&& text_of(lookup(m@, "uri"@)) == Some(x.uri@)
        &&& text_of(lookup(m@, "method"@)) == Some(x.method@)
        &&& lookup(m@, "debug"@) == Some(JsonValue::Object(x.debug))
    }

    fn from_json(j: JsonValue) -> (r: Result<Self, DecodeError>) {
        proof {
            reveal_strlit("data");
            reveal_strlit("included");
            reveal_strlit("uri");
            reveal_strlit("method");
            reveal_strlit("debug");
            assert("data"@.len() == 4);
            assert("included"@.len() == 8);
            assert("uri"@.len() == 3);
            assert("method"@.len() == 6);
            assert("debug"@.len() == 5);
        }
        match j {
            JsonValue::Object(m) => {
                let ghost m0 = m;
                let mut m = m;
                let uri = read_text(&m, "uri")?;
                let method = read_text(&m, "method")?;
                let data = match take(&mut m, "data") {
                    Some(d) => match T::from_json(d) {
                        Ok(x) => x,
                        Err(e) => {
                            return Err(within("data", e));
                        },
                    },
                    None => {
                        return Err(error_at("data", Problem::MissingField));
                    },
                };
                let included = match take(&mut m, "included") {
                    Some(JsonValue::Array(a)) => decode_included(a)?,
                    Some(_) => {
                        return Err(error_at("included", Problem::TypeMismatch));
                    },
                    None => {
                        return Err(error_at("included", Problem::MissingField));
                    },
                };
                let debug = match take(&mut m, "debug") {
                    Some(JsonValue::Object(o)) => o,
                    Some(_) => {
                        return Err(error_at("debug", Problem::TypeMismatch));
                    },
                    None => {
                        return Err(error_at("debug", Problem::MissingField));
                    },
                };
                let r = TypedApiResponse { data, included, uri, method, debug };
                assert(Self::decodes(JsonValue::Object(m0), r));
                Ok(r)
            },
            _ => Err(DecodeError { path: Vec::new(), problem: Problem::TypeMismatch }),
        }
    }

    fn into_json(self) -> (r: JsonValue) {
        proof {
            reveal_strlit("data");
            reveal_strlit("included");
            reveal_strlit("uri");
            reveal_strlit("method");
            reveal_strlit("debug");
            assert("data"@.len() == 4);
            assert("included"@.len() == 8);
            assert("uri"@.len() == 3);
            assert("method"@.len() == 6);
            assert("debug"@.len() == 5);
        }
        let TypedApiResponse { data, included, uri, method, debug } = self;
        let ghost inc = included@;
        let mut a: Vec<JsonValue> = Vec::new();
        let mut rest = included;
        while rest.len() > 0
            invariant
                a@.len() + rest@.len() == inc.len(),
                rest@ == inc.subrange(a@.len() as int, inc.len() as int),
                forall|k: int| 0 <= k < a@.len() ==> Resource::decodes(#[trigger] a@[k], inc[k]),
            decreases rest@.len(),
        {
            let x = rest.remove(0);
            a.push(x.into_json());
            assert(rest@ =~= inc.subrange(a@.len() as int, inc.len() as int));
        }
        let mut m: Vec<(String, JsonValue)> = Vec::new();
        crate::json::put(&mut m, "data", data.into_json());
        crate::json::put(&mut m, "included", JsonValue::Array(a));
        crate::json::put(&mut m, "uri", JsonValue::Str(uri));
        crate::json::put(&mut m, "method", JsonValue::Str(method));
        crate::json::put(&mut m, "debug", JsonValue::Object(debug));
        JsonValue::Object(m)
    }
}

} // verus!
