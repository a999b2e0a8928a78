//! Decoding rules that hold of every document, stated over the wire model.
use vstd::prelude::*;
use crate::json::{JsonValue, Record, is_blank, lookup, text_of};
use crate::resources::{ChapterAttributes, Document, Resource, ResourceKind, TypedResource};
use crate::values::Avatar;

verus! {

/// The discriminator decides the variant: a resource decoded from an object
/// whose `type` is the wire name of `k` is of kind `k`.
pub proof fn lemma_kind_follows_type(j: JsonValue, x: Resource, k: ResourceKind)
    requires
        Resource::decodes(j, x),
        j matches JsonValue::Object(m) && text_of(lookup(m@, "type"@)) == Some(k.wire()),
    ensures
        x.kind() == k,
{
    ResourceKind::lemma_wire_injective(x.kind(), k);
}

/// A `type` that names no kind admits no resource.
pub proof fn lemma_unknown_type_rejected(j: JsonValue, t: Seq<char>)
    requires
        j matches JsonValue::Object(m) && text_of(lookup(m@, "type"@)) == Some(t),
        forall|k: ResourceKind| k.wire() != t,
    ensures
        forall|x: Resource| !Resource::decodes(j, x),
{
    assert forall|x: Resource| !Resource::decodes(j, x) by {
        assert(x.kind().wire() != t);
    }
}

/// Relationships are there exactly when the document sends them: a resource
/// decoded from an object without a `relationships` field has none.
pub proof fn lemma_relationships_presence<A: Record, R: Record>(j: JsonValue, x: TypedResource<A, R>)
    requires
        <TypedResource<A, R> as Document>::decodes(j, x),
    ensures
        x.relationships is Some <==> !is_blank(lookup(j->Object_0@, "relationships"@)),
{
}

/// An absent chapter `content` reads as absent, a string as that string, so
/// an absent and an empty `content` give different chapters.
pub proof fn lemma_chapter_content(j: JsonValue, x: ChapterAttributes)
    requires
        ChapterAttributes::decodes(j, x),
    ensures
        x.content is None <==> is_blank(lookup(j->Object_0@, "content"@)),
        x.content matches Some(s) ==> lookup(j->Object_0@, "content"@) matches Some(JsonValue::Str(t)) && t@ == s@,
{
}

/// Avatar sizes 16 and 192 are read where the document has them and may be
/// absent; the eight others must all be present.
pub proof fn lemma_avatar_sizes(j: JsonValue, x: Avatar)
    requires
        Avatar::decodes(j, x),
    ensures
        x.size16 is None <==> is_blank(lookup(j->Object_0@, "16"@)),
        x.size192 is None <==> is_blank(lookup(j->Object_0@, "192"@)),
        lookup(j->Object_0@, "32"@) is Some,
        lookup(j->Object_0@, "48"@) is Some,
        lookup(j->Object_0@, "64"@) is Some,
        lookup(j->Object_0@, "96"@) is Some,
        lookup(j->Object_0@, "128"@) is Some,
        lookup(j->Object_0@, "256"@) is Some,
        lookup(j->Object_0@, "384"@) is Some,
        lookup(j->Object_0@, "512"@) is Some,
{
}

} // verus!
