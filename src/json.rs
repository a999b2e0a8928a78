//! A plain JSON document model and the field readers that the resource
//! decoders are built from.
use vstd::prelude::*;

verus! {

/// A JSON document. Non-negative integers are held as `Number`; any other
/// number keeps its text in `OtherNumber`.
pub enum JsonValue {
    Null,
    Bool(bool),
    Number(u64),
    OtherNumber(String),
    Str(String),
    Array(Vec<JsonValue>),
    Object(Vec<(String, JsonValue)>),
}

/// What went wrong while decoding.
pub enum Problem {
    /// The `type` discriminator names no known resource kind.
    UnknownResourceType(String),
    /// A required field is absent.
    MissingField,
    /// A field holds a value of the wrong JSON shape.
    TypeMismatch,
    /// A URL field holds text that is not an absolute URL.
    MalformedUrl(String),
    /// A timestamp field holds text that is not an RFC 3339 timestamp.
    MalformedTimestamp(String),
    /// An enumerated field holds an unknown wire name.
    UnknownEnumValue(String),
}

/// A decode failure, with the path of fields (outermost first) that led to it.
pub struct DecodeError {
    pub path: Vec<String>,
    pub problem: Problem,
}

pub type Members = Vec<(String, JsonValue)>;

/// `i` is the first member of `m` whose key is `k`.
pub open spec fn first_at(m: Seq<(String, JsonValue)>, k: Seq<char>, i: int) -> bool {
    0 <= i < m.len() && m[i].0@ == k && forall|j: int| 0 <= j < i ==> m[j].0@ != k
}

/// The value of the first member of `m` keyed `k`, if any.
pub open spec fn lookup(m: Seq<(String, JsonValue)>, k: Seq<char>) -> Option<JsonValue> {
    if exists|i: int| first_at(m, k, i) {
        Some(m[choose|i: int| first_at(m, k, i)].1)
    } else {
        None
    }
}

/// A field that is absent or `null`.
pub open spec fn is_blank(v: Option<JsonValue>) -> bool {
    v is None || v == Some(JsonValue::Null)
}

pub open spec fn text_of(v: Option<JsonValue>) -> Option<Seq<char>> {
    match v {
        Some(JsonValue::Str(t)) => Some(t@),
        _ => None,
    }
}

/// An optional text field: absent or `null` reads as `Some(None)`, a string
/// as `Some(Some(text))`, anything else fails (`None`).
pub open spec fn opt_text_of(v: Option<JsonValue>) -> Option<Option<Seq<char>>> {
    match v {
        None => Some(None),
        Some(JsonValue::Null) => Some(None),
        Some(JsonValue::Str(t)) => Some(Some(t@)),
        _ => None,
    }
}

pub open spec fn u32_of(v: Option<JsonValue>) -> Option<u32> {
    match v {
        Some(JsonValue::Number(n)) => if n <= u32::MAX { Some(n as u32) } else { None },
        _ => None,
    }
}

pub open spec fn u8_of(v: JsonValue) -> Option<u8> {
    match v {
        JsonValue::Number(n) => if n <= u8::MAX { Some(n as u8) } else { None },
        _ => None,
    }
}

pub open spec fn bool_of(v: Option<JsonValue>) -> Option<bool> {
    match v {
        Some(JsonValue::Bool(b)) => Some(b),
        _ => None,
    }
}

pub open spec fn opt_view(o: Option<String>) -> Option<Seq<char>> {
    match o {
        Some(s) => Some(s@),
        None => None,
    }
}

/// A value that has a JSON wire form.
pub trait Record: Sized {
    /// `x` is what decoding `j` gives.
    spec fn decodes(j: JsonValue, x: Self) -> bool;

    /// Decodes `j`; fails exactly when no value can be read from it.
    fn decode(j: &JsonValue) -> (r: Result<Self, DecodeError>)
        ensures
            (r is Ok) <==> (exists|x: Self| Self::decodes(*j, x)),
            r matches Ok(x) ==> Self::decodes(*j, x),
    ;

    /// Writes the wire form, which decodes back to `self`.
    fn encode(&self) -> (r: JsonValue)
        ensures
            Self::decodes(r, *self),
            r != JsonValue::Null,
    ;
}

/// The field `k` of `m` decodes to `x`.
pub open spec fn field<T: Record>(m: Seq<(String, JsonValue)>, k: Seq<char>, x: T) -> bool {
    match lookup(m, k) {
        Some(v) => T::decodes(v, x),
        None => false,
    }
}

/// An optional field: absent or `null` reads as `None`.
pub open spec fn opt_field<T: Record>(m: Seq<(String, JsonValue)>, k: Seq<char>, x: Option<T>) -> bool {
    match x {
        None => is_blank(lookup(m, k)),
        Some(y) => !is_blank(lookup(m, k)) && field(m, k, y),
    }
}

pub proof fn lemma_lookup_first(m: Seq<(String, JsonValue)>, k: Seq<char>, i: int)
    requires
        first_at(m, k, i),
    ensures
        lookup(m, k) == Some(m[i].1),
{
    let c = choose|c: int| first_at(m, k, c);
    assert(c == i) by {
        if c < i {
        } else if c > i {
        }
    }
}

pub fn read_field<T: Record>(m: &Members, key: &str) -> (r: Result<T, DecodeError>)
    ensures
        (r is Ok) <==> (exists|x: T| field(m@, key@, x)),
        r matches Ok(x) ==> field(m@, key@, x),
{
    match member(m, key) {
        Some(v) => match T::decode(v) {
            Ok(x) => {
                assert(field(m@, key@, x));
                Ok(x)
            },
            Err(e) => {
                assert forall|x: T| !field(m@, key@, x) by {
                    assert(!T::decodes(*v, x));
                }
                Err(within(key, e))
            },
        },
        None => Err(error_at(key, Problem::MissingField)),
    }
}

pub fn read_opt_field<T: Record>(m: &Members, key: &str) -> (r: Result<Option<T>, DecodeError>)
    ensures
        (r is Ok) <==> (exists|x: Option<T>| opt_field(m@, key@, x)),
        r matches Ok(x) ==> opt_field(m@, key@, x),
{
    match member(m, key) {
        Some(JsonValue::Null) => {
            assert(opt_field(m@, key@, None::<T>));
            Ok(None)
        },
        Some(v) => match T::decode(v) {
            Ok(x) => {
                assert(opt_field(m@, key@, Some(x)));
                Ok(Some(x))
            },
            Err(e) => {
                assert forall|x: Option<T>| !opt_field(m@, key@, x) by {
                    match x {
                        Some(y) => assert(!T::decodes(*v, y)),
                        None => {},
                    }
                }
                Err(within(key, e))
            },
        },
        None => {
            assert(opt_field(m@, key@, None::<T>));
            Ok(None)
        },
    }
}

pub fn opt_encode<T: Record>(x: &Option<T>) -> (r: JsonValue)
    ensures
        match *x {
            None => r == JsonValue::Null,
            Some(y) => r != JsonValue::Null && T::decodes(r, y),
        },
{
    match x {
        None => JsonValue::Null,
        Some(y) => y.encode(),
    }
}

/// Appending a member keyed `key` leaves the lookup of every other key as it was.
pub proof fn lemma_lookup_push_other(m: Seq<(String, JsonValue)>, e: (String, JsonValue), k: Seq<char>)
    requires
        e.0@ != k,
    ensures
        lookup(m.push(e), k) == lookup(m, k),
{
    let n = m.push(e);
    assert forall|j: int| 0 <= j < m.len() implies n[j] == m[j] by {}
    if exists|c: int| first_at(m, k, c) {
        let c = choose|c: int| first_at(m, k, c);
        assert(first_at(n, k, c));
        lemma_lookup_first(n, k, c);
    } else {
        assert forall|c: int| !first_at(n, k, c) by {
            if first_at(n, k, c) {
                assert(c < m.len());
                assert(first_at(m, k, c));
            }
        }
    }
}

/// Where some member is keyed `k`, a first one is.
pub proof fn lemma_first_exists(m: Seq<(String, JsonValue)>, k: Seq<char>, j: int)
    requires
        0 <= j < m.len(),
        m[j].0@ == k,
    ensures
        exists|c: int| first_at(m, k, c),
    decreases j,
{
    if forall|d: int| 0 <= d < j ==> m[d].0@ != k {
        assert(first_at(m, k, j));
    } else {
        let d = choose|d: int| 0 <= d < j && m[d].0@ == k;
        lemma_first_exists(m, k, d);
    }
}

/// Removing a member keyed otherwise than `k` leaves the lookup of `k` as it was.
pub proof fn lemma_lookup_remove_other(m: Seq<(String, JsonValue)>, i: int, k: Seq<char>)
    requires
        0 <= i < m.len(),
        m[i].0@ != k,
    ensures
        lookup(m.remove(i), k) == lookup(m, k),
{
    let n = m.remove(i);
    assert forall|j: int| 0 <= j < i implies n[j] == m[j] by {}
    assert forall|j: int| i <= j < n.len() implies n[j] == m[j + 1] by {}
    if exists|c: int| first_at(m, k, c) {
        let c = choose|c: int| first_at(m, k, c);
        if c < i {
            assert(first_at(n, k, c));
            lemma_lookup_first(n, k, c);
        } else {
            assert(first_at(n, k, c - 1));
            lemma_lookup_first(n, k, c - 1);
        }
        lemma_lookup_first(m, k, c);
    } else {
        assert forall|c: int| !first_at(n, k, c) by {
            if first_at(n, k, c) {
                if c < i {
                    lemma_first_exists(m, k, c);
                } else {
                    lemma_first_exists(m, k, c + 1);
                }
            }
        }
    }
}

/// Takes the value of the first member keyed `key` out of `m`.
pub fn take(m: &mut Members, key: &str) -> (r: Option<JsonValue>)
    ensures
        r == lookup(old(m)@, key@),
        forall|k: Seq<char>| k != key@ ==> lookup(final(m)@, k) == lookup(old(m)@, k),
{
    match find(m, key) {
        Some(i) => {
            let ghost prev = m@;
            let (_, v) = m.remove(i);
            proof {
                assert forall|k: Seq<char>| k != key@ implies lookup(m@, k) == lookup(prev, k) by {
                    lemma_lookup_remove_other(prev, i as int, k);
                }
            }
            Some(v)
        },
        None => None,
    }
}

/// Puts the member `key: v` in front, where lookups find it first.
pub fn put_front(m: &mut Members, key: &str, v: JsonValue)
    ensures
        lookup(final(m)@, key@) == Some(v),
        forall|k: Seq<char>| k != key@ ==> lookup(final(m)@, k) == lookup(old(m)@, k),
{
    let ghost prev = m@;
    m.insert(0, (text(key), v));
    proof {
        assert(first_at(m@, key@, 0));
        lemma_lookup_first(m@, key@, 0);
        assert forall|k: Seq<char>| k != key@ implies lookup(m@, k) == lookup(prev, k) by {
            lemma_lookup_remove_other(m@, 0, k);
            assert(m@.remove(0) =~= prev);
        }
    }
}

/// Appends the member `key: v`.
pub fn put(m: &mut Members, key: &str, v: JsonValue)
    ensures
        final(m)@.len() == old(m)@.len() + 1,
        (forall|j: int| 0 <= j < old(m)@.len() ==> old(m)@[j].0@ != key@) ==> lookup(final(m)@, key@) == Some(v),
        forall|j: int| 0 <= j < old(m)@.len() ==> final(m)@[j] == old(m)@[j],
        final(m)@.last().0@ == key@,
        forall|k: Seq<char>| k != key@ ==> lookup(final(m)@, k) == lookup(old(m)@, k),
{
    let ghost prev = m@;
    let e = (text(key), v);
    m.push(e);
    proof {
        if forall|j: int| 0 <= j < prev.len() ==> prev[j].0@ != key@ {
            lemma_lookup_first(m@, key@, prev.len() as int);
        }
        assert forall|k: Seq<char>| k != key@ implies lookup(m@, k) == lookup(prev, k) by {
            lemma_lookup_push_other(prev, e, k);
        }
    }
}

/// The text of a string literal as an owned `String`.
pub fn text(s: &str) -> (r: String)
    ensures
        r@ == s@,
{
    s.to_owned()
}

pub fn error_at(key: &str, problem: Problem) -> (r: DecodeError)
    ensures
        r.problem == problem,
        r.path@.len() == 1,
        r.path@[0]@ == key@,
{
    let mut path: Vec<String> = Vec::new();
    path.push(text(key));
    DecodeError { path, problem }
}

/// Puts `key` in front of the path of `e`.
pub fn within(key: &str, e: DecodeError) -> (r: DecodeError)
    ensures
        r.problem == e.problem,
        r.path@.len() == e.path@.len() + 1,
{
    let mut e = e;
    e.path.insert(0, text(key));
    e
}

/// Index of the first member keyed `key`.
pub fn find(m: &Members, key: &str) -> (r: Option<usize>)
    ensures
        match r {
            Some(i) => first_at(m@, key@, i as int) && lookup(m@, key@) == Some(m@[i as int].1),
            None => lookup(m@, key@) is None,
        },
{
    let k = text(key);
    let mut i: usize = 0;
    while i < m.len()
        invariant
            0 <= i <= m@.len(),
            k@ == key@,
            forall|j: int| 0 <= j < i ==> m@[j].0@ != key@,
        decreases m@.len() - i,
    {
        if m[i].0 == k {
            assert(first_at(m@, key@, i as int));
            let ghost c = choose|c: int| first_at(m@, key@, c);
            assert(c == i) by {
                if c < i {
                } else if c > i {
                }
            }
            return Some(i);
        }
        i = i + 1;
    }
    assert(!exists|c: int| first_at(m@, key@, c));
    None
}

/// The member keyed `key`, if any.
pub fn member<'a>(m: &'a Members, key: &str) -> (r: Option<&'a JsonValue>)
    ensures
        match r {
            Some(v) => lookup(m@, key@) == Some(*v),
            None => lookup(m@, key@) is None,
        },
{
    match find(m, key) {
        Some(i) => Some(&m[i].1),
        None => None,
    }
}

pub fn read_text(m: &Members, key: &str) -> (r: Result<String, DecodeError>)
    ensures
        r is Ok <==> text_of(lookup(m@, key@)) is Some,
        r matches Ok(s) ==> text_of(lookup(m@, key@)) == Some(s@),
        r matches Err(e) ==> (lookup(m@, key@) is None <==> e.problem == Problem::MissingField),
{
    match member(m, key) {
        Some(JsonValue::Str(s)) => Ok(s.clone()),
        Some(_) => Err(error_at(key, Problem::TypeMismatch)),
        None => Err(error_at(key, Problem::MissingField)),
    }
}

pub fn read_opt_text(m: &Members, key: &str) -> (r: Result<Option<String>, DecodeError>)
    ensures
        r is Ok <==> opt_text_of(lookup(m@, key@)) is Some,
        r matches Ok(s) ==> opt_text_of(lookup(m@, key@)) == Some(opt_view(s)),
{
    match member(m, key) {
        Some(JsonValue::Str(s)) => Ok(Some(s.clone())),
        Some(JsonValue::Null) => Ok(None),
        Some(_) => Err(error_at(key, Problem::TypeMismatch)),
        None => Ok(None),
    }
}

pub fn read_u32(m: &Members, key: &str) -> (r: Result<u32, DecodeError>)
    ensures
        r is Ok <==> u32_of(lookup(m@, key@)) is Some,
        r matches Ok(n) ==> u32_of(lookup(m@, key@)) == Some(n),
{
    match member(m, key) {
        Some(JsonValue::Number(n)) => {
            if *n <= 0xffff_ffffu64 {
                Ok(*n as u32)
            } else {
                Err(error_at(key, Problem::TypeMismatch))
            }
        },
        Some(_) => Err(error_at(key, Problem::TypeMismatch)),
        None => Err(error_at(key, Problem::MissingField)),
    }
}

pub fn read_bool(m: &Members, key: &str) -> (r: Result<bool, DecodeError>)
    ensures
        r is Ok <==> bool_of(lookup(m@, key@)) is Some,
        r matches Ok(b) ==> bool_of(lookup(m@, key@)) == Some(b),
{
    match member(m, key) {
        Some(JsonValue::Bool(b)) => Ok(*b),
        Some(_) => Err(error_at(key, Problem::TypeMismatch)),
        None => Err(error_at(key, Problem::MissingField)),
    }
}

/// The members of the object under `key`.
pub fn read_object<'a>(m: &'a Members, key: &str) -> (r: Result<&'a Members, DecodeError>)
    ensures
        r is Ok <==> lookup(m@, key@) matches Some(JsonValue::Object(_)),
        r matches Ok(o) ==> lookup(m@, key@) == Some(JsonValue::Object(*o)),
{
    match member(m, key) {
        Some(JsonValue::Object(o)) => Ok(o),
        Some(_) => Err(error_at(key, Problem::TypeMismatch)),
        None => Err(error_at(key, Problem::MissingField)),
    }
}

pub fn string_value(s: &String) -> (r: JsonValue)
    ensures
        r matches JsonValue::Str(t) && t@ == s@,
{
    JsonValue::Str(s.clone())
}

pub fn opt_string_value(s: &Option<String>) -> (r: JsonValue)
    ensures
        opt_text_of(Some(r)) == Some(opt_view(*s)),
{
    match s {
        Some(t) => JsonValue::Str(t.clone()),
        None => JsonValue::Null,
    }
}

} // verus!
