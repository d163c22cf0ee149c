//! The JSON documents the providers exchange, as plain library values.
use vstd::prelude::*;
use crate::numbers::{parse_i64, parse_u64, parse_i64_str, parse_u64_str, int_text, nat_text, i64_to_text, u64_to_text};
use crate::text::str_eq;

verus! {

/// A JSON value. A number keeps the text that `serde_json` prints for it
/// (digits with an optional `-` for integers; a `.` or exponent for others);
/// an object keeps its members in order, each key once.
#[derive(Debug)]
pub enum JsonValue {
    Null,
    Bool(bool),
    Number(String),
    Str(String),
    Array(Vec<JsonValue>),
    Object(Vec<(String, JsonValue)>),
}

/// What a scalar member reads as, for the configuration pickers.
pub enum Scalar {
    Null,
    Bool(bool),
    Num(Seq<char>),
    Text(Seq<char>),
    Compound,
}

pub open spec fn scalar_of(v: JsonValue) -> Scalar {
    match v {
        JsonValue::Null => Scalar::Null,
        JsonValue::Bool(b) => Scalar::Bool(b),
        JsonValue::Number(t) => Scalar::Num(t@),
        JsonValue::Str(s) => Scalar::Text(s@),
        _ => Scalar::Compound,
    }
}

/// The first member with the given key.
pub open spec fn entry_lookup(entries: Seq<(String, JsonValue)>, key: Seq<char>) -> Option<JsonValue>
    decreases entries.len(),
{
    if entries.len() == 0 {
        None
    } else if entries[0].0@ == key {
        Some(entries[0].1)
    } else {
        entry_lookup(entries.drop_first(), key)
    }
}

/// `Value::get` with a key: the member of an object, `None` for other values.
pub open spec fn json_get(v: JsonValue, key: Seq<char>) -> Option<JsonValue> {
    match v {
        JsonValue::Object(entries) => entry_lookup(entries@, key),
        _ => None,
    }
}

pub open spec fn json_as_str(v: JsonValue) -> Option<Seq<char>> {
    match v {
        JsonValue::Str(s) => Some(s@),
        _ => None,
    }
}

/// `Value::as_i64`.
pub open spec fn json_as_i64(v: JsonValue) -> Option<i64> {
    match v {
        JsonValue::Number(t) => parse_i64(t@),
        _ => None,
    }
}

/// `Value::as_u64`.
pub open spec fn json_as_u64(v: JsonValue) -> Option<u64> {
    match v {
        JsonValue::Number(t) => parse_u64(t@),
        _ => None,
    }
}

pub open spec fn json_as_bool(v: JsonValue) -> Option<bool> {
    match v {
        JsonValue::Bool(b) => Some(b),
        _ => None,
    }
}

pub open spec fn json_get_str(v: JsonValue, key: Seq<char>) -> Option<Seq<char>> {
    match json_get(v, key) {
        Some(x) => json_as_str(x),
        None => None,
    }
}

impl JsonValue {
    /// `Value::get` with a key.
    pub fn get(&self, key: &str) -> (r: Option<&JsonValue>)
        ensures
            match r {
                Some(x) => json_get(*self, key@) == Some(*x),
                None => json_get(*self, key@) is None,
            },
    {
        match self {
            JsonValue::Object(entries) => {
                let mut i: usize = 0;
                proof {
                    assert(entries@.skip(0) =~= entries@);
                }
                while i < entries.len()
                    invariant
                        i <= entries@.len(),
                        entry_lookup(entries@, key@) == entry_lookup(entries@.skip(i as int), key@),
                        json_get(*self, key@) == entry_lookup(entries@, key@),
                    decreases entries@.len() - i,
                {
                    proof {
                        let rest = entries@.skip(i as int);
                        assert(rest[0] == entries@[i as int]);
                        assert(rest.drop_first() =~= entries@.skip(i + 1));
                    }
                    if str_eq(entries[i].0.as_str(), key) {
                        proof {
                            let rest = entries@.skip(i as int);
                            assert(rest[0] == entries@[i as int]);
                            assert(rest[0].0@ == key@);
                            assert(entry_lookup(rest, key@) == Some(rest[0].1));
                            assert(json_get(*self, key@) == entry_lookup(entries@, key@));
                        }
                        return Some(&entries[i].1);
                    }
                    i = i + 1;
                }
                None
            },
            _ => None,
        }
    }

    pub fn as_str(&self) -> (r: Option<&str>)
        ensures
            match r {
                Some(s) => json_as_str(*self) == Some(s@),
                None => json_as_str(*self) is None,
            },
    {
        match self {
            JsonValue::Str(s) => Some(s.as_str()),
            _ => None,
        }
    }

    pub fn as_i64(&self) -> (r: Option<i64>)
        ensures
            r == json_as_i64(*self),
    {
        match self {
            JsonValue::Number(t) => parse_i64_str(t.as_str()),
            _ => None,
        }
    }

    pub fn as_u64(&self) -> (r: Option<u64>)
        ensures
            r == json_as_u64(*self),
    {
        match self {
            JsonValue::Number(t) => parse_u64_str(t.as_str()),
            _ => None,
        }
    }

    pub fn as_bool(&self) -> (r: Option<bool>)
        ensures
            r == json_as_bool(*self),
    {
        match self {
            JsonValue::Bool(b) => Some(*b),
            _ => None,
        }
    }

    pub fn is_null(&self) -> (r: bool)
        ensures
            r == (*self is Null),
    {
        match self {
            JsonValue::Null => true,
            _ => false,
        }
    }
}

/// The shape of a JSON value, as the contracts state documents.
pub enum Jv {
    Null,
    Bool(bool),
    Num(Seq<char>),
    Str(Seq<char>),
    Arr(Seq<Jv>),
    Obj(Seq<(Seq<char>, Jv)>),
}

pub open spec fn jv(v: JsonValue) -> Jv
    decreases v,
{
    match v {
        JsonValue::Null => Jv::Null,
        JsonValue::Bool(b) => Jv::Bool(b),
        JsonValue::Number(t) => Jv::Num(t@),
        JsonValue::Str(s) => Jv::Str(s@),
        JsonValue::Array(a) => Jv::Arr(jv_items(a@)),
        JsonValue::Object(e) => Jv::Obj(jv_entries(e@)),
    }
}

pub open spec fn jv_items(s: Seq<JsonValue>) -> Seq<Jv>
    decreases s,
{
    if s.len() == 0 {
        seq![]
    } else {
        jv_items(s.drop_last()).push(jv(s.last()))
    }
}

pub open spec fn jv_entries(s: Seq<(String, JsonValue)>) -> Seq<(Seq<char>, Jv)>
    decreases s,
{
    if s.len() == 0 {
        seq![]
    } else {
        jv_entries(s.drop_last()).push((s.last().0@, jv(s.last().1)))
    }
}

/// An integer as a JSON number.
pub open spec fn jnum(n: int) -> Jv {
    Jv::Num(int_text(n))
}

pub open spec fn jopt_int(o: Option<i64>) -> Jv {
    match o {
        Some(v) => jnum(v as int),
        None => Jv::Null,
    }
}

pub open spec fn jopt_text(o: Option<Seq<char>>) -> Jv {
    match o {
        Some(t) => Jv::Str(t),
        None => Jv::Null,
    }
}

pub fn j_str(s: &str) -> (r: JsonValue)
    ensures
        jv(r) == Jv::Str(s@),
{
    JsonValue::Str(String::from_str(s))
}

pub fn j_i64(n: i64) -> (r: JsonValue)
    ensures
        jv(r) == jnum(n as int),
{
    JsonValue::Number(i64_to_text(n))
}

pub fn j_u64(n: u64) -> (r: JsonValue)
    ensures
        jv(r) == jnum(n as int),
{
    JsonValue::Number(u64_to_text(n))
}

pub fn j_opt_i64(o: Option<i64>) -> (r: JsonValue)
    ensures
        jv(r) == jopt_int(o),
{
    match o {
        Some(v) => j_i64(v),
        None => JsonValue::Null,
    }
}

pub fn j_opt_str(o: Option<&str>) -> (r: JsonValue)
    ensures
        jv(r) == jopt_text(match o { Some(s) => Some(s@), None => None }),
{
    match o {
        Some(s) => j_str(s),
        None => JsonValue::Null,
    }
}

/// Appends a member to an object under construction.
pub fn put(entries: &mut Vec<(String, JsonValue)>, key: &str, v: JsonValue)
    ensures
        jv_entries(final(entries)@) == jv_entries(old(entries)@).push((key@, jv(v))),
{
    let ghost before = entries@;
    entries.push((String::from_str(key), v));
    proof {
        assert(entries@.drop_last() =~= before);
    }
}

/// Appends an element to an array under construction.
pub fn push_item(items: &mut Vec<JsonValue>, v: JsonValue)
    ensures
        jv_items(final(items)@) == jv_items(old(items)@).push(jv(v)),
{
    let ghost before = items@;
    items.push(v);
    proof {
        assert(items@.drop_last() =~= before);
    }
}

pub fn j_object(entries: Vec<(String, JsonValue)>) -> (r: JsonValue)
    ensures
        jv(r) == Jv::Obj(jv_entries(entries@)),
{
    JsonValue::Object(entries)
}

pub fn j_array(items: Vec<JsonValue>) -> (r: JsonValue)
    ensures
        jv(r) == Jv::Arr(jv_items(items@)),
{
    JsonValue::Array(items)
}


/// The member under `key`, moved out of the value (`Value::get` followed by
/// a clone, without the copy).
pub fn take_member(v: JsonValue, key: &str) -> (r: Option<JsonValue>)
    ensures
        r == json_get(v, key@),
{
    match v {
        JsonValue::Object(mut entries) => {
            let ghost orig = entries@;
            let ghost whole = json_get(v, key@);
            assert(whole == entry_lookup(orig, key@));
            let mut i: usize = 0;
            proof {
                assert(entries@.skip(0) =~= entries@);
            }
            while i < entries.len()
                invariant
                    i <= entries@.len(),
                    entries@ == orig,
                    whole == entry_lookup(orig, key@),
                    whole == json_get(v, key@),
                    entry_lookup(orig, key@) == entry_lookup(orig.skip(i as int), key@),
                decreases entries@.len() - i,
            {
                proof {
                    let rest = orig.skip(i as int);
                    assert(rest[0] == orig[i as int]);
                    assert(rest.drop_first() =~= orig.skip(i + 1));
                }
                if str_eq(entries[i].0.as_str(), key) {
                    let (_, member) = entries.remove(i);
                    proof {
                        let rest = orig.skip(i as int);
                        assert(rest[0] == orig[i as int]);
                        assert(entry_lookup(rest, key@) == Some(rest[0].1));
                        assert(member == orig[i as int].1);
                    }
                    return Some(member);
                }
                i = i + 1;
            }
            proof {
                assert(orig.skip(i as int) =~= Seq::<(String, JsonValue)>::empty());
            }
            None
        },
        _ => None,
    }
}

impl JsonValue {
    /// A copy of the value.
    pub fn duplicate(&self) -> (r: JsonValue)
        ensures
            jv(r) == jv(*self),
        decreases self,
    {
        match self {
            JsonValue::Null => JsonValue::Null,
            JsonValue::Bool(b) => JsonValue::Bool(*b),
            JsonValue::Number(t) => JsonValue::Number(t.clone()),
            JsonValue::Str(s) => JsonValue::Str(s.clone()),
            JsonValue::Array(items) => {
                let mut out: Vec<JsonValue> = Vec::new();
                let mut i: usize = 0;
                while i < items.len()
                    invariant
                        i <= items@.len(),
                        *self == JsonValue::Array(*items),
                        jv_items(out@) == jv_items(items@.take(i as int)),
                    decreases items@.len() - i,
                {
                    proof {
                        assert(decreases_to!(*self => (*self)->Array_0));
                        assert((*self)->Array_0 == *items);
                        assert(decreases_to!(*items => items@));
                        assert(decreases_to!(items@ => items@[i as int]));
                    }
                    let c = items[i].duplicate();
                    push_item(&mut out, c);
                    proof {
                        let t = items@.take(i + 1);
                        assert(t.drop_last() =~= items@.take(i as int));
                        assert(t.last() == items@[i as int]);
                    }
                    i = i + 1;
                }
                proof {
                    assert(items@.take(i as int) =~= items@);
                }
                JsonValue::Array(out)
            },
            JsonValue::Object(entries) => {
                let mut out: Vec<(String, JsonValue)> = Vec::new();
                let mut i: usize = 0;
                while i < entries.len()
                    invariant
                        i <= entries@.len(),
                        *self == JsonValue::Object(*entries),
                        jv_entries(out@) == jv_entries(entries@.take(i as int)),
                    decreases entries@.len() - i,
                {
                    proof {
                        assert(decreases_to!(*self => (*self)->Object_0));
                        assert((*self)->Object_0 == *entries);
                        assert(decreases_to!(*entries => entries@));
                        assert(decreases_to!(entries@ => entries@[i as int]));
                        assert(decreases_to!(entries@[i as int] => entries@[i as int].1));
                    }
                    let c = entries[i].1.duplicate();
                    put(&mut out, entries[i].0.as_str(), c);
                    proof {
                        let t = entries@.take(i + 1);
                        assert(t.drop_last() =~= entries@.take(i as int));
                        assert(t.last() == entries@[i as int]);
                    }
                    i = i + 1;
                }
                proof {
                    assert(entries@.take(i as int) =~= entries@);
                }
                JsonValue::Object(out)
            },
        }
    }
}

} // verus!
