//! Reading values out of JSON trees returned by the API.
//!
//! Issue fields arrive as raw JSON objects with no schema, so callers reach
//! into them by a path of keys. [`JsonValue`] models exactly what that
//! lookup distinguishes — strings and objects — and [`get_string_in_json`]
//! walks a path through such a tree.

use vstd::prelude::*;
use vstd::string::StrSliceExecFns;

verus! {

/// A JSON tree as the lookup logic reads it: a string, an object holding
/// its entries in document order, or any other JSON shape, which the lookup
/// never descends into.
#[derive(Debug)]
pub enum JsonValue {
    Text(String),
    Object(Vec<(String, JsonValue)>),
    Other,
}

/// The binding of `key` among `entries`: the value of the first entry whose
/// key matches. A JSON object binds each key once, so with unique keys this
/// is the binding.
pub open spec fn entries_lookup(entries: Seq<(String, JsonValue)>, key: Seq<char>) -> Option<
    JsonValue,
>
    decreases entries.len(),
{
    if entries.len() == 0 {
        None
    } else if entries.first().0@ == key {
        Some(entries.first().1)
    } else {
        entries_lookup(entries.drop_first(), key)
    }
}

impl JsonValue {
    /// The binding of `key` in this value, when it is an object that holds
    /// one.
    pub open spec fn spec_get(self, key: Seq<char>) -> Option<JsonValue> {
        match self {
            JsonValue::Object(entries) => entries_lookup(entries@, key),
            _ => None,
        }
    }

    /// Looks `key` up in this value; `None` when this is not an object or
    /// the key is unbound.
    pub fn get<'a>(&'a self, key: &str) -> (r: Option<&'a JsonValue>)
        ensures
            match r {
                Some(v) => self.spec_get(key@) == Some(*v),
                None => self.spec_get(key@) is None,
            },
    {
        match self {
            JsonValue::Object(entries) => entries_get(entries, key),
            _ => None,
        }
    }
}

/// Character-for-character string equality.
fn str_eq(a: &str, b: &str) -> (r: bool)
    ensures
        r == (a@ == b@),
{
    let na = a.unicode_len();
    let nb = b.unicode_len();
    if na != nb {
        return false;
    }
    let mut i: usize = 0;
    while i < na
        invariant
            i <= na,
            na == a@.len(),
            nb == b@.len(),
            na == nb,
            forall|j: int| 0 <= j < i ==> a@[j] == b@[j],
        decreases na - i,
    {
        if a.get_char(i) != b.get_char(i) {
            return false;
        }
        i = i + 1;
    }
    proof {
        assert(a@ =~= b@);
    }
    true
}

/// Looks `key` up among `entries`, returning the first matching binding.
pub(crate) fn entries_get<'a>(entries: &'a Vec<(String, JsonValue)>, key: &str) -> (r: Option<
    &'a JsonValue,
>)
    ensures
        match r {
            Some(v) => entries_lookup(entries@, key@) == Some(*v),
            None => entries_lookup(entries@, key@) is None,
        },
{
    let mut i: usize = 0;
    proof {
        assert(entries@.skip(0) =~= entries@);
    }
    while i < entries.len()
        invariant
            i <= entries@.len(),
            entries_lookup(entries@, key@) == entries_lookup(entries@.skip(i as int), key@),
        decreases entries@.len() - i,
    {
        if str_eq(entries[i].0.as_str(), key) {
            proof {
                assert(entries@.skip(i as int).first() == entries@[i as int]);
            }
            return Some(&entries[i].1);
        }
        proof {
            assert(entries@.skip(i as int).drop_first() =~= entries@.skip(i + 1));
        }
        i = i + 1;
    }
    proof {
        assert(entries@.skip(entries@.len() as int) =~= Seq::<(String, JsonValue)>::empty());
    }
    None
}

/// One step of a path lookup: descend into the binding of `key` when there
/// is one, and otherwise stay where you are.
pub open spec fn descend(v: JsonValue, key: Seq<char>) -> JsonValue {
    match v.spec_get(key) {
        Some(inner) => inner,
        None => v,
    }
}

/// The value reached from `v` by descending through each key of `path` in
/// turn.
pub open spec fn walk(v: JsonValue, path: Seq<Seq<char>>) -> JsonValue
    decreases path.len(),
{
    if path.len() == 0 {
        v
    } else {
        descend(walk(v, path.drop_last()), path.last())
    }
}

/// The string found in `v` at `path`: all keys but the last descend into
/// the tree, and the last must then be bound to a string. An empty path
/// names nothing.
pub open spec fn string_at_path(v: JsonValue, path: Seq<Seq<char>>) -> Option<Seq<char>> {
    if path.len() == 0 {
        None
    } else {
        match walk(v, path.drop_last()).spec_get(path.last()) {
            Some(JsonValue::Text(s)) => Some(s@),
            _ => None,
        }
    }
}

/// Gets a string out of a JSON tree at a given path.
///
/// A key that is unbound, or reached on something other than an object,
/// leaves the walk where it stands rather than failing it; only the final
/// key must land on a string.
pub fn get_string_in_json(value: &JsonValue, path: &Vec<&str>) -> (r: Option<String>)
    ensures
        r.deep_view() == string_at_path(*value, path.deep_view()),
{
    if path.len() == 0 {
        return None;
    }
    let mut current: &JsonValue = value;
    let mut i: usize = 0;
    while i < path.len() - 1
        invariant
            1 <= path@.len(),
            i <= path@.len() - 1,
            *current == walk(*value, path.deep_view().take(i as int)),
        decreases path@.len() - 1 - i,
    {
        match current.get(path[i]) {
            Some(inner) => {
                current = inner;
            },
            None => {},
        }
        proof {
            let dv = path.deep_view();
            assert(dv[i as int] == path@[i as int]@);
            assert(dv.take(i + 1).drop_last() =~= dv.take(i as int));
            assert(dv.take(i + 1).last() == dv[i as int]);
        }
        i = i + 1;
    }
    proof {
        let dv = path.deep_view();
        assert(dv.take(path@.len() - 1) =~= dv.drop_last());
        assert(dv[path@.len() - 1] == path@[path@.len() - 1]@);
    }
    match current.get(path[path.len() - 1]) {
        Some(inner) => match inner {
            JsonValue::Text(s) => Some(s.clone()),
            _ => None,
        },
        None => None,
    }
}

} // verus!
