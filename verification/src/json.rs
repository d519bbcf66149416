//! A JSON document model: the values that account files hold, with the
//! lookups the account logic makes and the `serde` conversions it relies on.
use crate::text::{chars_eq, chars_of, copy_str, i64_text, int_text};
use vstd::prelude::*;

verus! {

/// A JSON number: the text `serde_json` writes for it and the integer readings
/// `as_i64` and `as_u64` give (`None` where the number is not such an integer).
#[derive(Debug, Clone)]
pub struct JsonNumber {
    pub text: String,
    pub as_i64: Option<i64>,
    pub as_u64: Option<u64>,
}

/// A JSON value. An object keeps its entries in order.
#[derive(Debug)]
pub enum JsonValue {
    Null,
    Bool(bool),
    Number(JsonNumber),
    Str(String),
    Array(Vec<JsonValue>),
    Object(Vec<(String, JsonValue)>),
}

/// The mathematical model of a JSON value.
pub enum JsonView {
    Null,
    Bool(bool),
    Number(Seq<char>, Option<i64>, Option<u64>),
    Str(Seq<char>),
    Array(Seq<JsonView>),
    Object(Seq<(Seq<char>, JsonView)>),
}

pub open spec fn json_view(v: JsonValue) -> JsonView
    decreases v,
{
    match v {
        JsonValue::Null => JsonView::Null,
        JsonValue::Bool(b) => JsonView::Bool(b),
        JsonValue::Number(n) => JsonView::Number(n.text@, n.as_i64, n.as_u64),
        JsonValue::Str(s) => JsonView::Str(s@),
        JsonValue::Array(items) => JsonView::Array(
            Seq::new(
                items@.len(),
                |i: int|
                    if 0 <= i < items@.len() {
                        proof {
                            assert(decreases_to!(items => items@));
                            assert(decreases_to!(items@ => items@[i]));
                        }
                        json_view(items@[i])
                    } else {
                        JsonView::Null
                    },
            ),
        ),
        JsonValue::Object(entries) => JsonView::Object(
            Seq::new(
                entries@.len(),
                |i: int|
                    if 0 <= i < entries@.len() {
                        proof {
                            assert(decreases_to!(entries => entries@));
                            assert(decreases_to!(entries@ => entries@[i]));
                            assert(decreases_to!(entries@[i] => entries@[i].1));
                        }
                        (entries@[i].0@, json_view(entries@[i].1))
                    } else {
                        (Seq::empty(), JsonView::Null)
                    },
            ),
        ),
    }
}

impl View for JsonValue {
    type V = JsonView;

    open spec fn view(&self) -> JsonView {
        json_view(*self)
    }
}

/// The value of the first entry named `key`.
pub open spec fn entries_get(es: Seq<(Seq<char>, JsonView)>, key: Seq<char>) -> Option<JsonView>
    decreases es.len(),
{
    if es.len() == 0 {
        None
    } else if es[0].0 == key {
        Some(es[0].1)
    } else {
        entries_get(es.drop_first(), key)
    }
}

/// `Value::get(key)`: the member `key` of an object; `None` for any other value.
pub open spec fn obj_get(v: JsonView, key: Seq<char>) -> Option<JsonView> {
    match v {
        JsonView::Object(es) => entries_get(es, key),
        _ => None,
    }
}

/// `Value::as_u64`.
pub open spec fn item_u64(v: JsonView) -> Option<u64> {
    match v {
        JsonView::Number(_, _, u) => u,
        _ => None,
    }
}

/// `Value::as_i64`.
pub open spec fn item_i64(v: JsonView) -> Option<i64> {
    match v {
        JsonView::Number(_, i, _) => i,
        _ => None,
    }
}

/// `Value::as_bool`.
pub open spec fn item_bool(v: JsonView) -> Option<bool> {
    match v {
        JsonView::Bool(b) => Some(b),
        _ => None,
    }
}

/// `serde` reading a `String` out of a value: only a JSON string.
pub open spec fn de_string(v: JsonView) -> Option<Seq<char>> {
    match v {
        JsonView::Str(s) => Some(s),
        _ => None,
    }
}

/// `serde` reading an `Option<T>`: `null` is `None`; anything else is read
/// as a `T`, and failing that the whole read fails (outer `None`).
pub open spec fn de_opt_string(v: JsonView) -> Option<Option<Seq<char>>> {
    match v {
        JsonView::Null => Some(None),
        JsonView::Str(s) => Some(Some(s)),
        _ => None,
    }
}

pub open spec fn de_opt_i64(v: JsonView) -> Option<Option<i64>> {
    match v {
        JsonView::Null => Some(None),
        JsonView::Number(_, Some(i), _) => Some(Some(i)),
        _ => None,
    }
}

pub open spec fn de_opt_bool(v: JsonView) -> Option<Option<bool>> {
    match v {
        JsonView::Null => Some(None),
        JsonView::Bool(b) => Some(Some(b)),
        _ => None,
    }
}

/// `serde` reading an `i64`: an integer number that fits.
pub open spec fn de_i64(v: JsonView) -> Option<i64> {
    match v {
        JsonView::Number(_, Some(i), _) => Some(i),
        _ => None,
    }
}

/// `serde` reading an `i32`: an integer number that fits.
pub open spec fn de_i32(v: JsonView) -> Option<i32> {
    match v {
        JsonView::Number(_, Some(i), _) => if i32::MIN <= i <= i32::MAX {
            Some(i as i32)
        } else {
            None
        },
        _ => None,
    }
}

/// The entries with `key` set to `v`: the first entry named `key` takes the
/// new value in place; without one, the entry is appended.
pub open spec fn entries_set(es: Seq<(Seq<char>, JsonView)>, key: Seq<char>, v: JsonView) -> Seq<
    (Seq<char>, JsonView),
>
    decreases es.len(),
{
    if es.len() == 0 {
        seq![(key, v)]
    } else if es[0].0 == key {
        seq![(key, v)] + es.drop_first()
    } else {
        seq![es[0]] + entries_set(es.drop_first(), key, v)
    }
}

/// `value.as_object_mut().insert(key, v)`: an object gets member `key` set to
/// `v`; any other value stays as it is.
pub open spec fn object_set(value: JsonView, key: Seq<char>, v: JsonView) -> JsonView {
    match value {
        JsonView::Object(es) => JsonView::Object(entries_set(es, key, v)),
        _ => value,
    }
}

proof fn lemma_entries_set_at(es: Seq<(Seq<char>, JsonView)>, key: Seq<char>, v: JsonView, i: int)
    requires
        0 <= i <= es.len(),
        forall|k: int| 0 <= k < i ==> (#[trigger] es[k]).0 != key,
        i < es.len() ==> es[i].0 == key,
    ensures
        entries_set(es, key, v) == if i < es.len() {
            es.update(i, (key, v))
        } else {
            es.push((key, v))
        },
    decreases es.len(),
{
    if es.len() == 0 {
        assert(es.push((key, v)) =~= seq![(key, v)]);
    } else if es[0].0 == key {
        assert(i == 0);
        assert(seq![(key, v)] + es.drop_first() =~= es.update(0, (key, v)));
    } else {
        let t = es.drop_first();
        assert forall|k: int| 0 <= k < i - 1 implies (#[trigger] t[k]).0 != key by {
            assert(t[k] == es[k + 1]);
        }
        lemma_entries_set_at(t, key, v, i - 1);
        if i < es.len() {
            assert(seq![es[0]] + t.update(i - 1, (key, v)) =~= es.update(i, (key, v)));
        } else {
            assert(seq![es[0]] + t.push((key, v)) =~= es.push((key, v)));
        }
    }
}

impl JsonValue {
    /// `Value::get(key)`.
    pub fn get(&self, key: &str) -> (r: Option<&JsonValue>)
        ensures
            match r {
                Some(x) => obj_get(self@, key@) == Some(x@),
                None => obj_get(self@, key@) is None,
            },
    {
        match self {
            JsonValue::Object(entries) => {
                let k = chars_of(key);
                let mut i: usize = 0;
                let ghost es = match self@ {
                    JsonView::Object(es) => es,
                    _ => Seq::empty(),
                };
                assert(es.skip(0) =~= es);
                while i < entries.len()
                    invariant
                        self@ == JsonView::Object(es),
                        *self == JsonValue::Object(*entries),
                        es.len() == entries@.len(),
                        i <= entries@.len(),
                        k@ == key@,
                        entries_get(es, key@) == entries_get(es.skip(i as int), key@),
                    decreases entries@.len() - i,
                {
                    let ghost rest = es.skip(i as int);
                    assert(es[i as int] == (entries@[i as int].0@, json_view(entries@[i as int].1)));
                    assert(rest[0] == es[i as int]);
                    assert(rest.drop_first() =~= es.skip(i + 1));
                    let name = chars_of(entries[i].0.as_str());
                    if chars_eq(name.as_slice(), k.as_slice()) {
                        return Some(&entries[i].1);
                    }
                    i = i + 1;
                }
                None
            },
            _ => None,
        }
    }

    /// `Value::as_u64`.
    pub fn as_u64(&self) -> (r: Option<u64>)
        ensures
            r == item_u64(self@),
    {
        match self {
            JsonValue::Number(n) => n.as_u64,
            _ => None,
        }
    }

    /// `Value::as_i64`.
    pub fn as_i64(&self) -> (r: Option<i64>)
        ensures
            r == item_i64(self@),
    {
        match self {
            JsonValue::Number(n) => n.as_i64,
            _ => None,
        }
    }

    /// `Value::as_bool`.
    pub fn as_bool(&self) -> (r: Option<bool>)
        ensures
            r == item_bool(self@),
    {
        match self {
            JsonValue::Bool(b) => Some(*b),
            _ => None,
        }
    }

    /// A JSON string holding `s`.
    pub fn string(s: &str) -> (r: JsonValue)
        ensures
            r@ == JsonView::Str(s@),
    {
        JsonValue::Str(copy_str(s))
    }

    /// The JSON number `n`, as `json!(n)` makes it.
    pub fn integer(n: i64) -> (r: JsonValue)
        ensures
            r@ == JsonView::Number(
                int_text(n as int),
                Some(n),
                if n >= 0 {
                    Some(n as u64)
                } else {
                    None
                },
            ),
    {
        let t = i64_text(n);
        let text = crate::text::string_of(t.as_slice());
        let u = if n >= 0 {
            Some(n as u64)
        } else {
            None
        };
        JsonValue::Number(JsonNumber { text, as_i64: Some(n), as_u64: u })
    }

    /// Set member `key` of an object to `v` (`as_object_mut` then `insert`);
    /// any other value is left as it is.
    pub fn set_member(&mut self, key: &str, v: JsonValue)
        ensures
            final(self)@ == object_set(old(self)@, key@, v@),
    {
        match self {
            JsonValue::Object(entries) => {
                let k = chars_of(key);
                let ghost es = old(self)@->Object_0;
                let mut i: usize = 0;
                let mut found = false;
                while i < entries.len() && !found
                    invariant
                        i <= entries@.len(),
                        k@ == key@,
                        es == Seq::new(entries@.len(), |j: int| (entries@[j].0@, entries@[j].1@)),
                        forall|m: int| 0 <= m < i ==> (#[trigger] es[m]).0 != key@,
                        found ==> i < entries@.len() && es[i as int].0 == key@,
                    decreases entries@.len() - i, if found { 0int } else { 1int },
                {
                    let name = chars_of(entries[i].0.as_str());
                    if chars_eq(name.as_slice(), k.as_slice()) {
                        found = true;
                    } else {
                        i = i + 1;
                    }
                }
                proof {
                    lemma_entries_set_at(es, key@, v@, i as int);
                }
                if i < entries.len() {
                    entries.set(i, (copy_str(key), v));
                } else {
                    entries.push((copy_str(key), v));
                }
                assert(self@->Object_0 =~= entries_set(es, key@, v@));
            },
            _ => {},
        }
    }

    /// A copy of this value.
    pub fn copy(&self) -> (r: JsonValue)
        ensures
            r@ == self@,
        decreases self,
    {
        match self {
            JsonValue::Null => JsonValue::Null,
            JsonValue::Bool(b) => JsonValue::Bool(*b),
            JsonValue::Number(n) => JsonValue::Number(
                JsonNumber { text: n.text.clone(), as_i64: n.as_i64, as_u64: n.as_u64 },
            ),
            JsonValue::Str(s) => JsonValue::Str(s.clone()),
            JsonValue::Array(items) => {
                let mut out: Vec<JsonValue> = Vec::new();
                let mut i: usize = 0;
                while i < items.len()
                    invariant
                        *self == JsonValue::Array(*items),
                        i <= items@.len(),
                        out@.len() == i,
                        forall|k: int|
                            0 <= k < i ==> json_view(#[trigger] out@[k]) == json_view(items@[k]),
                    decreases items@.len() - i,
                {
                    proof {
                        assert(decreases_to!(*self => (*self)->Array_0));
                        assert(decreases_to!(*items => items@));
                        assert(decreases_to!(items@ => items@[i as int]));
                    }
                    let c = items[i].copy();
                    out.push(c);
                    i = i + 1;
                }
                let r = JsonValue::Array(out);
                assert(json_view(r)->Array_0 =~= json_view(*self)->Array_0);
                r
            },
            JsonValue::Object(entries) => {
                let mut out: Vec<(String, JsonValue)> = Vec::new();
                let mut i: usize = 0;
                while i < entries.len()
                    invariant
                        *self == JsonValue::Object(*entries),
                        i <= entries@.len(),
                        out@.len() == i,
                        forall|k: int|
                            0 <= k < i ==> (#[trigger] out@[k]).0@ == entries@[k].0@ && json_view(
                                out@[k].1,
                            ) == json_view(entries@[k].1),
                    decreases entries@.len() - i,
                {
                    proof {
                        assert(decreases_to!(*self => (*self)->Object_0));
                        assert(decreases_to!(*entries => entries@));
                        assert(decreases_to!(entries@ => entries@[i as int]));
                        assert(decreases_to!(entries@[i as int] => entries@[i as int].1));
                    }
                    let c = entries[i].1.copy();
                    let k = entries[i].0.clone();
                    out.push((k, c));
                    i = i + 1;
                }
                let r = JsonValue::Object(out);
                assert(json_view(r)->Object_0 =~= json_view(*self)->Object_0);
                r
            },
        }
    }
}

} // verus!
