//! JSON values as the bridge exchanges them with the Codex app-server, and
//! the lookups the protocol logic makes in them.
use vstd::prelude::*;

use crate::text::str_of;

verus! {

/// A JSON value. A number keeps the text it was written with.
#[derive(Debug)]
pub enum Json {
    Null,
    Bool(bool),
    Number(String),
    Str(String),
    Array(Vec<Json>),
    Object(Vec<(String, Json)>),
}

/// The mathematical content of a JSON value.
pub enum JsonView {
    Null,
    Bool(bool),
    Number(Seq<char>),
    Str(Seq<char>),
    Array(Seq<JsonView>),
    Object(Seq<(Seq<char>, JsonView)>),
}

impl Json {
    pub open spec fn view_of(self) -> JsonView
        decreases self,
    {
        match self {
            Json::Null => JsonView::Null,
            Json::Bool(b) => JsonView::Bool(b),
            Json::Number(n) => JsonView::Number(n@),
            Json::Str(s) => JsonView::Str(s@),
            Json::Array(items) => JsonView::Array(
                Seq::new(
                    items@.len(),
                    |i: int|
                        if 0 <= i < items@.len() {
                            items@[i].view_of()
                        } else {
                            JsonView::Null
                        },
                ),
            ),
            Json::Object(entries) => JsonView::Object(
                Seq::new(
                    entries@.len(),
                    |i: int|
                        if 0 <= i < entries@.len() {
                            (entries@[i].0@, entries@[i].1.view_of())
                        } else {
                            (Seq::<char>::empty(), JsonView::Null)
                        },
                ),
            ),
        }
    }
}

impl View for Json {
    type V = JsonView;

    open spec fn view(&self) -> JsonView {
        self.view_of()
    }
}

pub open spec fn opt_json_view(o: Option<&Json>) -> Option<JsonView> {
    match o {
        Some(j) => Some(j@),
        None => None,
    }
}

/// The value of the first entry named `key`.
pub open spec fn entry_lookup(entries: Seq<(Seq<char>, JsonView)>, key: Seq<char>) -> Option<JsonView>
    decreases entries.len(),
{
    if entries.len() == 0 {
        None
    } else if entries[0].0 == key {
        Some(entries[0].1)
    } else {
        entry_lookup(entries.drop_first(), key)
    }
}

/// `value[key]` for an object, nothing for anything else.
pub open spec fn jget(v: JsonView, key: Seq<char>) -> Option<JsonView> {
    match v {
        JsonView::Object(entries) => entry_lookup(entries, key),
        _ => None,
    }
}

pub open spec fn jstr(v: Option<JsonView>) -> Option<Seq<char>> {
    match v {
        Some(JsonView::Str(s)) => Some(s),
        _ => None,
    }
}

pub open spec fn jbool(v: Option<JsonView>) -> Option<bool> {
    match v {
        Some(JsonView::Bool(b)) => Some(b),
        _ => None,
    }
}

pub open spec fn jarray(v: Option<JsonView>) -> Option<Seq<JsonView>> {
    match v {
        Some(JsonView::Array(items)) => Some(items),
        _ => None,
    }
}

/// The string under `key`.
pub open spec fn jget_str(v: JsonView, key: Seq<char>) -> Option<Seq<char>> {
    jstr(jget(v, key))
}

impl Json {
    /// `value.get(key)`.
    pub fn get(&self, key: &str) -> (r: Option<&Json>)
        ensures
            opt_json_view(r) == jget(self@, key@),
    {
        match self {
            Json::Object(entries) => {
                let ghost es = self@->Object_0;
                assert(es.len() == entries@.len());
                assert(es.skip(0) =~= es);
                let mut i: usize = 0;
                while i < entries.len()
                    invariant
                        i <= entries.len(),
                        es == self@->Object_0,
                        *self == Json::Object(*entries),
                        es.len() == entries@.len(),
                        entry_lookup(es, key@) == entry_lookup(es.skip(i as int), key@),
                    decreases entries.len() - i,
                {
                    assert(es.skip(i as int)[0] == es[i as int]);
                    assert(es[i as int] == (entries@[i as int].0@, entries@[i as int].1@));
                    assert(es.skip(i as int).drop_first() =~= es.skip(i + 1));
                    if crate::text::string_eq(entries[i].0.as_str(), key) {
                        return Some(&entries[i].1);
                    }
                    i = i + 1;
                }
                assert(es.skip(entries.len() as int) =~= Seq::<(Seq<char>, JsonView)>::empty());
                None
            },
            _ => None,
        }
    }

    pub fn as_str(&self) -> (r: Option<&String>)
        ensures
            match r {
                Some(s) => self@ == JsonView::Str(s@),
                None => !(self@ is Str),
            },
    {
        match self {
            Json::Str(s) => Some(s),
            _ => None,
        }
    }

    pub fn as_bool(&self) -> (r: Option<bool>)
        ensures
            r == match self@ {
                JsonView::Bool(b) => Some(b),
                _ => None,
            },
    {
        match self {
            Json::Bool(b) => Some(*b),
            _ => None,
        }
    }

    pub fn as_array(&self) -> (r: Option<&Vec<Json>>)
        ensures
            match r {
                Some(items) => self@ is Array && self@->Array_0.len() == items@.len() && (forall|
                    i: int,
                | 0 <= i < items@.len() ==> #[trigger] self@->Array_0[i] == items@[i]@),
                None => !(self@ is Array),
            },
    {
        match self {
            Json::Array(items) => Some(items),
            _ => None,
        }
    }

    /// The string under `key`, if there is one.
    pub fn get_str(&self, key: &str) -> (r: Option<&String>)
        ensures
            match r {
                Some(s) => jget_str(self@, key@) == Some(s@),
                None => jget_str(self@, key@) is None,
            },
    {
        match self.get(key) {
            Some(v) => v.as_str(),
            None => None,
        }
    }

    /// The boolean under `key`, if there is one.
    pub fn get_bool(&self, key: &str) -> (r: Option<bool>)
        ensures
            r == jbool(jget(self@, key@)),
    {
        match self.get(key) {
            Some(v) => v.as_bool(),
            None => None,
        }
    }

    /// The array under `key`, if there is one.
    pub fn get_array(&self, key: &str) -> (r: Option<&Vec<Json>>)
        ensures
            match r {
                Some(items) => jarray(jget(self@, key@)) matches Some(s) && s.len() == items@.len()
                    && (forall|i: int| 0 <= i < items@.len() ==> #[trigger] s[i] == items@[i]@),
                None => jarray(jget(self@, key@)) is None,
            },
    {
        match self.get(key) {
            Some(v) => v.as_array(),
            None => None,
        }
    }

    /// A copy of the value.
    pub fn deep_clone(&self) -> (r: Json)
        ensures
            r@ == self@,
        decreases self,
    {
        match self {
            Json::Null => Json::Null,
            Json::Bool(b) => Json::Bool(*b),
            Json::Number(n) => Json::Number(n.clone()),
            Json::Str(s) => Json::Str(s.clone()),
            Json::Array(items) => {
                let mut out: Vec<Json> = Vec::new();
                let mut i: usize = 0;
                while i < items.len()
                    invariant
                        i <= items.len(),
                        *self == Json::Array(*items),
                        out@.len() == i,
                        forall|k: int| 0 <= k < i ==> #[trigger] out@[k]@ == items@[k]@,
                    decreases items.len() - i,
                {
                    assert(decreases_to!(*self => self->Array_0));
                    assert(decreases_to!(self->Array_0 => (self->Array_0)@));
                    assert(decreases_to!((self->Array_0)@ => (self->Array_0)@[i as int]));
                    out.push(items[i].deep_clone());
                    i = i + 1;
                }
                let r = Json::Array(out);
                assert forall|k: int| 0 <= k < items@.len() implies #[trigger] (r@->Array_0)[k]
                    == (self@->Array_0)[k] by {
                    assert(out@[k]@ == items@[k]@);
                }
                assert(r@->Array_0 =~= self@->Array_0);
                r
            },
            Json::Object(entries) => {
                let mut out: Vec<(String, Json)> = Vec::new();
                let mut i: usize = 0;
                while i < entries.len()
                    invariant
                        i <= entries.len(),
                        *self == Json::Object(*entries),
                        out@.len() == i,
                        forall|k: int|
                            0 <= k < i ==> #[trigger] out@[k].0@ == entries@[k].0@ && out@[k].1@
                                == entries@[k].1@,
                    decreases entries.len() - i,
                {
                    assert(decreases_to!(*self => self->Object_0));
                    assert(decreases_to!(self->Object_0 => (self->Object_0)@));
                    assert(decreases_to!((self->Object_0)@ => (self->Object_0)@[i as int]));
                    assert(decreases_to!((self->Object_0)@[i as int] => (self->Object_0)@[i as int].1));
                    let v = entries[i].1.deep_clone();
                    out.push((entries[i].0.clone(), v));
                    i = i + 1;
                }
                let r = Json::Object(out);
                assert(r@->Object_0 =~= self@->Object_0);
                r
            },
        }
    }
}

/// A JSON string.
pub fn jstring(s: &str) -> (r: Json)
    ensures
        r@ == JsonView::Str(s@),
{
    Json::Str(str_of(s))
}

/// An entry `key: value`.
pub fn entry(key: &str, value: Json) -> (r: (String, Json))
    ensures
        r.0@ == key@,
        r.1@ == value@,
{
    (str_of(key), value)
}

/// `{k1: v1}`.
pub fn object1(k1: &str, v1: Json) -> (r: Json)
    ensures
        r@ == JsonView::Object(seq![(k1@, v1@)]),
{
    let entries = vec![(str_of(k1), v1)];
    let r = Json::Object(entries);
    assert(r@->Object_0 =~= seq![(k1@, entries@[0].1@)]);
    r
}

/// `{k1: v1, k2: v2}`.
pub fn object2(k1: &str, v1: Json, k2: &str, v2: Json) -> (r: Json)
    ensures
        r@ == JsonView::Object(seq![(k1@, v1@), (k2@, v2@)]),
{
    let entries = vec![(str_of(k1), v1), (str_of(k2), v2)];
    let r = Json::Object(entries);
    assert(r@->Object_0 =~= seq![(k1@, entries@[0].1@), (k2@, entries@[1].1@)]);
    r
}

/// `{k1: v1, k2: v2, k3: v3}`.
pub fn object3(k1: &str, v1: Json, k2: &str, v2: Json, k3: &str, v3: Json) -> (r: Json)
    ensures
        r@ == JsonView::Object(seq![(k1@, v1@), (k2@, v2@), (k3@, v3@)]),
{
    let entries = vec![(str_of(k1), v1), (str_of(k2), v2), (str_of(k3), v3)];
    let r = Json::Object(entries);
    assert(r@->Object_0 =~= seq![
        (k1@, entries@[0].1@),
        (k2@, entries@[1].1@),
        (k3@, entries@[2].1@),
    ]);
    r
}

/// `[v1]`.
pub fn array1(v1: Json) -> (r: Json)
    ensures
        r@ == JsonView::Array(seq![v1@]),
{
    let items = vec![v1];
    let r = Json::Array(items);
    assert(r@->Array_0 =~= seq![items@[0]@]);
    r
}

/// `{}`.
pub fn empty_object() -> (r: Json)
    ensures
        r@ == JsonView::Object(Seq::empty()),
{
    let r = Json::Object(Vec::new());
    assert(r@->Object_0 =~= Seq::<(Seq<char>, JsonView)>::empty());
    r
}

pub open spec fn str_items(v: Seq<Seq<char>>) -> Seq<JsonView> {
    v.map_values(|x: Seq<char>| JsonView::Str(x))
}

/// An array of strings.
pub fn string_array(v: &Vec<String>) -> (r: Json)
    ensures
        r@ == JsonView::Array(str_items(crate::text::str_views(v@))),
{
    let mut items: Vec<Json> = Vec::new();
    let mut i: usize = 0;
    while i < v.len()
        invariant
            i <= v.len(),
            items@.len() == i,
            forall|k: int| 0 <= k < i ==> #[trigger] items@[k]@ == JsonView::Str(v@[k]@),
        decreases v.len() - i,
    {
        items.push(Json::Str(v[i].clone()));
        i = i + 1;
    }
    let r = Json::Array(items);
    assert forall|k: int| 0 <= k < v@.len() implies #[trigger] (r@->Array_0)[k] == str_items(
        crate::text::str_views(v@),
    )[k] by {
        assert(items@[k]@ == JsonView::Str(v@[k]@));
        assert(crate::text::str_views(v@)[k] == v@[k]@);
    }
    assert(r@->Array_0 =~= str_items(crate::text::str_views(v@)));
    r
}

pub open spec fn entries_view(v: Seq<(String, Json)>) -> Seq<(Seq<char>, JsonView)> {
    v.map_values(|e: (String, Json)| (e.0@, e.1@))
}

/// An object with the given entries.
pub fn object_of(entries: Vec<(String, Json)>) -> (r: Json)
    ensures
        r@ == JsonView::Object(entries_view(entries@)),
{
    let r = Json::Object(entries);
    assert(r@->Object_0 =~= entries_view(entries@));
    r
}

/// An array with the given items.
pub fn array_of(items: Vec<Json>) -> (r: Json)
    ensures
        r@ == JsonView::Array(items@.map_values(|j: Json| j@)),
{
    let r = Json::Array(items);
    assert(r@->Array_0 =~= items@.map_values(|j: Json| j@));
    r
}

/// `[]`.
pub fn empty_array() -> (r: Json)
    ensures
        r@ == JsonView::Array(Seq::empty()),
{
    let r = Json::Array(Vec::new());
    assert(r@->Array_0 =~= Seq::<JsonView>::empty());
    r
}

} // verus!
