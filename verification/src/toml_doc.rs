//! TOML values as the bridge reads and rewrites `bridge.toml`, and the
//! table lookups and updates that registering a workspace makes.
use vstd::prelude::*;

use crate::text::string_eq;

verus! {

/// A TOML value. A float or a date-time keeps the text it was written with.
#[derive(Debug)]
pub enum Toml {
    Str(String),
    Integer(i64),
    Float(String),
    Boolean(bool),
    Datetime(String),
    Array(Vec<Toml>),
    Table(Vec<(String, Toml)>),
}

/// The mathematical content of a TOML value.
pub enum TomlView {
    Str(Seq<char>),
    Integer(i64),
    Float(Seq<char>),
    Boolean(bool),
    Datetime(Seq<char>),
    Array(Seq<TomlView>),
    Table(Seq<(Seq<char>, TomlView)>),
}

impl Toml {
    pub open spec fn view_of(self) -> TomlView
        decreases self,
    {
        match self {
            Toml::Str(s) => TomlView::Str(s@),
            Toml::Integer(n) => TomlView::Integer(n),
            Toml::Float(t) => TomlView::Float(t@),
            Toml::Boolean(b) => TomlView::Boolean(b),
            Toml::Datetime(t) => TomlView::Datetime(t@),
            Toml::Array(items) => TomlView::Array(
                Seq::new(
                    items@.len(),
                    |i: int|
                        if 0 <= i < items@.len() {
                            items@[i].view_of()
                        } else {
                            TomlView::Boolean(false)
                        },
                ),
            ),
            Toml::Table(entries) => TomlView::Table(
                Seq::new(
                    entries@.len(),
                    |i: int|
                        if 0 <= i < entries@.len() {
                            (entries@[i].0@, entries@[i].1.view_of())
                        } else {
                            (Seq::<char>::empty(), TomlView::Boolean(false))
                        },
                ),
            ),
        }
    }
}

impl View for Toml {
    type V = TomlView;

    open spec fn view(&self) -> TomlView {
        self.view_of()
    }
}

pub open spec fn table_view(entries: Seq<(String, Toml)>) -> Seq<(Seq<char>, TomlView)> {
    entries.map_values(|e: (String, Toml)| (e.0@, e.1@))
}

pub open spec fn items_view(items: Seq<Toml>) -> Seq<TomlView> {
    items.map_values(|t: Toml| t@)
}

/// `i` is the first index of an entry named `key`.
pub open spec fn is_first_key(entries: Seq<(Seq<char>, TomlView)>, key: Seq<char>, i: int) -> bool {
    &&& 0 <= i < entries.len()
    &&& entries[i].0 == key
    &&& forall|j: int| 0 <= j < i ==> entries[j].0 != key
}

pub open spec fn has_key(entries: Seq<(Seq<char>, TomlView)>, key: Seq<char>) -> bool {
    exists|i: int| is_first_key(entries, key, i)
}

pub open spec fn first_key(entries: Seq<(Seq<char>, TomlView)>, key: Seq<char>) -> int {
    choose|i: int| is_first_key(entries, key, i)
}

/// `table[key]`.
pub open spec fn table_lookup(entries: Seq<(Seq<char>, TomlView)>, key: Seq<char>) -> Option<TomlView> {
    if has_key(entries, key) {
        Some(entries[first_key(entries, key)].1)
    } else {
        None
    }
}

/// `table.insert(key, value)`: the entry named `key` gets `value` in place,
/// or a new entry is added at the end.
pub open spec fn table_insert(entries: Seq<(Seq<char>, TomlView)>, key: Seq<char>, value: TomlView) -> Seq<
    (Seq<char>, TomlView),
> {
    if has_key(entries, key) {
        entries.update(first_key(entries, key), (key, value))
    } else {
        entries.push((key, value))
    }
}

/// `table.entry(key).or_insert(value)`: `value` is added only when no
/// entry is named `key`.
pub open spec fn table_insert_default(
    entries: Seq<(Seq<char>, TomlView)>,
    key: Seq<char>,
    value: TomlView,
) -> Seq<(Seq<char>, TomlView)> {
    if has_key(entries, key) {
        entries
    } else {
        entries.push((key, value))
    }
}

/// `value[key]` for a table, nothing for anything else.
pub open spec fn tget(v: TomlView, key: Seq<char>) -> Option<TomlView> {
    match v {
        TomlView::Table(entries) => table_lookup(entries, key),
        _ => None,
    }
}

pub open spec fn tstr(v: Option<TomlView>) -> Option<Seq<char>> {
    match v {
        Some(TomlView::Str(s)) => Some(s),
        _ => None,
    }
}

proof fn lemma_first_key_unique(entries: Seq<(Seq<char>, TomlView)>, key: Seq<char>, i: int, j: int)
    requires
        is_first_key(entries, key, i),
        is_first_key(entries, key, j),
    ensures
        i == j,
{
    if i < j {
        assert(entries[i].0 != key);
    } else if j < i {
        assert(entries[j].0 != key);
    }
}

proof fn lemma_some_key_is_first(entries: Seq<(Seq<char>, TomlView)>, key: Seq<char>, j: int)
    requires
        0 <= j < entries.len(),
        entries[j].0 == key,
    ensures
        has_key(entries, key),
    decreases j,
{
    if forall|l: int| 0 <= l < j ==> entries[l].0 != key {
        assert(is_first_key(entries, key, j));
    } else {
        let l = choose|l: int| 0 <= l < j && entries[l].0 == key;
        lemma_some_key_is_first(entries, key, l);
    }
}

/// Reading a key back after inserting it gives the inserted value.
pub proof fn lemma_lookup_inserted(entries: Seq<(Seq<char>, TomlView)>, key: Seq<char>, value: TomlView)
    ensures
        table_lookup(table_insert(entries, key, value), key) == Some(value),
{
    let t = table_insert(entries, key, value);
    if has_key(entries, key) {
        let i = first_key(entries, key);
        assert(is_first_key(t, key, i));
        lemma_first_key_unique(t, key, i, first_key(t, key));
    } else {
        let n = entries.len() as int;
        assert forall|j: int| 0 <= j < n implies t[j].0 != key by {
            if t[j].0 == key {
                lemma_some_key_is_first(entries, key, j);
            }
        }
        assert(is_first_key(t, key, n));
        lemma_first_key_unique(t, key, n, first_key(t, key));
    }
}

/// Inserting one key leaves the value of every other key as it was.
pub proof fn lemma_lookup_other(
    entries: Seq<(Seq<char>, TomlView)>,
    key: Seq<char>,
    value: TomlView,
    other: Seq<char>,
)
    requires
        other != key,
    ensures
        table_lookup(table_insert(entries, key, value), other) == table_lookup(entries, other),
        table_lookup(table_insert_default(entries, key, value), other) == table_lookup(entries, other),
{
    let t = table_insert(entries, key, value);
    assert(t.len() >= entries.len());
    assert forall|j: int| 0 <= j < entries.len() implies #[trigger] t[j].0 == entries[j].0 by {}
    if has_key(entries, other) {
        let i = first_key(entries, other);
        assert(is_first_key(t, other, i));
        lemma_first_key_unique(t, other, i, first_key(t, other));
    } else if has_key(t, other) {
        let i = first_key(t, other);
        if i < entries.len() {
            lemma_some_key_is_first(entries, other, i);
        }
    }
}

/// The index of the first entry named `key`.
pub fn first_key_index(entries: &Vec<(String, Toml)>, key: &str) -> (r: Option<usize>)
    ensures
        match r {
            Some(i) => is_first_key(table_view(entries@), key@, i as int) && first_key(
                table_view(entries@),
                key@,
            ) == i as int,
            None => !has_key(table_view(entries@), key@),
        },
{
    let ghost tv = table_view(entries@);
    let mut i: usize = 0;
    while i < entries.len()
        invariant
            i <= entries.len(),
            tv == table_view(entries@),
            forall|j: int| 0 <= j < i ==> tv[j].0 != key@,
        decreases entries.len() - i,
    {
        if string_eq(entries[i].0.as_str(), key) {
            proof {
                assert(is_first_key(tv, key@, i as int));
                let c = first_key(tv, key@);
                lemma_first_key_unique(tv, key@, i as int, c);
            }
            return Some(i);
        }
        i = i + 1;
    }
    proof {
        if has_key(tv, key@) {
            let c = first_key(tv, key@);
            assert(tv[c].0 == key@);
        }
    }
    None
}

/// `table.get(key)`.
pub fn table_get<'a>(entries: &'a Vec<(String, Toml)>, key: &str) -> (r: Option<&'a Toml>)
    ensures
        match r {
            Some(v) => table_lookup(table_view(entries@), key@) == Some(v@),
            None => table_lookup(table_view(entries@), key@) is None,
        },
{
    match first_key_index(entries, key) {
        Some(i) => Some(&entries[i].1),
        None => None,
    }
}

/// `table.insert(key, value)`.
pub fn table_set(entries: &mut Vec<(String, Toml)>, key: String, value: Toml)
    ensures
        table_view(final(entries)@) == table_insert(table_view(old(entries)@), key@, value@),
{
    match first_key_index(entries, key.as_str()) {
        Some(i) => {
            let ghost before = entries@;
            entries.set(i, (key, value));
            assert(table_view(entries@) =~= table_insert(table_view(before), key@, value@));
        },
        None => {
            let ghost before = entries@;
            let ghost kv = key@;
            let ghost vv = value@;
            entries.push((key, value));
            assert(table_view(entries@) =~= table_view(before).push((kv, vv)));
        },
    }
}

/// `table.entry(key).or_insert(value)`.
pub fn table_set_default(entries: &mut Vec<(String, Toml)>, key: String, value: Toml)
    ensures
        table_view(final(entries)@) == table_insert_default(table_view(old(entries)@), key@, value@),
{
    match first_key_index(entries, key.as_str()) {
        Some(_) => {},
        None => {
            let ghost before = entries@;
            let ghost kv = key@;
            let ghost vv = value@;
            entries.push((key, value));
            assert(table_view(entries@) =~= table_view(before).push((kv, vv)));
        },
    }
}

impl Toml {
    /// A copy of the value.
    pub fn deep_clone(&self) -> (r: Toml)
        ensures
            r@ == self@,
        decreases self,
    {
        match self {
            Toml::Str(s) => Toml::Str(s.clone()),
            Toml::Integer(n) => Toml::Integer(*n),
            Toml::Float(t) => Toml::Float(t.clone()),
            Toml::Boolean(b) => Toml::Boolean(*b),
            Toml::Datetime(t) => Toml::Datetime(t.clone()),
            Toml::Array(items) => {
                let mut out: Vec<Toml> = Vec::new();
                let mut i: usize = 0;
                while i < items.len()
                    invariant
                        i <= items.len(),
                        *self == Toml::Array(*items),
                        out@.len() == i,
                        forall|k: int| 0 <= k < i ==> #[trigger] out@[k]@ == items@[k]@,
                    decreases items.len() - i,
                {
                    assert(decreases_to!(*self => self->Array_0));
                    assert(decreases_to!(self->Array_0 => (self->Array_0)@));
                    assert(decreases_to!((self->Array_0)@ => (self->Array_0)@[i as int]));
                    out.push(items[i].deep_clone());
                    i = i + 1;
                }
                let r = Toml::Array(out);
                assert forall|k: int| 0 <= k < items@.len() implies #[trigger] (r@->Array_0)[k]
                    == (self@->Array_0)[k] by {
                    assert(out@[k]@ == items@[k]@);
                }
                assert(r@->Array_0 =~= self@->Array_0);
                r
            },
            Toml::Table(entries) => {
                let mut out: Vec<(String, Toml)> = Vec::new();
                let mut i: usize = 0;
                while i < entries.len()
                    invariant
                        i <= entries.len(),
                        *self == Toml::Table(*entries),
                        out@.len() == i,
                        forall|k: int|
                            0 <= k < i ==> #[trigger] out@[k].0@ == entries@[k].0@ && out@[k].1@
                                == entries@[k].1@,
                    decreases entries.len() - i,
                {
                    assert(decreases_to!(*self => self->Table_0));
                    assert(decreases_to!(self->Table_0 => (self->Table_0)@));
                    assert(decreases_to!((self->Table_0)@ => (self->Table_0)@[i as int]));
                    assert(decreases_to!((self->Table_0)@[i as int] => (self->Table_0)@[i as int].1));
                    let v = entries[i].1.deep_clone();
                    out.push((entries[i].0.clone(), v));
                    i = i + 1;
                }
                let r = Toml::Table(out);
                assert(r@->Table_0 =~= self@->Table_0);
                r
            },
        }
    }
}

} // verus!
