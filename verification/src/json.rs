//! A JSON document held as plain values, and what the library reads of it.

use vstd::prelude::*;
use crate::text::{
    chars_of, lemma_text_lt_irreflexive, lemma_text_lt_total, lemma_text_lt_transitive, str_eq, text_less, text_lt,
};

verus! {

/// A JSON value. Objects keep their entries in order; a well-formed object names each key once.
#[derive(Debug)]
pub enum JsonValue {
    Null,
    Bool(bool),
    /// An integer that fits `i64`.
    Number(i64),
    /// Any other JSON number, by its text.
    Decimal(String),
    Str(String),
    Array(Vec<JsonValue>),
    Object(Vec<(String, JsonValue)>),
}

/// The mathematical model of a [`JsonValue`].
pub enum JsonSpec {
    Null,
    Bool(bool),
    Number(int),
    Decimal(Seq<char>),
    Str(Seq<char>),
    Array(Seq<JsonSpec>),
    Object(Seq<(Seq<char>, JsonSpec)>),
}

pub open spec fn json_view(v: JsonValue) -> JsonSpec
    decreases v,
{
    match v {
        JsonValue::Null => JsonSpec::Null,
        JsonValue::Bool(b) => JsonSpec::Bool(b),
        JsonValue::Number(n) => JsonSpec::Number(n as int),
        JsonValue::Decimal(t) => JsonSpec::Decimal(t@),
        JsonValue::Str(s) => JsonSpec::Str(s@),
        JsonValue::Array(items) => JsonSpec::Array(
            Seq::new(
                items.len() as nat,
                |i: int|
                    if 0 <= i < items.len() {
                        json_view(items@[i])
                    } else {
                        JsonSpec::Null
                    },
            ),
        ),
        JsonValue::Object(entries) => JsonSpec::Object(
            Seq::new(
                entries.len() as nat,
                |i: int|
                    if 0 <= i < entries.len() {
                        (entries@[i].0@, json_view(entries@[i].1))
                    } else {
                        (Seq::empty(), JsonSpec::Null)
                    },
            ),
        ),
    }
}

impl View for JsonValue {
    type V = JsonSpec;

    open spec fn view(&self) -> JsonSpec {
        json_view(*self)
    }
}

/// The models of a sequence of values.
pub open spec fn views(items: Seq<JsonValue>) -> Seq<JsonSpec> {
    Seq::new(items.len(), |i: int| json_view(items[i]))
}

/// The models of a sequence of object entries.
pub open spec fn entry_views(entries: Seq<(String, JsonValue)>) -> Seq<(Seq<char>, JsonSpec)> {
    Seq::new(entries.len(), |i: int| (entries[i].0@, json_view(entries[i].1)))
}

pub proof fn lemma_array_view(items: Vec<JsonValue>)
    ensures
        json_view(JsonValue::Array(items)) == JsonSpec::Array(views(items@)),
{
    let s = json_view(JsonValue::Array(items))->Array_0;
    assert(s =~= views(items@));
}

pub proof fn lemma_object_view(entries: Vec<(String, JsonValue)>)
    ensures
        json_view(JsonValue::Object(entries)) == JsonSpec::Object(entry_views(entries@)),
{
    let s = json_view(JsonValue::Object(entries))->Object_0;
    assert(s =~= entry_views(entries@));
}

/// The value of the first entry named `key`.
pub open spec fn object_lookup(entries: Seq<(Seq<char>, JsonSpec)>, key: Seq<char>) -> Option<
    JsonSpec,
>
    decreases entries.len(),
{
    if entries.len() == 0 {
        None
    } else if entries[0].0 == key {
        Some(entries[0].1)
    } else {
        object_lookup(entries.drop_first(), key)
    }
}

/// Whether an object names each key once.
pub open spec fn unique_keys(entries: Seq<(Seq<char>, JsonSpec)>) -> bool {
    forall|i: int, j: int|
        0 <= i < entries.len() && 0 <= j < entries.len() && i != j ==> #[trigger] entries[i].0
            != #[trigger] entries[j].0
}

/// `Value::get` with a string key: the member of an object, nothing for any other value.
pub open spec fn spec_get(v: JsonSpec, key: Seq<char>) -> Option<JsonSpec> {
    match v {
        JsonSpec::Object(entries) => object_lookup(entries, key),
        _ => None,
    }
}

pub open spec fn spec_as_str(v: JsonSpec) -> Option<Seq<char>> {
    match v {
        JsonSpec::Str(s) => Some(s),
        _ => None,
    }
}

pub open spec fn spec_as_bool(v: JsonSpec) -> Option<bool> {
    match v {
        JsonSpec::Bool(b) => Some(b),
        _ => None,
    }
}

pub open spec fn spec_as_i64(v: JsonSpec) -> Option<int> {
    match v {
        JsonSpec::Number(n) => Some(n),
        _ => None,
    }
}

pub open spec fn spec_as_array(v: JsonSpec) -> Option<Seq<JsonSpec>> {
    match v {
        JsonSpec::Array(items) => Some(items),
        _ => None,
    }
}

pub open spec fn spec_is_object(v: JsonSpec) -> bool {
    v is Object
}

/// `v.get(key).and_then(as_str)`.
pub open spec fn get_str(v: JsonSpec, key: Seq<char>) -> Option<Seq<char>> {
    match spec_get(v, key) {
        Some(x) => spec_as_str(x),
        None => None,
    }
}

/// `v.get(key).and_then(as_bool)`.
pub open spec fn get_bool(v: JsonSpec, key: Seq<char>) -> Option<bool> {
    match spec_get(v, key) {
        Some(x) => spec_as_bool(x),
        None => None,
    }
}

/// `v.get(key).and_then(as_array)`.
pub open spec fn get_array(v: JsonSpec, key: Seq<char>) -> Option<Seq<JsonSpec>> {
    match spec_get(v, key) {
        Some(x) => spec_as_array(x),
        None => None,
    }
}

pub open spec fn opt_view(o: Option<&JsonValue>) -> Option<JsonSpec> {
    match o {
        Some(x) => Some(x@),
        None => None,
    }
}

pub open spec fn opt_json_view(o: Option<JsonValue>) -> Option<JsonSpec> {
    match o {
        Some(x) => Some(x@),
        None => None,
    }
}

pub open spec fn opt_str_view(o: Option<&str>) -> Option<Seq<char>> {
    match o {
        Some(x) => Some(x@),
        None => None,
    }
}

pub open spec fn opt_string_view(o: Option<String>) -> Option<Seq<char>> {
    match o {
        Some(x) => Some(x@),
        None => None,
    }
}

/// Looks a key up among object entries.
pub fn lookup_entry<'a>(entries: &'a Vec<(String, JsonValue)>, key: &str) -> (r: Option<
    &'a JsonValue,
>)
    ensures
        opt_view(r) == object_lookup(entry_views(entries@), key@),
{
    let ghost all = entry_views(entries@);
    let mut i: usize = 0;
    assert(all.skip(0) =~= all);
    while i < entries.len()
        invariant
            i <= entries.len(),
            all == entry_views(entries@),
            object_lookup(all, key@) == object_lookup(all.skip(i as int), key@),
        decreases entries.len() - i,
    {
        assert(all.skip(i as int).drop_first() =~= all.skip(i + 1));
        if str_eq(entries[i].0.as_str(), key) {
            return Some(&entries[i].1);
        }
        i = i + 1;
    }
    assert(all.skip(i as int).len() == 0);
    None
}

impl JsonValue {
    /// `Value::get` with a string key.
    pub fn get(&self, key: &str) -> (r: Option<&JsonValue>)
        ensures
            opt_view(r) == spec_get(self@, key@),
    {
        match self {
            JsonValue::Object(entries) => {
                proof {
                    lemma_object_view(*entries);
                }
                lookup_entry(entries, key)
            },
            _ => None,
        }
    }

    pub fn as_str(&self) -> (r: Option<&str>)
        ensures
            opt_str_view(r) == spec_as_str(self@),
    {
        match self {
            JsonValue::Str(s) => Some(s.as_str()),
            _ => None,
        }
    }

    pub fn as_bool(&self) -> (r: Option<bool>)
        ensures
            r == spec_as_bool(self@),
    {
        match self {
            JsonValue::Bool(b) => Some(*b),
            _ => None,
        }
    }

    pub fn as_i64(&self) -> (r: Option<i64>)
        ensures
            match r {
                Some(n) => spec_as_i64(self@) == Some(n as int),
                None => spec_as_i64(self@) is None,
            },
    {
        match self {
            JsonValue::Number(n) => Some(*n),
            _ => None,
        }
    }

    pub fn as_array(&self) -> (r: Option<&Vec<JsonValue>>)
        ensures
            match r {
                Some(items) => spec_as_array(self@) == Some(views(items@)),
                None => spec_as_array(self@) is None,
            },
    {
        match self {
            JsonValue::Array(items) => {
                proof {
                    lemma_array_view(*items);
                }
                Some(items)
            },
            _ => None,
        }
    }

    pub fn as_object(&self) -> (r: Option<&Vec<(String, JsonValue)>>)
        ensures
            match r {
                Some(entries) => self@ == JsonSpec::Object(entry_views(entries@)),
                None => !(self@ is Object),
            },
    {
        match self {
            JsonValue::Object(entries) => {
                proof {
                    lemma_object_view(*entries);
                }
                Some(entries)
            },
            _ => None,
        }
    }

    pub fn is_object(&self) -> (b: bool)
        ensures
            b == spec_is_object(self@),
    {
        match self {
            JsonValue::Object(_) => true,
            _ => false,
        }
    }

    pub fn is_null(&self) -> (b: bool)
        ensures
            b == (self@ is Null),
    {
        match self {
            JsonValue::Null => true,
            _ => false,
        }
    }

    /// `v.get(key).and_then(Value::as_str)`.
    pub fn get_str(&self, key: &str) -> (r: Option<&str>)
        ensures
            opt_str_view(r) == get_str(self@, key@),
    {
        match self.get(key) {
            Some(x) => x.as_str(),
            None => None,
        }
    }

    /// `v.get(key).and_then(Value::as_bool)`.
    pub fn get_bool(&self, key: &str) -> (r: Option<bool>)
        ensures
            r == get_bool(self@, key@),
    {
        match self.get(key) {
            Some(x) => x.as_bool(),
            None => None,
        }
    }

    /// `v.get(key).and_then(Value::as_array)`.
    pub fn get_array(&self, key: &str) -> (r: Option<&Vec<JsonValue>>)
        ensures
            match r {
                Some(items) => get_array(self@, key@) == Some(views(items@)),
                None => get_array(self@, key@) is None,
            },
    {
        match self.get(key) {
            Some(x) => x.as_array(),
            None => None,
        }
    }
}

/// Clones a JSON value, keeping its model.
pub fn clone_json(v: &JsonValue) -> (out: JsonValue)
    ensures
        out@ == v@,
    decreases v,
{
    match v {
        JsonValue::Null => JsonValue::Null,
        JsonValue::Bool(b) => JsonValue::Bool(*b),
        JsonValue::Number(n) => JsonValue::Number(*n),
        JsonValue::Decimal(t) => JsonValue::Decimal(t.clone()),
        JsonValue::Str(s) => JsonValue::Str(s.clone()),
        JsonValue::Array(items) => {
            let mut out: Vec<JsonValue> = Vec::new();
            let mut i: usize = 0;
            while i < items.len()
                invariant
                    *v == JsonValue::Array(*items),
                    i <= items.len(),
                    out@.len() == i,
                    forall|k: int| 0 <= k < i ==> json_view(#[trigger] out@[k]) == json_view(
                        items@[k],
                    ),
                decreases items.len() - i,
            {
                proof {
                    assert(decreases_to!(*v => (*v)->Array_0));
                    assert(decreases_to!(*items => items@));
                    assert(decreases_to!(items@ => items@[i as int]));
                }
                out.push(clone_json(&items[i]));
                i = i + 1;
            }
            proof {
                lemma_array_view(*items);
                lemma_array_view(out);
                assert(views(out@) =~= views(items@));
            }
            JsonValue::Array(out)
        },
        JsonValue::Object(entries) => {
            let mut out: Vec<(String, JsonValue)> = Vec::new();
            let mut i: usize = 0;
            while i < entries.len()
                invariant
                    *v == JsonValue::Object(*entries),
                    i <= entries.len(),
                    out@.len() == i,
                    forall|k: int|
                        0 <= k < i ==> (#[trigger] out@[k]).0@ == entries@[k].0@ && json_view(
                            out@[k].1,
                        ) == json_view(entries@[k].1),
                decreases entries.len() - i,
            {
                proof {
                    assert(decreases_to!(*v => (*v)->Object_0));
                    assert(decreases_to!(*entries => entries@));
                    assert(decreases_to!(entries@ => entries@[i as int]));
                    assert(decreases_to!(entries@[i as int] => entries@[i as int].1));
                }
                out.push((entries[i].0.clone(), clone_json(&entries[i].1)));
                i = i + 1;
            }
            proof {
                lemma_object_view(*entries);
                lemma_object_view(out);
                assert(entry_views(out@) =~= entry_views(entries@));
            }
            JsonValue::Object(out)
        },
    }
}

/// The position of the first entry named `key`.
pub open spec fn key_position(entries: Seq<(Seq<char>, JsonSpec)>, key: Seq<char>) -> Option<int>
    decreases entries.len(),
{
    if entries.len() == 0 {
        None
    } else {
        match key_position(entries.drop_last(), key) {
            Some(k) => Some(k),
            None => if entries.last().0 == key {
                Some(entries.len() - 1)
            } else {
                None
            },
        }
    }
}

/// `Map::insert`: the entry named `key` takes the new value, or a new entry is added at the end.
pub open spec fn entries_insert(entries: Seq<(Seq<char>, JsonSpec)>, key: Seq<char>, value: JsonSpec) -> Seq<(Seq<char>, JsonSpec)> {
    match key_position(entries, key) {
        Some(p) => entries.update(p, (key, value)),
        None => entries.push((key, value)),
    }
}

pub proof fn lemma_key_position_found(entries: Seq<(Seq<char>, JsonSpec)>, key: Seq<char>, i: int)
    requires
        0 <= i < entries.len(),
        entries[i].0 == key,
        forall|k: int| 0 <= k < i ==> entries[k].0 != key,
    ensures
        key_position(entries, key) == Some(i),
    decreases entries.len(),
{
    if i < entries.len() - 1 {
        lemma_key_position_found(entries.drop_last(), key, i);
    } else {
        lemma_key_position_absent(entries.drop_last(), key);
    }
}

pub proof fn lemma_key_position_absent(entries: Seq<(Seq<char>, JsonSpec)>, key: Seq<char>)
    requires
        forall|k: int| 0 <= k < entries.len() ==> entries[k].0 != key,
    ensures
        key_position(entries, key) is None,
    decreases entries.len(),
{
    if entries.len() > 0 {
        lemma_key_position_absent(entries.drop_last(), key);
    }
}

/// The entries collected into a map, in order: each entry is inserted in turn, so a later entry
/// of a key takes the place of an earlier one.
pub open spec fn collect_entries(s: Seq<(Seq<char>, JsonSpec)>) -> Seq<(Seq<char>, JsonSpec)>
    decreases s.len(),
{
    if s.len() == 0 {
        Seq::empty()
    } else {
        entries_insert(collect_entries(s.drop_last()), s.last().0, s.last().1)
    }
}

/// Collected entries name each key once, and each of them is one of the entries collected.
pub proof fn lemma_collect_entries(s: Seq<(Seq<char>, JsonSpec)>)
    ensures
        unique_keys(collect_entries(s)),
        forall|j: int| 0 <= j < collect_entries(s).len() ==> s.contains(#[trigger] collect_entries(s)[j]),
    decreases s.len(),
{
    if s.len() > 0 {
        let p = s.drop_last();
        let c = collect_entries(p);
        let r = collect_entries(s);
        lemma_collect_entries(p);
        lemma_key_position_first(c, s.last().0);
        assert forall|j: int| 0 <= j < r.len() implies s.contains(#[trigger] r[j]) by {
            if j < c.len() && r[j] == c[j] {
                assert(p.contains(c[j]));
                let q = choose|q: int| 0 <= q < p.len() && p[q] == c[j];
                assert(s[q] == r[j]);
            } else {
                assert(r[j] == (s.last().0, s.last().1));
                assert(s[s.len() - 1] == r[j]);
            }
        }
        assert forall|i: int, j: int| 0 <= i < r.len() && 0 <= j < r.len() && i != j implies #[trigger] r[i].0
            != #[trigger] r[j].0 by {
            if i < c.len() && j < c.len() {
                assert(r[i].0 == c[i].0 && r[j].0 == c[j].0);
            }
        }
    }
}

/// Entries that name each key once are collected as they are.
pub proof fn lemma_collect_unique(s: Seq<(Seq<char>, JsonSpec)>)
    requires
        unique_keys(s),
    ensures
        collect_entries(s) == s,
    decreases s.len(),
{
    if s.len() > 0 {
        let p = s.drop_last();
        assert forall|i: int, j: int| 0 <= i < p.len() && 0 <= j < p.len() && i != j implies #[trigger] p[i].0
            != #[trigger] p[j].0 by {
            assert(p[i] == s[i] && p[j] == s[j]);
        }
        lemma_collect_unique(p);
        assert forall|k: int| 0 <= k < p.len() implies p[k].0 != s.last().0 by {
            assert(p[k] == s[k]);
            assert(s[s.len() - 1].0 == s.last().0);
        }
        lemma_key_position_absent(p, s.last().0);
        assert(p.push((s.last().0, s.last().1)) =~= s);
    }
}

/// `Map::insert` on the entries of an object.
pub fn object_insert(entries: &mut Vec<(String, JsonValue)>, key: String, value: JsonValue)
    ensures
        entry_views(final(entries)@) == entries_insert(entry_views(old(entries)@), key@, value@),
{
    let ghost before = entry_views(entries@);
    let mut i: usize = 0;
    while i < entries.len()
        invariant
            before == entry_views(entries@),
            entries@ == old(entries)@,
            i <= entries@.len(),
            forall|k: int| 0 <= k < i ==> entries@[k].0@ != key@,
        decreases entries.len() - i,
    {
        if str_eq(entries[i].0.as_str(), key.as_str()) {
            proof {
                lemma_key_position_found(before, key@, i as int);
            }
            let ghost kv = key@;
            let ghost vv = value@;
            entries.set(i, (key, value));
            assert(entry_views(entries@) =~= before.update(i as int, (kv, vv)));
            return;
        }
        i = i + 1;
    }
    proof {
        lemma_key_position_absent(before, key@);
    }
    let ghost kv = key@;
    let ghost vv = value@;
    entries.push((key, value));
    assert(entry_views(entries@) =~= before.push((kv, vv)));
}

/// The compact JSON text of a value (`Value::to_string`).
pub fn to_compact_string(value: &JsonValue) -> (s: String)
    ensures
        s@ == vstd::utf8::decode_utf8(crate::outside::json_compact_bytes(value@)),
{
    let bytes = crate::outside::json_to_vec(value);
    crate::outside::utf8_lossy(bytes.as_slice())
}


proof fn lemma_key_position_first(entries: Seq<(Seq<char>, JsonSpec)>, key: Seq<char>)
    ensures
        match key_position(entries, key) {
            Some(p) => 0 <= p < entries.len() && entries[p].0 == key && forall|k: int|
                0 <= k < p ==> entries[k].0 != key,
            None => forall|k: int| 0 <= k < entries.len() ==> entries[k].0 != key,
        },
    decreases entries.len(),
{
    if entries.len() > 0 {
        let prefix = entries.drop_last();
        lemma_key_position_first(prefix, key);
        assert forall|k: int| 0 <= k < prefix.len() implies prefix[k] == entries[k] by {}
        if key_position(prefix, key) is None && entries.last().0 != key {
            assert forall|k: int| 0 <= k < entries.len() implies entries[k].0 != key by {
                if k < prefix.len() {
                    assert(prefix[k] == entries[k]);
                } else {
                    assert(entries[k] == entries.last());
                }
            }
        }
    }
}

pub proof fn lemma_lookup_at(entries: Seq<(Seq<char>, JsonSpec)>, key: Seq<char>, i: int)
    requires
        0 <= i < entries.len(),
        entries[i].0 == key,
        forall|k: int| 0 <= k < i ==> entries[k].0 != key,
    ensures
        object_lookup(entries, key) == Some(entries[i].1),
    decreases entries.len(),
{
    if i > 0 {
        lemma_lookup_at(entries.drop_first(), key, i - 1);
    }
}

proof fn lemma_lookup_none(entries: Seq<(Seq<char>, JsonSpec)>, key: Seq<char>)
    requires
        forall|k: int| 0 <= k < entries.len() ==> entries[k].0 != key,
    ensures
        object_lookup(entries, key) is None,
    decreases entries.len(),
{
    if entries.len() > 0 {
        lemma_lookup_none(entries.drop_first(), key);
    }
}

proof fn lemma_lookup_unchanged(a: Seq<(Seq<char>, JsonSpec)>, b: Seq<(Seq<char>, JsonSpec)>, key: Seq<char>)
    requires
        a.len() <= b.len(),
        forall|k: int| 0 <= k < a.len() && a[k] != b[k] ==> a[k].0 != key && b[k].0 != key,
        forall|k: int| a.len() <= k < b.len() ==> b[k].0 != key,
    ensures
        object_lookup(b, key) == object_lookup(a, key),
    decreases b.len(),
{
    if b.len() > 0 {
        if a.len() > 0 {
            lemma_lookup_unchanged(a.drop_first(), b.drop_first(), key);
        } else {
            lemma_lookup_none(b, key);
        }
    }
}

/// A key of an object reads back the value last put in for it.
pub proof fn law_insert_then_lookup(entries: Seq<(Seq<char>, JsonSpec)>, key: Seq<char>, value: JsonSpec)
    ensures
        object_lookup(entries_insert(entries, key, value), key) == Some(value),
{
    lemma_key_position_first(entries, key);
    let after = entries_insert(entries, key, value);
    match key_position(entries, key) {
        Some(p) => lemma_lookup_at(after, key, p),
        None => lemma_lookup_at(after, key, entries.len() as int),
    }
}

/// Putting a value in for one key leaves what every other key reads.
pub proof fn law_insert_keeps_other_keys(
    entries: Seq<(Seq<char>, JsonSpec)>,
    key: Seq<char>,
    value: JsonSpec,
    other: Seq<char>,
)
    requires
        other != key,
    ensures
        object_lookup(entries_insert(entries, key, value), other) == object_lookup(entries, other),
{
    lemma_key_position_first(entries, key);
    lemma_lookup_unchanged(entries, entries_insert(entries, key, value), other);
}


// ---------------------------------------------------------------------------------------------
// Canonical form: object entries ordered by key
// ---------------------------------------------------------------------------------------------

/// `sorted` with `(key, value)` put in its place by key order; an entry of the same key is
/// replaced by it.
pub open spec fn sorted_insert(sorted: Seq<(Seq<char>, JsonSpec)>, key: Seq<char>, value: JsonSpec) -> Seq<
    (Seq<char>, JsonSpec),
>
    decreases sorted.len(),
{
    if sorted.len() == 0 {
        seq![(key, value)]
    } else if sorted[0].0 == key {
        seq![(key, value)] + sorted.drop_first()
    } else if text_lt(key, sorted[0].0) {
        seq![(key, value)] + sorted
    } else {
        seq![sorted[0]] + sorted_insert(sorted.drop_first(), key, value)
    }
}

/// The entries ordered by key, the last of equal keys kept: the map that collecting them by key
/// gives, walked in key order.
pub open spec fn sorted_entries(entries: Seq<(Seq<char>, JsonSpec)>) -> Seq<(Seq<char>, JsonSpec)>
    decreases entries.len(),
{
    if entries.len() == 0 {
        Seq::empty()
    } else {
        sorted_insert(sorted_entries(entries.drop_last()), entries.last().0, entries.last().1)
    }
}

/// The canonical form of a JSON value: at every depth, the entries of each object ordered by key.
pub open spec fn canonical_json(v: JsonSpec) -> JsonSpec
    decreases v, 1nat,
{
    match v {
        JsonSpec::Array(items) => JsonSpec::Array(canonical_items(items)),
        JsonSpec::Object(entries) => JsonSpec::Object(sorted_entries(canonical_entries(entries))),
        _ => v,
    }
}

/// The canonical forms of the items, in their order.
pub open spec fn canonical_items(items: Seq<JsonSpec>) -> Seq<JsonSpec>
    decreases items, 0nat,
{
    Seq::new(
        items.len(),
        |i: int|
            if 0 <= i < items.len() {
                canonical_json(items[i])
            } else {
                JsonSpec::Null
            },
    )
}

/// The entries with their values in canonical form, in their order.
pub open spec fn canonical_entries(entries: Seq<(Seq<char>, JsonSpec)>) -> Seq<(Seq<char>, JsonSpec)>
    decreases entries, 0nat,
{
    Seq::new(
        entries.len(),
        |i: int|
            if 0 <= i < entries.len() {
                (entries[i].0, canonical_json(entries[i].1))
            } else {
                (Seq::empty(), JsonSpec::Null)
            },
    )
}

proof fn lemma_sorted_insert_skip(s: Seq<(Seq<char>, JsonSpec)>, key: Seq<char>, value: JsonSpec, i: int)
    requires
        0 <= i < s.len(),
        s[i].0 != key,
        !text_lt(key, s[i].0),
    ensures
        sorted_insert(s.skip(i), key, value) == seq![s[i]] + sorted_insert(s.skip(i + 1), key, value),
{
    assert(s.skip(i)[0] == s[i]);
    assert(s.skip(i).drop_first() =~= s.skip(i + 1));
}

/// Puts `(key, value)` into entries ordered by key, in its place; an entry of the same key is
/// replaced.
fn sorted_insert_entry(entries: &mut Vec<(String, JsonValue)>, key: String, value: JsonValue)
    ensures
        entry_views(final(entries)@) == sorted_insert(entry_views(old(entries)@), key@, value@),
{
    let ghost s = entry_views(entries@);
    let ghost kv = key@;
    let ghost vv = value@;
    let key_chars = chars_of(key.as_str());
    let mut i: usize = 0;
    assert(s.take(0) + s.skip(0) =~= s);
    assert(s.take(0) + sorted_insert(s.skip(0), kv, vv) =~= sorted_insert(s, kv, vv));
    while i < entries.len()
        invariant
            i <= entries.len(),
            key_chars@ == kv,
            key@ == kv,
            value@ == vv,
            s == entry_views(entries@),
            s == entry_views(old(entries)@),
            sorted_insert(s, kv, vv) == s.take(i as int) + sorted_insert(s.skip(i as int), kv, vv),
        decreases entries.len() - i,
    {
        assert(s[i as int] == (entries@[i as int].0@, json_view(entries@[i as int].1)));
        if str_eq(entries[i].0.as_str(), key.as_str()) {
            assert(s.skip(i as int)[0] == s[i as int]);
            assert(s.skip(i as int).drop_first() =~= s.skip(i + 1));
            entries.set(i, (key, value));
            assert(entry_views(entries@) =~= s.take(i as int) + (seq![(kv, vv)] + s.skip(i + 1)));
            return;
        }
        let other = chars_of(entries[i].0.as_str());
        if text_less(&key_chars, &other) {
            assert(s.skip(i as int)[0] == s[i as int]);
            entries.insert(i, (key, value));
            assert(entry_views(entries@) =~= s.take(i as int) + (seq![(kv, vv)] + s.skip(i as int)));
            return;
        }
        proof {
            lemma_sorted_insert_skip(s, kv, vv, i as int);
            assert(s.take(i + 1) =~= s.take(i as int) + seq![s[i as int]]);
        }
        i = i + 1;
    }
    assert(s.take(i as int) =~= s);
    assert(s.skip(i as int) =~= Seq::<(Seq<char>, JsonSpec)>::empty());
    entries.push((key, value));
    assert(entry_views(entries@) =~= s + seq![(kv, vv)]);
}

/// The canonical form of a JSON value (see [`canonical_json`]).
pub fn canonicalize_json(value: &JsonValue) -> (r: JsonValue)
    ensures
        r@ == canonical_json(value@),
    decreases value,
{
    match value {
        JsonValue::Array(items) => {
            let mut out: Vec<JsonValue> = Vec::new();
            let mut i: usize = 0;
            while i < items.len()
                invariant
                    *value == JsonValue::Array(*items),
                    i <= items.len(),
                    out@.len() == i,
                    forall|k: int|
                        0 <= k < i ==> json_view(#[trigger] out@[k]) == canonical_json(
                            json_view(items@[k]),
                        ),
                decreases items.len() - i,
            {
                proof {
                    assert(decreases_to!(*value => (*value)->Array_0));
                    assert(decreases_to!(*items => items@));
                    assert(decreases_to!(items@ => items@[i as int]));
                }
                out.push(canonicalize_json(&items[i]));
                i = i + 1;
            }
            proof {
                lemma_array_view(*items);
                lemma_array_view(out);
                let vs = views(items@);
                assert(views(out@) =~= canonical_items(vs));
            }
            JsonValue::Array(out)
        },
        JsonValue::Object(entries) => {
            let ghost mapped = Seq::new(
                entries@.len(),
                |k: int| (entries@[k].0@, canonical_json(json_view(entries@[k].1))),
            );
            let mut out: Vec<(String, JsonValue)> = Vec::new();
            let mut i: usize = 0;
            assert(mapped.take(0) =~= Seq::<(Seq<char>, JsonSpec)>::empty());
            assert(entry_views(out@) =~= Seq::<(Seq<char>, JsonSpec)>::empty());
            while i < entries.len()
                invariant
                    *value == JsonValue::Object(*entries),
                    i <= entries.len(),
                    mapped == Seq::new(
                        entries@.len(),
                        |k: int| (entries@[k].0@, canonical_json(json_view(entries@[k].1))),
                    ),
                    entry_views(out@) == sorted_entries(mapped.take(i as int)),
                decreases entries.len() - i,
            {
                proof {
                    assert(decreases_to!(*value => (*value)->Object_0));
                    assert(decreases_to!(*entries => entries@));
                    assert(decreases_to!(entries@ => entries@[i as int]));
                    assert(decreases_to!(entries@[i as int] => entries@[i as int].1));
                }
                let c = canonicalize_json(&entries[i].1);
                sorted_insert_entry(&mut out, entries[i].0.clone(), c);
                proof {
                    let t = mapped.take(i + 1);
                    assert(t.drop_last() =~= mapped.take(i as int));
                    assert(t.last() == mapped[i as int]);
                }
                i = i + 1;
            }
            proof {
                lemma_object_view(*entries);
                let ev = entry_views(entries@);
                assert(mapped.take(i as int) =~= mapped);
                assert(mapped =~= canonical_entries(ev));
                lemma_object_view(out);
            }
            JsonValue::Object(out)
        },
        _ => clone_json(value),
    }
}

/// Whether the keys of the entries strictly increase.
pub open spec fn keys_ascending(s: Seq<(Seq<char>, JsonSpec)>) -> bool {
    forall|i: int, j: int| #![trigger s[i], s[j]] 0 <= i < j < s.len() ==> text_lt(s[i].0, s[j].0)
}

proof fn lemma_text_lt_asymmetric(a: Seq<char>, b: Seq<char>)
    requires
        text_lt(a, b),
    ensures
        !text_lt(b, a),
        a != b,
{
    lemma_text_lt_irreflexive(a);
    if text_lt(b, a) {
        lemma_text_lt_transitive(a, b, a);
    }
}

proof fn lemma_sorted_insert(s: Seq<(Seq<char>, JsonSpec)>, k: Seq<char>, v: JsonSpec)
    requires
        keys_ascending(s),
    ensures
        keys_ascending(sorted_insert(s, k, v)),
        sorted_insert(s, k, v).contains((k, v)),
        forall|j: int|
            0 <= j < sorted_insert(s, k, v).len() ==> #[trigger] sorted_insert(s, k, v)[j] == (k, v) || (
            s.contains(sorted_insert(s, k, v)[j]) && sorted_insert(s, k, v)[j].0 != k),
        forall|i: int| 0 <= i < s.len() && #[trigger] s[i].0 != k ==> sorted_insert(s, k, v).contains(s[i]),
    decreases s.len(),
{
    let r = sorted_insert(s, k, v);
    if s.len() == 0 {
        assert(r[0] == (k, v));
    } else if s[0].0 == k {
        assert(r[0] == (k, v));
        assert forall|j: int| 0 < j < r.len() implies r[j] == s[j] && text_lt(k, s[j].0) by {
            assert(text_lt(s[0].0, s[j].0));
        }
        assert forall|j: int| 0 <= j < r.len() implies #[trigger] r[j] == (k, v) || (s.contains(r[j])
            && r[j].0 != k) by {
            if j > 0 {
                lemma_text_lt_asymmetric(k, s[j].0);
            }
        }
        assert forall|i: int, j: int| #![trigger r[i], r[j]] 0 <= i < j < r.len() implies text_lt(
            r[i].0,
            r[j].0,
        ) by {
            assert(r[j] == s[j]);
            if i > 0 {
                assert(r[i] == s[i]);
            }
        }
        assert forall|i: int| 0 <= i < s.len() && #[trigger] s[i].0 != k implies r.contains(s[i]) by {
            assert(r[i] == s[i]);
        }
    } else if text_lt(k, s[0].0) {
        assert(r[0] == (k, v));
        assert forall|j: int| 0 < j < r.len() implies r[j] == s[j - 1] && text_lt(k, s[j - 1].0) by {
            if j > 1 {
                assert(text_lt(s[0].0, s[j - 1].0));
                lemma_text_lt_transitive(k, s[0].0, s[j - 1].0);
            }
        }
        assert forall|j: int| 0 <= j < r.len() implies #[trigger] r[j] == (k, v) || (s.contains(r[j])
            && r[j].0 != k) by {
            if j > 0 {
                if j > 1 {
                    assert(text_lt(s[0].0, s[j - 1].0));
                    lemma_text_lt_transitive(k, s[0].0, s[j - 1].0);
                }
                lemma_text_lt_asymmetric(k, s[j - 1].0);
            }
        }
        assert forall|i: int, j: int| #![trigger r[i], r[j]] 0 <= i < j < r.len() implies text_lt(
            r[i].0,
            r[j].0,
        ) by {
            if i > 0 {
                assert(r[i] == s[i - 1]);
                assert(r[j] == s[j - 1]);
            }
        }
        assert forall|i: int| 0 <= i < s.len() && #[trigger] s[i].0 != k implies r.contains(s[i]) by {
            assert(r[i + 1] == s[i]);
        }
    } else {
        let s1 = s.drop_first();
        let r1 = sorted_insert(s1, k, v);
        assert(keys_ascending(s1)) by {
            assert forall|i: int, j: int| #![trigger s1[i], s1[j]] 0 <= i < j < s1.len() implies text_lt(
                s1[i].0,
                s1[j].0,
            ) by {
                assert(s1[i] == s[i + 1] && s1[j] == s[j + 1]);
            }
        }
        lemma_sorted_insert(s1, k, v);
        lemma_text_lt_total(s[0].0, k);
        assert(r =~= seq![s[0]] + r1);
        assert forall|j: int| 0 < j < r.len() implies r[j] == r1[j - 1] && text_lt(s[0].0, r[j].0) by {
            if r1[j - 1] != (k, v) {
                assert(s1.contains(r1[j - 1]));
                let m = choose|m: int| 0 <= m < s1.len() && s1[m] == r1[j - 1];
                assert(s[m + 1] == s1[m]);
                assert(text_lt(s[0].0, s[m + 1].0));
            }
        }
        assert forall|j: int| 0 <= j < r.len() implies #[trigger] r[j] == (k, v) || (s.contains(r[j])
            && r[j].0 != k) by {
            if j == 0 {
                assert(s[0] == r[0]);
            } else if r1[j - 1] != (k, v) {
                let m = choose|m: int| 0 <= m < s1.len() && s1[m] == r1[j - 1];
                assert(s[m + 1] == r[j]);
            }
        }
        assert forall|i: int, j: int| #![trigger r[i], r[j]] 0 <= i < j < r.len() implies text_lt(
            r[i].0,
            r[j].0,
        ) by {
            if i > 0 {
                assert(r[i] == r1[i - 1]);
                assert(r[j] == r1[j - 1]);
            }
        }
        assert(r.contains((k, v))) by {
            let m = choose|m: int| 0 <= m < r1.len() && r1[m] == (k, v);
            assert(r[m + 1] == (k, v));
        }
        assert forall|i: int| 0 <= i < s.len() && #[trigger] s[i].0 != k implies r.contains(s[i]) by {
            if i == 0 {
                assert(r[0] == s[0]);
            } else {
                assert(s1[i - 1] == s[i]);
                assert(r1.contains(s1[i - 1]));
                let m = choose|m: int| 0 <= m < r1.len() && r1[m] == s1[i - 1];
                assert(r[m + 1] == s[i]);
            }
        }
    }
}

proof fn lemma_sorted_entries(m: Seq<(Seq<char>, JsonSpec)>)
    ensures
        keys_ascending(sorted_entries(m)),
        forall|j: int| 0 <= j < sorted_entries(m).len() ==> m.contains(#[trigger] sorted_entries(m)[j]),
        unique_keys(m) ==> forall|i: int| 0 <= i < m.len() ==> sorted_entries(m).contains(#[trigger] m[i]),
    decreases m.len(),
{
    if m.len() > 0 {
        let p = m.drop_last();
        let last = m.last();
        let sp = sorted_entries(p);
        let r = sorted_entries(m);
        lemma_sorted_entries(p);
        lemma_sorted_insert(sp, last.0, last.1);
        assert(r == sorted_insert(sp, last.0, last.1));
        assert forall|j: int| 0 <= j < r.len() implies m.contains(#[trigger] r[j]) by {
            if r[j] == (last.0, last.1) {
                assert(m[m.len() - 1] == r[j]);
            } else {
                let t = choose|t: int| 0 <= t < sp.len() && sp[t] == r[j];
                assert(p.contains(sp[t]));
                let q = choose|q: int| 0 <= q < p.len() && p[q] == sp[t];
                assert(m[q] == r[j]);
            }
        }
        if unique_keys(m) {
            assert(unique_keys(p)) by {
                assert forall|i: int, j: int|
                    0 <= i < p.len() && 0 <= j < p.len() && i != j implies #[trigger] p[i].0
                    != #[trigger] p[j].0 by {
                    assert(p[i] == m[i] && p[j] == m[j]);
                }
            }
            assert forall|i: int| 0 <= i < m.len() implies r.contains(#[trigger] m[i]) by {
                if i == m.len() - 1 {
                    assert(m[i] == (last.0, last.1));
                } else {
                    assert(p[i] == m[i]);
                    assert(sp.contains(p[i]));
                    let t = choose|t: int| 0 <= t < sp.len() && sp[t] == p[i];
                    assert(m[i].0 != m[m.len() - 1].0);
                    assert(sp[t].0 != last.0);
                }
            }
        }
    }
}

proof fn lemma_sorted_insert_last(s: Seq<(Seq<char>, JsonSpec)>, k: Seq<char>, v: JsonSpec)
    requires
        forall|i: int| 0 <= i < s.len() ==> text_lt(#[trigger] s[i].0, k),
    ensures
        sorted_insert(s, k, v) == s.push((k, v)),
    decreases s.len(),
{
    if s.len() > 0 {
        lemma_text_lt_asymmetric(s[0].0, k);
        let s1 = s.drop_first();
        assert forall|i: int| 0 <= i < s1.len() implies text_lt(#[trigger] s1[i].0, k) by {
            assert(s1[i] == s[i + 1]);
        }
        lemma_sorted_insert_last(s1, k, v);
        assert(seq![s[0]] + s1.push((k, v)) =~= s.push((k, v)));
    }
}

proof fn lemma_sorted_entries_fixed(s: Seq<(Seq<char>, JsonSpec)>)
    requires
        keys_ascending(s),
    ensures
        sorted_entries(s) == s,
    decreases s.len(),
{
    if s.len() > 0 {
        let p = s.drop_last();
        assert forall|i: int, j: int| #![trigger p[i], p[j]] 0 <= i < j < p.len() implies text_lt(
            p[i].0,
            p[j].0,
        ) by {
            assert(p[i] == s[i] && p[j] == s[j]);
        }
        lemma_sorted_entries_fixed(p);
        assert forall|i: int| 0 <= i < p.len() implies text_lt(#[trigger] p[i].0, s.last().0) by {
            assert(p[i] == s[i]);
            assert(text_lt(s[i].0, s[s.len() - 1].0));
        }
        lemma_sorted_insert_last(p, s.last().0, s.last().1);
        assert(p.push((s.last().0, s.last().1)) =~= s);
    }
}

/// The canonical form is a fixed point: a canonical value is its own canonical form, so a
/// configuration and its canonical form have one fingerprint.
pub proof fn law_canonical_json_idempotent(v: JsonSpec)
    ensures
        canonical_json(canonical_json(v)) == canonical_json(v),
    decreases v,
{
    match v {
        JsonSpec::Array(items) => {
            let ci = canonical_items(items);
            assert forall|i: int| 0 <= i < ci.len() implies canonical_json(#[trigger] ci[i]) == ci[i] by {
                assert(decreases_to!(v => items));
                assert(decreases_to!(items => items[i]));
                law_canonical_json_idempotent(items[i]);
            }
            assert(canonical_items(ci) =~= ci);
        },
        JsonSpec::Object(entries) => {
            let ce = canonical_entries(entries);
            let se = sorted_entries(ce);
            lemma_sorted_entries(ce);
            assert forall|j: int| 0 <= j < se.len() implies canonical_json(#[trigger] se[j].1) == se[j].1 by {
                assert(ce.contains(se[j]));
                let i = choose|i: int| 0 <= i < ce.len() && ce[i] == se[j];
                assert(decreases_to!(v => entries));
                assert(decreases_to!(entries => entries[i]));
                assert(decreases_to!(entries[i] => entries[i].1));
                law_canonical_json_idempotent(entries[i].1);
            }
            assert(canonical_entries(se) =~= se);
            lemma_sorted_entries_fixed(se);
        },
        _ => {},
    }
}

proof fn lemma_ascending_same_entries(x: Seq<(Seq<char>, JsonSpec)>, y: Seq<(Seq<char>, JsonSpec)>)
    requires
        keys_ascending(x),
        keys_ascending(y),
        forall|e: (Seq<char>, JsonSpec)| #![trigger x.contains(e)] #![trigger y.contains(e)] x.contains(e)
            <==> y.contains(e),
    ensures
        x == y,
    decreases x.len(),
{
    if x.len() == 0 {
        if y.len() > 0 {
            assert(y.contains(y[0]));
        }
        assert(x =~= y);
    } else if y.len() == 0 {
        assert(x.contains(x[0]));
    } else {
        assert(x.contains(x[0]));
        assert(y.contains(y[0]));
        let j = choose|j: int| 0 <= j < y.len() && y[j] == x[0];
        let i = choose|i: int| 0 <= i < x.len() && x[i] == y[0];
        if j > 0 && i > 0 {
            assert(text_lt(y[0].0, y[j].0));
            assert(text_lt(x[0].0, x[i].0));
            lemma_text_lt_asymmetric(x[0].0, y[0].0);
        }
        assert(x[0] == y[0]);
        let x1 = x.drop_first();
        let y1 = y.drop_first();
        assert forall|e: (Seq<char>, JsonSpec)| #![trigger x1.contains(e)] #![trigger y1.contains(e)] x1.contains(e)
            <==> y1.contains(e) by {
            if x1.contains(e) {
                let a = choose|a: int| 0 <= a < x1.len() && x1[a] == e;
                assert(x[a + 1] == e);
                assert(x.contains(e));
                let b = choose|b: int| 0 <= b < y.len() && y[b] == e;
                assert(text_lt(x[0].0, x[a + 1].0));
                lemma_text_lt_asymmetric(x[0].0, e.0);
                assert(b != 0);
                assert(y1[b - 1] == e);
            }
            if y1.contains(e) {
                let a = choose|a: int| 0 <= a < y1.len() && y1[a] == e;
                assert(y[a + 1] == e);
                assert(y.contains(e));
                let b = choose|b: int| 0 <= b < x.len() && x[b] == e;
                assert(text_lt(y[0].0, y[a + 1].0));
                lemma_text_lt_asymmetric(y[0].0, e.0);
                assert(b != 0);
                assert(x1[b - 1] == e);
            }
        }
        assert forall|p: int, q: int| #![trigger x1[p], x1[q]] 0 <= p < q < x1.len() implies text_lt(
            x1[p].0,
            x1[q].0,
        ) by {
            assert(x1[p] == x[p + 1] && x1[q] == x[q + 1]);
        }
        assert forall|p: int, q: int| #![trigger y1[p], y1[q]] 0 <= p < q < y1.len() implies text_lt(
            y1[p].0,
            y1[q].0,
        ) by {
            assert(y1[p] == y[p + 1] && y1[q] == y[q + 1]);
        }
        lemma_ascending_same_entries(x1, y1);
        assert(x =~= seq![x[0]] + x1);
        assert(y =~= seq![y[0]] + y1);
    }
}

proof fn lemma_canonical_entries_contents(a: Seq<(Seq<char>, JsonSpec)>)
    requires
        unique_keys(a),
    ensures
        unique_keys(canonical_entries(a)),
        forall|e: (Seq<char>, JsonSpec)|
            sorted_entries(canonical_entries(a)).contains(e) <==> #[trigger] canonical_entries(a).contains(e),
{
    let ca = canonical_entries(a);
    let sa = sorted_entries(ca);
    assert forall|i: int, j: int| 0 <= i < ca.len() && 0 <= j < ca.len() && i != j implies #[trigger] ca[i].0
        != #[trigger] ca[j].0 by {
        assert(a[i].0 != a[j].0);
    }
    lemma_sorted_entries(ca);
    assert forall|e: (Seq<char>, JsonSpec)| sa.contains(e) <==> #[trigger] ca.contains(e) by {
        if sa.contains(e) {
            let j = choose|j: int| 0 <= j < sa.len() && sa[j] == e;
            assert(ca.contains(sa[j]));
        }
        if ca.contains(e) {
            let i = choose|i: int| 0 <= i < ca.len() && ca[i] == e;
            assert(sa.contains(ca[i]));
        }
    }
}

/// The canonical form of an object does not depend on the order of its entries: two objects
/// with the same entries, each naming every key once, have one canonical form, and so one
/// fingerprint.
pub proof fn law_canonical_ignores_entry_order(a: Seq<(Seq<char>, JsonSpec)>, b: Seq<(Seq<char>, JsonSpec)>)
    requires
        unique_keys(a),
        unique_keys(b),
        forall|e: (Seq<char>, JsonSpec)| #![trigger a.contains(e)] #![trigger b.contains(e)] a.contains(e)
            <==> b.contains(e),
    ensures
        canonical_json(JsonSpec::Object(a)) == canonical_json(JsonSpec::Object(b)),
{
    let ca = canonical_entries(a);
    let cb = canonical_entries(b);
    lemma_canonical_entries_contents(a);
    lemma_canonical_entries_contents(b);
    lemma_sorted_entries(ca);
    lemma_sorted_entries(cb);
    assert forall|e: (Seq<char>, JsonSpec)| #![trigger ca.contains(e)] #![trigger cb.contains(e)] ca.contains(e)
        <==> cb.contains(e) by {
        if ca.contains(e) {
            let i = choose|i: int| 0 <= i < ca.len() && ca[i] == e;
            assert(a.contains(a[i]));
            let j = choose|j: int| 0 <= j < b.len() && b[j] == a[i];
            assert(cb[j] == e);
        }
        if cb.contains(e) {
            let i = choose|i: int| 0 <= i < cb.len() && cb[i] == e;
            assert(b.contains(b[i]));
            let j = choose|j: int| 0 <= j < a.len() && a[j] == b[i];
            assert(ca[j] == e);
        }
    }
    let sa = sorted_entries(ca);
    let sb = sorted_entries(cb);
    assert forall|e: (Seq<char>, JsonSpec)| #![trigger sa.contains(e)] #![trigger sb.contains(e)] sa.contains(e)
        <==> sb.contains(e) by {
        assert(sa.contains(e) <==> ca.contains(e));
        assert(sb.contains(e) <==> cb.contains(e));
    }
    lemma_ascending_same_entries(sa, sb);
}


/// Whether two values have one model.
pub fn json_same(x: &JsonValue, y: &JsonValue) -> (r: bool)
    ensures
        r == (x@ == y@),
    decreases x,
{
    match x {
        JsonValue::Null => y.is_null(),
        JsonValue::Bool(a) => match y {
            JsonValue::Bool(b) => *a == *b,
            _ => false,
        },
        JsonValue::Number(a) => match y {
            JsonValue::Number(b) => *a == *b,
            _ => false,
        },
        JsonValue::Decimal(a) => match y {
            JsonValue::Decimal(b) => str_eq(a.as_str(), b.as_str()),
            _ => false,
        },
        JsonValue::Str(a) => match y {
            JsonValue::Str(b) => str_eq(a.as_str(), b.as_str()),
            _ => false,
        },
        JsonValue::Array(xs) => match y {
            JsonValue::Array(ys) => {
                proof {
                    lemma_array_view(*xs);
                    lemma_array_view(*ys);
                }
                if xs.len() != ys.len() {
                    assert(views(xs@).len() != views(ys@).len());
                    return false;
                }
                let mut i: usize = 0;
                while i < xs.len()
                    invariant
                        *x == JsonValue::Array(*xs),
                        x@ == JsonSpec::Array(views(xs@)),
                        y@ == JsonSpec::Array(views(ys@)),
                        xs.len() == ys.len(),
                        i <= xs.len(),
                        forall|k: int| 0 <= k < i ==> json_view(#[trigger] xs@[k]) == json_view(ys@[k]),
                    decreases xs.len() - i,
                {
                    proof {
                        assert(decreases_to!(*x => (*x)->Array_0));
                        assert(decreases_to!(*xs => xs@));
                        assert(decreases_to!(xs@ => xs@[i as int]));
                    }
                    if !json_same(&xs[i], &ys[i]) {
                        assert(views(xs@)[i as int] != views(ys@)[i as int]);
                        return false;
                    }
                    i = i + 1;
                }
                assert(views(xs@) =~= views(ys@));
                true
            },
            _ => false,
        },
        JsonValue::Object(xs) => match y {
            JsonValue::Object(ys) => {
                proof {
                    lemma_object_view(*xs);
                    lemma_object_view(*ys);
                }
                if xs.len() != ys.len() {
                    assert(entry_views(xs@).len() != entry_views(ys@).len());
                    return false;
                }
                let mut i: usize = 0;
                while i < xs.len()
                    invariant
                        *x == JsonValue::Object(*xs),
                        x@ == JsonSpec::Object(entry_views(xs@)),
                        y@ == JsonSpec::Object(entry_views(ys@)),
                        xs.len() == ys.len(),
                        i <= xs.len(),
                        forall|k: int|
                            0 <= k < i ==> (#[trigger] xs@[k]).0@ == ys@[k].0@ && json_view(xs@[k].1)
                                == json_view(ys@[k].1),
                    decreases xs.len() - i,
                {
                    proof {
                        assert(decreases_to!(*x => (*x)->Object_0));
                        assert(decreases_to!(*xs => xs@));
                        assert(decreases_to!(xs@ => xs@[i as int]));
                        assert(decreases_to!(xs@[i as int] => xs@[i as int].1));
                    }
                    if !str_eq(xs[i].0.as_str(), ys[i].0.as_str()) {
                        assert(entry_views(xs@)[i as int] != entry_views(ys@)[i as int]);
                        return false;
                    }
                    if !json_same(&xs[i].1, &ys[i].1) {
                        assert(entry_views(xs@)[i as int] != entry_views(ys@)[i as int]);
                        return false;
                    }
                    i = i + 1;
                }
                assert(entry_views(xs@) =~= entry_views(ys@));
                true
            },
            _ => false,
        },
    }
}

/// Whether two values are equal as JSON: objects are compared by their entries, whatever their
/// order, the last of repeated keys counting.
pub open spec fn json_equal_spec(a: JsonSpec, b: JsonSpec) -> bool {
    canonical_json(a) == canonical_json(b)
}

/// Whether two values are equal as JSON (see [`json_equal_spec`]).
pub fn json_equal(a: &JsonValue, b: &JsonValue) -> (r: bool)
    ensures
        r == json_equal_spec(a@, b@),
{
    let ca = canonicalize_json(a);
    let cb = canonicalize_json(b);
    json_same(&ca, &cb)
}


/// Whether two values are equal up to the order of the entries of their objects, at every depth,
/// each object naming each key once.
pub open spec fn same_up_to_key_order(a: JsonSpec, b: JsonSpec) -> bool
    decreases a, 2nat, 0int,
{
    match a {
        JsonSpec::Array(xs) => match b {
            JsonSpec::Array(ys) => xs.len() == ys.len() && same_items_from(xs, ys, 0),
            _ => false,
        },
        JsonSpec::Object(xe) => match b {
            JsonSpec::Object(ye) => {
                &&& unique_keys(xe)
                &&& unique_keys(ye)
                &&& keys_covered(ye, xe)
                &&& same_entries_from(xe, ye, 0)
            },
            _ => false,
        },
        _ => a == b,
    }
}

/// The items from position `i` on are pairwise equal up to key order.
pub open spec fn same_items_from(xs: Seq<JsonSpec>, ys: Seq<JsonSpec>, i: nat) -> bool
    decreases xs, 1nat, xs.len() - i,
{
    if i >= xs.len() {
        true
    } else {
        i < ys.len() && same_up_to_key_order(xs[i as int], ys[i as int]) && same_items_from(xs, ys, i + 1)
    }
}

/// Each entry of `xe` from position `i` on names a key of `ye` whose value is equal to its own
/// up to key order.
pub open spec fn same_entries_from(xe: Seq<(Seq<char>, JsonSpec)>, ye: Seq<(Seq<char>, JsonSpec)>, i: nat) -> bool
    decreases xe, 1nat, xe.len() - i,
{
    if i >= xe.len() {
        true
    } else {
        match object_lookup(ye, xe[i as int].0) {
            Some(v) => {
                proof {
                    assert(decreases_to!(xe => xe[i as int]));
                }
                same_up_to_key_order(xe[i as int].1, v) && same_entries_from(xe, ye, i + 1)
            },
            None => false,
        }
    }
}

/// Each key of `ye` is a key of `xe`.
pub open spec fn keys_covered(ye: Seq<(Seq<char>, JsonSpec)>, xe: Seq<(Seq<char>, JsonSpec)>) -> bool {
    forall|j: int| #![trigger ye[j]] 0 <= j < ye.len() ==> exists|i: int| 0 <= i < xe.len() && ye[j].0 == #[trigger] xe[i].0
}

proof fn lemma_same_items(xs: Seq<JsonSpec>, ys: Seq<JsonSpec>, i: nat)
    requires
        same_items_from(xs, ys, i),
        xs.len() == ys.len(),
    ensures
        forall|k: int| #![trigger xs[k]] i <= k < xs.len() ==> same_up_to_key_order(xs[k], ys[k]),
    decreases xs.len() - i,
{
    if i < xs.len() {
        lemma_same_items(xs, ys, i + 1);
        assert(same_up_to_key_order(xs[i as int], ys[i as int]));
        assert forall|k: int| #![trigger xs[k]] i <= k < xs.len() implies same_up_to_key_order(xs[k], ys[k]) by {
            if k == i {
                assert(xs[k] == xs[i as int] && ys[k] == ys[i as int]);
            } else {
                assert((i + 1) as nat <= k);
            }
        }
    }
}

proof fn lemma_same_entries(xe: Seq<(Seq<char>, JsonSpec)>, ye: Seq<(Seq<char>, JsonSpec)>, i: nat)
    requires
        same_entries_from(xe, ye, i),
    ensures
        forall|k: int|
            #![trigger xe[k]]
            i <= k < xe.len() ==> object_lookup(ye, xe[k].0) is Some && same_up_to_key_order(
                xe[k].1,
                object_lookup(ye, xe[k].0)->Some_0,
            ),
    decreases xe.len() - i,
{
    if i < xe.len() {
        lemma_same_entries(xe, ye, i + 1);
        assert(object_lookup(ye, xe[i as int].0) is Some);
        assert(same_up_to_key_order(xe[i as int].1, object_lookup(ye, xe[i as int].0)->Some_0));
        assert forall|k: int| #![trigger xe[k]] i <= k < xe.len() implies object_lookup(ye, xe[k].0) is Some
            && same_up_to_key_order(xe[k].1, object_lookup(ye, xe[k].0)->Some_0) by {
            if k == i {
                assert(xe[k] == xe[i as int]);
            } else {
                assert((i + 1) as nat <= k);
            }
        }
    }
}

proof fn lemma_lookup_some(entries: Seq<(Seq<char>, JsonSpec)>, key: Seq<char>)
    requires
        object_lookup(entries, key) is Some,
    ensures
        exists|j: int| 0 <= j < entries.len() && entries[j].0 == key && entries[j].1 == object_lookup(entries, key)->Some_0,
    decreases entries.len(),
{
    if entries[0].0 != key {
        lemma_lookup_some(entries.drop_first(), key);
        let j = choose|j: int|
            0 <= j < entries.drop_first().len() && entries.drop_first()[j].0 == key && entries.drop_first()[j].1
                == object_lookup(entries.drop_first(), key)->Some_0;
        assert(entries[j + 1] == entries.drop_first()[j]);
    } else {
        assert(entries[0].0 == key);
    }
}

proof fn lemma_lookup_unique(entries: Seq<(Seq<char>, JsonSpec)>, j: int)
    requires
        unique_keys(entries),
        0 <= j < entries.len(),
    ensures
        object_lookup(entries, entries[j].0) == Some(entries[j].1),
{
    assert forall|k: int| 0 <= k < j implies entries[k].0 != entries[j].0 by {
        assert(entries[k].0 != entries[j].0);
    }
    lemma_lookup_at(entries, entries[j].0, j);
}

/// Values equal up to the order of their objects' entries, at any depth, have one canonical
/// form, and so one fingerprint.
pub proof fn law_canonical_ignores_key_order_at_every_depth(a: JsonSpec, b: JsonSpec)
    requires
        same_up_to_key_order(a, b),
    ensures
        canonical_json(a) == canonical_json(b),
    decreases a,
{
    match a {
        JsonSpec::Array(xs) => {
            let ys = b->Array_0;
            lemma_same_items(xs, ys, 0);
            assert forall|i: int| 0 <= i < xs.len() implies canonical_json(#[trigger] xs[i]) == canonical_json(
                ys[i],
            ) by {
                assert(same_up_to_key_order(xs[i], ys[i]));
                assert(decreases_to!(a => xs));
                assert(decreases_to!(xs => xs[i]));
                law_canonical_ignores_key_order_at_every_depth(xs[i], ys[i]);
            }
            assert(canonical_items(xs) =~= canonical_items(ys));
        },
        JsonSpec::Object(xe) => {
            let ye = b->Object_0;
            lemma_same_entries(xe, ye, 0);
            let ca = canonical_entries(xe);
            let cb = canonical_entries(ye);
            assert forall|e: (Seq<char>, JsonSpec)| #![trigger ca.contains(e)] #![trigger cb.contains(e)] ca.contains(e)
                <==> cb.contains(e) by {
                if ca.contains(e) {
                    let i = choose|i: int| 0 <= i < ca.len() && ca[i] == e;
                    let v = object_lookup(ye, xe[i].0)->Some_0;
                    assert(same_up_to_key_order(xe[i].1, v));
                    lemma_lookup_some(ye, xe[i].0);
                    let j = choose|j: int| 0 <= j < ye.len() && ye[j].0 == xe[i].0 && ye[j].1 == v;
                    assert(decreases_to!(a => xe));
                    assert(decreases_to!(xe => xe[i]));
                    assert(decreases_to!(xe[i] => xe[i].1));
                    law_canonical_ignores_key_order_at_every_depth(xe[i].1, v);
                    assert(cb[j] == e);
                }
                if cb.contains(e) {
                    let j = choose|j: int| 0 <= j < cb.len() && cb[j] == e;
                    assert(ye[j] == ye[j]);
                    let i = choose|i: int| 0 <= i < xe.len() && ye[j].0 == xe[i].0;
                    lemma_lookup_unique(ye, j);
                    assert(same_up_to_key_order(xe[i].1, object_lookup(ye, xe[i].0)->Some_0));
                    assert(decreases_to!(a => xe));
                    assert(decreases_to!(xe => xe[i]));
                    assert(decreases_to!(xe[i] => xe[i].1));
                    law_canonical_ignores_key_order_at_every_depth(xe[i].1, ye[j].1);
                    assert(ca[i] == e);
                }
            }
            lemma_canonical_entries_contents(xe);
            lemma_canonical_entries_contents(ye);
            lemma_sorted_entries(ca);
            lemma_sorted_entries(cb);
            let sa = sorted_entries(ca);
            let sb = sorted_entries(cb);
            assert forall|e: (Seq<char>, JsonSpec)| #![trigger sa.contains(e)] #![trigger sb.contains(e)] sa.contains(e)
                <==> sb.contains(e) by {
                assert(sa.contains(e) <==> ca.contains(e));
                assert(sb.contains(e) <==> cb.contains(e));
            }
            lemma_ascending_same_entries(sa, sb);
        },
        _ => {},
    }
}

} // verus!
