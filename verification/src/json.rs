//! A JSON document as the library reads it: the values that the elective
//! system's responses carry, with lookups whose results are stated exactly.
//!
//! `JsonValue` is the executable value; `JsonView` is its mathematical model,
//! in which text is a `Seq<char>` and arrays and objects are sequences.
use vstd::prelude::*;
use crate::text::{decimal_of_i64, decimal_of_u128, int_decimal, owned, str_eq};

verus! {

/// A JSON number: its text as JSON writes it, and its value where it is an
/// integer that fits an `i64` or a `u64`.
#[derive(Debug)]
pub struct JsonNumber {
    pub text: String,
    pub int: Option<i64>,
    pub uint: Option<u64>,
}

/// One JSON value. An object keeps its entries in order; a key occurs once.
#[derive(Debug)]
pub enum JsonValue {
    Null,
    Bool(bool),
    Number(JsonNumber),
    String(String),
    Array(Vec<JsonValue>),
    Object(Vec<(String, JsonValue)>),
}

/// The model of a JSON value.
pub enum JsonView {
    Null,
    Bool(bool),
    Number(Seq<char>, Option<i64>, Option<u64>),
    Str(Seq<char>),
    Array(Seq<JsonView>),
    Object(Seq<(Seq<char>, JsonView)>),
}

// ---------------------------------------------------------------------------
// The model of a value
// ---------------------------------------------------------------------------

pub open spec fn json_view(v: JsonValue) -> JsonView
    decreases v,
{
    match v {
        JsonValue::Null => JsonView::Null,
        JsonValue::Bool(b) => JsonView::Bool(b),
        JsonValue::Number(n) => JsonView::Number(n.text@, n.int, n.uint),
        JsonValue::String(s) => JsonView::Str(s@),
        JsonValue::Array(items) => JsonView::Array(items_view(items@)),
        JsonValue::Object(entries) => JsonView::Object(entries_view(entries@)),
    }
}

pub open spec fn items_view(items: Seq<JsonValue>) -> Seq<JsonView>
    decreases items,
{
    if items.len() == 0 {
        Seq::empty()
    } else {
        items_view(items.drop_last()).push(json_view(items.last()))
    }
}

pub open spec fn entries_view(entries: Seq<(String, JsonValue)>) -> Seq<(Seq<char>, JsonView)>
    decreases entries,
{
    if entries.len() == 0 {
        Seq::empty()
    } else {
        entries_view(entries.drop_last()).push((entries.last().0@, json_view(entries.last().1)))
    }
}

impl View for JsonValue {
    type V = JsonView;

    open spec fn view(&self) -> JsonView {
        json_view(*self)
    }
}

pub proof fn lemma_items_view(items: Seq<JsonValue>)
    ensures
        items_view(items).len() == items.len(),
        forall|i: int| 0 <= i < items.len() ==> #[trigger] items_view(items)[i] == json_view(items[i]),
    decreases items.len(),
{
    if items.len() > 0 {
        lemma_items_view(items.drop_last());
    }
}

pub proof fn lemma_entries_view(entries: Seq<(String, JsonValue)>)
    ensures
        entries_view(entries).len() == entries.len(),
        forall|i: int| 0 <= i < entries.len() ==> #[trigger] entries_view(entries)[i] == (entries[i].0@, json_view(entries[i].1)),
    decreases entries.len(),
{
    if entries.len() > 0 {
        lemma_entries_view(entries.drop_last());
    }
}

// ---------------------------------------------------------------------------
// Reading and writing objects, in the model
// ---------------------------------------------------------------------------

/// The value under `key` among an object's entries (the first that has it).
pub open spec fn entries_get(entries: Seq<(Seq<char>, JsonView)>, key: Seq<char>) -> Option<JsonView>
    decreases entries.len(),
{
    if entries.len() == 0 {
        None
    } else if entries[0].0 == key {
        Some(entries[0].1)
    } else {
        entries_get(entries.drop_first(), key)
    }
}

/// The entries without any entry under `key`.
pub open spec fn entries_remove(entries: Seq<(Seq<char>, JsonView)>, key: Seq<char>) -> Seq<(Seq<char>, JsonView)>
    decreases entries.len(),
{
    if entries.len() == 0 {
        entries
    } else if entries[0].0 == key {
        entries_remove(entries.drop_first(), key)
    } else {
        seq![entries[0]] + entries_remove(entries.drop_first(), key)
    }
}

/// The entries with `key` set to `value`: the entry that has the key is
/// replaced in place, else a new entry goes at the end.
pub open spec fn entries_insert(entries: Seq<(Seq<char>, JsonView)>, key: Seq<char>, value: JsonView) -> Seq<(Seq<char>, JsonView)>
    decreases entries.len(),
{
    if entries.len() == 0 {
        seq![(key, value)]
    } else if entries[0].0 == key {
        seq![(key, value)] + entries.drop_first()
    } else {
        seq![entries[0]] + entries_insert(entries.drop_first(), key, value)
    }
}

/// `base` with every entry of `extra` inserted, in order.
pub open spec fn entries_merge(base: Seq<(Seq<char>, JsonView)>, extra: Seq<(Seq<char>, JsonView)>) -> Seq<(Seq<char>, JsonView)>
    decreases extra.len(),
{
    if extra.len() == 0 {
        base
    } else {
        entries_insert(entries_merge(base, extra.drop_last()), extra.last().0, extra.last().1)
    }
}

impl JsonView {
    /// `value.get(key)`: the member of an object, nothing for anything else.
    pub open spec fn get(self, key: Seq<char>) -> Option<JsonView> {
        match self {
            JsonView::Object(entries) => entries_get(entries, key),
            _ => None,
        }
    }

    pub open spec fn as_str(self) -> Option<Seq<char>> {
        match self {
            JsonView::Str(s) => Some(s),
            _ => None,
        }
    }

    pub open spec fn as_bool(self) -> Option<bool> {
        match self {
            JsonView::Bool(b) => Some(b),
            _ => None,
        }
    }

    pub open spec fn as_i64(self) -> Option<i64> {
        match self {
            JsonView::Number(_, i, _) => i,
            _ => None,
        }
    }

    pub open spec fn as_u64(self) -> Option<u64> {
        match self {
            JsonView::Number(_, _, u) => u,
            _ => None,
        }
    }

    pub open spec fn as_array(self) -> Option<Seq<JsonView>> {
        match self {
            JsonView::Array(items) => Some(items),
            _ => None,
        }
    }
}

/// `value.get(key)` applied to an optional value, as `and_then` chains do.
pub open spec fn get_in(v: Option<JsonView>, key: Seq<char>) -> Option<JsonView> {
    match v {
        Some(x) => x.get(key),
        None => None,
    }
}

/// The string inside an optional value, if it is one.
pub open spec fn str_in(v: Option<JsonView>) -> Option<Seq<char>> {
    match v {
        Some(x) => x.as_str(),
        None => None,
    }
}

/// The keys of `entries` occur once each.
pub open spec fn entries_keys_unique(entries: Seq<(Seq<char>, JsonView)>) -> bool {
    forall|i: int, j: int| 0 <= i < j < entries.len() ==> entries[i].0 != entries[j].0
}

// ---------------------------------------------------------------------------
// Lemmas
// ---------------------------------------------------------------------------

/// Reading after an insert sees the inserted value under its key and the
/// old value under every other key.
pub proof fn lemma_entries_insert_get(entries: Seq<(Seq<char>, JsonView)>, key: Seq<char>, value: JsonView, q: Seq<char>)
    ensures
        entries_get(entries_insert(entries, key, value), q) == (if q == key { Some(value) } else { entries_get(entries, q) }),
    decreases entries.len(),
{
    let r = entries_insert(entries, key, value);
    if entries.len() == 0 {
        assert(r[0] == (key, value));
        assert(r.drop_first().len() == 0);
        assert(entries_get(r.drop_first(), q) is None);
    } else if entries[0].0 == key {
        assert(r[0] == (key, value));
        assert(r.drop_first() == entries.drop_first());
    } else {
        lemma_entries_insert_get(entries.drop_first(), key, value, q);
        assert(r[0] == entries[0]);
        assert(r.drop_first() == entries_insert(entries.drop_first(), key, value));
    }
}

/// Reading after a removal sees nothing under the removed key and the old
/// value under every other key.
pub proof fn lemma_entries_remove_get(entries: Seq<(Seq<char>, JsonView)>, key: Seq<char>, q: Seq<char>)
    ensures
        entries_get(entries_remove(entries, key), q) == (if q == key { None } else { entries_get(entries, q) }),
    decreases entries.len(),
{
    if entries.len() > 0 {
        lemma_entries_remove_get(entries.drop_first(), key, q);
        if entries[0].0 != key {
            let r = entries_remove(entries, key);
            assert(r[0] == entries[0]);
            assert(r.drop_first() == entries_remove(entries.drop_first(), key));
        }
    }
}

/// After a merge, a key of `extra` reads its last value in `extra`; any
/// other key reads its value in `base`.
pub proof fn lemma_entries_merge_get(base: Seq<(Seq<char>, JsonView)>, extra: Seq<(Seq<char>, JsonView)>, q: Seq<char>)
    ensures
        entries_get(entries_merge(base, extra), q) == (match entries_get(extra.reverse(), q) {
            Some(v) => Some(v),
            None => entries_get(base, q),
        }),
    decreases extra.len(),
{
    if extra.len() > 0 {
        let init = extra.drop_last();
        let last = extra.last();
        lemma_entries_merge_get(base, init, q);
        lemma_entries_insert_get(entries_merge(base, init), last.0, last.1, q);
        assert(extra.reverse()[0] == last);
        assert(extra.reverse().drop_first() =~= init.reverse());
    }
}

proof fn lemma_get_append_one(entries: Seq<(Seq<char>, JsonView)>, e: (Seq<char>, JsonView), q: Seq<char>)
    ensures
        entries_get(entries.push(e), q) == (match entries_get(entries, q) {
            Some(v) => Some(v),
            None => if e.0 == q { Some(e.1) } else { None },
        }),
    decreases entries.len(),
{
    if entries.len() > 0 {
        lemma_get_append_one(entries.drop_first(), e, q);
        assert(entries.push(e).drop_first() =~= entries.drop_first().push(e));
    } else {
        assert(entries.push(e).drop_first().len() == 0);
        assert(entries_get(entries.push(e).drop_first(), q) is None);
    }
}

/// An entry list in which no entry has the key reads nothing under it.
pub proof fn lemma_get_absent(entries: Seq<(Seq<char>, JsonView)>, q: Seq<char>)
    requires
        forall|i: int| 0 <= i < entries.len() ==> (#[trigger] entries[i]).0 != q,
    ensures
        entries_get(entries, q) is None,
    decreases entries.len(),
{
    if entries.len() > 0 {
        assert(entries[0].0 != q);
        lemma_get_absent(entries.drop_first(), q);
    }
}

/// With unique keys, reading the reversed entries is reading the entries.
pub proof fn lemma_reverse_get_unique(entries: Seq<(Seq<char>, JsonView)>, q: Seq<char>)
    requires
        entries_keys_unique(entries),
    ensures
        entries_get(entries.reverse(), q) == entries_get(entries, q),
    decreases entries.len(),
{
    if entries.len() > 0 {
        let rest = entries.drop_first();
        assert(entries_keys_unique(rest)) by {
            assert forall|i: int, j: int| 0 <= i < j < rest.len() implies rest[i].0 != rest[j].0 by {
                assert(rest[i] == entries[i + 1]);
                assert(rest[j] == entries[j + 1]);
            }
        }
        lemma_reverse_get_unique(rest, q);
        lemma_get_append_one(rest.reverse(), entries[0], q);
        assert(entries.reverse() =~= rest.reverse().push(entries[0]));
        if entries[0].0 == q {
            assert forall|i: int| 0 <= i < rest.len() implies (#[trigger] rest[i]).0 != q by {
                assert(rest[i] == entries[i + 1]);
            }
            lemma_get_absent(rest, q);
        }
    }
}

proof fn lemma_insert_at(entries: Seq<(Seq<char>, JsonView)>, key: Seq<char>, value: JsonView, i: int)
    requires
        0 <= i < entries.len(),
        entries[i].0 == key,
        forall|j: int| 0 <= j < i ==> (#[trigger] entries[j]).0 != key,
    ensures
        entries_insert(entries, key, value) == entries.update(i, (key, value)),
    decreases i,
{
    if i == 0 {
        assert(entries_insert(entries, key, value) =~= entries.update(0, (key, value)));
    } else {
        let rest = entries.drop_first();
        assert forall|j: int| 0 <= j < i - 1 implies (#[trigger] rest[j]).0 != key by {
            assert(rest[j] == entries[j + 1]);
        }
        lemma_insert_at(rest, key, value, i - 1);
        assert(entries[0].0 != key);
        assert(entries_insert(entries, key, value) =~= entries.update(i, (key, value)));
    }
}

proof fn lemma_insert_absent(entries: Seq<(Seq<char>, JsonView)>, key: Seq<char>, value: JsonView)
    requires
        forall|j: int| 0 <= j < entries.len() ==> (#[trigger] entries[j]).0 != key,
    ensures
        entries_insert(entries, key, value) == entries.push((key, value)),
    decreases entries.len(),
{
    if entries.len() > 0 {
        let rest = entries.drop_first();
        assert forall|j: int| 0 <= j < rest.len() implies (#[trigger] rest[j]).0 != key by {
            assert(rest[j] == entries[j + 1]);
        }
        lemma_insert_absent(rest, key, value);
        assert(entries[0].0 != key);
        assert(entries_insert(entries, key, value) =~= entries.push((key, value)));
    } else {
        assert(entries_insert(entries, key, value) =~= entries.push((key, value)));
    }
}

// ---------------------------------------------------------------------------
// Executable code
// ---------------------------------------------------------------------------

impl JsonNumber {
    /// The number `v`, written as JSON writes an integer.
    pub fn from_i64(v: i64) -> (r: JsonNumber)
        ensures
            r.text@ == int_decimal(v as int),
            r.int == Some(v),
            r.uint == (if v >= 0 { Some(v as u64) } else { None::<u64> }),
    {
        JsonNumber { text: decimal_of_i64(v), int: Some(v), uint: if v >= 0 { Some(v as u64) } else { None } }
    }
}

impl JsonNumber {
    /// The number `v`, written as JSON writes an unsigned integer.
    pub fn from_u64(v: u64) -> (r: JsonNumber)
        ensures
            r.text@ == int_decimal(v as int),
            r.int == (if v <= i64::MAX as u64 { Some(v as i64) } else { None::<i64> }),
            r.uint == Some(v),
    {
        JsonNumber { text: decimal_of_u128(v as u128), int: if v <= i64::MAX as u64 { Some(v as i64) } else { None }, uint: Some(v) }
    }
}

/// A deep copy of `items`, with the same model.
pub fn duplicate_items(items: &Vec<JsonValue>) -> (r: Vec<JsonValue>)
    ensures
        items_view(r@) == items_view(items@),
    decreases items@, 1int,
{
    let mut out: Vec<JsonValue> = Vec::new();
    let mut i: usize = 0;
    while i < items.len()
        invariant
            i <= items.len(),
            items_view(out@) == items_view(items@.take(i as int)),
        decreases items.len() - i,
    {
        let item = items[i].duplicate();
        let ghost before = out@;
        out.push(item);
        proof {
            assert(out@.drop_last() == before);
            assert(items@.take(i + 1).drop_last() == items@.take(i as int));
        }
        i += 1;
    }
    assert(items@.take(items.len() as int) == items@);
    out
}

/// A deep copy of `entries`, with the same model.
pub fn duplicate_entries(entries: &Vec<(String, JsonValue)>) -> (r: Vec<(String, JsonValue)>)
    ensures
        entries_view(r@) == entries_view(entries@),
    decreases entries@, 1int,
{
    let mut out: Vec<(String, JsonValue)> = Vec::new();
    let mut i: usize = 0;
    while i < entries.len()
        invariant
            i <= entries.len(),
            entries_view(out@) == entries_view(entries@.take(i as int)),
        decreases entries.len() - i,
    {
        let value = entries[i].1.duplicate();
        let ghost before = out@;
        out.push((entries[i].0.clone(), value));
        proof {
            assert(out@.drop_last() == before);
            assert(entries@.take(i + 1).drop_last() == entries@.take(i as int));
        }
        i += 1;
    }
    assert(entries@.take(entries.len() as int) == entries@);
    out
}

impl JsonValue {
    /// A JSON string holding `s`.
    pub fn text(s: &str) -> (r: JsonValue)
        ensures
            r@ == JsonView::Str(s@),
    {
        JsonValue::String(owned(s))
    }

    /// A JSON integer.
    pub fn integer(v: i64) -> (r: JsonValue)
        ensures
            r@ == JsonView::Number(int_decimal(v as int), Some(v), if v >= 0 { Some(v as u64) } else { None::<u64> }),
    {
        JsonValue::Number(JsonNumber::from_i64(v))
    }

    /// A deep copy, with the same model as `self`.
    pub fn duplicate(&self) -> (r: JsonValue)
        ensures
            r@ == self@,
        decreases *self, 0int,
    {
        match self {
            JsonValue::Null => JsonValue::Null,
            JsonValue::Bool(b) => JsonValue::Bool(*b),
            JsonValue::Number(n) => JsonValue::Number(JsonNumber { text: n.text.clone(), int: n.int, uint: n.uint }),
            JsonValue::String(s) => JsonValue::String(s.clone()),
            JsonValue::Array(items) => JsonValue::Array(duplicate_items(items)),
            JsonValue::Object(entries) => JsonValue::Object(duplicate_entries(entries)),
        }
    }

    /// `value.get(key)`: the member `key` of an object.
    pub fn get(&self, key: &str) -> (r: Option<&JsonValue>)
        ensures
            match r {
                Some(x) => self@.get(key@) == Some(x@),
                None => self@.get(key@) is None,
            },
    {
        match self {
            JsonValue::Object(entries) => {
                let ghost model = entries_view(entries@);
                proof { lemma_entries_view(entries@); }
                let mut i: usize = 0;
                assert(model.skip(0) == model);
                while i < entries.len()
                    invariant
                        i <= entries.len(),
                        model == entries_view(entries@),
                        self@ == JsonView::Object(model),
                        model.len() == entries.len(),
                        forall|k: int| 0 <= k < entries.len() ==> #[trigger] model[k] == (entries@[k].0@, json_view(entries@[k].1)),
                        entries_get(model, key@) == entries_get(model.skip(i as int), key@),
                    decreases entries.len() - i,
                {
                    assert(model.skip(i as int).drop_first() == model.skip(i + 1));
                    assert(model.skip(i as int)[0] == model[i as int]);
                    if str_eq(entries[i].0.as_str(), key) {
                        return Some(&entries[i].1);
                    }
                    i += 1;
                }
                None
            },
            _ => None,
        }
    }

    /// The text of a JSON string.
    pub fn as_str(&self) -> (r: Option<&String>)
        ensures
            match r {
                Some(s) => self@.as_str() == Some(s@),
                None => self@.as_str() is None,
            },
    {
        match self {
            JsonValue::String(s) => Some(s),
            _ => None,
        }
    }

    pub fn as_bool(&self) -> (r: Option<bool>)
        ensures
            r == self@.as_bool(),
    {
        match self {
            JsonValue::Bool(b) => Some(*b),
            _ => None,
        }
    }

    pub fn as_i64(&self) -> (r: Option<i64>)
        ensures
            r == self@.as_i64(),
    {
        match self {
            JsonValue::Number(n) => n.int,
            _ => None,
        }
    }

    pub fn as_u64(&self) -> (r: Option<u64>)
        ensures
            r == self@.as_u64(),
    {
        match self {
            JsonValue::Number(n) => n.uint,
            _ => None,
        }
    }

    pub fn as_array(&self) -> (r: Option<&Vec<JsonValue>>)
        ensures
            match r {
                Some(v) => self@.as_array() == Some(items_view(v@)),
                None => self@.as_array() is None,
            },
    {
        match self {
            JsonValue::Array(items) => Some(items),
            _ => None,
        }
    }

    /// `value[key] = new`: sets the member `key`; `null` becomes an object
    /// first, as `serde_json` does. Other values are left out by `requires`,
    /// since indexing them panics.
    pub fn set(&mut self, key: &str, value: JsonValue)
        requires
            old(self)@ is Object || old(self)@ is Null,
        ensures
            final(self)@ is Object,
            final(self)@ == set_spec(old(self)@, key@, value@),
            forall|q: Seq<char>| #[trigger] final(self)@.get(q) == (if q == key@ { Some(value@) } else { old(self)@.get(q) }),
    {
        if let JsonValue::Null = self {
            *self = JsonValue::Object(Vec::new());
            assert(entries_view(Seq::<(String, JsonValue)>::empty()) == Seq::<(Seq<char>, JsonView)>::empty());
        }
        if let JsonValue::Object(entries) = self {
            let k = owned(key);
            let ghost old_model = entries_view(entries@);
            insert_entry(entries, k, value);
            proof {
                assert forall|q: Seq<char>| #[trigger] entries_get(entries_view(entries@), q) == (if q == key@ { Some(value@) } else { entries_get(old_model, q) }) by {
                    lemma_entries_insert_get(old_model, key@, value@, q);
                }
            }
        }
    }
}

/// `value[key] = new` on an object (or on `null`, which becomes an empty
/// object first).
pub open spec fn set_spec(v: JsonView, key: Seq<char>, value: JsonView) -> JsonView {
    match v {
        JsonView::Object(e) => JsonView::Object(entries_insert(e, key, value)),
        _ => JsonView::Object(seq![(key, value)]),
    }
}

/// Sets `key` to `value` among `entries`, in place where the key is present.
pub fn insert_entry(entries: &mut Vec<(String, JsonValue)>, key: String, value: JsonValue)
    ensures
        entries_view(final(entries)@) == entries_insert(entries_view(old(entries)@), key@, value@),
{
    let ghost model = entries_view(entries@);
    proof { lemma_entries_view(entries@); }
    let mut i: usize = 0;
    let mut found = false;
    while i < entries.len()
        invariant
            i <= entries.len(),
            model == entries_view(entries@),
            model.len() == entries.len(),
            forall|k: int| 0 <= k < entries.len() ==> #[trigger] model[k] == (entries@[k].0@, json_view(entries@[k].1)),
            forall|j: int| 0 <= j < i ==> (#[trigger] model[j]).0 != key@,
            found ==> i < entries.len() && model[i as int].0 == key@,
        ensures
            found ==> i < entries.len() && model[i as int].0 == key@,
            !found ==> i == entries.len(),
            forall|j: int| 0 <= j < i ==> (#[trigger] model[j]).0 != key@,
        decreases entries.len() - i,
    {
        if str_eq(entries[i].0.as_str(), key.as_str()) {
            found = true;
            break;
        }
        i += 1;
    }
    let ghost start = entries@;
    if found {
        entries.set(i, (key, value));
        proof {
            lemma_insert_at(model, key@, value@, i as int);
            lemma_entries_view(entries@);
            assert(entries_view(entries@) =~= model.update(i as int, (key@, value@)));
        }
    } else {
        proof { lemma_insert_absent(model, key@, value@); }
        entries.push((key, value));
        proof {
            assert(entries@.drop_last() == start);
        }
    }
}

/// Removing from a longer list: the new last entry stays unless it has the key.
pub proof fn lemma_entries_remove_push(entries: Seq<(Seq<char>, JsonView)>, e: (Seq<char>, JsonView), key: Seq<char>)
    ensures
        entries_remove(entries.push(e), key) == (if e.0 == key { entries_remove(entries, key) } else { entries_remove(entries, key).push(e) }),
    decreases entries.len(),
{
    if entries.len() == 0 {
        assert(entries.push(e).drop_first().len() == 0);
        assert(entries_remove(entries.push(e).drop_first(), key).len() == 0);
        assert(entries.push(e)[0] == e);
        assert(entries_remove(entries.push(e), key) =~= (if e.0 == key { entries_remove(entries, key) } else { entries_remove(entries, key).push(e) }));
    } else {
        lemma_entries_remove_push(entries.drop_first(), e, key);
        assert(entries.push(e).drop_first() =~= entries.drop_first().push(e));
        assert(entries.push(e)[0] == entries[0]);
        let rest = entries_remove(entries.drop_first(), key);
        if entries[0].0 != key {
            assert(entries_remove(entries, key) == seq![entries[0]] + rest);
            assert((seq![entries[0]] + rest).push(e) =~= seq![entries[0]] + rest.push(e));
        }
        assert(entries_remove(entries.push(e), key) =~= (if e.0 == key { entries_remove(entries, key) } else { entries_remove(entries, key).push(e) }));
    }
}

/// A copy of `entries` without the entries under `key`.
pub fn entries_without(entries: &Vec<(String, JsonValue)>, key: &str) -> (r: Vec<(String, JsonValue)>)
    ensures
        entries_view(r@) == entries_remove(entries_view(entries@), key@),
{
    proof { lemma_entries_view(entries@); }
    let ghost model = entries_view(entries@);
    let mut out: Vec<(String, JsonValue)> = Vec::new();
    let mut i: usize = 0;
    while i < entries.len()
        invariant
            i <= entries.len(),
            model == entries_view(entries@),
            model.len() == entries.len(),
            forall|k: int| 0 <= k < entries.len() ==> #[trigger] model[k] == (entries@[k].0@, json_view(entries@[k].1)),
            entries_view(out@) == entries_remove(model.take(i as int), key@),
        decreases entries.len() - i,
    {
        proof {
            assert(model.take(i + 1) == model.take(i as int).push(model[i as int]));
            lemma_entries_remove_push(model.take(i as int), model[i as int], key@);
        }
        if !str_eq(entries[i].0.as_str(), key) {
            let value = entries[i].1.duplicate();
            let ghost before = out@;
            out.push((entries[i].0.clone(), value));
            assert(out@.drop_last() == before);
        }
        i += 1;
    }
    assert(model.take(entries.len() as int) == model);
    out
}

} // verus!
