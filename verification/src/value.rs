//! Structured values: what a module hands back and what later tasks read.

use crate::text::str_eq;
use vstd::prelude::*;

verus! {

/// A number as it is stored in a structured value. Arithmetic is never done on
/// it; a floating-point number is kept as its IEEE-754 binary64 bit pattern.
#[derive(Clone, Copy, Debug, PartialEq, Eq)]
pub enum Number {
    PosInt(u64),
    NegInt(i64),
    Float(u64),
}

impl Number {
    /// The number that stands for a signed integer.
    pub open spec fn of_int(v: int) -> Number {
        if v < 0 {
            Number::NegInt(v as i64)
        } else {
            Number::PosInt(v as u64)
        }
    }

    /// The number that stands for `v`.
    pub fn from_i64(v: i64) -> (r: Number)
        ensures
            r == Number::of_int(v as int),
    {
        if v < 0 {
            Number::NegInt(v)
        } else {
            Number::PosInt(v as u64)
        }
    }
}

/// A recursive structured value. An object is a list of entries; an entry is
/// found by its key, and of two entries with one key the first is the one seen.
#[derive(Debug, PartialEq, Eq)]
pub enum Value {
    Null,
    Bool(bool),
    Number(Number),
    String(String),
    Array(Vec<Value>),
    Object(Vec<(String, Value)>),
}

/// The mathematical content of a [`Value`].
pub enum Json {
    Null,
    Bool(bool),
    Number(Number),
    String(Seq<char>),
    Array(Seq<Json>),
    Object(Seq<(Seq<char>, Json)>),
}

impl Json {
    /// Null, booleans, numbers and strings: values with nothing inside to walk into.
    pub open spec fn is_scalar(self) -> bool {
        !(self is Array) && !(self is Object)
    }
}

/// The content of a value, taken apart level by level.
pub open spec fn model(v: Value) -> Json
    decreases v,
{
    match v {
        Value::Null => Json::Null,
        Value::Bool(b) => Json::Bool(b),
        Value::Number(n) => Json::Number(n),
        Value::String(s) => Json::String(s@),
        Value::Array(items) => Json::Array(
            Seq::new(
                items.len() as nat,
                |i: int|
                    if 0 <= i < items.len() {
                        model(items[i])
                    } else {
                        Json::Null
                    },
            ),
        ),
        Value::Object(entries) => Json::Object(
            Seq::new(
                entries.len() as nat,
                |i: int|
                    if 0 <= i < entries.len() {
                        (entries[i].0@, model(entries[i].1))
                    } else {
                        (Seq::empty(), Json::Null)
                    },
            ),
        ),
    }
}

impl View for Value {
    type V = Json;

    open spec fn view(&self) -> Json {
        model(*self)
    }
}

/// The contents of an array's items, one by one.
pub open spec fn items_view(items: Vec<Value>) -> Seq<Json> {
    Seq::new(items.len() as nat, |i: int| items[i]@)
}

/// The contents of an object's entries, one by one.
pub open spec fn entries_view(entries: Vec<(String, Value)>) -> Seq<(Seq<char>, Json)> {
    Seq::new(entries.len() as nat, |i: int| (entries[i].0@, entries[i].1@))
}

/// An array's content is that of its items, in order.
pub proof fn lemma_array_view(items: Vec<Value>)
    ensures
        Value::Array(items)@ == Json::Array(items_view(items)),
{
    let inner = model(Value::Array(items))->Array_0;
    assert(inner.len() == items.len());
    assert forall|i: int| 0 <= i < items.len() implies inner[i] == items_view(items)[i] by {}
    assert(inner =~= items_view(items));
}

/// An object's content is that of its entries, in order.
pub proof fn lemma_object_view(entries: Vec<(String, Value)>)
    ensures
        Value::Object(entries)@ == Json::Object(entries_view(entries)),
{
    let inner = model(Value::Object(entries))->Object_0;
    assert(inner.len() == entries.len());
    assert forall|i: int| 0 <= i < entries.len() implies inner[i] == entries_view(entries)[i] by {}
    assert(inner =~= entries_view(entries));
}

/// The value stored under `key` in an object's entries: that of the first entry
/// with this key, if there is one.
pub open spec fn object_get(entries: Seq<(Seq<char>, Json)>, key: Seq<char>) -> Option<Json>
    decreases entries.len(),
{
    if entries.len() == 0 {
        None
    } else if entries[0].0 == key {
        Some(entries[0].1)
    } else {
        object_get(entries.skip(1), key)
    }
}

impl Clone for Value {
    /// A deep copy: the copy has the same content as the value it was made from.
    #[verifier::loop_isolation(false)]
    fn clone(&self) -> (r: Value)
        ensures
            r@ == self@,
        decreases self,
    {
        match self {
            Value::Null => Value::Null,
            Value::Bool(b) => Value::Bool(*b),
            Value::Number(n) => Value::Number(*n),
            Value::String(s) => Value::String(s.clone()),
            Value::Array(items) => {
                let mut copy: Vec<Value> = Vec::new();
                let mut i: usize = 0;
                while i < items.len()
                    invariant
                        i <= items.len(),
                        copy.len() == i,
                        forall|j: int| 0 <= j < i ==> copy[j]@ == items[j]@,
                    decreases items.len() - i,
                {
                    let item = items[i].clone();
                    copy.push(item);
                    i += 1;
                }
                proof {
                    lemma_array_view(copy);
                    lemma_array_view(*items);
                    assert(items_view(copy) =~= items_view(*items));
                }
                Value::Array(copy)
            },
            Value::Object(entries) => {
                let mut copy: Vec<(String, Value)> = Vec::new();
                let mut i: usize = 0;
                while i < entries.len()
                    invariant
                        i <= entries.len(),
                        copy.len() == i,
                        forall|j: int|
                            0 <= j < i ==> copy[j].0@ == entries[j].0@ && copy[j].1@
                                == entries[j].1@,
                    decreases entries.len() - i,
                {
                    let key = entries[i].0.clone();
                    let item = entries[i].1.clone();
                    copy.push((key, item));
                    i += 1;
                }
                proof {
                    lemma_object_view(copy);
                    lemma_object_view(*entries);
                    assert(entries_view(copy) =~= entries_view(*entries));
                }
                Value::Object(copy)
            },
        }
    }
}

impl Value {
    /// The entry of an object's list that `key` names, if any.
    pub fn entry<'a>(entries: &'a Vec<(String, Value)>, key: &str) -> (r: Option<&'a Value>)
        ensures
            match r {
                Some(v) => object_get(entries_view(*entries), key@) == Some(v@),
                None => object_get(entries_view(*entries), key@).is_none(),
            },
    {
        let ghost all = entries_view(*entries);
        let mut i: usize = 0;
        assert(all.skip(0) =~= all);
        while i < entries.len()
            invariant
                i <= entries.len(),
                all == entries_view(*entries),
                object_get(all, key@) == object_get(all.skip(i as int), key@),
            decreases entries.len() - i,
        {
            let k: &str = entries[i].0.as_str();
            proof {
                assert(all.skip(i as int)[0] == all[i as int]);
                assert(all.skip(i as int).skip(1) =~= all.skip(i + 1));
            }
            if str_eq(k, key) {
                return Some(&entries[i].1);
            }
            i += 1;
        }
        None
    }
}

/// A list of texts, as content.
pub open spec fn texts_json(texts: Seq<Seq<char>>) -> Json {
    Json::Array(Seq::new(texts.len(), |i: int| Json::String(texts[i])))
}

/// A map from texts to texts given as a list of pairs, as content.
pub open spec fn pairs_json(pairs: Seq<(Seq<char>, Seq<char>)>) -> Json {
    Json::Object(Seq::new(pairs.len(), |i: int| (pairs[i].0, Json::String(pairs[i].1))))
}

impl Value {
    /// A list of texts as a value.
    pub fn from_texts(texts: &Vec<String>) -> (r: Value)
        ensures
            r@ == texts_json(Seq::new(texts.len() as nat, |i: int| texts[i]@)),
    {
        let mut items: Vec<Value> = Vec::new();
        let mut i: usize = 0;
        while i < texts.len()
            invariant
                i <= texts.len(),
                items.len() == i,
                forall|j: int| 0 <= j < i ==> items[j]@ == Json::String(texts[j]@),
            decreases texts.len() - i,
        {
            items.push(Value::String(texts[i].clone()));
            i += 1;
        }
        proof {
            lemma_array_view(items);
            assert(items_view(items) =~= texts_json(
                Seq::new(texts.len() as nat, |i: int| texts[i]@),
            )->Array_0);
        }
        Value::Array(items)
    }

    /// A list of pairs of texts as a value: an object with one entry per pair.
    pub fn from_pairs(pairs: &Vec<(String, String)>) -> (r: Value)
        ensures
            r@ == pairs_json(Seq::new(pairs.len() as nat, |i: int| (pairs[i].0@, pairs[i].1@))),
    {
        let mut entries: Vec<(String, Value)> = Vec::new();
        let mut i: usize = 0;
        while i < pairs.len()
            invariant
                i <= pairs.len(),
                entries.len() == i,
                forall|j: int|
                    0 <= j < i ==> entries[j].0@ == pairs[j].0@ && entries[j].1@ == Json::String(
                        pairs[j].1@,
                    ),
            decreases pairs.len() - i,
        {
            entries.push((pairs[i].0.clone(), Value::String(pairs[i].1.clone())));
            i += 1;
        }
        proof {
            lemma_object_view(entries);
            assert(entries_view(entries) =~= pairs_json(
                Seq::new(pairs.len() as nat, |i: int| (pairs[i].0@, pairs[i].1@)),
            )->Object_0);
        }
        Value::Object(entries)
    }
}

} // verus!
