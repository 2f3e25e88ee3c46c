//! The host value representation: the dynamically typed value model of the
//! embedding runtime that payloads are converted into at the process boundary.
//!
//! Numbers keep their exact IEEE 754 bit patterns (`Float32`, `Float64`), so
//! no conversion in this crate is lossy; the embedding side reinterprets the
//! bits as its native numbers.

use vstd::prelude::*;

verus! {

broadcast use vstd::std_specs::vec::axiom_vec_index_decreases, vstd::std_specs::vec::axiom_vec_decreases_to_view;

/// The bit pattern of an IEEE 754 single-precision number.
#[derive(Clone, Copy, Debug, PartialEq, Eq, Structural)]
pub struct Float32 {
    pub bits: u32,
}

/// The bit pattern of an IEEE 754 double-precision number.
#[derive(Clone, Copy, Debug, PartialEq, Eq, Structural)]
pub struct Float64 {
    pub bits: u64,
}

/// A dynamically typed host value: booleans, numbers, strings, ordered lists,
/// and associative containers of string-keyed entries (order preserved).
#[derive(Debug, PartialEq)]
pub enum HostValue {
    Bool(bool),
    Int(i64),
    Single(Float32),
    Double(Float64),
    Str(String),
    List(Vec<HostValue>),
    Object(Vec<(String, HostValue)>),
}

/// The mathematical model of a `HostValue`.
#[verifier::ext_equal]
pub enum HostModel {
    Bool(bool),
    Int(i64),
    Single(Float32),
    Double(Float64),
    Str(Seq<char>),
    List(Seq<HostModel>),
    Object(Seq<(Seq<char>, HostModel)>),
}

/// The mathematical model of a host value.
pub open spec fn host_model_of(v: HostValue) -> HostModel
    decreases v,
{
    match v {
        HostValue::Bool(b) => HostModel::Bool(b),
        HostValue::Int(n) => HostModel::Int(n),
        HostValue::Single(f) => HostModel::Single(f),
        HostValue::Double(f) => HostModel::Double(f),
        HostValue::Str(s) => HostModel::Str(s@),
        HostValue::List(items) => HostModel::List(items_model(items@)),
        HostValue::Object(entries) => HostModel::Object(entries_model(entries@)),
    }
}

/// The model of a sequence of list items.
pub open spec fn items_model(items: Seq<HostValue>) -> Seq<HostModel>
    decreases items,
{
    Seq::new(
        items.len(),
        |i: int|
            if 0 <= i < items.len() {
                host_model_of(items[i])
            } else {
                HostModel::Bool(false)
            },
    )
}

/// The model of a sequence of object entries.
pub open spec fn entries_model(entries: Seq<(String, HostValue)>) -> Seq<(Seq<char>, HostModel)>
    decreases entries,
{
    Seq::new(
        entries.len(),
        |i: int|
            if 0 <= i < entries.len() {
                (entries[i].0@, host_model_of(entries[i].1))
            } else {
                (Seq::empty(), HostModel::Bool(false))
            },
    )
}

impl View for HostValue {
    type V = HostModel;

    open spec fn view(&self) -> HostModel {
        host_model_of(*self)
    }
}

/// The value of the first entry whose key is `key`, if any: the meaning of a
/// field lookup in an associative host container.
pub open spec fn lookup(entries: Seq<(Seq<char>, HostModel)>, key: Seq<char>) -> Option<HostModel>
    decreases entries.len(),
{
    if entries.len() == 0 {
        None
    } else if entries[0].0 == key {
        Some(entries[0].1)
    } else {
        lookup(entries.drop_first(), key)
    }
}

/// Finds the first entry of `entries` whose key equals `key`.
pub fn find_entry<'a>(entries: &'a Vec<(String, HostValue)>, key: &String) -> (r: Option<
    &'a HostValue,
>)
    ensures
        match r {
            Some(v) => lookup(entries_model(entries@), key@) == Some(v@),
            None => lookup(entries_model(entries@), key@) is None,
        },
{
    let ghost m = entries_model(entries@);
    proof {
        assert(m.subrange(0, m.len() as int) =~= m);
    }
    let mut i: usize = 0;
    while i < entries.len()
        invariant
            0 <= i <= entries.len(),
            m == entries_model(entries@),
            m.len() == entries.len(),
            lookup(m, key@) == lookup(m.subrange(i as int, m.len() as int), key@),
        decreases entries.len() - i,
    {
        if entries[i].0 == *key {
            assert(m.subrange(i as int, m.len() as int)[0] == m[i as int]);
            return Some(&entries[i].1);
        }
        proof {
            let tail = m.subrange(i as int, m.len() as int);
            assert(tail[0] == m[i as int]);
            assert(tail.drop_first() =~= m.subrange(i + 1, m.len() as int));
        }
        i = i + 1;
    }
    proof {
        assert(m.subrange(i as int, m.len() as int).len() == 0);
    }
    None
}

} // verus!
