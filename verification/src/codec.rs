//! The tagged wire shape of a payload and its verified codec.
//!
//! A payload crosses the boundary as a host container with a `type` entry
//! (the variant's name in lowercase-with-underscores form) and, for every
//! variant but the empty one, a `content` entry holding the rendering of the
//! record's fields. Decoding rejects malformed input with a structured error
//! instead of constructing a partially valid record; encoding followed by
//! decoding gives the original payload back.

use vstd::prelude::*;
use crate::data::{
    Data, DataModel, Init, InitModel, PostInit, PostInitModel, Query, QueryModel, Test, TestModel,
    pairs_model, strings_model, unique_keys,
};
use crate::host::{
    HostModel, HostValue, entries_model, find_entry, host_model_of, items_model, lookup,
};
use crate::convert::{
    data_host, init_host, post_init_host, query_host, str_list_host, str_map_host, test_host,
};
use crate::timestamp::{Timestamp, parse_rfc3339, parsed_rfc3339, timestamp_roundtrips};

verus! {

/// Why a host value could not be decoded into a payload: the input was
/// malformed at the wire-shape level. Each variant names the defect.
#[derive(Clone, Copy, Debug, PartialEq, Eq, Structural)]
pub enum DecodeError {
    /// The value, or a part that must be an associative container, is not one.
    NotAnObject,
    /// A required entry is absent.
    MissingField,
    /// An entry holds a value of the wrong type.
    WrongFieldType,
    /// The `type` entry names no known variant.
    UnknownTag,
    /// A string-keyed mapping repeats a key.
    DuplicateKey,
    /// A timestamp entry does not parse as RFC 3339, or lies outside the
    /// supported range.
    InvalidTimestamp,
}

/// The string a field must hold.
pub open spec fn req_str(s: Seq<(Seq<char>, HostModel)>, key: Seq<char>) -> Result<
    Seq<char>,
    DecodeError,
> {
    match lookup(s, key) {
        Some(HostModel::Str(x)) => Ok(x),
        Some(_) => Err(DecodeError::WrongFieldType),
        None => Err(DecodeError::MissingField),
    }
}

/// The boolean a field must hold.
pub open spec fn req_bool(s: Seq<(Seq<char>, HostModel)>, key: Seq<char>) -> Result<
    bool,
    DecodeError,
> {
    match lookup(s, key) {
        Some(HostModel::Bool(x)) => Ok(x),
        Some(_) => Err(DecodeError::WrongFieldType),
        None => Err(DecodeError::MissingField),
    }
}

/// The integer a field must hold.
pub open spec fn req_int(s: Seq<(Seq<char>, HostModel)>, key: Seq<char>) -> Result<
    i64,
    DecodeError,
> {
    match lookup(s, key) {
        Some(HostModel::Int(x)) => Ok(x),
        Some(_) => Err(DecodeError::WrongFieldType),
        None => Err(DecodeError::MissingField),
    }
}

/// The single-precision bit pattern a field must hold.
pub open spec fn req_single(s: Seq<(Seq<char>, HostModel)>, key: Seq<char>) -> Result<
    u32,
    DecodeError,
> {
    match lookup(s, key) {
        Some(HostModel::Single(x)) => Ok(x.bits),
        Some(_) => Err(DecodeError::WrongFieldType),
        None => Err(DecodeError::MissingField),
    }
}

/// The double-precision bit pattern a field must hold.
pub open spec fn req_double(s: Seq<(Seq<char>, HostModel)>, key: Seq<char>) -> Result<
    u64,
    DecodeError,
> {
    match lookup(s, key) {
        Some(HostModel::Double(x)) => Ok(x.bits),
        Some(_) => Err(DecodeError::WrongFieldType),
        None => Err(DecodeError::MissingField),
    }
}

/// The timestamp a field must hold, as the RFC 3339 string it denotes.
pub open spec fn req_ts(s: Seq<(Seq<char>, HostModel)>, key: Seq<char>) -> Result<
    Timestamp,
    DecodeError,
> {
    match lookup(s, key) {
        Some(HostModel::Str(x)) => match parsed_rfc3339(x) {
            Some(p) => if (Timestamp { epoch_seconds: p.0, nanos: p.1 }).wf() {
                Ok(Timestamp { epoch_seconds: p.0, nanos: p.1 })
            } else {
                Err(DecodeError::InvalidTimestamp)
            },
            None => Err(DecodeError::InvalidTimestamp),
        },
        Some(_) => Err(DecodeError::WrongFieldType),
        None => Err(DecodeError::MissingField),
    }
}

/// The strings of a host list, all of whose items must be strings.
pub open spec fn str_seq_from(ms: Seq<HostModel>) -> Result<Seq<Seq<char>>, DecodeError>
    decreases ms.len(),
{
    if ms.len() == 0 {
        Ok(Seq::empty())
    } else {
        match str_seq_from(ms.drop_last()) {
            Ok(pre) => match ms.last() {
                HostModel::Str(x) => Ok(pre.push(x)),
                _ => Err(DecodeError::WrongFieldType),
            },
            Err(e) => Err(e),
        }
    }
}

/// Some entry of `args` has key `k`.
pub open spec fn contains_key(args: Seq<(Seq<char>, Seq<char>)>, k: Seq<char>) -> bool {
    exists|i: int| 0 <= i < args.len() && args[i].0 == k
}

/// The string-to-string entries of a host container, whose values must all
/// be strings and whose keys must be pairwise distinct.
pub open spec fn arg_seq_from(ms: Seq<(Seq<char>, HostModel)>) -> Result<
    Seq<(Seq<char>, Seq<char>)>,
    DecodeError,
>
    decreases ms.len(),
{
    if ms.len() == 0 {
        Ok(Seq::empty())
    } else {
        match arg_seq_from(ms.drop_last()) {
            Ok(pre) => match ms.last().1 {
                HostModel::Str(x) => if contains_key(pre, ms.last().0) {
                    Err(DecodeError::DuplicateKey)
                } else {
                    Ok(pre.push((ms.last().0, x)))
                },
                _ => Err(DecodeError::WrongFieldType),
            },
            Err(e) => Err(e),
        }
    }
}

/// The ordered string list a field must hold.
pub open spec fn req_str_list(s: Seq<(Seq<char>, HostModel)>, key: Seq<char>) -> Result<
    Seq<Seq<char>>,
    DecodeError,
> {
    match lookup(s, key) {
        Some(HostModel::List(ms)) => str_seq_from(ms),
        Some(_) => Err(DecodeError::WrongFieldType),
        None => Err(DecodeError::MissingField),
    }
}

/// The string-keyed mapping a field must hold.
pub open spec fn req_args(s: Seq<(Seq<char>, HostModel)>, key: Seq<char>) -> Result<
    Seq<(Seq<char>, Seq<char>)>,
    DecodeError,
> {
    match lookup(s, key) {
        Some(HostModel::Object(ms)) => arg_seq_from(ms),
        Some(_) => Err(DecodeError::WrongFieldType),
        None => Err(DecodeError::MissingField),
    }
}

/// A field result and the model a host value decodes to name the same
/// variant kinds.
proof fn lemma_model_variant(v: HostValue)
    ensures
        (host_model_of(v) is Str) == (v is Str),
        (host_model_of(v) is Bool) == (v is Bool),
        (host_model_of(v) is Int) == (v is Int),
        (host_model_of(v) is Single) == (v is Single),
        (host_model_of(v) is Double) == (v is Double),
        (host_model_of(v) is List) == (v is List),
        (host_model_of(v) is Object) == (v is Object),
{
}

fn get_str(entries: &Vec<(String, HostValue)>, key: &String) -> (r: Result<String, DecodeError>)
    ensures
        match r {
            Ok(v) => req_str(entries_model(entries@), key@) == Ok::<Seq<char>, DecodeError>(v@),
            Err(e) => req_str(entries_model(entries@), key@) == Err::<Seq<char>, DecodeError>(e),
        },
{
    match find_entry(entries, key) {
        Some(v) => match v {
            HostValue::Str(x) => Ok(x.clone()),
            _ => {
                proof {
                    lemma_model_variant(*v);
                }
                Err(DecodeError::WrongFieldType)
            },
        },
        None => Err(DecodeError::MissingField),
    }
}

fn get_bool(entries: &Vec<(String, HostValue)>, key: &String) -> (r: Result<bool, DecodeError>)
    ensures
        match r {
            Ok(v) => req_bool(entries_model(entries@), key@) == Ok::<bool, DecodeError>(v),
            Err(e) => req_bool(entries_model(entries@), key@) == Err::<bool, DecodeError>(e),
        },
{
    match find_entry(entries, key) {
        Some(v) => match v {
            HostValue::Bool(x) => Ok(*x),
            _ => {
                proof {
                    lemma_model_variant(*v);
                }
                Err(DecodeError::WrongFieldType)
            },
        },
        None => Err(DecodeError::MissingField),
    }
}

fn get_int(entries: &Vec<(String, HostValue)>, key: &String) -> (r: Result<i64, DecodeError>)
    ensures
        match r {
            Ok(v) => req_int(entries_model(entries@), key@) == Ok::<i64, DecodeError>(v),
            Err(e) => req_int(entries_model(entries@), key@) == Err::<i64, DecodeError>(e),
        },
{
    match find_entry(entries, key) {
        Some(v) => match v {
            HostValue::Int(x) => Ok(*x),
            _ => {
                proof {
                    lemma_model_variant(*v);
                }
                Err(DecodeError::WrongFieldType)
            },
        },
        None => Err(DecodeError::MissingField),
    }
}

fn get_single(entries: &Vec<(String, HostValue)>, key: &String) -> (r: Result<u32, DecodeError>)
    ensures
        match r {
            Ok(v) => req_single(entries_model(entries@), key@) == Ok::<u32, DecodeError>(v),
            Err(e) => req_single(entries_model(entries@), key@) == Err::<u32, DecodeError>(e),
        },
{
    match find_entry(entries, key) {
        Some(v) => match v {
            HostValue::Single(x) => Ok(x.bits),
            _ => {
                proof {
                    lemma_model_variant(*v);
                }
                Err(DecodeError::WrongFieldType)
            },
        },
        None => Err(DecodeError::MissingField),
    }
}

fn get_double(entries: &Vec<(String, HostValue)>, key: &String) -> (r: Result<u64, DecodeError>)
    ensures
        match r {
            Ok(v) => req_double(entries_model(entries@), key@) == Ok::<u64, DecodeError>(v),
            Err(e) => req_double(entries_model(entries@), key@) == Err::<u64, DecodeError>(e),
        },
{
    match find_entry(entries, key) {
        Some(v) => match v {
            HostValue::Double(x) => Ok(x.bits),
            _ => {
                proof {
                    lemma_model_variant(*v);
                }
                Err(DecodeError::WrongFieldType)
            },
        },
        None => Err(DecodeError::MissingField),
    }
}

fn get_ts(entries: &Vec<(String, HostValue)>, key: &String) -> (r: Result<Timestamp, DecodeError>)
    ensures
        match r {
            Ok(v) => req_ts(entries_model(entries@), key@) == Ok::<Timestamp, DecodeError>(v),
            Err(e) => req_ts(entries_model(entries@), key@) == Err::<Timestamp, DecodeError>(e),
        },
{
    match find_entry(entries, key) {
        Some(v) => match v {
            HostValue::Str(x) => match parse_rfc3339(x.as_str()) {
                Some(p) => match Timestamp::new(p.0, p.1) {
                    Some(t) => Ok(t),
                    None => Err(DecodeError::InvalidTimestamp),
                },
                None => Err(DecodeError::InvalidTimestamp),
            },
            _ => {
                proof {
                    lemma_model_variant(*v);
                }
                Err(DecodeError::WrongFieldType)
            },
        },
        None => Err(DecodeError::MissingField),
    }
}

/// Once a prefix of the items fails to decode, the whole list fails the same
/// way.
proof fn lemma_str_seq_err(ms: Seq<HostModel>, i: int)
    requires
        0 <= i <= ms.len(),
        str_seq_from(ms.take(i)) is Err,
    ensures
        str_seq_from(ms) == str_seq_from(ms.take(i)),
    decreases ms.len() - i,
{
    if i < ms.len() {
        assert(ms.take(i + 1).drop_last() =~= ms.take(i));
        assert(ms.take(i + 1).last() == ms[i]);
        lemma_str_seq_err(ms, i + 1);
    } else {
        assert(ms.take(i) =~= ms);
    }
}

/// Once a prefix of the entries fails to decode, the whole mapping fails the
/// same way.
proof fn lemma_arg_seq_err(ms: Seq<(Seq<char>, HostModel)>, i: int)
    requires
        0 <= i <= ms.len(),
        arg_seq_from(ms.take(i)) is Err,
    ensures
        arg_seq_from(ms) == arg_seq_from(ms.take(i)),
    decreases ms.len() - i,
{
    if i < ms.len() {
        assert(ms.take(i + 1).drop_last() =~= ms.take(i));
        assert(ms.take(i + 1).last() == ms[i]);
        lemma_arg_seq_err(ms, i + 1);
    } else {
        assert(ms.take(i) =~= ms);
    }
}

fn get_str_list(entries: &Vec<(String, HostValue)>, key: &String) -> (r: Result<
    Vec<String>,
    DecodeError,
>)
    ensures
        match r {
            Ok(v) => req_str_list(entries_model(entries@), key@) == Ok::<
                Seq<Seq<char>>,
                DecodeError,
            >(strings_model(v@)),
            Err(e) => req_str_list(entries_model(entries@), key@) == Err::<
                Seq<Seq<char>>,
                DecodeError,
            >(e),
        },
{
    match find_entry(entries, key) {
        Some(v) => match v {
            HostValue::List(items) => {
                let ghost ms = items_model(items@);
                let mut out: Vec<String> = Vec::new();
                proof {
                    assert(lookup(entries_model(entries@), key@) == Some(HostModel::List(ms)));
                    assert(ms.take(0) =~= Seq::<HostModel>::empty());
                    assert(strings_model(out@) =~= Seq::<Seq<char>>::empty());
                }
                let mut i: usize = 0;
                while i < items.len()
                    invariant
                        0 <= i <= items@.len(),
                        ms == items_model(items@),
                        ms.len() == items@.len(),
                        lookup(entries_model(entries@), key@) == Some(HostModel::List(ms)),
                        out@.len() == i,
                        str_seq_from(ms.take(i as int)) == Ok::<Seq<Seq<char>>, DecodeError>(
                            strings_model(out@),
                        ),
                    decreases items@.len() - i,
                {
                    let item = &items[i];
                    proof {
                        assert(ms.take(i + 1).drop_last() =~= ms.take(i as int));
                        assert(ms.take(i + 1).last() == ms[i as int]);
                        assert(ms[i as int] == host_model_of(items@[i as int]));
                    }
                    match item {
                        HostValue::Str(x) => {
                            let ghost prev = out@;
                            out.push(x.clone());
                            proof {
                                assert(strings_model(out@) =~= strings_model(prev).push(x@));
                            }
                        },
                        _ => {
                            proof {
                                lemma_model_variant(*item);
                                assert(str_seq_from(ms.take(i + 1)) == Err::<
                                    Seq<Seq<char>>,
                                    DecodeError,
                                >(DecodeError::WrongFieldType));
                                lemma_str_seq_err(ms, i + 1);
                            }
                            return Err(DecodeError::WrongFieldType);
                        },
                    }
                    i = i + 1;
                }
                proof {
                    assert(ms.take(i as int) =~= ms);
                }
                Ok(out)
            },
            _ => {
                proof {
                    lemma_model_variant(*v);
                }
                Err(DecodeError::WrongFieldType)
            },
        },
        None => Err(DecodeError::MissingField),
    }
}

/// Whether one of the collected argument entries already has this key.
fn keys_contain(out: &Vec<(String, String)>, key: &String) -> (r: bool)
    ensures
        r == contains_key(pairs_model(out@), key@),
{
    let mut i: usize = 0;
    while i < out.len()
        invariant
            0 <= i <= out@.len(),
            forall|j: int| 0 <= j < i ==> out@[j].0@ != key@,
        decreases out@.len() - i,
    {
        if out[i].0 == *key {
            proof {
                assert(pairs_model(out@)[i as int].0 == key@);
            }
            return true;
        }
        i = i + 1;
    }
    proof {
        assert forall|j: int| 0 <= j < pairs_model(out@).len() implies pairs_model(out@)[j].0
            != key@ by {
            assert(pairs_model(out@)[j].0 == out@[j].0@);
        }
    }
    false
}

fn get_args(entries: &Vec<(String, HostValue)>, key: &String) -> (r: Result<
    Vec<(String, String)>,
    DecodeError,
>)
    ensures
        match r {
            Ok(v) => req_args(entries_model(entries@), key@) == Ok::<
                Seq<(Seq<char>, Seq<char>)>,
                DecodeError,
            >(pairs_model(v@)) && unique_keys(pairs_model(v@)),
            Err(e) => req_args(entries_model(entries@), key@) == Err::<
                Seq<(Seq<char>, Seq<char>)>,
                DecodeError,
            >(e),
        },
{
    match find_entry(entries, key) {
        Some(v) => match v {
            HostValue::Object(inner) => {
                let ghost ms = entries_model(inner@);
                let mut out: Vec<(String, String)> = Vec::new();
                proof {
                    assert(lookup(entries_model(entries@), key@) == Some(HostModel::Object(ms)));
                    assert(ms.take(0) =~= Seq::<(Seq<char>, HostModel)>::empty());
                    assert(pairs_model(out@) =~= Seq::<(Seq<char>, Seq<char>)>::empty());
                }
                let mut i: usize = 0;
                while i < inner.len()
                    invariant
                        0 <= i <= inner@.len(),
                        ms == entries_model(inner@),
                        ms.len() == inner@.len(),
                        lookup(entries_model(entries@), key@) == Some(HostModel::Object(ms)),
                        out@.len() == i,
                        arg_seq_from(ms.take(i as int)) == Ok::<
                            Seq<(Seq<char>, Seq<char>)>,
                            DecodeError,
                        >(pairs_model(out@)),
                        unique_keys(pairs_model(out@)),
                    decreases inner@.len() - i,
                {
                    let pair = &inner[i];
                    proof {
                        assert(ms.take(i + 1).drop_last() =~= ms.take(i as int));
                        assert(ms.take(i + 1).last() == ms[i as int]);
                        assert(ms[i as int] == (inner@[i as int].0@, host_model_of(
                            inner@[i as int].1,
                        )));
                    }
                    match &pair.1 {
                        HostValue::Str(x) => {
                            if keys_contain(&out, &pair.0) {
                                proof {
                                    assert(arg_seq_from(ms.take(i + 1)) == Err::<
                                        Seq<(Seq<char>, Seq<char>)>,
                                        DecodeError,
                                    >(DecodeError::DuplicateKey));
                                    lemma_arg_seq_err(ms, i + 1);
                                }
                                return Err(DecodeError::DuplicateKey);
                            }
                            let ghost prev = out@;
                            out.push((pair.0.clone(), x.clone()));
                            proof {
                                assert(pairs_model(out@) =~= pairs_model(prev).push(
                                    (pair.0@, x@),
                                ));
                                assert forall|a: int, b: int|
                                    0 <= a < b < pairs_model(out@).len() implies pairs_model(
                                    out@,
                                )[a].0 != pairs_model(out@)[b].0 by {
                                    if b < i {
                                        assert(pairs_model(out@)[a] == pairs_model(prev)[a]);
                                        assert(pairs_model(out@)[b] == pairs_model(prev)[b]);
                                    } else {
                                        assert(pairs_model(out@)[a] == pairs_model(prev)[a]);
                                        assert(pairs_model(out@)[b].0 == pair.0@);
                                        assert(!contains_key(pairs_model(prev), pair.0@));
                                    }
                                }
                            }
                        },
                        _ => {
                            proof {
                                lemma_model_variant(pair.1);
                                assert(arg_seq_from(ms.take(i + 1)) == Err::<
                                    Seq<(Seq<char>, Seq<char>)>,
                                    DecodeError,
                                >(DecodeError::WrongFieldType));
                                lemma_arg_seq_err(ms, i + 1);
                            }
                            return Err(DecodeError::WrongFieldType);
                        },
                    }
                    i = i + 1;
                }
                proof {
                    assert(ms.take(i as int) =~= ms);
                }
                Ok(out)
            },
            _ => {
                proof {
                    lemma_model_variant(*v);
                }
                Err(DecodeError::WrongFieldType)
            },
        },
        None => Err(DecodeError::MissingField),
    }
}

/// The wire tag of a variant: its name in lowercase-with-underscores form.
pub open spec fn tag_of(d: DataModel) -> Seq<char> {
    match d {
        DataModel::Empty => "empty"@,
        DataModel::Test(_) => "test"@,
        DataModel::Init(_) => "init"@,
        DataModel::PostInit(_) => "post_init"@,
        DataModel::Query(_) => "query"@,
    }
}

pub open spec fn decode_test_fields(s: Seq<(Seq<char>, HostModel)>) -> Result<
    TestModel,
    DecodeError,
> {
    if req_str(s, "foo"@) is Err {
        Err(req_str(s, "foo"@)->Err_0)
    } else {
        Ok(TestModel { foo: req_str(s, "foo"@)->Ok_0 })
    }
}

pub open spec fn decode_init_fields(s: Seq<(Seq<char>, HostModel)>) -> Result<
    InitModel,
    DecodeError,
> {
    if req_str(s, "server_name"@) is Err {
        Err(req_str(s, "server_name"@)->Err_0)
    } else if req_single(s, "price_per_object"@) is Err {
        Err(req_single(s, "price_per_object"@)->Err_0)
    } else if req_single(s, "territory_lifetime"@) is Err {
        Err(req_single(s, "territory_lifetime"@)->Err_0)
    } else if req_str(s, "territory_data"@) is Err {
        Err(req_str(s, "territory_data"@)->Err_0)
    } else if req_ts(s, "server_start_time"@) is Err {
        Err(req_ts(s, "server_start_time"@)->Err_0)
    } else if req_str(s, "extension_version"@) is Err {
        Err(req_str(s, "extension_version"@)->Err_0)
    } else {
        Ok(
            InitModel {
                server_name: req_str(s, "server_name"@)->Ok_0,
                price_per_object: req_single(s, "price_per_object"@)->Ok_0,
                territory_lifetime: req_single(s, "territory_lifetime"@)->Ok_0,
                territory_data: req_str(s, "territory_data"@)->Ok_0,
                server_start_time: req_ts(s, "server_start_time"@)->Ok_0,
                extension_version: req_str(s, "extension_version"@)->Ok_0,
            },
        )
    }
}

pub open spec fn decode_post_init_fields(s: Seq<(Seq<char>, HostModel)>) -> Result<
    PostInitModel,
    DecodeError,
> {
    if req_int(s, "gambling_modifier"@) is Err {
        Err(req_int(s, "gambling_modifier"@)->Err_0)
    } else if req_int(s, "gambling_payout"@) is Err {
        Err(req_int(s, "gambling_payout"@)->Err_0)
    } else if req_double(s, "gambling_randomizer_max"@) is Err {
        Err(req_double(s, "gambling_randomizer_max"@)->Err_0)
    } else if req_double(s, "gambling_randomizer_mid"@) is Err {
        Err(req_double(s, "gambling_randomizer_mid"@)->Err_0)
    } else if req_double(s, "gambling_randomizer_min"@) is Err {
        Err(req_double(s, "gambling_randomizer_min"@)->Err_0)
    } else if req_int(s, "gambling_win_chance"@) is Err {
        Err(req_int(s, "gambling_win_chance"@)->Err_0)
    } else if req_bool(s, "logging_add_player_to_territory"@) is Err {
        Err(req_bool(s, "logging_add_player_to_territory"@)->Err_0)
    } else if req_bool(s, "logging_demote_player"@) is Err {
        Err(req_bool(s, "logging_demote_player"@)->Err_0)
    } else if req_bool(s, "logging_exec"@) is Err {
        Err(req_bool(s, "logging_exec"@)->Err_0)
    } else if req_bool(s, "logging_gamble"@) is Err {
        Err(req_bool(s, "logging_gamble"@)->Err_0)
    } else if req_bool(s, "logging_modify_player"@) is Err {
        Err(req_bool(s, "logging_modify_player"@)->Err_0)
    } else if req_bool(s, "logging_pay_territory"@) is Err {
        Err(req_bool(s, "logging_pay_territory"@)->Err_0)
    } else if req_bool(s, "logging_promote_player"@) is Err {
        Err(req_bool(s, "logging_promote_player"@)->Err_0)
    } else if req_bool(s, "logging_remove_player_from_territory"@) is Err {
        Err(req_bool(s, "logging_remove_player_from_territory"@)->Err_0)
    } else if req_bool(s, "logging_reward"@) is Err {
        Err(req_bool(s, "logging_reward"@)->Err_0)
    } else if req_bool(s, "logging_transfer"@) is Err {
        Err(req_bool(s, "logging_transfer"@)->Err_0)
    } else if req_bool(s, "logging_upgrade_territory"@) is Err {
        Err(req_bool(s, "logging_upgrade_territory"@)->Err_0)
    } else if req_int(s, "max_payment_count"@) is Err {
        Err(req_int(s, "max_payment_count"@)->Err_0)
    } else if req_int(s, "territory_payment_tax"@) is Err {
        Err(req_int(s, "territory_payment_tax"@)->Err_0)
    } else if req_int(s, "territory_upgrade_tax"@) is Err {
        Err(req_int(s, "territory_upgrade_tax"@)->Err_0)
    } else if req_str_list(s, "territory_admins"@) is Err {
        Err(req_str_list(s, "territory_admins"@)->Err_0)
    } else {
        Ok(
            PostInitModel {
                gambling_modifier: req_int(s, "gambling_modifier"@)->Ok_0,
                gambling_payout: req_int(s, "gambling_payout"@)->Ok_0,
                gambling_randomizer_max: req_double(s, "gambling_randomizer_max"@)->Ok_0,
                gambling_randomizer_mid: req_double(s, "gambling_randomizer_mid"@)->Ok_0,
                gambling_randomizer_min: req_double(s, "gambling_randomizer_min"@)->Ok_0,
                gambling_win_chance: req_int(s, "gambling_win_chance"@)->Ok_0,
                logging_add_player_to_territory: req_bool(
                    s,
                    "logging_add_player_to_territory"@,
                )->Ok_0,
                logging_demote_player: req_bool(s, "logging_demote_player"@)->Ok_0,
                logging_exec: req_bool(s, "logging_exec"@)->Ok_0,
                logging_gamble: req_bool(s, "logging_gamble"@)->Ok_0,
                logging_modify_player: req_bool(s, "logging_modify_player"@)->Ok_0,
                logging_pay_territory: req_bool(s, "logging_pay_territory"@)->Ok_0,
                logging_promote_player: req_bool(s, "logging_promote_player"@)->Ok_0,
                logging_remove_player_from_territory: req_bool(
                    s,
                    "logging_remove_player_from_territory"@,
                )->Ok_0,
                logging_reward: req_bool(s, "logging_reward"@)->Ok_0,
                logging_transfer: req_bool(s, "logging_transfer"@)->Ok_0,
                logging_upgrade_territory: req_bool(s, "logging_upgrade_territory"@)->Ok_0,
                max_payment_count: req_int(s, "max_payment_count"@)->Ok_0,
                territory_payment_tax: req_int(s, "territory_payment_tax"@)->Ok_0,
                territory_upgrade_tax: req_int(s, "territory_upgrade_tax"@)->Ok_0,
                territory_admins: req_str_list(s, "territory_admins"@)->Ok_0,
            },
        )
    }
}

pub open spec fn decode_query_fields(s: Seq<(Seq<char>, HostModel)>) -> Result<
    QueryModel,
    DecodeError,
> {
    if req_str(s, "name"@) is Err {
        Err(req_str(s, "name"@)->Err_0)
    } else if req_args(s, "arguments"@) is Err {
        Err(req_args(s, "arguments"@)->Err_0)
    } else {
        Ok(
            QueryModel {
                name: req_str(s, "name"@)->Ok_0,
                arguments: req_args(s, "arguments"@)->Ok_0,
            },
        )
    }
}

/// The entries of the `content` container of a tagged payload.
pub open spec fn content_of(entries: Seq<(Seq<char>, HostModel)>) -> Result<
    Seq<(Seq<char>, HostModel)>,
    DecodeError,
> {
    match lookup(entries, "content"@) {
        Some(HostModel::Object(ms)) => Ok(ms),
        Some(_) => Err(DecodeError::WrongFieldType),
        None => Err(DecodeError::MissingField),
    }
}

/// The payload a host value decodes to: the meaning of the tagged wire shape.
/// The `type` entry picks the variant; an `empty` payload needs no content
/// (an empty container is also accepted); every other variant's `content`
/// holds the rendering of its record, read back field by field.
pub open spec fn spec_decode(v: HostModel) -> Result<DataModel, DecodeError> {
    match v {
        HostModel::Object(entries) => match lookup(entries, "type"@) {
            Some(HostModel::Str(tag)) => if tag == "empty"@ {
                match lookup(entries, "content"@) {
                    None => Ok(DataModel::Empty),
                    Some(HostModel::Object(ms)) => if ms.len() == 0 {
                        Ok(DataModel::Empty)
                    } else {
                        Err(DecodeError::WrongFieldType)
                    },
                    Some(_) => Err(DecodeError::WrongFieldType),
                }
            } else if tag == "test"@ {
                match content_of(entries) {
                    Ok(ms) => match decode_test_fields(ms) {
                        Ok(m) => Ok(DataModel::Test(m)),
                        Err(e) => Err(e),
                    },
                    Err(e) => Err(e),
                }
            } else if tag == "init"@ {
                match content_of(entries) {
                    Ok(ms) => match decode_init_fields(ms) {
                        Ok(m) => Ok(DataModel::Init(m)),
                        Err(e) => Err(e),
                    },
                    Err(e) => Err(e),
                }
            } else if tag == "post_init"@ {
                match content_of(entries) {
                    Ok(ms) => match decode_post_init_fields(ms) {
                        Ok(m) => Ok(DataModel::PostInit(m)),
                        Err(e) => Err(e),
                    },
                    Err(e) => Err(e),
                }
            } else if tag == "query"@ {
                match content_of(entries) {
                    Ok(ms) => match decode_query_fields(ms) {
                        Ok(m) => Ok(DataModel::Query(m)),
                        Err(e) => Err(e),
                    },
                    Err(e) => Err(e),
                }
            } else {
                Err(DecodeError::UnknownTag)
            },
            Some(_) => Err(DecodeError::WrongFieldType),
            None => Err(DecodeError::MissingField),
        },
        _ => Err(DecodeError::NotAnObject),
    }
}

fn decode_test_entries(s: &Vec<(String, HostValue)>) -> (r: Result<Test, DecodeError>)
    ensures
        match r {
            Ok(v) => decode_test_fields(entries_model(s@)) == Ok::<TestModel, DecodeError>(v@),
            Err(e) => decode_test_fields(entries_model(s@)) == Err::<TestModel, DecodeError>(e),
        },
{
    let foo = match get_str(s, &String::from_str("foo")) {
        Ok(v) => v,
        Err(e) => return Err(e),
    };
    Ok(Test { foo })
}

fn decode_init_entries(s: &Vec<(String, HostValue)>) -> (r: Result<Init, DecodeError>)
    ensures
        match r {
            Ok(v) => decode_init_fields(entries_model(s@)) == Ok::<InitModel, DecodeError>(v@)
                && v.server_start_time.wf(),
            Err(e) => decode_init_fields(entries_model(s@)) == Err::<InitModel, DecodeError>(e),
        },
{
    let server_name = match get_str(s, &String::from_str("server_name")) {
        Ok(v) => v,
        Err(e) => return Err(e),
    };
    let price_per_object = match get_single(s, &String::from_str("price_per_object")) {
        Ok(v) => v,
        Err(e) => return Err(e),
    };
    let territory_lifetime = match get_single(s, &String::from_str("territory_lifetime")) {
        Ok(v) => v,
        Err(e) => return Err(e),
    };
    let territory_data = match get_str(s, &String::from_str("territory_data")) {
        Ok(v) => v,
        Err(e) => return Err(e),
    };
    let server_start_time = match get_ts(s, &String::from_str("server_start_time")) {
        Ok(v) => v,
        Err(e) => return Err(e),
    };
    let extension_version = match get_str(s, &String::from_str("extension_version")) {
        Ok(v) => v,
        Err(e) => return Err(e),
    };
    Ok(
        Init {
            server_name,
            price_per_object,
            territory_lifetime,
            territory_data,
            server_start_time,
            extension_version,
        },
    )
}

fn decode_post_init_entries(s: &Vec<(String, HostValue)>) -> (r: Result<PostInit, DecodeError>)
    ensures
        match r {
            Ok(v) => decode_post_init_fields(entries_model(s@)) == Ok::<
                PostInitModel,
                DecodeError,
            >(v@),
            Err(e) => decode_post_init_fields(entries_model(s@)) == Err::<
                PostInitModel,
                DecodeError,
            >(e),
        },
{
    let gambling_modifier = match get_int(s, &String::from_str("gambling_modifier")) {
        Ok(v) => v,
        Err(e) => return Err(e),
    };
    let gambling_payout = match get_int(s, &String::from_str("gambling_payout")) {
        Ok(v) => v,
        Err(e) => return Err(e),
    };
    let gambling_randomizer_max = match get_double(s, &String::from_str("gambling_randomizer_max")) {
        Ok(v) => v,
        Err(e) => return Err(e),
    };
    let gambling_randomizer_mid = match get_double(s, &String::from_str("gambling_randomizer_mid")) {
        Ok(v) => v,
        Err(e) => return Err(e),
    };
    let gambling_randomizer_min = match get_double(s, &String::from_str("gambling_randomizer_min")) {
        Ok(v) => v,
        Err(e) => return Err(e),
    };
    let gambling_win_chance = match get_int(s, &String::from_str("gambling_win_chance")) {
        Ok(v) => v,
        Err(e) => return Err(e),
    };
    let logging_add_player_to_territory = match get_bool(
        s,
        &String::from_str("logging_add_player_to_territory"),
    ) {
        Ok(v) => v,
        Err(e) => return Err(e),
    };
    let logging_demote_player = match get_bool(s, &String::from_str("logging_demote_player")) {
        Ok(v) => v,
        Err(e) => return Err(e),
    };
    let logging_exec = match get_bool(s, &String::from_str("logging_exec")) {
        Ok(v) => v,
        Err(e) => return Err(e),
    };
    let logging_gamble = match get_bool(s, &String::from_str("logging_gamble")) {
        Ok(v) => v,
        Err(e) => return Err(e),
    };
    let logging_modify_player = match get_bool(s, &String::from_str("logging_modify_player")) {
        Ok(v) => v,
        Err(e) => return Err(e),
    };
    let logging_pay_territory = match get_bool(s, &String::from_str("logging_pay_territory")) {
        Ok(v) => v,
        Err(e) => return Err(e),
    };
    let logging_promote_player = match get_bool(s, &String::from_str("logging_promote_player")) {
        Ok(v) => v,
        Err(e) => return Err(e),
    };
    let logging_remove_player_from_territory = match get_bool(
        s,
        &String::from_str("logging_remove_player_from_territory"),
    ) {
        Ok(v) => v,
        Err(e) => return Err(e),
    };
    let logging_reward = match get_bool(s, &String::from_str("logging_reward")) {
        Ok(v) => v,
        Err(e) => return Err(e),
    };
    let logging_transfer = match get_bool(s, &String::from_str("logging_transfer")) {
        Ok(v) => v,
        Err(e) => return Err(e),
    };
    let logging_upgrade_territory = match get_bool(
        s,
        &String::from_str("logging_upgrade_territory"),
    ) {
        Ok(v) => v,
        Err(e) => return Err(e),
    };
    let max_payment_count = match get_int(s, &String::from_str("max_payment_count")) {
        Ok(v) => v,
        Err(e) => return Err(e),
    };
    let territory_payment_tax = match get_int(s, &String::from_str("territory_payment_tax")) {
        Ok(v) => v,
        Err(e) => return Err(e),
    };
    let territory_upgrade_tax = match get_int(s, &String::from_str("territory_upgrade_tax")) {
        Ok(v) => v,
        Err(e) => return Err(e),
    };
    let territory_admins = match get_str_list(s, &String::from_str("territory_admins")) {
        Ok(v) => v,
        Err(e) => return Err(e),
    };
    Ok(
        PostInit {
            gambling_modifier,
            gambling_payout,
            gambling_randomizer_max,
            gambling_randomizer_mid,
            gambling_randomizer_min,
            gambling_win_chance,
            logging_add_player_to_territory,
            logging_demote_player,
            logging_exec,
            logging_gamble,
            logging_modify_player,
            logging_pay_territory,
            logging_promote_player,
            logging_remove_player_from_territory,
            logging_reward,
            logging_transfer,
            logging_upgrade_territory,
            max_payment_count,
            territory_payment_tax,
            territory_upgrade_tax,
            territory_admins,
        },
    )
}

fn decode_query_entries(s: &Vec<(String, HostValue)>) -> (r: Result<Query, DecodeError>)
    ensures
        match r {
            Ok(v) => decode_query_fields(entries_model(s@)) == Ok::<QueryModel, DecodeError>(v@)
                && unique_keys(v@.arguments),
            Err(e) => decode_query_fields(entries_model(s@)) == Err::<QueryModel, DecodeError>(e),
        },
{
    let name = match get_str(s, &String::from_str("name")) {
        Ok(v) => v,
        Err(e) => return Err(e),
    };
    let arguments = match get_args(s, &String::from_str("arguments")) {
        Ok(v) => v,
        Err(e) => return Err(e),
    };
    Ok(Query { name, arguments })
}

impl Data {
    /// Reads a payload back from its tagged wire shape, rejecting malformed
    /// input with the defect found; decoded payloads are well formed.
    pub fn decode(v: &HostValue) -> (r: Result<Data, DecodeError>)
        ensures
            match r {
                Ok(d) => spec_decode(v@) == Ok::<DataModel, DecodeError>(d@) && d@.wf(),
                Err(e) => spec_decode(v@) == Err::<DataModel, DecodeError>(e),
            },
    {
        let entries = match v {
            HostValue::Object(entries) => entries,
            _ => {
                proof {
                    lemma_model_variant(*v);
                }
                return Err(DecodeError::NotAnObject);
            },
        };
        let tag = match get_str(entries, &String::from_str("type")) {
            Ok(t) => t,
            Err(e) => return Err(e),
        };
        if tag == String::from_str("empty") {
            match find_entry(entries, &String::from_str("content")) {
                None => Ok(Data::Empty),
                Some(cv) => match cv {
                    HostValue::Object(ms) => if ms.len() == 0 {
                        proof {
                            assert(entries_model(ms@).len() == 0);
                        }
                        Ok(Data::Empty)
                    } else {
                        Err(DecodeError::WrongFieldType)
                    },
                    _ => {
                        proof {
                            lemma_model_variant(*cv);
                        }
                        Err(DecodeError::WrongFieldType)
                    },
                },
            }
        } else if tag == String::from_str("test") {
            let ms = match Self::content_entries(entries) {
                Ok(ms) => ms,
                Err(e) => return Err(e),
            };
            match decode_test_entries(ms) {
                Ok(rec) => Ok(Data::Test(rec)),
                Err(e) => Err(e),
            }
        } else if tag == String::from_str("init") {
            let ms = match Self::content_entries(entries) {
                Ok(ms) => ms,
                Err(e) => return Err(e),
            };
            match decode_init_entries(ms) {
                Ok(rec) => Ok(Data::Init(rec)),
                Err(e) => Err(e),
            }
        } else if tag == String::from_str("post_init") {
            let ms = match Self::content_entries(entries) {
                Ok(ms) => ms,
                Err(e) => return Err(e),
            };
            match decode_post_init_entries(ms) {
                Ok(rec) => Ok(Data::PostInit(rec)),
                Err(e) => Err(e),
            }
        } else if tag == String::from_str("query") {
            let ms = match Self::content_entries(entries) {
                Ok(ms) => ms,
                Err(e) => return Err(e),
            };
            match decode_query_entries(ms) {
                Ok(rec) => Ok(Data::Query(rec)),
                Err(e) => Err(e),
            }
        } else {
            Err(DecodeError::UnknownTag)
        }
    }

    /// The `content` entry of a tagged payload, which must be a container.
    fn content_entries<'a>(entries: &'a Vec<(String, HostValue)>) -> (r: Result<
        &'a Vec<(String, HostValue)>,
        DecodeError,
    >)
        ensures
            match r {
                Ok(ms) => content_of(entries_model(entries@)) == Ok::<
                    Seq<(Seq<char>, HostModel)>,
                    DecodeError,
                >(entries_model(ms@)),
                Err(e) => content_of(entries_model(entries@)) == Err::<
                    Seq<(Seq<char>, HostModel)>,
                    DecodeError,
                >(e),
            },
    {
        match find_entry(entries, &String::from_str("content")) {
            Some(cv) => match cv {
                HostValue::Object(ms) => Ok(ms),
                _ => {
                    proof {
                        lemma_model_variant(*cv);
                    }
                    Err(DecodeError::WrongFieldType)
                },
            },
            None => Err(DecodeError::MissingField),
        }
    }
}

/// The tagged wire shape of a payload: a `type` entry with the variant's
/// name, and for every variant but the empty one a `content` entry with the
/// rendering of the record's fields.
pub open spec fn spec_encode(d: DataModel) -> HostModel {
    if d is Empty {
        HostModel::Object(seq![("type"@, HostModel::Str("empty"@))])
    } else {
        HostModel::Object(
            seq![("type"@, HostModel::Str(tag_of(d))), ("content"@, data_host(d))],
        )
    }
}

/// A key found at position `i`, with no earlier entry of the same key, is
/// what the lookup returns.
proof fn lemma_lookup_index(s: Seq<(Seq<char>, HostModel)>, i: int)
    requires
        0 <= i < s.len(),
        forall|j: int| 0 <= j < i ==> s[j].0 != s[i].0,
    ensures
        lookup(s, s[i].0) == Some(s[i].1),
    decreases i,
{
    if i > 0 {
        let t = s.drop_first();
        assert(t[i - 1] == s[i]);
        assert forall|j: int| 0 <= j < i - 1 implies #[trigger] t[j].0 != t[i - 1].0 by {
            assert(t[j] == s[j + 1]);
        }
        lemma_lookup_index(t, i - 1);
        assert(s[0].0 != s[i].0);
        assert(lookup(s, s[i].0) == lookup(t, s[i].0));
    }
}

/// The two envelope entries are found under their keys.
proof fn lemma_envelope(tag: Seq<char>, content: HostModel)
    ensures
        lookup(seq![("type"@, HostModel::Str(tag)), ("content"@, content)], "type"@) == Some(
            HostModel::Str(tag),
        ),
        lookup(seq![("type"@, HostModel::Str(tag)), ("content"@, content)], "content"@) == Some(
            content,
        ),
{
    reveal_strlit("type");
    reveal_strlit("content");
    let eseq = seq![("type"@, HostModel::Str(tag)), ("content"@, content)];
    assert(eseq[0] == ("type"@, HostModel::Str(tag)));
    assert(lookup(eseq, "type"@) == Some(HostModel::Str(tag)));
    assert("type"@.len() == 4);
    assert("content"@.len() == 7);
    assert(eseq.drop_first() =~= seq![("content"@, content)]);
    assert(lookup(eseq, "content"@) == lookup(eseq.drop_first(), "content"@));
    assert(lookup(eseq.drop_first(), "content"@) == Some(content));
}

/// Rendering a string list and reading it back gives the same strings.
proof fn lemma_strs_round(ss: Seq<Seq<char>>)
    ensures
        str_seq_from(str_list_host(ss)->List_0) == Ok::<Seq<Seq<char>>, DecodeError>(ss),
    decreases ss.len(),
{
    let ms = str_list_host(ss)->List_0;
    if ss.len() == 0 {
        assert(ms.len() == 0);
        assert(ss =~= Seq::<Seq<char>>::empty());
    } else {
        let pre = ss.drop_last();
        lemma_strs_round(pre);
        assert(ms.drop_last() =~= str_list_host(pre)->List_0);
        assert(ms.last() == HostModel::Str(ss.last()));
        assert(pre.push(ss.last()) =~= ss);
    }
}

/// Rendering a mapping with distinct keys and reading it back gives the
/// same entries.
proof fn lemma_args_round(args: Seq<(Seq<char>, Seq<char>)>)
    requires
        unique_keys(args),
    ensures
        arg_seq_from(str_map_host(args)->Object_0) == Ok::<
            Seq<(Seq<char>, Seq<char>)>,
            DecodeError,
        >(args),
    decreases args.len(),
{
    let ms = str_map_host(args)->Object_0;
    if args.len() == 0 {
        assert(ms.len() == 0);
        assert(args =~= Seq::<(Seq<char>, Seq<char>)>::empty());
    } else {
        let pre = args.drop_last();
        assert forall|a: int, b: int| #![trigger pre[a], pre[b]] 0 <= a < b < pre.len() implies pre[a].0 != pre[b].0 by {
            assert(pre[a] == args[a]);
            assert(pre[b] == args[b]);
        }
        lemma_args_round(pre);
        assert(ms.drop_last() =~= str_map_host(pre)->Object_0);
        assert(ms.last() == (args.last().0, HostModel::Str(args.last().1)));
        if contains_key(pre, args.last().0) {
            let w = choose|w: int| 0 <= w < pre.len() && pre[w].0 == args.last().0;
            assert(pre[w] == args[w]);
            assert(args[w].0 == args[args.len() - 1].0);
            assert(false);
        }
        assert(pre.push(args.last()) =~= args);
    }
}

proof fn lemma_rt_empty()
    ensures
        spec_decode(spec_encode(DataModel::Empty)) == Ok::<DataModel, DecodeError>(
            DataModel::Empty,
        ),
{
    reveal_strlit("type");
    reveal_strlit("content");
    reveal_strlit("empty");
    let eseq = spec_encode(DataModel::Empty)->Object_0;
    assert(eseq[0] == ("type"@, HostModel::Str("empty"@)));
    assert(lookup(eseq, "type"@) == Some(HostModel::Str("empty"@)));
    assert("type"@.len() == 4);
    assert("content"@.len() == 7);
    assert(eseq.drop_first() =~= Seq::<(Seq<char>, HostModel)>::empty());
    assert(lookup(eseq, "content"@) == lookup(eseq.drop_first(), "content"@));
    assert(lookup(eseq.drop_first(), "content"@) is None);
}

proof fn lemma_rt_test(m: TestModel)
    ensures
        spec_decode(spec_encode(DataModel::Test(m))) == Ok::<DataModel, DecodeError>(
            DataModel::Test(m),
        ),
{
    reveal_strlit("empty");
    reveal_strlit("test");
    reveal_strlit("foo");
    let d = DataModel::Test(m);
    lemma_envelope("test"@, data_host(d));
    assert("empty"@.len() == 5);
    assert("test"@.len() == 4);
    let cseq = test_host(m)->Object_0;
    assert(cseq[0] == ("foo"@, HostModel::Str(m.foo)));
    lemma_lookup_index(cseq, 0);
    assert(req_str(cseq, "foo"@) == Ok::<Seq<char>, DecodeError>(m.foo));
    assert(decode_test_fields(cseq) == Ok::<TestModel, DecodeError>(m));
}

proof fn lemma_rt_init(m: InitModel)
    requires
        m.server_start_time.wf(),
        timestamp_roundtrips(m.server_start_time),
    ensures
        spec_decode(spec_encode(DataModel::Init(m))) == Ok::<DataModel, DecodeError>(
            DataModel::Init(m),
        ),
{
    reveal_strlit("empty");
    reveal_strlit("test");
    reveal_strlit("init");
    reveal_strlit("server_name");
    reveal_strlit("price_per_object");
    reveal_strlit("territory_lifetime");
    reveal_strlit("territory_data");
    reveal_strlit("server_start_time");
    reveal_strlit("extension_version");
    let d = DataModel::Init(m);
    lemma_envelope("init"@, data_host(d));
    assert("empty"@.len() == 5);
    assert("test"@.len() == 4);
    assert("init"@.len() == 4);
    assert("test"@[0] != "init"@[0]);
    let cseq = init_host(m)->Object_0;
    assert(cseq.len() == 6);
    assert("server_name"@.len() == 11);
    assert("price_per_object"@.len() == 16);
    assert("territory_lifetime"@.len() == 18);
    assert("territory_data"@.len() == 14);
    assert("server_start_time"@.len() == 17);
    assert("extension_version"@.len() == 17);
    assert("server_start_time"@[0] != "extension_version"@[0]);
    assert forall|a: int, b: int| #![trigger cseq[a], cseq[b]] 0 <= a < b < cseq.len() implies cseq[a].0 != cseq[b].0 by {}
    lemma_lookup_index(cseq, 0);
    lemma_lookup_index(cseq, 1);
    lemma_lookup_index(cseq, 2);
    lemma_lookup_index(cseq, 3);
    lemma_lookup_index(cseq, 4);
    lemma_lookup_index(cseq, 5);
    assert(req_str(cseq, "server_name"@) == Ok::<Seq<char>, DecodeError>(m.server_name));
    assert(req_single(cseq, "price_per_object"@) == Ok::<u32, DecodeError>(m.price_per_object));
    assert(req_single(cseq, "territory_lifetime"@) == Ok::<u32, DecodeError>(
        m.territory_lifetime,
    ));
    assert(req_str(cseq, "territory_data"@) == Ok::<Seq<char>, DecodeError>(m.territory_data));
    assert(req_ts(cseq, "server_start_time"@) == Ok::<Timestamp, DecodeError>(
        m.server_start_time,
    ));
    assert(req_str(cseq, "extension_version"@) == Ok::<Seq<char>, DecodeError>(
        m.extension_version,
    ));
    assert(decode_init_fields(cseq) == Ok::<InitModel, DecodeError>(m));
}

/// The field keys of the configuration snapshot are pairwise distinct:
/// any two keys differ in length, or at one of the positions named below.
#[verifier::rlimit(100)]
#[verifier::spinoff_prover]
proof fn lemma_post_init_keys_distinct(m: PostInitModel)
    ensures
        forall|a: int, b: int|
            #![trigger post_init_host(m)->Object_0[a], post_init_host(m)->Object_0[b]]
            0 <= a < b < post_init_host(m)->Object_0.len() ==> post_init_host(m)->Object_0[a].0
                != post_init_host(m)->Object_0[b].0,
{
    reveal_strlit("gambling_modifier");
    reveal_strlit("gambling_payout");
    reveal_strlit("gambling_randomizer_max");
    reveal_strlit("gambling_randomizer_mid");
    reveal_strlit("gambling_randomizer_min");
    reveal_strlit("gambling_win_chance");
    reveal_strlit("logging_add_player_to_territory");
    reveal_strlit("logging_demote_player");
    reveal_strlit("logging_exec");
    reveal_strlit("logging_gamble");
    reveal_strlit("logging_modify_player");
    reveal_strlit("logging_pay_territory");
    reveal_strlit("logging_promote_player");
    reveal_strlit("logging_remove_player_from_territory");
    reveal_strlit("logging_reward");
    reveal_strlit("logging_transfer");
    reveal_strlit("logging_upgrade_territory");
    reveal_strlit("max_payment_count");
    reveal_strlit("territory_payment_tax");
    reveal_strlit("territory_upgrade_tax");
    reveal_strlit("territory_admins");
    assert("gambling_randomizer_max"@[21] != "gambling_randomizer_mid"@[21]);
    assert("gambling_randomizer_max"@[21] != "gambling_randomizer_min"@[21]);
    assert("gambling_randomizer_mid"@[22] != "gambling_randomizer_min"@[22]);
    assert("logging_demote_player"@[8] != "logging_modify_player"@[8]);
    assert("logging_demote_player"@[8] != "logging_pay_territory"@[8]);
    assert("logging_modify_player"@[8] != "logging_pay_territory"@[8]);
    assert("logging_demote_player"@[0] != "territory_payment_tax"@[0]);
    assert("logging_demote_player"@[0] != "territory_upgrade_tax"@[0]);
    assert("logging_modify_player"@[0] != "territory_payment_tax"@[0]);
    assert("logging_modify_player"@[0] != "territory_upgrade_tax"@[0]);
    assert("logging_pay_territory"@[0] != "territory_payment_tax"@[0]);
    assert("logging_pay_territory"@[0] != "territory_upgrade_tax"@[0]);
    assert("territory_payment_tax"@[10] != "territory_upgrade_tax"@[10]);
    assert("gambling_modifier"@[0] != "max_payment_count"@[0]);
    assert("logging_gamble"@[8] != "logging_reward"@[8]);
    assert("logging_transfer"@[0] != "territory_admins"@[0]);
    let cseq = post_init_host(m)->Object_0;
    assert(cseq.len() == 21);
    assert(cseq[0].0 == "gambling_modifier"@);
    assert(cseq[1].0 == "gambling_payout"@);
    assert(cseq[2].0 == "gambling_randomizer_max"@);
    assert(cseq[3].0 == "gambling_randomizer_mid"@);
    assert(cseq[4].0 == "gambling_randomizer_min"@);
    assert(cseq[5].0 == "gambling_win_chance"@);
    assert(cseq[6].0 == "logging_add_player_to_territory"@);
    assert(cseq[7].0 == "logging_demote_player"@);
    assert(cseq[8].0 == "logging_exec"@);
    assert(cseq[9].0 == "logging_gamble"@);
    assert(cseq[10].0 == "logging_modify_player"@);
    assert(cseq[11].0 == "logging_pay_territory"@);
    assert(cseq[12].0 == "logging_promote_player"@);
    assert(cseq[13].0 == "logging_remove_player_from_territory"@);
    assert(cseq[14].0 == "logging_reward"@);
    assert(cseq[15].0 == "logging_transfer"@);
    assert(cseq[16].0 == "logging_upgrade_territory"@);
    assert(cseq[17].0 == "max_payment_count"@);
    assert(cseq[18].0 == "territory_payment_tax"@);
    assert(cseq[19].0 == "territory_upgrade_tax"@);
    assert(cseq[20].0 == "territory_admins"@);
    assert(cseq[0].0.len() == 17);
    assert(cseq[1].0.len() == 15);
    assert(cseq[2].0.len() == 23);
    assert(cseq[3].0.len() == 23);
    assert(cseq[4].0.len() == 23);
    assert(cseq[5].0.len() == 19);
    assert(cseq[6].0.len() == 31);
    assert(cseq[7].0.len() == 21);
    assert(cseq[8].0.len() == 12);
    assert(cseq[9].0.len() == 14);
    assert(cseq[10].0.len() == 21);
    assert(cseq[11].0.len() == 21);
    assert(cseq[12].0.len() == 22);
    assert(cseq[13].0.len() == 36);
    assert(cseq[14].0.len() == 14);
    assert(cseq[15].0.len() == 16);
    assert(cseq[16].0.len() == 25);
    assert(cseq[17].0.len() == 17);
    assert(cseq[18].0.len() == 21);
    assert(cseq[19].0.len() == 21);
    assert(cseq[20].0.len() == 16);
    assert forall|a: int, b: int| #![trigger cseq[a], cseq[b]] 0 <= a < b < cseq.len()
        implies cseq[a].0 != cseq[b].0 by {}
}

/// Law: the order of `territory_admins` is preserved through conversion.
/// Rendering a configuration snapshot and reading the admin list back gives
/// exactly the same strings at the same positions.
pub proof fn lemma_admin_order_preserved(m: PostInitModel)
    ensures
        req_str_list(post_init_host(m)->Object_0, "territory_admins"@) == Ok::<
            Seq<Seq<char>>,
            DecodeError,
        >(m.territory_admins),
{
    lemma_post_init_keys_distinct(m);
    let cseq = post_init_host(m)->Object_0;
    assert(cseq.len() == 21);
    lemma_lookup_index(cseq, 20);
    lemma_strs_round(m.territory_admins);
}

#[verifier::rlimit(100)]
#[verifier::spinoff_prover]
proof fn lemma_rt_post_init(m: PostInitModel)
    ensures
        spec_decode(spec_encode(DataModel::PostInit(m))) == Ok::<DataModel, DecodeError>(
            DataModel::PostInit(m),
        ),
{
    lemma_post_init_keys_distinct(m);
    reveal_strlit("empty");
    reveal_strlit("test");
    reveal_strlit("init");
    reveal_strlit("post_init");
    reveal_strlit("gambling_modifier");
    reveal_strlit("gambling_payout");
    reveal_strlit("gambling_randomizer_max");
    reveal_strlit("gambling_randomizer_mid");
    reveal_strlit("gambling_randomizer_min");
    reveal_strlit("gambling_win_chance");
    reveal_strlit("logging_add_player_to_territory");
    reveal_strlit("logging_demote_player");
    reveal_strlit("logging_exec");
    reveal_strlit("logging_gamble");
    reveal_strlit("logging_modify_player");
    reveal_strlit("logging_pay_territory");
    reveal_strlit("logging_promote_player");
    reveal_strlit("logging_remove_player_from_territory");
    reveal_strlit("logging_reward");
    reveal_strlit("logging_transfer");
    reveal_strlit("logging_upgrade_territory");
    reveal_strlit("max_payment_count");
    reveal_strlit("territory_payment_tax");
    reveal_strlit("territory_upgrade_tax");
    reveal_strlit("territory_admins");
    let d = DataModel::PostInit(m);
    lemma_envelope("post_init"@, data_host(d));
    assert("empty"@.len() == 5);
    assert("test"@.len() == 4);
    assert("init"@.len() == 4);
    assert("post_init"@.len() == 9);
    let cseq = post_init_host(m)->Object_0;
    assert(cseq.len() == 21);
    lemma_lookup_index(cseq, 0);
    lemma_lookup_index(cseq, 1);
    lemma_lookup_index(cseq, 2);
    lemma_lookup_index(cseq, 3);
    lemma_lookup_index(cseq, 4);
    lemma_lookup_index(cseq, 5);
    lemma_lookup_index(cseq, 6);
    lemma_lookup_index(cseq, 7);
    lemma_lookup_index(cseq, 8);
    lemma_lookup_index(cseq, 9);
    lemma_lookup_index(cseq, 10);
    lemma_lookup_index(cseq, 11);
    lemma_lookup_index(cseq, 12);
    lemma_lookup_index(cseq, 13);
    lemma_lookup_index(cseq, 14);
    lemma_lookup_index(cseq, 15);
    lemma_lookup_index(cseq, 16);
    lemma_lookup_index(cseq, 17);
    lemma_lookup_index(cseq, 18);
    lemma_lookup_index(cseq, 19);
    lemma_lookup_index(cseq, 20);
    lemma_strs_round(m.territory_admins);
    assert(req_str_list(cseq, "territory_admins"@) == Ok::<Seq<Seq<char>>, DecodeError>(
        m.territory_admins,
    ));
    assert(decode_post_init_fields(cseq) == Ok::<PostInitModel, DecodeError>(m));
}

proof fn lemma_rt_query(m: QueryModel)
    requires
        unique_keys(m.arguments),
    ensures
        spec_decode(spec_encode(DataModel::Query(m))) == Ok::<DataModel, DecodeError>(
            DataModel::Query(m),
        ),
{
    reveal_strlit("empty");
    reveal_strlit("test");
    reveal_strlit("init");
    reveal_strlit("post_init");
    reveal_strlit("query");
    reveal_strlit("name");
    reveal_strlit("arguments");
    let d = DataModel::Query(m);
    lemma_envelope("query"@, data_host(d));
    assert("empty"@.len() == 5);
    assert("test"@.len() == 4);
    assert("init"@.len() == 4);
    assert("post_init"@.len() == 9);
    assert("query"@.len() == 5);
    assert("query"@[0] != "empty"@[0]);
    let cseq = query_host(m)->Object_0;
    assert(cseq.len() == 2);
    assert("name"@.len() == 4);
    assert("arguments"@.len() == 9);
    assert forall|a: int, b: int| #![trigger cseq[a], cseq[b]] 0 <= a < b < cseq.len() implies cseq[a].0 != cseq[b].0 by {}
    lemma_lookup_index(cseq, 0);
    lemma_lookup_index(cseq, 1);
    lemma_args_round(m.arguments);
    assert(req_str(cseq, "name"@) == Ok::<Seq<char>, DecodeError>(m.name));
    assert(req_args(cseq, "arguments"@) == Ok::<Seq<(Seq<char>, Seq<char>)>, DecodeError>(
        m.arguments,
    ));
    assert(decode_query_fields(cseq) == Ok::<QueryModel, DecodeError>(m));
}

impl Data {
    /// The variant's wire tag.
    pub fn tag_name(&self) -> (r: &'static str)
        ensures
            r@ == tag_of(self@),
    {
        match self {
            Data::Empty => "empty",
            Data::Test(_) => "test",
            Data::Init(_) => "init",
            Data::PostInit(_) => "post_init",
            Data::Query(_) => "query",
        }
    }

    /// Renders the payload in its tagged wire shape: a `type` entry naming
    /// the variant and, for every variant but the empty one, a `content`
    /// entry with the record's fields. Decoding the result gives the payload
    /// back unchanged.
    pub fn encode(&self) -> (r: HostValue)
        requires
            self@.wf(),
        ensures
            r@ == spec_encode(self@),
            spec_decode(r@) == Ok::<DataModel, DecodeError>(self@),
    {
        let mut entries: Vec<(String, HostValue)> = Vec::new();
        entries.push((String::from_str("type"), HostValue::Str(String::from_str(self.tag_name()))));
        let content: Option<HostValue> = match self {
            Data::Empty => None,
            Data::Test(rec) => Some(rec.to_host_value()),
            Data::Init(rec) => Some(rec.to_host_value()),
            Data::PostInit(rec) => Some(rec.to_host_value()),
            Data::Query(rec) => Some(rec.to_host_value()),
        };
        match content {
            Some(c) => {
                entries.push((String::from_str("content"), c));
            },
            None => {},
        }
        let r = HostValue::Object(entries);
        proof {
            let lhs = r@->Object_0;
            let rhs = spec_encode(self@)->Object_0;
            assert(lhs.len() == rhs.len());
            assert forall|k: int| 0 <= k < lhs.len() implies lhs[k] == rhs[k] by {
                assert(lhs[k] == (entries@[k].0@, entries@[k].1@));
                if k == 0 { assert(lhs[0] == rhs[0]); }
                if k == 1 { assert(lhs[1] == rhs[1]); }
            }
            assert(lhs =~= rhs);
            assert(r@ =~~= spec_encode(self@));
            match self@ {
                DataModel::Empty => lemma_rt_empty(),
                DataModel::Test(m) => lemma_rt_test(m),
                DataModel::Init(m) => lemma_rt_init(m),
                DataModel::PostInit(m) => lemma_rt_post_init(m),
                DataModel::Query(m) => lemma_rt_query(m),
            }
        }
        r
    }
}

} // verus!
