//! The conversion protocol: every payload variant renders as a host
//! associative container whose entries are exactly the record's fields, each
//! field mapped by its own rule (strings, numbers, booleans, ordered string
//! lists, string-keyed mappings, RFC 3339 timestamps). The empty payload
//! renders as an empty container, not as an absent value.

use vstd::prelude::*;
use crate::data::{
    Data, DataModel, Event, EventModel, Init, InitModel, PostInit, PostInitModel, Query,
    QueryModel, Test, TestModel, pairs_model, strings_model,
};
use crate::host::{Float32, Float64, HostModel, HostValue};
use crate::timestamp::{Timestamp, rfc3339_of, format_rfc3339, timestamp_roundtrips};

verus! {

/// An ordered host list of the given strings.
pub open spec fn str_list_host(ss: Seq<Seq<char>>) -> HostModel {
    HostModel::List(Seq::new(ss.len(), |i: int| HostModel::Str(ss[i])))
}

/// A host associative container of the given string-to-string entries,
/// order preserved.
pub open spec fn str_map_host(args: Seq<(Seq<char>, Seq<char>)>) -> HostModel {
    HostModel::Object(Seq::new(args.len(), |i: int| (args[i].0, HostModel::Str(args[i].1))))
}

/// The host rendering of a timestamp: its RFC 3339 string.
pub open spec fn timestamp_host(t: Timestamp) -> HostModel {
    HostModel::Str(rfc3339_of(t.epoch_seconds, t.nanos))
}

pub open spec fn test_host(m: TestModel) -> HostModel {
    HostModel::Object(seq![("foo"@, HostModel::Str(m.foo))])
}

pub open spec fn init_host(m: InitModel) -> HostModel {
    HostModel::Object(
        seq![
            ("server_name"@, HostModel::Str(m.server_name)),
            ("price_per_object"@, HostModel::Single(Float32 { bits: m.price_per_object })),
            ("territory_lifetime"@, HostModel::Single(Float32 { bits: m.territory_lifetime })),
            ("territory_data"@, HostModel::Str(m.territory_data)),
            ("server_start_time"@, timestamp_host(m.server_start_time)),
            ("extension_version"@, HostModel::Str(m.extension_version)),
        ],
    )
}

pub open spec fn post_init_host(m: PostInitModel) -> HostModel {
    HostModel::Object(
        seq![
            ("gambling_modifier"@, HostModel::Int(m.gambling_modifier)),
            ("gambling_payout"@, HostModel::Int(m.gambling_payout)),
            ("gambling_randomizer_max"@, HostModel::Double(Float64 { bits: m.gambling_randomizer_max })),
            ("gambling_randomizer_mid"@, HostModel::Double(Float64 { bits: m.gambling_randomizer_mid })),
            ("gambling_randomizer_min"@, HostModel::Double(Float64 { bits: m.gambling_randomizer_min })),
            ("gambling_win_chance"@, HostModel::Int(m.gambling_win_chance)),
            ("logging_add_player_to_territory"@, HostModel::Bool(m.logging_add_player_to_territory)),
            ("logging_demote_player"@, HostModel::Bool(m.logging_demote_player)),
            ("logging_exec"@, HostModel::Bool(m.logging_exec)),
            ("logging_gamble"@, HostModel::Bool(m.logging_gamble)),
            ("logging_modify_player"@, HostModel::Bool(m.logging_modify_player)),
            ("logging_pay_territory"@, HostModel::Bool(m.logging_pay_territory)),
            ("logging_promote_player"@, HostModel::Bool(m.logging_promote_player)),
            ("logging_remove_player_from_territory"@, HostModel::Bool(m.logging_remove_player_from_territory)),
            ("logging_reward"@, HostModel::Bool(m.logging_reward)),
            ("logging_transfer"@, HostModel::Bool(m.logging_transfer)),
            ("logging_upgrade_territory"@, HostModel::Bool(m.logging_upgrade_territory)),
            ("max_payment_count"@, HostModel::Int(m.max_payment_count)),
            ("territory_payment_tax"@, HostModel::Int(m.territory_payment_tax)),
            ("territory_upgrade_tax"@, HostModel::Int(m.territory_upgrade_tax)),
            ("territory_admins"@, str_list_host(m.territory_admins)),
        ],
    )
}

pub open spec fn query_host(m: QueryModel) -> HostModel {
    HostModel::Object(
        seq![("name"@, HostModel::Str(m.name)), ("arguments"@, str_map_host(m.arguments))],
    )
}

pub open spec fn event_host(m: EventModel) -> HostModel {
    HostModel::Object(
        seq![
            ("event_type"@, HostModel::Str(m.event_type)),
            ("triggered_at"@, timestamp_host(m.triggered_at)),
        ],
    )
}

/// The host rendering of a payload: the empty payload is an empty container,
/// every other variant is the container of exactly its record's fields.
pub open spec fn data_host(d: DataModel) -> HostModel {
    match d {
        DataModel::Empty => HostModel::Object(Seq::empty()),
        DataModel::Test(m) => test_host(m),
        DataModel::Init(m) => init_host(m),
        DataModel::PostInit(m) => post_init_host(m),
        DataModel::Query(m) => query_host(m),
    }
}

/// Renders an ordered list of strings, order preserved.
fn strings_to_host(ss: &Vec<String>) -> (r: HostValue)
    ensures
        r@ == str_list_host(strings_model(ss@)),
{
    let mut items: Vec<HostValue> = Vec::new();
    let mut i: usize = 0;
    while i < ss.len()
        invariant
            0 <= i <= ss@.len(),
            items@.len() == i,
            forall|j: int| 0 <= j < i ==> items@[j]@ == HostModel::Str(ss@[j]@),
        decreases ss@.len() - i,
    {
        items.push(HostValue::Str(ss[i].clone()));
        i = i + 1;
    }
    let r = HostValue::List(items);
    proof {
        let ghost lhs = r@->List_0;
        let ghost rhs = str_list_host(strings_model(ss@))->List_0;
        assert(lhs.len() == rhs.len());
        assert forall|k: int| 0 <= k < lhs.len() implies lhs[k] == rhs[k] by {
            assert(items@[k]@ == HostModel::Str(ss@[k]@));
        }
        assert(lhs =~= rhs);
        assert(r@ =~~= str_list_host(strings_model(ss@)));
    }
    r
}

/// Renders string-to-string entries as a host associative container,
/// order preserved.
fn pairs_to_host(args: &Vec<(String, String)>) -> (r: HostValue)
    ensures
        r@ == str_map_host(pairs_model(args@)),
{
    let mut entries: Vec<(String, HostValue)> = Vec::new();
    let mut i: usize = 0;
    while i < args.len()
        invariant
            0 <= i <= args@.len(),
            entries@.len() == i,
            forall|j: int|
                0 <= j < i ==> entries@[j].0@ == args@[j].0@ && entries@[j].1@ == HostModel::Str(
                    args@[j].1@,
                ),
        decreases args@.len() - i,
    {
        let pair = &args[i];
        entries.push((pair.0.clone(), HostValue::Str(pair.1.clone())));
        i = i + 1;
    }
    let r = HostValue::Object(entries);
    proof {
        let lhs = r@->Object_0;
        let rhs = str_map_host(pairs_model(args@))->Object_0;
        assert(lhs.len() == rhs.len());
        assert forall|k: int| 0 <= k < lhs.len() implies lhs[k] == rhs[k] by {
            assert(entries@[k].0@ == args@[k].0@);
            assert(entries@[k].1@ == HostModel::Str(args@[k].1@));
        }
        assert(lhs =~= rhs);
        assert(r@ =~~= str_map_host(pairs_model(args@)));
    }
    r
}

impl Test {
    /// Renders the record's fields as a host container.
    pub fn to_host_value(&self) -> (r: HostValue)
        ensures
            r@ == test_host(self@),
    {
        let mut entries: Vec<(String, HostValue)> = Vec::new();
        entries.push((String::from_str("foo"), HostValue::Str(self.foo.clone())));
        let r = HostValue::Object(entries);
        proof {
            assert(r@ is Object);
            let lhs = r@->Object_0;
            let rhs = test_host(self@)->Object_0;
            assert(lhs.len() == rhs.len());
            assert forall|k: int| 0 <= k < lhs.len() implies lhs[k] == rhs[k] by {
                assert(lhs[k] == (entries@[k].0@, entries@[k].1@));
                if k == 0 { assert(lhs[0] == rhs[0]); }
            }
            assert(lhs =~= rhs);
            assert(r@ =~~= test_host(self@));
        }
        r
    }
}

impl Init {
    /// Renders the record's fields as a host container; the start time
    /// renders as its RFC 3339 string, which parses back to the same instant.
    #[verifier::rlimit(60)]
    pub fn to_host_value(&self) -> (r: HostValue)
        requires
            self.server_start_time.wf(),
        ensures
            r@ == init_host(self@),
            timestamp_roundtrips(self.server_start_time),
    {
        let mut entries: Vec<(String, HostValue)> = Vec::new();
        entries.push((String::from_str("server_name"), HostValue::Str(self.server_name.clone())));
        entries.push(
            (
                String::from_str("price_per_object"),
                HostValue::Single(Float32 { bits: self.price_per_object }),
            ),
        );
        entries.push(
            (
                String::from_str("territory_lifetime"),
                HostValue::Single(Float32 { bits: self.territory_lifetime }),
            ),
        );
        entries.push(
            (String::from_str("territory_data"), HostValue::Str(self.territory_data.clone())),
        );
        entries.push(
            (
                String::from_str("server_start_time"),
                HostValue::Str(format_rfc3339(&self.server_start_time)),
            ),
        );
        entries.push(
            (
                String::from_str("extension_version"),
                HostValue::Str(self.extension_version.clone()),
            ),
        );
        let r = HostValue::Object(entries);
        proof {
            assert(r@ is Object);
            let lhs = r@->Object_0;
            let rhs = init_host(self@)->Object_0;
            assert(lhs.len() == rhs.len());
            assert forall|k: int| 0 <= k < lhs.len() implies lhs[k] == rhs[k] by {
                assert(lhs[k] == (entries@[k].0@, entries@[k].1@));
                if k == 0 { assert(lhs[0] == rhs[0]); }
                if k == 1 { assert(lhs[1] == rhs[1]); }
                if k == 2 { assert(lhs[2] == rhs[2]); }
                if k == 3 { assert(lhs[3] == rhs[3]); }
                if k == 4 { assert(lhs[4] == rhs[4]); }
                if k == 5 { assert(lhs[5] == rhs[5]); }
            }
            assert(lhs =~= rhs);
            assert(r@ =~~= init_host(self@));
        }
        r
    }
}

impl PostInit {
    /// Renders the record's fields as a host container; the admin list keeps
    /// its order and its duplicates.
    #[verifier::rlimit(80)]
    pub fn to_host_value(&self) -> (r: HostValue)
        ensures
            r@ == post_init_host(self@),
    {
        let mut entries: Vec<(String, HostValue)> = Vec::new();
        entries.push(
            (String::from_str("gambling_modifier"), HostValue::Int(self.gambling_modifier)),
        );
        entries.push((String::from_str("gambling_payout"), HostValue::Int(self.gambling_payout)));
        entries.push(
            (
                String::from_str("gambling_randomizer_max"),
                HostValue::Double(Float64 { bits: self.gambling_randomizer_max }),
            ),
        );
        entries.push(
            (
                String::from_str("gambling_randomizer_mid"),
                HostValue::Double(Float64 { bits: self.gambling_randomizer_mid }),
            ),
        );
        entries.push(
            (
                String::from_str("gambling_randomizer_min"),
                HostValue::Double(Float64 { bits: self.gambling_randomizer_min }),
            ),
        );
        entries.push(
            (String::from_str("gambling_win_chance"), HostValue::Int(self.gambling_win_chance)),
        );
        entries.push(
            (
                String::from_str("logging_add_player_to_territory"),
                HostValue::Bool(self.logging_add_player_to_territory),
            ),
        );
        entries.push(
            (
                String::from_str("logging_demote_player"),
                HostValue::Bool(self.logging_demote_player),
            ),
        );
        entries.push((String::from_str("logging_exec"), HostValue::Bool(self.logging_exec)));
        entries.push((String::from_str("logging_gamble"), HostValue::Bool(self.logging_gamble)));
        entries.push(
            (
                String::from_str("logging_modify_player"),
                HostValue::Bool(self.logging_modify_player),
            ),
        );
        entries.push(
            (
                String::from_str("logging_pay_territory"),
                HostValue::Bool(self.logging_pay_territory),
            ),
        );
        entries.push(
            (
                String::from_str("logging_promote_player"),
                HostValue::Bool(self.logging_promote_player),
            ),
        );
        entries.push(
            (
                String::from_str("logging_remove_player_from_territory"),
                HostValue::Bool(self.logging_remove_player_from_territory),
            ),
        );
        entries.push((String::from_str("logging_reward"), HostValue::Bool(self.logging_reward)));
        entries.push(
            (String::from_str("logging_transfer"), HostValue::Bool(self.logging_transfer)),
        );
        entries.push(
            (
                String::from_str("logging_upgrade_territory"),
                HostValue::Bool(self.logging_upgrade_territory),
            ),
        );
        entries.push(
            (String::from_str("max_payment_count"), HostValue::Int(self.max_payment_count)),
        );
        entries.push(
            (
                String::from_str("territory_payment_tax"),
                HostValue::Int(self.territory_payment_tax),
            ),
        );
        entries.push(
            (
                String::from_str("territory_upgrade_tax"),
                HostValue::Int(self.territory_upgrade_tax),
            ),
        );
        entries.push(
            (String::from_str("territory_admins"), strings_to_host(&self.territory_admins)),
        );
        let r = HostValue::Object(entries);
        proof {
            assert(r@ is Object);
            let lhs = r@->Object_0;
            let rhs = post_init_host(self@)->Object_0;
            assert(lhs.len() == rhs.len());
            assert forall|k: int| 0 <= k < lhs.len() implies lhs[k] == rhs[k] by {
                assert(lhs[k] == (entries@[k].0@, entries@[k].1@));
                if k == 0 { assert(lhs[0] == rhs[0]); }
                if k == 1 { assert(lhs[1] == rhs[1]); }
                if k == 2 { assert(lhs[2] == rhs[2]); }
                if k == 3 { assert(lhs[3] == rhs[3]); }
                if k == 4 { assert(lhs[4] == rhs[4]); }
                if k == 5 { assert(lhs[5] == rhs[5]); }
                if k == 6 { assert(lhs[6] == rhs[6]); }
                if k == 7 { assert(lhs[7] == rhs[7]); }
                if k == 8 { assert(lhs[8] == rhs[8]); }
                if k == 9 { assert(lhs[9] == rhs[9]); }
                if k == 10 { assert(lhs[10] == rhs[10]); }
                if k == 11 { assert(lhs[11] == rhs[11]); }
                if k == 12 { assert(lhs[12] == rhs[12]); }
                if k == 13 { assert(lhs[13] == rhs[13]); }
                if k == 14 { assert(lhs[14] == rhs[14]); }
                if k == 15 { assert(lhs[15] == rhs[15]); }
                if k == 16 { assert(lhs[16] == rhs[16]); }
                if k == 17 { assert(lhs[17] == rhs[17]); }
                if k == 18 { assert(lhs[18] == rhs[18]); }
                if k == 19 { assert(lhs[19] == rhs[19]); }
                if k == 20 { assert(lhs[20] == rhs[20]); }
            }
            assert(lhs =~= rhs);
            assert(r@ =~~= post_init_host(self@));
        }
        r
    }
}

impl Query {
    /// Renders the record's fields as a host container; the arguments render
    /// as a nested container, entry order preserved.
    pub fn to_host_value(&self) -> (r: HostValue)
        ensures
            r@ == query_host(self@),
    {
        let mut entries: Vec<(String, HostValue)> = Vec::new();
        entries.push((String::from_str("name"), HostValue::Str(self.name.clone())));
        entries.push((String::from_str("arguments"), pairs_to_host(&self.arguments)));
        let r = HostValue::Object(entries);
        proof {
            assert(r@ is Object);
            let lhs = r@->Object_0;
            let rhs = query_host(self@)->Object_0;
            assert(lhs.len() == rhs.len());
            assert forall|k: int| 0 <= k < lhs.len() implies lhs[k] == rhs[k] by {
                assert(lhs[k] == (entries@[k].0@, entries@[k].1@));
                if k == 0 { assert(lhs[0] == rhs[0]); }
                if k == 1 { assert(lhs[1] == rhs[1]); }
            }
            assert(lhs =~= rhs);
            assert(r@ =~~= query_host(self@));
        }
        r
    }
}

impl Event {
    /// Renders the record's fields as a host container; the trigger time
    /// renders as its RFC 3339 string.
    pub fn to_host_value(&self) -> (r: HostValue)
        requires
            self.triggered_at.wf(),
        ensures
            r@ == event_host(self@),
    {
        let mut entries: Vec<(String, HostValue)> = Vec::new();
        entries.push((String::from_str("event_type"), HostValue::Str(self.event_type.clone())));
        entries.push(
            (String::from_str("triggered_at"), HostValue::Str(format_rfc3339(&self.triggered_at))),
        );
        let r = HostValue::Object(entries);
        proof {
            assert(r@ is Object);
            let lhs = r@->Object_0;
            let rhs = event_host(self@)->Object_0;
            assert(lhs.len() == rhs.len());
            assert forall|k: int| 0 <= k < lhs.len() implies lhs[k] == rhs[k] by {
                assert(lhs[k] == (entries@[k].0@, entries@[k].1@));
                if k == 0 { assert(lhs[0] == rhs[0]); }
                if k == 1 { assert(lhs[1] == rhs[1]); }
            }
            assert(lhs =~= rhs);
            assert(r@ =~~= event_host(self@));
        }
        r
    }
}

impl Data {
    /// Renders the payload as a host value: the empty payload as an empty
    /// container (explicitly special-cased: it has no fields to render), and
    /// every other variant as the container of its record's fields.
    pub fn to_host_value(&self) -> (r: HostValue)
        requires
            self@.wf(),
        ensures
            r@ == data_host(self@),
    {
        match self {
            Data::Empty => {
                let entries: Vec<(String, HostValue)> = Vec::new();
                let r = HostValue::Object(entries);
                proof {
                    assert(r@->Object_0 =~= Seq::<(Seq<char>, HostModel)>::empty());
                    assert(r@ =~~= data_host(self@));
                }
                r
            },
            Data::Test(rec) => rec.to_host_value(),
            Data::Init(rec) => rec.to_host_value(),
            Data::PostInit(rec) => rec.to_host_value(),
            Data::Query(rec) => rec.to_host_value(),
        }
    }
}

} // verus!

