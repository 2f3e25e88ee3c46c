//! The payload union and its per-variant records: the unit of data carried by
//! a message, plus the typed extraction used by dispatch code.

use vstd::prelude::*;
use crate::timestamp::Timestamp;

verus! {

/// Placeholder / diagnostic payload.
#[derive(Debug, Clone, PartialEq)]
pub struct Test {
    pub foo: String,
}

#[verifier::ext_equal]
pub struct TestModel {
    pub foo: Seq<char>,
}

impl View for Test {
    type V = TestModel;

    open spec fn view(&self) -> TestModel {
        TestModel { foo: self.foo@ }
    }
}

/// Server bootstrap snapshot sent once at startup; immutable after
/// construction. The two price fields hold single-precision bit patterns.
#[derive(Debug, Clone, PartialEq)]
pub struct Init {
    pub server_name: String,
    /// Bit pattern of an IEEE 754 single-precision number.
    pub price_per_object: u32,
    /// Bit pattern of an IEEE 754 single-precision number.
    pub territory_lifetime: u32,
    pub territory_data: String,
    pub server_start_time: Timestamp,
    pub extension_version: String,
}

#[verifier::ext_equal]
pub struct InitModel {
    pub server_name: Seq<char>,
    pub price_per_object: u32,
    pub territory_lifetime: u32,
    pub territory_data: Seq<char>,
    pub server_start_time: Timestamp,
    pub extension_version: Seq<char>,
}

impl View for Init {
    type V = InitModel;

    open spec fn view(&self) -> InitModel {
        InitModel {
            server_name: self.server_name@,
            price_per_object: self.price_per_object,
            territory_lifetime: self.territory_lifetime,
            territory_data: self.territory_data@,
            server_start_time: self.server_start_time,
            extension_version: self.extension_version@,
        }
    }
}

/// Feature, tax and logging configuration snapshot sent once after
/// initialization completes. The gambling randomizer fields hold
/// double-precision bit patterns. `territory_admins` keeps its order and its
/// duplicates: it is a display/priority order, not a set.
#[derive(Debug, Clone, PartialEq)]
pub struct PostInit {
    pub gambling_modifier: i64,
    pub gambling_payout: i64,
    /// Bit pattern of an IEEE 754 double-precision number.
    pub gambling_randomizer_max: u64,
    /// Bit pattern of an IEEE 754 double-precision number.
    pub gambling_randomizer_mid: u64,
    /// Bit pattern of an IEEE 754 double-precision number.
    pub gambling_randomizer_min: u64,
    pub gambling_win_chance: i64,
    pub logging_add_player_to_territory: bool,
    pub logging_demote_player: bool,
    pub logging_exec: bool,
    pub logging_gamble: bool,
    pub logging_modify_player: bool,
    pub logging_pay_territory: bool,
    pub logging_promote_player: bool,
    pub logging_remove_player_from_territory: bool,
    pub logging_reward: bool,
    pub logging_transfer: bool,
    pub logging_upgrade_territory: bool,
    pub max_payment_count: i64,
    pub territory_payment_tax: i64,
    pub territory_upgrade_tax: i64,
    pub territory_admins: Vec<String>,
}

#[verifier::ext_equal]
pub struct PostInitModel {
    pub gambling_modifier: i64,
    pub gambling_payout: i64,
    pub gambling_randomizer_max: u64,
    pub gambling_randomizer_mid: u64,
    pub gambling_randomizer_min: u64,
    pub gambling_win_chance: i64,
    pub logging_add_player_to_territory: bool,
    pub logging_demote_player: bool,
    pub logging_exec: bool,
    pub logging_gamble: bool,
    pub logging_modify_player: bool,
    pub logging_pay_territory: bool,
    pub logging_promote_player: bool,
    pub logging_remove_player_from_territory: bool,
    pub logging_reward: bool,
    pub logging_transfer: bool,
    pub logging_upgrade_territory: bool,
    pub max_payment_count: i64,
    pub territory_payment_tax: i64,
    pub territory_upgrade_tax: i64,
    pub territory_admins: Seq<Seq<char>>,
}

/// The views of the strings of `ss`, in order.
pub open spec fn strings_model(ss: Seq<String>) -> Seq<Seq<char>> {
    Seq::new(ss.len(), |i: int| if 0 <= i < ss.len() { ss[i]@ } else { Seq::empty() })
}

impl View for PostInit {
    type V = PostInitModel;

    open spec fn view(&self) -> PostInitModel {
        PostInitModel {
            gambling_modifier: self.gambling_modifier,
            gambling_payout: self.gambling_payout,
            gambling_randomizer_max: self.gambling_randomizer_max,
            gambling_randomizer_mid: self.gambling_randomizer_mid,
            gambling_randomizer_min: self.gambling_randomizer_min,
            gambling_win_chance: self.gambling_win_chance,
            logging_add_player_to_territory: self.logging_add_player_to_territory,
            logging_demote_player: self.logging_demote_player,
            logging_exec: self.logging_exec,
            logging_gamble: self.logging_gamble,
            logging_modify_player: self.logging_modify_player,
            logging_pay_territory: self.logging_pay_territory,
            logging_promote_player: self.logging_promote_player,
            logging_remove_player_from_territory: self.logging_remove_player_from_territory,
            logging_reward: self.logging_reward,
            logging_transfer: self.logging_transfer,
            logging_upgrade_territory: self.logging_upgrade_territory,
            max_payment_count: self.max_payment_count,
            territory_payment_tax: self.territory_payment_tax,
            territory_upgrade_tax: self.territory_upgrade_tax,
            territory_admins: strings_model(self.territory_admins@),
        }
    }
}

/// A generic request: `name` identifies one of an open-ended, host-extensible
/// set of query kinds, by design not a closed enumeration; `arguments` is a
/// string-keyed mapping with unique keys, held as ordered entries.
#[derive(Debug, Clone, PartialEq)]
pub struct Query {
    pub name: String,
    pub arguments: Vec<(String, String)>,
}

#[verifier::ext_equal]
pub struct QueryModel {
    pub name: Seq<char>,
    pub arguments: Seq<(Seq<char>, Seq<char>)>,
}

/// The views of the string pairs of `args`, in order.
pub open spec fn pairs_model(args: Seq<(String, String)>) -> Seq<(Seq<char>, Seq<char>)> {
    Seq::new(
        args.len(),
        |i: int|
            if 0 <= i < args.len() {
                (args[i].0@, args[i].1@)
            } else {
                (Seq::empty(), Seq::empty())
            },
    )
}

/// The keys of `args` are pairwise distinct.
pub open spec fn unique_keys(args: Seq<(Seq<char>, Seq<char>)>) -> bool {
    forall|i: int, j: int| 0 <= i < j < args.len() ==> args[i].0 != args[j].0
}

impl View for Query {
    type V = QueryModel;

    open spec fn view(&self) -> QueryModel {
        QueryModel { name: self.name@, arguments: pairs_model(self.arguments@) }
    }
}

/// A standalone occurrence record with its wall-clock time; not a variant of
/// the payload union.
#[derive(Debug, Clone, PartialEq)]
pub struct Event {
    pub event_type: String,
    pub triggered_at: Timestamp,
}

#[verifier::ext_equal]
pub struct EventModel {
    pub event_type: Seq<char>,
    pub triggered_at: Timestamp,
}

impl View for Event {
    type V = EventModel;

    open spec fn view(&self) -> EventModel {
        EventModel { event_type: self.event_type@, triggered_at: self.triggered_at }
    }
}

/// The payload union: a closed, tagged sum over the variants plus an explicit
/// empty case. Adding a payload kind means adding a variant here.
#[derive(Debug, Clone, PartialEq)]
pub enum Data {
    Empty,
    Test(Test),
    Init(Init),
    PostInit(PostInit),
    Query(Query),
}

#[verifier::ext_equal]
pub enum DataModel {
    Empty,
    Test(TestModel),
    Init(InitModel),
    PostInit(PostInitModel),
    Query(QueryModel),
}

impl View for Data {
    type V = DataModel;

    open spec fn view(&self) -> DataModel {
        match self {
            Data::Empty => DataModel::Empty,
            Data::Test(t) => DataModel::Test(t@),
            Data::Init(i) => DataModel::Init(i@),
            Data::PostInit(p) => DataModel::PostInit(p@),
            Data::Query(q) => DataModel::Query(q@),
        }
    }
}

impl DataModel {
    /// The payload stays within the machine limits of its rendering: its
    /// timestamps can be rendered as RFC 3339, and query argument keys are
    /// unique.
    pub open spec fn wf(self) -> bool {
        match self {
            DataModel::Empty => true,
            DataModel::Test(_) => true,
            DataModel::Init(i) => i.server_start_time.wf(),
            DataModel::PostInit(_) => true,
            DataModel::Query(q) => unique_keys(q.arguments),
        }
    }
}

impl Default for Data {
    /// The default payload is exactly the empty case.
    fn default() -> (r: Self)
        ensures
            r == Data::Empty,
    {
        Data::Empty
    }
}

/// The variant's name, as a diagnostic names it.
pub open spec fn spec_variant_name(d: DataModel) -> Seq<char> {
    match d {
        DataModel::Empty => "Empty"@,
        DataModel::Test(_) => "Test"@,
        DataModel::Init(_) => "Init"@,
        DataModel::PostInit(_) => "PostInit"@,
        DataModel::Query(_) => "Query"@,
    }
}

/// The failure of a typed extraction: the payload's actual variant did not
/// match the expected one. This signals a routing defect upstream, to be
/// surfaced immediately by the caller, never absorbed.
#[derive(Debug, Clone, PartialEq)]
pub struct ExtractError {
    /// Name of the variant the caller expected.
    pub expected: String,
    /// Name of the variant the payload actually held.
    pub actual: String,
}

impl Data {
    /// The variant's name, for diagnostics.
    pub fn variant_name(&self) -> (r: &'static str)
        ensures
            r@ == spec_variant_name(self@),
    {
        match self {
            Data::Empty => "Empty",
            Data::Test(_) => "Test",
            Data::Init(_) => "Init",
            Data::PostInit(_) => "PostInit",
            Data::Query(_) => "Query",
        }
    }

    /// Typed extraction of the `Test` record, consuming the payload. Any
    /// other variant is a defect and yields the diagnostic error.
    pub fn extract_test(self) -> (r: Result<Test, ExtractError>)
        ensures
            match r {
                Ok(rec) => self == Data::Test(rec),
                Err(e) => {
                    &&& !(self is Test)
                    &&& e.expected@ == "Test"@
                    &&& e.actual@ == spec_variant_name(self@)
                },
            },
    {
        match self {
            Data::Test(rec) => Ok(rec),
            other => Err(
                ExtractError {
                    expected: String::from_str("Test"),
                    actual: String::from_str(other.variant_name()),
                },
            ),
        }
    }

    /// Typed extraction of the `Init` record, consuming the payload.
    pub fn extract_init(self) -> (r: Result<Init, ExtractError>)
        ensures
            match r {
                Ok(rec) => self == Data::Init(rec),
                Err(e) => {
                    &&& !(self is Init)
                    &&& e.expected@ == "Init"@
                    &&& e.actual@ == spec_variant_name(self@)
                },
            },
    {
        match self {
            Data::Init(rec) => Ok(rec),
            other => Err(
                ExtractError {
                    expected: String::from_str("Init"),
                    actual: String::from_str(other.variant_name()),
                },
            ),
        }
    }

    /// Typed extraction of the `PostInit` record, consuming the payload.
    pub fn extract_post_init(self) -> (r: Result<PostInit, ExtractError>)
        ensures
            match r {
                Ok(rec) => self == Data::PostInit(rec),
                Err(e) => {
                    &&& !(self is PostInit)
                    &&& e.expected@ == "PostInit"@
                    &&& e.actual@ == spec_variant_name(self@)
                },
            },
    {
        match self {
            Data::PostInit(rec) => Ok(rec),
            other => Err(
                ExtractError {
                    expected: String::from_str("PostInit"),
                    actual: String::from_str(other.variant_name()),
                },
            ),
        }
    }

    /// Typed extraction of the `Query` record, consuming the payload.
    pub fn extract_query(self) -> (r: Result<Query, ExtractError>)
        ensures
            match r {
                Ok(rec) => self == Data::Query(rec),
                Err(e) => {
                    &&& !(self is Query)
                    &&& e.expected@ == "Query"@
                    &&& e.actual@ == spec_variant_name(self@)
                },
            },
    {
        match self {
            Data::Query(rec) => Ok(rec),
            other => Err(
                ExtractError {
                    expected: String::from_str("Query"),
                    actual: String::from_str(other.variant_name()),
                },
            ),
        }
    }
}

} // verus!
