//! How a record is read out of a JSON document.
//!
//! A record is a JSON object with a string `name`, a string `billing_code`
//! and a list `negotiated_rates`; each item of that list is an object with a
//! list `negotiated_prices`, and each item of that an object with a number
//! `negotiated_rate`. Members of other names are passed over.

use vstd::prelude::*;
use vstd::string::StringExecFns;
use crate::json::{find_member, member, Json};
use crate::record::{
    groups_of, rates_of, InputRecord, NegotiatedPrice, NegotiatedRate, RecordView,
};

verus! {

/// The fields that a record's JSON has to hold.
#[derive(Clone, Copy, Debug, PartialEq, Eq, Structural)]
pub enum Field {
    Name,
    BillingCode,
    NegotiatedRates,
    NegotiatedPrices,
    NegotiatedRate,
}

/// The three nested objects of a record's JSON.
#[derive(Clone, Copy, Debug, PartialEq, Eq, Structural)]
pub enum Level {
    Record,
    RateGroup,
    Price,
}

/// Why a JSON document is no record.
#[derive(Clone, Copy, Debug, PartialEq, Eq, Structural)]
pub enum ShapeError {
    /// The value at this level is not a JSON object.
    NotAnObject(Level),
    /// The object has no member of this name.
    MissingField(Field),
    /// The member is there, with a value of another JSON type.
    WrongType(Field),
}

impl Field {
    /// The member's key in the JSON object.
    pub open spec fn spec_key(self) -> Seq<char> {
        match self {
            Field::Name => "name"@,
            Field::BillingCode => "billing_code"@,
            Field::NegotiatedRates => "negotiated_rates"@,
            Field::NegotiatedPrices => "negotiated_prices"@,
            Field::NegotiatedRate => "negotiated_rate"@,
        }
    }

    /// The member's key in the JSON object.
    pub fn key(self) -> (r: &'static str)
        ensures
            r@ == self.spec_key(),
    {
        match self {
            Field::Name => "name",
            Field::BillingCode => "billing_code",
            Field::NegotiatedRates => "negotiated_rates",
            Field::NegotiatedPrices => "negotiated_prices",
            Field::NegotiatedRate => "negotiated_rate",
        }
    }
}

impl Level {
    /// What the value at this level has to be, in words.
    pub open spec fn spec_name(self) -> Seq<char> {
        match self {
            Level::Record => "a record object"@,
            Level::RateGroup => "a rate group object"@,
            Level::Price => "a price object"@,
        }
    }

    /// What the value at this level has to be, in words.
    pub fn name(self) -> (r: &'static str)
        ensures
            r@ == self.spec_name(),
    {
        match self {
            Level::Record => "a record object",
            Level::RateGroup => "a rate group object",
            Level::Price => "a price object",
        }
    }
}

impl ShapeError {
    /// The error in words.
    pub open spec fn spec_description(self) -> Seq<char> {
        match self {
            ShapeError::NotAnObject(level) => "invalid type: expected "@ + level.spec_name(),
            ShapeError::MissingField(field) => "missing field `"@ + field.spec_key() + "`"@,
            ShapeError::WrongType(field) => "invalid type for field `"@ + field.spec_key() + "`"@,
        }
    }

    /// The error in words.
    pub fn description(self) -> (r: String)
        ensures
            r@ == self.spec_description(),
    {
        match self {
            ShapeError::NotAnObject(level) => {
                let mut text = String::from_str("invalid type: expected ");
                text.append(level.name());
                text
            },
            ShapeError::MissingField(field) => {
                let mut text = String::from_str("missing field `");
                text.append(field.key());
                text.append("`");
                text
            },
            ShapeError::WrongType(field) => {
                let mut text = String::from_str("invalid type for field `");
                text.append(field.key());
                text.append("`");
                text
            },
        }
    }
}

/// The rate that a JSON value holds as a price.
pub open spec fn decode_price(json: Json) -> Result<u64, ShapeError> {
    match json {
        Json::Object(members) => match find_member(members@, Field::NegotiatedRate.spec_key()) {
            None => Err(ShapeError::MissingField(Field::NegotiatedRate)),
            Some(Json::Number(Some(bits))) => Ok(bits),
            Some(_) => Err(ShapeError::WrongType(Field::NegotiatedRate)),
        },
        _ => Err(ShapeError::NotAnObject(Level::Price)),
    }
}

/// The rates of a list of prices; the first item that is no price decides the error.
pub open spec fn decode_prices(items: Seq<Json>) -> Result<Seq<u64>, ShapeError>
    decreases items.len(),
{
    if items.len() == 0 {
        Ok(Seq::empty())
    } else {
        match decode_prices(items.drop_last()) {
            Err(e) => Err(e),
            Ok(rates) => match decode_price(items.last()) {
                Err(e) => Err(e),
                Ok(rate) => Ok(rates.push(rate)),
            },
        }
    }
}

/// The rates that a JSON value holds as a group of prices.
pub open spec fn decode_group(json: Json) -> Result<Seq<u64>, ShapeError> {
    match json {
        Json::Object(members) => match find_member(members@, Field::NegotiatedPrices.spec_key()) {
            None => Err(ShapeError::MissingField(Field::NegotiatedPrices)),
            Some(Json::List(items)) => decode_prices(items@),
            Some(_) => Err(ShapeError::WrongType(Field::NegotiatedPrices)),
        },
        _ => Err(ShapeError::NotAnObject(Level::RateGroup)),
    }
}

/// The groups of a list; the first item that is no group decides the error.
pub open spec fn decode_groups(items: Seq<Json>) -> Result<Seq<Seq<u64>>, ShapeError>
    decreases items.len(),
{
    if items.len() == 0 {
        Ok(Seq::empty())
    } else {
        match decode_groups(items.drop_last()) {
            Err(e) => Err(e),
            Ok(groups) => match decode_group(items.last()) {
                Err(e) => Err(e),
                Ok(group) => Ok(groups.push(group)),
            },
        }
    }
}

/// The text of a member that has to be a JSON string.
pub open spec fn decode_text(members: Seq<(String, Json)>, field: Field) -> Result<
    Seq<char>,
    ShapeError,
> {
    match find_member(members, field.spec_key()) {
        None => Err(ShapeError::MissingField(field)),
        Some(Json::Text(text)) => Ok(text@),
        Some(_) => Err(ShapeError::WrongType(field)),
    }
}

/// The groups of the member `negotiated_rates`.
pub open spec fn decode_rates(members: Seq<(String, Json)>) -> Result<Seq<Seq<u64>>, ShapeError> {
    match find_member(members, Field::NegotiatedRates.spec_key()) {
        None => Err(ShapeError::MissingField(Field::NegotiatedRates)),
        Some(Json::List(items)) => decode_groups(items@),
        Some(_) => Err(ShapeError::WrongType(Field::NegotiatedRates)),
    }
}

/// The record that a JSON document holds. It has to be an object with a
/// string `name`, a string `billing_code` and a list `negotiated_rates` of
/// groups; members of other names are passed over. The fields are looked at
/// in this order, and the first that fails decides the error.
pub open spec fn decode_record(json: Json) -> Result<RecordView, ShapeError> {
    match json {
        Json::Object(members) => match decode_text(members@, Field::Name) {
            Err(e) => Err(e),
            Ok(name) => match decode_text(members@, Field::BillingCode) {
                Err(e) => Err(e),
                Ok(billing_code) => match decode_rates(members@) {
                    Err(e) => Err(e),
                    Ok(groups) => Ok(RecordView { name, billing_code, groups }),
                },
            },
        },
        _ => Err(ShapeError::NotAnObject(Level::Record)),
    }
}

impl NegotiatedPrice {
    /// Reads a price out of a JSON value.
    pub fn from_json(json: &Json) -> (r: Result<NegotiatedPrice, ShapeError>)
        ensures
            match decode_price(*json) {
                Ok(rate) => r matches Ok(price) && price.negotiated_rate == rate,
                Err(e) => r matches Err(x) && x == e,
            },
    {
        match json {
            Json::Object(members) => match member(members, Field::NegotiatedRate.key()) {
                None => Err(ShapeError::MissingField(Field::NegotiatedRate)),
                Some(value) => match value {
                    Json::Number(Some(bits)) => Ok(NegotiatedPrice { negotiated_rate: *bits }),
                    _ => Err(ShapeError::WrongType(Field::NegotiatedRate)),
                },
            },
            _ => Err(ShapeError::NotAnObject(Level::Price)),
        }
    }
}

/// Reads the prices of a list, up to the first item that is none.
fn read_prices(items: &Vec<Json>) -> (r: Result<Vec<NegotiatedPrice>, ShapeError>)
    ensures
        match decode_prices(items@) {
            Ok(rates) => r matches Ok(prices) && rates_of(prices@) == rates,
            Err(e) => r matches Err(x) && x == e,
        },
{
    let mut prices: Vec<NegotiatedPrice> = Vec::new();
    let mut i: usize = 0;
    assert(rates_of(prices@) =~= Seq::<u64>::empty());
    while i < items.len()
        invariant
            i <= items.len(),
            decode_prices(items@.take(i as int)) == Ok::<Seq<u64>, ShapeError>(rates_of(prices@)),
        decreases items.len() - i,
    {
        proof {
            lemma_take_step(items@, i as int);
        }
        match NegotiatedPrice::from_json(&items[i]) {
            Err(e) => {
                proof {
                    lemma_prices_error_stays(items@, i as int + 1);
                }
                return Err(e);
            },
            Ok(price) => {
                let ghost before = prices@;
                prices.push(price);
                assert(rates_of(prices@) =~= rates_of(before).push(price.negotiated_rate));
            },
        }
        i += 1;
    }
    assert(items@.take(i as int) =~= items@);
    Ok(prices)
}

impl NegotiatedRate {
    /// Reads a group of prices out of a JSON value.
    pub fn from_json(json: &Json) -> (r: Result<NegotiatedRate, ShapeError>)
        ensures
            match decode_group(*json) {
                Ok(rates) => r matches Ok(group) && group@ == rates,
                Err(e) => r matches Err(x) && x == e,
            },
    {
        match json {
            Json::Object(members) => match member(members, Field::NegotiatedPrices.key()) {
                None => Err(ShapeError::MissingField(Field::NegotiatedPrices)),
                Some(value) => match value {
                    Json::List(items) => match read_prices(items) {
                        Err(e) => Err(e),
                        Ok(prices) => Ok(NegotiatedRate { negotiated_prices: prices }),
                    },
                    _ => Err(ShapeError::WrongType(Field::NegotiatedPrices)),
                },
            },
            _ => Err(ShapeError::NotAnObject(Level::RateGroup)),
        }
    }
}

/// Reads the groups of a list, up to the first item that is none.
fn read_groups(items: &Vec<Json>) -> (r: Result<Vec<NegotiatedRate>, ShapeError>)
    ensures
        match decode_groups(items@) {
            Ok(groups) => r matches Ok(read) && groups_of(read@) == groups,
            Err(e) => r matches Err(x) && x == e,
        },
{
    let mut groups: Vec<NegotiatedRate> = Vec::new();
    let mut i: usize = 0;
    assert(groups_of(groups@) =~= Seq::<Seq<u64>>::empty());
    while i < items.len()
        invariant
            i <= items.len(),
            decode_groups(items@.take(i as int)) == Ok::<Seq<Seq<u64>>, ShapeError>(
                groups_of(groups@),
            ),
        decreases items.len() - i,
    {
        proof {
            lemma_take_step(items@, i as int);
        }
        match NegotiatedRate::from_json(&items[i]) {
            Err(e) => {
                proof {
                    lemma_groups_error_stays(items@, i as int + 1);
                }
                return Err(e);
            },
            Ok(group) => {
                let ghost before = groups@;
                let ghost rates = group@;
                groups.push(group);
                assert(groups_of(groups@) =~= groups_of(before).push(rates));
            },
        }
        i += 1;
    }
    assert(items@.take(i as int) =~= items@);
    Ok(groups)
}

/// Reads the member `field` of an object as a string.
fn read_text(members: &Vec<(String, Json)>, field: Field) -> (r: Result<String, ShapeError>)
    ensures
        match decode_text(members@, field) {
            Ok(text) => r matches Ok(read) && read@ == text,
            Err(e) => r matches Err(x) && x == e,
        },
{
    match member(members, field.key()) {
        None => Err(ShapeError::MissingField(field)),
        Some(value) => match value {
            Json::Text(text) => Ok(text.clone()),
            _ => Err(ShapeError::WrongType(field)),
        },
    }
}

impl InputRecord {
    /// Reads a record out of a JSON document.
    pub fn from_json(json: &Json) -> (r: Result<InputRecord, ShapeError>)
        ensures
            match decode_record(*json) {
                Ok(model) => r matches Ok(record) && record@ == model,
                Err(e) => r matches Err(x) && x == e,
            },
    {
        match json {
            Json::Object(members) => {
                let name = match read_text(members, Field::Name) {
                    Err(e) => { return Err(e); },
                    Ok(text) => text,
                };
                let billing_code = match read_text(members, Field::BillingCode) {
                    Err(e) => { return Err(e); },
                    Ok(text) => text,
                };
                match member(members, Field::NegotiatedRates.key()) {
                    None => Err(ShapeError::MissingField(Field::NegotiatedRates)),
                    Some(value) => match value {
                        Json::List(items) => match read_groups(items) {
                            Err(e) => Err(e),
                            Ok(groups) => Ok(
                                InputRecord { name, billing_code, negotiated_rates: groups },
                            ),
                        },
                        _ => Err(ShapeError::WrongType(Field::NegotiatedRates)),
                    },
                }
            },
            _ => Err(ShapeError::NotAnObject(Level::Record)),
        }
    }
}

/// A member of another key, wherever it stands among the members, does not
/// change what is found under a key.
pub proof fn lemma_find_skips_other_keys(
    members: Seq<(String, Json)>,
    at: int,
    other: (String, Json),
    key: Seq<char>,
)
    requires
        0 <= at <= members.len(),
        other.0@ != key,
    ensures
        find_member(members.insert(at, other), key) == find_member(members, key),
    decreases members.len(),
{
    let longer = members.insert(at, other);
    if at == 0 {
        assert(longer.drop_first() =~= members);
    } else {
        assert(longer.drop_first() =~= members.drop_first().insert(at - 1, other));
        lemma_find_skips_other_keys(members.drop_first(), at - 1, other, key);
    }
}

/// Members of other names are passed over: an object with one member more,
/// under a key that is none of a record's three, holds the same record, or
/// fails in the same way.
pub proof fn lemma_other_members_are_passed_over(
    members: Vec<(String, Json)>,
    longer: Vec<(String, Json)>,
    at: int,
    other: (String, Json),
)
    requires
        0 <= at <= members@.len(),
        longer@ == members@.insert(at, other),
        other.0@ != Field::Name.spec_key(),
        other.0@ != Field::BillingCode.spec_key(),
        other.0@ != Field::NegotiatedRates.spec_key(),
    ensures
        decode_record(Json::Object(longer)) == decode_record(Json::Object(members)),
{
    lemma_find_skips_other_keys(members@, at, other, Field::Name.spec_key());
    lemma_find_skips_other_keys(members@, at, other, Field::BillingCode.spec_key());
    lemma_find_skips_other_keys(members@, at, other, Field::NegotiatedRates.spec_key());
}

/// Taking one item more is taking the prefix and then that item.
proof fn lemma_take_step<T>(items: Seq<T>, i: int)
    requires
        0 <= i < items.len(),
    ensures
        items.take(i + 1).drop_last() == items.take(i),
        items.take(i + 1).last() == items[i],
{
}

/// An error among the first `n` prices is the error of the whole list.
proof fn lemma_prices_error_stays(items: Seq<Json>, n: int)
    requires
        0 <= n <= items.len(),
        decode_prices(items.take(n)) is Err,
    ensures
        decode_prices(items) == decode_prices(items.take(n)),
    decreases items.len() - n,
{
    if n < items.len() {
        lemma_take_step(items, n);
        lemma_prices_error_stays(items, n + 1);
    } else {
        assert(items.take(n) =~= items);
    }
}

/// An error among the first `n` groups is the error of the whole list.
proof fn lemma_groups_error_stays(items: Seq<Json>, n: int)
    requires
        0 <= n <= items.len(),
        decode_groups(items.take(n)) is Err,
    ensures
        decode_groups(items) == decode_groups(items.take(n)),
    decreases items.len() - n,
{
    if n < items.len() {
        lemma_take_step(items, n);
        lemma_groups_error_stays(items, n + 1);
    } else {
        assert(items.take(n) =~= items);
    }
}

} // verus!
