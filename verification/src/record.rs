//! Billing records.
//!
//! A rate is carried as the bit pattern of a double-precision number. Nothing
//! here does arithmetic on it: the rates of a record are flattened into one
//! sequence, in document order, for the caller to average.

use vstd::prelude::*;

verus! {

/// One negotiated price: its rate, as the bits of a double.
#[derive(Debug, PartialEq, Eq)]
pub struct NegotiatedPrice {
    pub negotiated_rate: u64,
}

/// One group of negotiated prices.
#[derive(Debug, PartialEq, Eq)]
pub struct NegotiatedRate {
    pub negotiated_prices: Vec<NegotiatedPrice>,
}

/// One input record.
#[derive(Debug, PartialEq, Eq)]
pub struct InputRecord {
    pub name: String,
    pub billing_code: String,
    pub negotiated_rates: Vec<NegotiatedRate>,
}

/// An input record as mathematics: its texts, and the rates of each group.
pub struct RecordView {
    pub name: Seq<char>,
    pub billing_code: Seq<char>,
    pub groups: Seq<Seq<u64>>,
}

impl RecordView {
    /// Every rate of the record, group after group.
    pub open spec fn rates(self) -> Seq<u64> {
        self.groups.flatten()
    }
}

/// A record's average rate as the caller computed it: the bits of the double,
/// by which the filter decides, and its decimal text, which the CSV row shows.
#[derive(Debug, PartialEq, Eq)]
pub struct Average {
    pub bits: u64,
    pub text: String,
}

/// An average as mathematics.
pub struct AverageView {
    pub bits: u64,
    pub text: Seq<char>,
}

impl View for Average {
    type V = AverageView;

    open spec fn view(&self) -> AverageView {
        AverageView { bits: self.bits, text: self.text@ }
    }
}

/// One record that passed the filter.
#[derive(Debug, PartialEq, Eq)]
pub struct OutputRecord {
    pub name: String,
    pub billing_code: String,
    pub avg_rate: Average,
}

/// An output record as mathematics.
pub struct OutputView {
    pub name: Seq<char>,
    pub billing_code: Seq<char>,
    pub avg_rate: AverageView,
}

impl View for OutputRecord {
    type V = OutputView;

    open spec fn view(&self) -> OutputView {
        OutputView { name: self.name@, billing_code: self.billing_code@, avg_rate: self.avg_rate@ }
    }
}

/// The rates of a list of prices.
pub open spec fn rates_of(prices: Seq<NegotiatedPrice>) -> Seq<u64> {
    prices.map_values(|price: NegotiatedPrice| price.negotiated_rate)
}

/// The rates of each group of a list.
pub open spec fn groups_of(groups: Seq<NegotiatedRate>) -> Seq<Seq<u64>> {
    groups.map_values(|group: NegotiatedRate| group@)
}

impl View for NegotiatedRate {
    type V = Seq<u64>;

    open spec fn view(&self) -> Seq<u64> {
        rates_of(self.negotiated_prices@)
    }
}

impl View for InputRecord {
    type V = RecordView;

    open spec fn view(&self) -> RecordView {
        RecordView {
            name: self.name@,
            billing_code: self.billing_code@,
            groups: groups_of(self.negotiated_rates@),
        }
    }
}

impl InputRecord {
    /// Whether the record has a price at all.
    pub fn has_price(&self) -> (r: bool)
        ensures
            r == (self@.rates().len() > 0),
    {
        let mut i: usize = 0;
        while i < self.negotiated_rates.len()
            invariant
                i <= self.negotiated_rates.len(),
                forall|k: int| 0 <= k < i ==> (#[trigger] self@.groups[k]).len() == 0,
            decreases self.negotiated_rates.len() - i,
        {
            if self.negotiated_rates[i].negotiated_prices.len() > 0 {
                proof {
                    lemma_no_rates(self@.groups);
                    assert(self@.groups[i as int].len() > 0);
                }
                return true;
            }
            i += 1;
        }
        proof {
            lemma_no_rates(self@.groups);
        }
        false
    }

    /// Every rate of the record, group after group, in document order.
    pub fn rates(&self) -> (r: Vec<u64>)
        ensures
            r@ == self@.rates(),
    {
        let mut rates: Vec<u64> = Vec::new();
        let mut i: usize = 0;
        while i < self.negotiated_rates.len()
            invariant
                i <= self.negotiated_rates.len(),
                rates@ == groups_of(self.negotiated_rates@).take(i as int).flatten(),
            decreases self.negotiated_rates.len() - i,
        {
            let group = &self.negotiated_rates[i];
            let ghost start = rates@;
            let mut j: usize = 0;
            while j < group.negotiated_prices.len()
                invariant
                    j <= group.negotiated_prices.len(),
                    rates@ == start + group@.take(j as int),
                decreases group.negotiated_prices.len() - j,
            {
                rates.push(group.negotiated_prices[j].negotiated_rate);
                j += 1;
            }
            proof {
                let all = groups_of(self.negotiated_rates@);
                assert(all.take(i + 1) =~= all.take(i as int).push(group@));
                all.take(i as int).lemma_flatten_push(group@);
            }
            i += 1;
        }
        assert(groups_of(self.negotiated_rates@).take(i as int) =~= groups_of(
            self.negotiated_rates@,
        ));
        rates
    }
}

/// A record is without rates exactly when each of its groups is empty; a
/// record without groups is one of them.
pub proof fn lemma_no_rates(groups: Seq<Seq<u64>>)
    ensures
        groups.flatten().len() == 0 <==> forall|i: int|
            0 <= i < groups.len() ==> (#[trigger] groups[i]).len() == 0,
    decreases groups.len(),
{
    if groups.len() > 0 {
        let rest = groups.drop_first();
        lemma_no_rates(rest);
        if groups.flatten().len() == 0 {
            assert forall|i: int| 0 <= i < groups.len() implies (#[trigger] groups[i]).len()
                == 0 by {
                if i > 0 {
                    assert(groups[i] == rest[i - 1]);
                }
            }
        } else if groups.first().len() == 0 {
            let k: int = choose|k: int| 0 <= k < rest.len() && (#[trigger] rest[k]).len() != 0;
            assert(groups[k + 1] == rest[k]);
        }
    }
}

} // verus!
