//! Balance readings and the readings of one day.

use crate::account::{AccountBalance, Amount, Currency};
use crate::clock::{distance, Date, TimeOfDay};
use crate::myerrors::DBInsertError;
use crate::storage::series::{
    closest_index, first_later_from, lemma_insert_keeps_distinct, lemma_slot_keeps_order,
    scan_from, slot_for, sorted_by_time,
};
use vstd::prelude::*;

verus! {

/// The balance of an account at one time of a day.
#[derive(Clone, Copy, Debug, PartialEq, Eq, Structural, Hash)]
pub struct DBInfoAccountBalance {
    pub currency: Currency,
    pub cash: Amount,
    pub market_value: Amount,
    pub total_equity: Amount,
    pub buying_power: Amount,
    pub maitenance_excess: Amount,
    pub time_retrieved: TimeOfDay,
}

impl DBInfoAccountBalance {
    /// The reading that a reported balance makes at the time it was taken.
    pub open spec fn of(balance: AccountBalance, time_retrieved: TimeOfDay) -> DBInfoAccountBalance {
        DBInfoAccountBalance {
            currency: balance.currency,
            cash: balance.cash,
            market_value: balance.market_value,
            total_equity: balance.total_equity,
            buying_power: balance.buying_power,
            maitenance_excess: balance.maintenance_excess,
            time_retrieved,
        }
    }

    /// The reading that a reported balance makes at the time it was taken.
    pub fn new(balance: AccountBalance, time_retrieved: TimeOfDay) -> (r: DBInfoAccountBalance)
        ensures
            r == Self::of(balance, time_retrieved),
    {
        DBInfoAccountBalance {
            currency: balance.currency,
            cash: balance.cash,
            market_value: balance.market_value,
            total_equity: balance.total_equity,
            buying_power: balance.buying_power,
            maitenance_excess: balance.maintenance_excess,
            time_retrieved,
        }
    }
}

/// The times of a run of balance readings, in their order.
pub open spec fn balance_times(readings: Seq<DBInfoAccountBalance>) -> Seq<TimeOfDay> {
    readings.map_values(|b: DBInfoAccountBalance| b.time_retrieved)
}

/// The balance readings of one day: the balance the day started with, and
/// the readings taken during the day.
pub struct BalanceDayView {
    pub date: Date,
    pub start_of_day_bal: DBInfoAccountBalance,
    pub over_day_balances: Seq<DBInfoAccountBalance>,
}

impl BalanceDayView {
    /// The readings stand in the order of their times, and none is there
    /// twice.
    pub open spec fn wf(self) -> bool {
        &&& sorted_by_time(balance_times(self.over_day_balances))
        &&& self.over_day_balances.no_duplicates()
    }

    /// The latest reading, or the start of the day where nothing was read.
    pub open spec fn most_recent(self) -> DBInfoAccountBalance {
        if self.over_day_balances.len() == 0 {
            self.start_of_day_bal
        } else {
            self.over_day_balances.last()
        }
    }

    /// The earliest reading, or the start of the day where nothing was read.
    pub open spec fn first_bal(self) -> DBInfoAccountBalance {
        if self.over_day_balances.len() == 0 {
            self.start_of_day_bal
        } else {
            self.over_day_balances.first()
        }
    }

    /// The reading that the search for the one closest to `time` returns,
    /// or the start of the day where nothing was read.
    pub open spec fn closest_to(self, time: TimeOfDay) -> DBInfoAccountBalance {
        if self.over_day_balances.len() == 0 {
            self.start_of_day_bal
        } else {
            self.over_day_balances[closest_index(balance_times(self.over_day_balances), time)]
        }
    }

    /// The day with one more reading, put where its time places it.
    pub open spec fn with_reading(self, balance: DBInfoAccountBalance) -> BalanceDayView {
        BalanceDayView {
            over_day_balances: self.over_day_balances.insert(
                slot_for(balance_times(self.over_day_balances), balance.time_retrieved),
                balance,
            ),
            ..self
        }
    }
}

/// A day with one more reading that it did not hold yet keeps its order
/// and holds nothing twice.
pub proof fn lemma_with_reading_wf(day: BalanceDayView, balance: DBInfoAccountBalance)
    requires
        day.wf(),
        !day.over_day_balances.contains(balance),
    ensures
        day.with_reading(balance).wf(),
        day.with_reading(balance).over_day_balances.len() == day.over_day_balances.len() + 1,
        day.with_reading(balance).over_day_balances.contains(balance),
{
    let times = balance_times(day.over_day_balances);
    let k = slot_for(times, balance.time_retrieved);
    lemma_slot_keeps_order(times, balance.time_retrieved);
    let after = day.over_day_balances.insert(k, balance);
    assert(balance_times(after) =~= times.insert(k, balance.time_retrieved));
    lemma_insert_keeps_distinct(day.over_day_balances, k, balance);
}

/// All the balance readings of one date.
#[derive(Debug, PartialEq, Eq)]
pub struct DBInfoAccountBalanceDay {
    date: Date,
    start_of_day_bal: DBInfoAccountBalance,
    over_day_balances: Vec<DBInfoAccountBalance>,
}

impl View for DBInfoAccountBalanceDay {
    type V = BalanceDayView;

    closed spec fn view(&self) -> BalanceDayView {
        BalanceDayView {
            date: self.date,
            start_of_day_bal: self.start_of_day_bal,
            over_day_balances: self.over_day_balances@,
        }
    }
}

impl DBInfoAccountBalanceDay {
    #[verifier::type_invariant]
    pub closed spec fn inv(&self) -> bool {
        self@.wf()
    }

    /// What the type's invariant says of what the day holds.
    pub proof fn lemma_inv_is_wf(&self)
        requires
            self.inv(),
        ensures
            self@.wf(),
    {
    }

    /// A day with the balance it started with and no reading yet.
    pub fn new(date: Date, start_of_day_bal: DBInfoAccountBalance) -> (r: DBInfoAccountBalanceDay)
        ensures
            r@ == (BalanceDayView { date, start_of_day_bal, over_day_balances: Seq::empty() }),
            r@.wf(),
    {
        let r = DBInfoAccountBalanceDay { date, start_of_day_bal, over_day_balances: Vec::new() };
        assert(balance_times(r.over_day_balances@) =~= Seq::empty());
        r
    }

    /// Whether the day holds this very reading.
    pub fn holds(&self, balance: &DBInfoAccountBalance) -> (r: bool)
        ensures
            r == self@.over_day_balances.contains(*balance),
    {
        let n = self.over_day_balances.len();
        let mut i: usize = 0;
        while i < n
            invariant
                n == self.over_day_balances@.len(),
                i <= n,
                forall|j: int| 0 <= j < i ==> self.over_day_balances@[j] != *balance,
            decreases n - i,
        {
            if self.over_day_balances[i] == *balance {
                return true;
            }
            i += 1;
        }
        false
    }

    /// Takes a reading into the day, at the place its time gives it. A
    /// reading that the day holds already is turned down and the day stays
    /// as it is.
    pub fn insert_bal(&mut self, balance: DBInfoAccountBalance) -> (r: Result<(), DBInsertError>)
        ensures
            old(self)@.wf(),
            final(self)@.wf(),
            old(self)@.over_day_balances.contains(balance) ==> r == Err::<(), DBInsertError>(
                DBInsertError::InsertAccountBalanceDuplicateError,
            ) && final(self)@ == old(self)@,
            !old(self)@.over_day_balances.contains(balance) ==> r.is_ok() && final(self)@ == old(
                self,
            )@.with_reading(balance),
    {
        proof {
            use_type_invariant(&*self);
        }
        if self.holds(&balance) {
            Err(DBInsertError::InsertAccountBalanceDuplicateError)
        } else {
            let ghost times = balance_times(self.over_day_balances@);
            let n = self.over_day_balances.len();
            let mut i: usize = 0;
            while i < n && self.over_day_balances[i].time_retrieved.is_at_or_before(
                &balance.time_retrieved,
            )
                invariant
                    n == self.over_day_balances@.len(),
                    i <= n,
                    times == balance_times(self.over_day_balances@),
                    slot_for(times, balance.time_retrieved) == first_later_from(
                        times,
                        balance.time_retrieved,
                        i as int,
                    ),
                decreases n - i,
            {
                i += 1;
            }
            proof {
                lemma_with_reading_wf(self@, balance);
            }
            let mut readings: Vec<DBInfoAccountBalance> = Vec::new();
            std::mem::swap(&mut self.over_day_balances, &mut readings);
            readings.insert(i, balance);
            self.over_day_balances = readings;
            Ok(())
        }
    }

    /// The latest reading of the day, or the balance the day started with
    /// where nothing was read.
    pub fn get_most_recent(&self) -> (r: &DBInfoAccountBalance)
        ensures
            *r == self@.most_recent(),
    {
        let n = self.over_day_balances.len();
        if n == 0 {
            &self.start_of_day_bal
        } else {
            &self.over_day_balances[n - 1]
        }
    }

    /// The earliest reading of the day, or the balance the day started with
    /// where nothing was read.
    pub fn get_first_bal(&self) -> (r: &DBInfoAccountBalance)
        ensures
            *r == self@.first_bal(),
    {
        if self.over_day_balances.len() == 0 {
            &self.start_of_day_bal
        } else {
            &self.over_day_balances[0]
        }
    }

    /// The balance the day started with.
    pub fn get_start_of_day(&self) -> (r: &DBInfoAccountBalance)
        ensures
            *r == self@.start_of_day_bal,
    {
        &self.start_of_day_bal
    }

    /// The date of the day.
    pub fn date(&self) -> (r: Date)
        ensures
            r == self@.date,
    {
        self.date
    }

    /// The readings taken during the day, earliest first.
    pub fn over_day_balances(&self) -> (r: &Vec<DBInfoAccountBalance>)
        ensures
            r@ == self@.over_day_balances,
            self@.wf(),
    {
        proof {
            use_type_invariant(self);
        }
        &self.over_day_balances
    }

    /// The reading closest to `time`: the search starts at the earliest
    /// reading and moves on while the next one is no farther from `time`
    /// than the one it holds.
    pub fn get_closest(&self, time: TimeOfDay) -> (r: &DBInfoAccountBalance)
        ensures
            *r == self@.closest_to(time),
    {
        let n = self.over_day_balances.len();
        if n == 0 {
            return &self.start_of_day_bal;
        }
        let ghost times = balance_times(self.over_day_balances@);
        let mut best: usize = 0;
        let mut best_distance = time.distance_to(&self.over_day_balances[0].time_retrieved);
        let mut i: usize = 1;
        while i < n
            invariant
                n == self.over_day_balances@.len(),
                times == balance_times(self.over_day_balances@),
                1 <= i <= n,
                best + 1 == i,
                best_distance == distance(time, times[best as int]),
                closest_index(times, time) == scan_from(times, time, best as int),
            ensures
                best < n,
                closest_index(times, time) == best,
            decreases n - i,
        {
            let d = time.distance_to(&self.over_day_balances[i].time_retrieved);
            assert(times[i as int] == self.over_day_balances@[i as int].time_retrieved);
            if d <= best_distance {
                best = i;
                best_distance = d;
                i += 1;
            } else {
                break;
            }
        }
        &self.over_day_balances[best]
    }
}

} // verus!
