//! Position readings and the readings of one symbol on one day.

use crate::account::{AccountPosition, Amount};
use crate::clock::{distance, Date, TimeOfDay};
use crate::myerrors::DBInsertError;
use crate::storage::series::{
    closest_index, first_later_from, lemma_insert_keeps_distinct, lemma_slot_keeps_order,
    scan_from, slot_for, sorted_by_time,
};
use vstd::prelude::*;

verus! {

/// The position of an account in one symbol at one time of a day.
#[derive(Debug, PartialEq, Eq)]
pub struct DBInfoAccountPosition {
    pub symbol: String,
    pub open_quantity: Amount,
    pub closed_quantity: Amount,
    pub current_market_value: Amount,
    pub current_price: Amount,
    pub average_entry_price: Amount,
    pub closed_pnl: Amount,
    pub day_pnl: Amount,
    pub open_pnl: Amount,
    pub total_cost: Amount,
    pub time_retrieved: TimeOfDay,
}

/// A position reading with its symbol as a sequence of characters.
pub struct PositionView {
    pub symbol: Seq<char>,
    pub open_quantity: Amount,
    pub closed_quantity: Amount,
    pub current_market_value: Amount,
    pub current_price: Amount,
    pub average_entry_price: Amount,
    pub closed_pnl: Amount,
    pub day_pnl: Amount,
    pub open_pnl: Amount,
    pub total_cost: Amount,
    pub time_retrieved: TimeOfDay,
}

impl View for DBInfoAccountPosition {
    type V = PositionView;

    open spec fn view(&self) -> PositionView {
        PositionView {
            symbol: self.symbol@,
            open_quantity: self.open_quantity,
            closed_quantity: self.closed_quantity,
            current_market_value: self.current_market_value,
            current_price: self.current_price,
            average_entry_price: self.average_entry_price,
            closed_pnl: self.closed_pnl,
            day_pnl: self.day_pnl,
            open_pnl: self.open_pnl,
            total_cost: self.total_cost,
            time_retrieved: self.time_retrieved,
        }
    }
}

impl Clone for DBInfoAccountPosition {
    fn clone(&self) -> (r: DBInfoAccountPosition)
        ensures
            r@ == self@,
    {
        DBInfoAccountPosition {
            symbol: self.symbol.clone(),
            open_quantity: self.open_quantity,
            closed_quantity: self.closed_quantity,
            current_market_value: self.current_market_value,
            current_price: self.current_price,
            average_entry_price: self.average_entry_price,
            closed_pnl: self.closed_pnl,
            day_pnl: self.day_pnl,
            open_pnl: self.open_pnl,
            total_cost: self.total_cost,
            time_retrieved: self.time_retrieved,
        }
    }
}

impl PositionView {
    /// The reading that a reported position makes at the time it was taken.
    pub open spec fn of(position: AccountPosition, time_retrieved: TimeOfDay) -> PositionView {
        PositionView {
            symbol: position.symbol@,
            open_quantity: position.open_quantity,
            closed_quantity: position.closed_quantity,
            current_market_value: position.current_market_value,
            current_price: position.current_price,
            average_entry_price: position.average_entry_price,
            closed_pnl: position.closed_profit_and_loss,
            day_pnl: position.day_profit_and_loss,
            open_pnl: position.open_profit_and_loss,
            total_cost: position.total_cost,
            time_retrieved,
        }
    }
}

impl DBInfoAccountPosition {
    /// The reading that a reported position makes at the time it was taken.
    pub fn new(position: AccountPosition, time_retrieved: TimeOfDay) -> (r: DBInfoAccountPosition)
        ensures
            r@ == PositionView::of(position, time_retrieved),
    {
        DBInfoAccountPosition {
            symbol: position.symbol,
            open_quantity: position.open_quantity,
            closed_quantity: position.closed_quantity,
            current_market_value: position.current_market_value,
            current_price: position.current_price,
            average_entry_price: position.average_entry_price,
            closed_pnl: position.closed_profit_and_loss,
            day_pnl: position.day_profit_and_loss,
            open_pnl: position.open_profit_and_loss,
            total_cost: position.total_cost,
            time_retrieved,
        }
    }

    /// Whether two readings agree in every field.
    pub fn same_as(&self, other: &DBInfoAccountPosition) -> (r: bool)
        ensures
            r == (self@ == other@),
    {
        self.symbol == other.symbol && self.open_quantity == other.open_quantity
            && self.closed_quantity == other.closed_quantity && self.current_market_value
            == other.current_market_value && self.current_price == other.current_price
            && self.average_entry_price == other.average_entry_price && self.closed_pnl
            == other.closed_pnl && self.day_pnl == other.day_pnl && self.open_pnl
            == other.open_pnl && self.total_cost == other.total_cost && self.time_retrieved
            == other.time_retrieved
    }
}

/// A run of position readings, each with its symbol as a sequence of
/// characters.
pub open spec fn position_views(readings: Seq<DBInfoAccountPosition>) -> Seq<PositionView> {
    readings.map_values(|p: DBInfoAccountPosition| p@)
}

/// The times of a run of position readings, in their order.
pub open spec fn position_times(readings: Seq<PositionView>) -> Seq<TimeOfDay> {
    readings.map_values(|p: PositionView| p.time_retrieved)
}

/// The position readings of one symbol on one day.
pub struct PositionDayView {
    pub date: Date,
    pub readings: Seq<PositionView>,
}

impl PositionDayView {
    /// The readings stand in the order of their times, and none is there
    /// twice.
    pub open spec fn wf(self) -> bool {
        &&& sorted_by_time(position_times(self.readings))
        &&& self.readings.no_duplicates()
    }

    /// Whether every reading of the day is one of `symbol`.
    pub open spec fn all_of(self, symbol: Seq<char>) -> bool {
        forall|i: int| 0 <= i < self.readings.len() ==> (#[trigger] self.readings[i]).symbol == symbol
    }

    /// The latest reading, if there is any.
    pub open spec fn most_recent(self) -> Option<PositionView> {
        if self.readings.len() == 0 {
            None
        } else {
            Some(self.readings.last())
        }
    }

    /// The earliest reading, if there is any.
    pub open spec fn first(self) -> Option<PositionView> {
        if self.readings.len() == 0 {
            None
        } else {
            Some(self.readings.first())
        }
    }

    /// The reading that the search for the one closest to `time` returns,
    /// if there is any reading.
    pub open spec fn closest_to(self, time: TimeOfDay) -> Option<PositionView> {
        if self.readings.len() == 0 {
            None
        } else {
            Some(self.readings[closest_index(position_times(self.readings), time)])
        }
    }

    /// The day with one more reading, put where its time places it.
    pub open spec fn with_reading(self, position: PositionView) -> PositionDayView {
        PositionDayView {
            readings: self.readings.insert(
                slot_for(position_times(self.readings), position.time_retrieved),
                position,
            ),
            ..self
        }
    }
}

/// A day with one more reading that it did not hold yet keeps its order
/// and holds nothing twice; a day of one symbol with one more reading of
/// that symbol is still a day of that symbol.
pub proof fn lemma_with_position_wf(day: PositionDayView, position: PositionView)
    requires
        day.wf(),
        !day.readings.contains(position),
    ensures
        day.with_reading(position).wf(),
        day.with_reading(position).readings.len() == day.readings.len() + 1,
        day.with_reading(position).readings.contains(position),
        day.all_of(position.symbol) ==> day.with_reading(position).all_of(position.symbol),
{
    let times = position_times(day.readings);
    let k = slot_for(times, position.time_retrieved);
    lemma_slot_keeps_order(times, position.time_retrieved);
    let after = day.readings.insert(k, position);
    assert(position_times(after) =~= times.insert(k, position.time_retrieved));
    lemma_insert_keeps_distinct(day.readings, k, position);
    if day.all_of(position.symbol) {
        assert forall|i: int| 0 <= i < after.len() implies (#[trigger] after[i]).symbol
            == position.symbol by {
            if i < k {
                assert(after[i] == day.readings[i]);
            } else if i > k {
                assert(after[i] == day.readings[i - 1]);
            }
        }
    }
}

/// All the readings of one symbol on one date.
#[derive(Debug, PartialEq, Eq)]
pub struct DBInfoAccountPositionDay {
    date: Date,
    readings: Vec<DBInfoAccountPosition>,
}

impl View for DBInfoAccountPositionDay {
    type V = PositionDayView;

    closed spec fn view(&self) -> PositionDayView {
        PositionDayView { date: self.date, readings: position_views(self.readings@) }
    }
}

impl DBInfoAccountPositionDay {
    #[verifier::type_invariant]
    pub closed spec fn inv(&self) -> bool {
        self@.wf()
    }

    /// What the type's invariant says of what the day holds.
    pub proof fn lemma_inv_is_wf(&self)
        requires
            self.inv(),
        ensures
            self@.wf(),
    {
    }

    /// A day without a reading yet.
    pub fn new(date: Date) -> (r: DBInfoAccountPositionDay)
        ensures
            r@ == (PositionDayView { date, readings: Seq::empty() }),
            r@.wf(),
    {
        let r = DBInfoAccountPositionDay { date, readings: Vec::new() };
        assert(position_views(r.readings@) =~= Seq::empty());
        assert(position_times(Seq::<PositionView>::empty()) =~= Seq::empty());
        r
    }

    /// Whether the day holds this very reading.
    pub fn holds(&self, position: &DBInfoAccountPosition) -> (r: bool)
        ensures
            r == self@.readings.contains(position@),
    {
        let n = self.readings.len();
        let mut i: usize = 0;
        while i < n
            invariant
                n == self.readings@.len(),
                i <= n,
                forall|j: int| 0 <= j < i ==> position_views(self.readings@)[j] != position@,
            decreases n - i,
        {
            if self.readings[i].same_as(position) {
                assert(position_views(self.readings@)[i as int] == position@);
                return true;
            }
            i += 1;
        }
        false
    }

    /// Whether every reading of the day is one of `symbol`.
    pub fn is_all_of(&self, symbol: &String) -> (r: bool)
        ensures
            r == self@.all_of(symbol@),
    {
        let n = self.readings.len();
        let mut i: usize = 0;
        while i < n
            invariant
                n == self.readings@.len(),
                i <= n,
                forall|j: int|
                    0 <= j < i ==> (#[trigger] position_views(self.readings@)[j]).symbol
                        == symbol@,
            decreases n - i,
        {
            if self.readings[i].symbol != *symbol {
                assert(self@.readings[i as int].symbol != symbol@);
                return false;
            }
            i += 1;
        }
        true
    }

    /// Takes a reading into the day, at the place its time gives it. A
    /// reading that the day holds already is turned down and the day stays
    /// as it is.
    pub fn insert(&mut self, position: DBInfoAccountPosition) -> (r: Result<(), DBInsertError>)
        ensures
            old(self)@.wf(),
            final(self)@.wf(),
            old(self)@.readings.contains(position@) ==> r == Err::<(), DBInsertError>(
                DBInsertError::InsertAccountPositionDuplicateError,
            ) && final(self)@ == old(self)@,
            !old(self)@.readings.contains(position@) ==> r.is_ok() && final(self)@ == old(
                self,
            )@.with_reading(position@),
    {
        proof {
            use_type_invariant(&*self);
        }
        if self.holds(&position) {
            Err(DBInsertError::InsertAccountPositionDuplicateError)
        } else {
            let ghost before = position_views(self.readings@);
            let ghost times = position_times(before);
            let n = self.readings.len();
            let mut i: usize = 0;
            while i < n && self.readings[i].time_retrieved.is_at_or_before(
                &position.time_retrieved,
            )
                invariant
                    n == self.readings@.len(),
                    i <= n,
                    before == position_views(self.readings@),
                    times == position_times(before),
                    slot_for(times, position.time_retrieved) == first_later_from(
                        times,
                        position.time_retrieved,
                        i as int,
                    ),
                decreases n - i,
            {
                assert(times[i as int] == self.readings@[i as int].time_retrieved);
                i += 1;
            }
            proof {
                lemma_with_position_wf(self@, position@);
            }
            let ghost image = position@;
            let mut readings: Vec<DBInfoAccountPosition> = Vec::new();
            std::mem::swap(&mut self.readings, &mut readings);
            readings.insert(i, position);
            assert(position_views(readings@) =~= before.insert(i as int, image));
            self.readings = readings;
            Ok(())
        }
    }

    /// The latest reading of the day, if there is any.
    pub fn get_most_recent(&self) -> (r: Option<&DBInfoAccountPosition>)
        ensures
            r is Some == self@.most_recent() is Some,
            r matches Some(p) ==> Some(p@) == self@.most_recent(),
    {
        let n = self.readings.len();
        if n == 0 {
            None
        } else {
            Some(&self.readings[n - 1])
        }
    }

    /// The earliest reading of the day, if there is any.
    pub fn get_first(&self) -> (r: Option<&DBInfoAccountPosition>)
        ensures
            r is Some == self@.first() is Some,
            r matches Some(p) ==> Some(p@) == self@.first(),
    {
        if self.readings.len() == 0 {
            None
        } else {
            Some(&self.readings[0])
        }
    }

    /// The date of the day.
    pub fn date(&self) -> (r: Date)
        ensures
            r == self@.date,
    {
        self.date
    }

    /// The readings of the day, earliest first.
    pub fn readings(&self) -> (r: &Vec<DBInfoAccountPosition>)
        ensures
            position_views(r@) == self@.readings,
            self@.wf(),
    {
        proof {
            use_type_invariant(self);
        }
        &self.readings
    }

    /// The reading closest to `time`: the search starts at the earliest
    /// reading and moves on while the next one is no farther from `time`
    /// than the one it holds.
    pub fn get_closest(&self, time: TimeOfDay) -> (r: Option<&DBInfoAccountPosition>)
        ensures
            r is Some == self@.closest_to(time) is Some,
            r matches Some(p) ==> Some(p@) == self@.closest_to(time),
    {
        let n = self.readings.len();
        if n == 0 {
            return None;
        }
        let ghost times = position_times(position_views(self.readings@));
        let mut best: usize = 0;
        assert(times[0] == self.readings@[0].time_retrieved);
        let mut best_distance = time.distance_to(&self.readings[0].time_retrieved);
        let mut i: usize = 1;
        while i < n
            invariant
                n == self.readings@.len(),
                times == position_times(position_views(self.readings@)),
                1 <= i <= n,
                best + 1 == i,
                best_distance == distance(time, times[best as int]),
                closest_index(times, time) == scan_from(times, time, best as int),
            ensures
                best < n,
                closest_index(times, time) == best,
            decreases n - i,
        {
            let d = time.distance_to(&self.readings[i].time_retrieved);
            assert(times[i as int] == self.readings@[i as int].time_retrieved);
            if d <= best_distance {
                best = i;
                best_distance = d;
                i += 1;
            } else {
                break;
            }
        }
        Some(&self.readings[best])
    }
}

} // verus!
