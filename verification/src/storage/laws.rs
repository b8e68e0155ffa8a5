//! What holds of the store whatever it holds: laws that relate its changes
//! to its answers.

use crate::account::AccountView;
use crate::clock::{Date, TimeOfDay};
use crate::myerrors::DBInsertError;
use crate::storage::balance::{
    balance_times, lemma_with_reading_wf, BalanceDayView, DBInfoAccountBalance,
};
use crate::storage::model::{
    first_index, lemma_first_index, lemma_first_index_is, lemma_with_balance_wf,
    lemma_with_position_wf, AccountEntryView, BalanceShelfView, PositionShelfView, StoreView,
};
use crate::storage::position::{position_times, PositionDayView, PositionView};
use crate::storage::series::{
    lemma_closest_is_nearest, lemma_first_later, lemma_insert_keeps_items, slot_for,
    sorted_by_time,
};
use vstd::prelude::*;

verus! {

/// Two runs of one length whose items agree on `wanted` place by place
/// have their first such item at the same place.
pub proof fn lemma_first_index_agrees<T>(a: Seq<T>, b: Seq<T>, wanted: spec_fn(T) -> bool)
    requires
        a.len() == b.len(),
        forall|i: int| 0 <= i < a.len() ==> wanted(a[i]) == wanted(b[i]),
    ensures
        first_index(a, wanted) == first_index(b, wanted),
{
    lemma_first_index(a, wanted);
    lemma_first_index_is(b, wanted, first_index(a, wanted));
}

/// One more item at the end leaves the first item that meets `wanted`
/// where it was; where there was none, the new item is it if it meets
/// `wanted`.
pub proof fn lemma_first_index_push<T>(s: Seq<T>, x: T, wanted: spec_fn(T) -> bool)
    ensures
        first_index(s, wanted) < s.len() ==> first_index(s.push(x), wanted) == first_index(
            s,
            wanted,
        ),
        first_index(s, wanted) == s.len() && wanted(x) ==> first_index(s.push(x), wanted)
            == s.len(),
        first_index(s, wanted) == s.len() && !wanted(x) ==> first_index(s.push(x), wanted)
            == s.len() + 1,
{
    lemma_first_index(s, wanted);
    let at = first_index(s, wanted);
    if at < s.len() {
        lemma_first_index_is(s.push(x), wanted, at);
    } else if wanted(x) {
        lemma_first_index_is(s.push(x), wanted, s.len() as int);
    } else {
        lemma_first_index_is(s.push(x), wanted, s.len() as int + 1);
    }
}

/// After every balance reading that the store takes in, the readings of
/// each of its days stand in the order of their times.
pub proof fn law_balances_stay_sorted(
    store: StoreView,
    number: Seq<char>,
    date: Date,
    reading: DBInfoAccountBalance,
    start_of_day: DBInfoAccountBalance,
)
    requires
        store.wf(),
        store.balance_refusal(number, date, reading) is None,
    ensures
        forall|i: int|
            0 <= i < store.with_balance(
                number,
                date,
                reading,
                start_of_day,
            ).account_balances.len() ==> sorted_by_time(
                balance_times(
                    (#[trigger] store.with_balance(
                        number,
                        date,
                        reading,
                        start_of_day,
                    ).account_balances[i]).day.over_day_balances,
                ),
            ),
{
    lemma_with_balance_wf(store, number, date, reading, start_of_day);
}

/// After every position reading that the store takes in, the readings of
/// each of its days stand in the order of their times.
pub proof fn law_positions_stay_sorted(
    store: StoreView,
    number: Seq<char>,
    date: Date,
    reading: PositionView,
)
    requires
        store.wf(),
        store.position_refusal(number, date, reading) is None,
    ensures
        forall|i: int|
            0 <= i < store.with_position(number, date, reading).account_positions.len()
                ==> sorted_by_time(
                position_times(
                    (#[trigger] store.with_position(
                        number,
                        date,
                        reading,
                    ).account_positions[i]).day.readings,
                ),
            ),
{
    lemma_with_position_wf(store, number, date, reading);
}

/// A balance reading that the store has taken in is turned down as a
/// duplicate when it comes again, and its day holds it exactly once.
pub proof fn law_second_balance_is_duplicate(
    store: StoreView,
    number: Seq<char>,
    date: Date,
    reading: DBInfoAccountBalance,
    start_of_day: DBInfoAccountBalance,
)
    requires
        store.wf(),
        store.balance_refusal(number, date, reading) is None,
    ensures
        store.with_balance(number, date, reading, start_of_day).balance_refusal(
            number,
            date,
            reading,
        ) == Some(DBInsertError::InsertAccountBalanceDuplicateError),
        store.with_balance(number, date, reading, start_of_day).balances_of_date(number, date)
            matches Ok(day) && day.over_day_balances.contains(reading)
            && day.over_day_balances.no_duplicates(),
{
    let wanted = StoreView::balances_on(number, date);
    let of_account = StoreView::balances_of(number);
    let after = store.with_balance(number, date, reading, start_of_day);
    lemma_with_balance_wf(store, number, date, reading, start_of_day);
    lemma_first_index(store.account_balances, wanted);
    lemma_first_index(after.account_balances, of_account);
    let at = first_index(store.account_balances, wanted);
    if at < store.account_balances.len() {
        lemma_with_reading_wf(store.account_balances[at].day, reading);
        lemma_first_index_agrees(store.account_balances, after.account_balances, wanted);
        assert(of_account(after.account_balances[at]));
    } else {
        let shelf = BalanceShelfView {
            number,
            day: BalanceDayView {
                date,
                start_of_day_bal: start_of_day,
                over_day_balances: seq![reading],
            },
        };
        lemma_first_index_push(store.account_balances, shelf, wanted);
        assert(wanted(shelf));
        assert(of_account(after.account_balances[at]));
        assert(seq![reading][0] == reading);
    }
}

/// A position reading that the store has taken in is turned down as a
/// duplicate when it comes again, and its day holds it exactly once.
pub proof fn law_second_position_is_duplicate(
    store: StoreView,
    number: Seq<char>,
    date: Date,
    reading: PositionView,
)
    requires
        store.wf(),
        store.position_refusal(number, date, reading) is None,
    ensures
        store.with_position(number, date, reading).position_refusal(number, date, reading)
            == Some(DBInsertError::InsertAccountPositionDuplicateError),
        store.with_position(number, date, reading).positions_of_date(
            number,
            reading.symbol,
            date,
        ) matches Ok(day) && day.readings.contains(reading) && day.readings.no_duplicates(),
{
    let wanted = StoreView::positions_on(number, reading.symbol, date);
    let of_symbol = StoreView::positions_in(number, reading.symbol);
    let of_account = StoreView::positions_of(number);
    let after = store.with_position(number, date, reading);
    lemma_with_position_wf(store, number, date, reading);
    lemma_first_index(store.account_positions, wanted);
    lemma_first_index(after.account_positions, of_account);
    lemma_first_index(after.account_positions, of_symbol);
    let at = first_index(store.account_positions, wanted);
    if at < store.account_positions.len() {
        crate::storage::position::lemma_with_position_wf(
            store.account_positions[at].day,
            reading,
        );
        lemma_first_index_agrees(store.account_positions, after.account_positions, wanted);
        assert(of_account(after.account_positions[at]));
        assert(of_symbol(after.account_positions[at]));
    } else {
        let shelf = PositionShelfView {
            number,
            symbol: reading.symbol,
            day: PositionDayView { date, readings: seq![reading] },
        };
        lemma_first_index_push(store.account_positions, shelf, wanted);
        assert(wanted(shelf));
        assert(of_account(after.account_positions[at]));
        assert(of_symbol(after.account_positions[at]));
        assert(seq![reading][0] == reading);
    }
}

/// A reading for an account number that the store does not know is turned
/// down for that reason, whatever else holds of it.
pub proof fn law_unknown_account_is_refused(
    store: StoreView,
    number: Seq<char>,
    date: Date,
    balance: DBInfoAccountBalance,
    position: PositionView,
)
    requires
        !store.knows_number(number),
    ensures
        store.balance_refusal(number, date, balance) == Some(
            DBInsertError::InsertAccountBalanceNoAccountError,
        ),
        store.position_refusal(number, date, position) == Some(
            DBInsertError::InsertAccountPositionNoAccountError,
        ),
{
}

/// The first balance reading of a date sets the balance that the day
/// started with.
pub proof fn law_first_reading_sets_start_of_day(
    store: StoreView,
    number: Seq<char>,
    date: Date,
    reading: DBInfoAccountBalance,
    start_of_day: DBInfoAccountBalance,
)
    requires
        store.wf(),
        store.balance_refusal(number, date, reading) is None,
        store.balances_of_date(number, date) is Err,
    ensures
        store.with_balance(number, date, reading, start_of_day).balances_of_date(number, date)
            matches Ok(day) && day.start_of_day_bal == start_of_day,
{
    let wanted = StoreView::balances_on(number, date);
    let of_account = StoreView::balances_of(number);
    let after = store.with_balance(number, date, reading, start_of_day);
    lemma_first_index(store.account_balances, wanted);
    lemma_first_index(store.account_balances, of_account);
    lemma_first_index(after.account_balances, of_account);
    let at = first_index(store.account_balances, wanted);
    if at < store.account_balances.len() {
        assert(of_account(store.account_balances[at]));
    } else {
        let shelf = BalanceShelfView {
            number,
            day: BalanceDayView {
                date,
                start_of_day_bal: start_of_day,
                over_day_balances: seq![reading],
            },
        };
        lemma_first_index_push(store.account_balances, shelf, wanted);
        assert(wanted(shelf));
        assert(of_account(after.account_balances[at]));
    }
}

/// The balance that a day started with stays what it is through every
/// balance reading that the store takes in later, of whatever account and
/// date, and whatever start of day comes with it.
pub proof fn law_start_of_day_is_kept(
    store: StoreView,
    number: Seq<char>,
    date: Date,
    reading: DBInfoAccountBalance,
    start_of_day: DBInfoAccountBalance,
    identifier: Seq<char>,
    asked: Date,
)
    requires
        store.wf(),
        store.balance_refusal(number, date, reading) is None,
        store.start_of_day_balance(identifier, asked) is Ok,
    ensures
        store.with_balance(number, date, reading, start_of_day).start_of_day_balance(
            identifier,
            asked,
        ) == store.start_of_day_balance(identifier, asked),
{
    let after = store.with_balance(number, date, reading, start_of_day);
    let account = store.resolve(identifier).unwrap();
    let wanted = StoreView::balances_on(number, date);
    let asked_for = StoreView::balances_on(account, asked);
    let of_account = StoreView::balances_of(account);
    lemma_first_index(store.account_balances, wanted);
    lemma_first_index(store.account_balances, asked_for);
    lemma_first_index(store.account_balances, of_account);
    let at = first_index(store.account_balances, wanted);
    if at < store.account_balances.len() {
        lemma_first_index_agrees(store.account_balances, after.account_balances, asked_for);
        lemma_first_index_agrees(store.account_balances, after.account_balances, of_account);
    } else {
        let shelf = BalanceShelfView {
            number,
            day: BalanceDayView {
                date,
                start_of_day_bal: start_of_day,
                over_day_balances: seq![reading],
            },
        };
        lemma_first_index_push(store.account_balances, shelf, asked_for);
        lemma_first_index_push(store.account_balances, shelf, of_account);
    }
}

/// The balance that an account started a date with stays what it is
/// through every balance reading that the store takes in later.
pub proof fn law_start_of_day_of_number_is_kept(
    store: StoreView,
    number: Seq<char>,
    date: Date,
    reading: DBInfoAccountBalance,
    start_of_day: DBInfoAccountBalance,
    of_number: Seq<char>,
    on_date: Date,
)
    requires
        store.wf(),
        store.balance_refusal(number, date, reading) is None,
        store.start_of_day_of(of_number, on_date) is Some,
    ensures
        store.with_balance(number, date, reading, start_of_day).start_of_day_of(
            of_number,
            on_date,
        ) == store.start_of_day_of(of_number, on_date),
{
    let after = store.with_balance(number, date, reading, start_of_day);
    let wanted = StoreView::balances_on(number, date);
    let asked_for = StoreView::balances_on(of_number, on_date);
    let of_account = StoreView::balances_of(of_number);
    lemma_first_index(store.account_balances, wanted);
    lemma_first_index(store.account_balances, asked_for);
    lemma_first_index(store.account_balances, of_account);
    let at = first_index(store.account_balances, wanted);
    if at < store.account_balances.len() {
        lemma_first_index_agrees(store.account_balances, after.account_balances, asked_for);
        lemma_first_index_agrees(store.account_balances, after.account_balances, of_account);
    } else {
        let shelf = BalanceShelfView {
            number,
            day: BalanceDayView {
                date,
                start_of_day_bal: start_of_day,
                over_day_balances: seq![reading],
            },
        };
        lemma_first_index_push(store.account_balances, shelf, asked_for);
        lemma_first_index_push(store.account_balances, shelf, of_account);
    }
}

/// A balance reading on its way into the store: whose it is, the date and
/// the reading, and the start of the day that comes with it.
pub struct BalanceArrival {
    pub number: Seq<char>,
    pub date: Date,
    pub reading: DBInfoAccountBalance,
    pub start_of_day: DBInfoAccountBalance,
}

/// The store after a balance reading has come: with the reading where the
/// store takes it in, as it was where the store turns it down.
pub open spec fn after_balance(store: StoreView, arrival: BalanceArrival) -> StoreView {
    if store.balance_refusal(arrival.number, arrival.date, arrival.reading) is None {
        store.with_balance(arrival.number, arrival.date, arrival.reading, arrival.start_of_day)
    } else {
        store
    }
}

/// The store after the balance readings from place `from` on have come,
/// one after the other.
pub open spec fn after_balances(store: StoreView, arrivals: Seq<BalanceArrival>, from: int)
    -> StoreView
    decreases arrivals.len() - from,
{
    if from < 0 || from >= arrivals.len() {
        store
    } else {
        after_balances(after_balance(store, arrivals[from]), arrivals, from + 1)
    }
}

/// The balance that an account started a date with stays what it is
/// however many balance readings come later, for whatever account and
/// date, with whatever start of day, taken in or turned down.
pub proof fn law_start_of_day_through_any_readings(
    store: StoreView,
    arrivals: Seq<BalanceArrival>,
    from: int,
    of_number: Seq<char>,
    on_date: Date,
)
    requires
        store.wf(),
        0 <= from <= arrivals.len(),
        store.start_of_day_of(of_number, on_date) is Some,
    ensures
        after_balances(store, arrivals, from).wf(),
        after_balances(store, arrivals, from).accounts == store.accounts,
        after_balances(store, arrivals, from).start_of_day_of(of_number, on_date)
            == store.start_of_day_of(of_number, on_date),
    decreases arrivals.len() - from,
{
    if from < arrivals.len() {
        let a = arrivals[from];
        if store.balance_refusal(a.number, a.date, a.reading) is None {
            lemma_with_balance_wf(store, a.number, a.date, a.reading, a.start_of_day);
            law_start_of_day_of_number_is_kept(
                store,
                a.number,
                a.date,
                a.reading,
                a.start_of_day,
                of_number,
                on_date,
            );
        }
        law_start_of_day_through_any_readings(
            after_balance(store, a),
            arrivals,
            from + 1,
            of_number,
            on_date,
        );
    }
}

/// The start of the day that comes with the first balance reading of a
/// date is the one that the store answers with from then on, however many
/// balance readings come after it, asked by the account's number or by any
/// name that stands for it.
pub proof fn law_anchor_is_stable(
    store: StoreView,
    first: BalanceArrival,
    later: Seq<BalanceArrival>,
    identifier: Seq<char>,
)
    requires
        store.wf(),
        store.balance_refusal(first.number, first.date, first.reading) is None,
        store.balances_of_date(first.number, first.date) is Err,
        store.resolve(identifier) == Some(first.number),
    ensures
        after_balances(after_balance(store, first), later, 0).start_of_day_of(
            first.number,
            first.date,
        ) == Some(first.start_of_day),
        after_balances(after_balance(store, first), later, 0).start_of_day_balance(
            identifier,
            first.date,
        ) == Ok::<DBInfoAccountBalance, crate::myerrors::RetrieveErrorView>(first.start_of_day),
{
    let opened = after_balance(store, first);
    lemma_with_balance_wf(store, first.number, first.date, first.reading, first.start_of_day);
    law_first_reading_sets_start_of_day(
        store,
        first.number,
        first.date,
        first.reading,
        first.start_of_day,
    );
    law_start_of_day_through_any_readings(opened, later, 0, first.number, first.date);
}

/// A position that the store answers with for a symbol is a reading of
/// that symbol.
pub proof fn law_position_answers_carry_the_symbol(
    store: StoreView,
    identifier: Seq<char>,
    symbol: Seq<char>,
    date: Date,
    time: TimeOfDay,
)
    requires
        store.wf(),
    ensures
        match store.latest_position(identifier, symbol, date) {
            Ok(found) => found.symbol == symbol,
            Err(_) => true,
        },
        match store.closest_position(identifier, symbol, date, time) {
            Ok(found) => found.symbol == symbol,
            Err(_) => true,
        },
{
    if store.resolve(identifier) is Some {
        let number = store.resolve(identifier).unwrap();
        let wanted = StoreView::positions_on(number, symbol, date);
        lemma_first_index(store.account_positions, wanted);
        let at = first_index(store.account_positions, wanted);
        if at < store.account_positions.len() {
            let day = store.account_positions[at].day;
            assert(wanted(store.account_positions[at]));
            crate::storage::series::lemma_scan(position_times(day.readings), time, 0);
            assert(day.readings.last().symbol == symbol);
        }
    }
}

/// No two names of a store stand for accounts with one number: the
/// account that a number leads to is the only one with that number.
pub proof fn law_one_account_for_a_number(store: StoreView, i: int, j: int)
    requires
        store.wf(),
        0 <= i < store.accounts.len(),
        0 <= j < store.accounts.len(),
        store.accounts[i].account.number == store.accounts[j].account.number,
    ensures
        i == j,
        first_index(store.accounts, StoreView::numbered(store.accounts[i].account.number)) == i,
{
    lemma_first_index(store.accounts, StoreView::numbered(store.accounts[i].account.number));
    let k = first_index(store.accounts, StoreView::numbered(store.accounts[i].account.number));
    if k != i {
        assert(StoreView::numbered(store.accounts[i].account.number)(store.accounts[k]));
        if k < i {
            assert(store.accounts[k].account.number != store.accounts[i].account.number);
        }
    }
}

/// An account taken in under a name is found by that name, and by its
/// number unless the number is also a name that stands for another number.
pub proof fn law_resolve_after_insert(store: StoreView, name: Seq<char>, account: AccountView)
    requires
        store.wf(),
        store.account_refusal(name, account) is None,
    ensures
        store.with_account(name, account).resolve(name) == Some(account.number),
        store.with_account(name, account).knows_number(account.number),
        first_index(
            store.with_account(name, account).accounts,
            StoreView::named(account.number),
        ) >= store.with_account(name, account).accounts.len() ==> store.with_account(
            name,
            account,
        ).resolve(account.number) == Some(account.number),
{
    let after = store.with_account(name, account);
    let entry = AccountEntryView { name, account };
    let by_name = StoreView::named(name);
    let by_number = StoreView::numbered(account.number);
    lemma_first_index(store.accounts, by_name);
    lemma_first_index(after.accounts, by_number);
    let at = first_index(store.accounts, by_name);
    if at < store.accounts.len() {
        lemma_first_index_agrees(store.accounts, after.accounts, by_name);
        assert(by_number(after.accounts[at]));
    } else {
        lemma_first_index_push(store.accounts, entry, by_name);
        assert(by_name(entry));
        assert(by_number(after.accounts[at]));
    }
}

/// An identifier that is neither a name nor a number in the store stands
/// for no account.
pub proof fn law_unknown_identifier(store: StoreView, identifier: Seq<char>)
    requires
        forall|i: int|
            0 <= i < store.accounts.len() ==> store.accounts[i].name != identifier
                && store.accounts[i].account.number != identifier,
    ensures
        store.resolve(identifier) is None,
{
    lemma_first_index(store.accounts, StoreView::named(identifier));
    lemma_first_index(store.accounts, StoreView::numbered(identifier));
}

/// A position reading that the store takes in is among the readings of
/// its day from then on, and leaves every account and every balance
/// reading as it was.
pub proof fn law_position_leaves_balances(
    store: StoreView,
    number: Seq<char>,
    date: Date,
    reading: PositionView,
)
    requires
        store.wf(),
        store.position_refusal(number, date, reading) is None,
    ensures
        store.with_position(number, date, reading).account_balances == store.account_balances,
        store.with_position(number, date, reading).accounts == store.accounts,
        store.with_position(number, date, reading).positions_of_date(
            number,
            reading.symbol,
            date,
        ) matches Ok(day) && day.readings.contains(reading),
{
    law_second_position_is_duplicate(store, number, date, reading);
}

/// A balance reading that the store takes in is among the readings of its
/// day from then on, and leaves every account and every position reading
/// as it was.
pub proof fn law_balance_leaves_positions(
    store: StoreView,
    number: Seq<char>,
    date: Date,
    reading: DBInfoAccountBalance,
    start_of_day: DBInfoAccountBalance,
)
    requires
        store.wf(),
        store.balance_refusal(number, date, reading) is None,
    ensures
        store.with_balance(number, date, reading, start_of_day).account_positions
            == store.account_positions,
        store.with_balance(number, date, reading, start_of_day).accounts == store.accounts,
        store.with_balance(number, date, reading, start_of_day).balances_of_date(number, date)
            matches Ok(day) && day.over_day_balances.contains(reading),
{
    law_second_balance_is_duplicate(store, number, date, reading, start_of_day);
}

/// A balance reading that the store holds it still holds after every
/// balance reading that it takes in.
pub proof fn law_balances_are_kept(
    store: StoreView,
    number: Seq<char>,
    date: Date,
    reading: DBInfoAccountBalance,
    start_of_day: DBInfoAccountBalance,
    of_number: Seq<char>,
    on_date: Date,
    held: DBInfoAccountBalance,
)
    requires
        store.wf(),
        store.balance_refusal(number, date, reading) is None,
        store.balances_of_date(of_number, on_date) matches Ok(day)
            && day.over_day_balances.contains(held),
    ensures
        store.with_balance(number, date, reading, start_of_day).balances_of_date(
            of_number,
            on_date,
        ) matches Ok(day) && day.over_day_balances.contains(held),
{
    let after = store.with_balance(number, date, reading, start_of_day);
    let wanted = StoreView::balances_on(number, date);
    let asked_for = StoreView::balances_on(of_number, on_date);
    let of_account = StoreView::balances_of(of_number);
    lemma_first_index(store.account_balances, wanted);
    lemma_first_index(store.account_balances, asked_for);
    lemma_first_index(store.account_balances, of_account);
    let at = first_index(store.account_balances, wanted);
    if at < store.account_balances.len() {
        lemma_first_index_agrees(store.account_balances, after.account_balances, asked_for);
        lemma_first_index_agrees(store.account_balances, after.account_balances, of_account);
        if first_index(store.account_balances, asked_for) == at {
            let day = store.account_balances[at].day;
            lemma_first_later(balance_times(day.over_day_balances), reading.time_retrieved, 0);
            lemma_insert_keeps_items(
                day.over_day_balances,
                slot_for(balance_times(day.over_day_balances), reading.time_retrieved),
                reading,
                held,
            );
        }
    } else {
        let shelf = BalanceShelfView {
            number,
            day: BalanceDayView {
                date,
                start_of_day_bal: start_of_day,
                over_day_balances: seq![reading],
            },
        };
        lemma_first_index_push(store.account_balances, shelf, asked_for);
        lemma_first_index_push(store.account_balances, shelf, of_account);
    }
}

/// A position reading that the store holds it still holds after every
/// position reading that it takes in.
pub proof fn law_positions_are_kept(
    store: StoreView,
    number: Seq<char>,
    date: Date,
    reading: PositionView,
    of_number: Seq<char>,
    of_symbol: Seq<char>,
    on_date: Date,
    held: PositionView,
)
    requires
        store.wf(),
        store.position_refusal(number, date, reading) is None,
        store.positions_of_date(of_number, of_symbol, on_date) matches Ok(day)
            && day.readings.contains(held),
    ensures
        store.with_position(number, date, reading).positions_of_date(
            of_number,
            of_symbol,
            on_date,
        ) matches Ok(day) && day.readings.contains(held),
{
    let after = store.with_position(number, date, reading);
    let wanted = StoreView::positions_on(number, reading.symbol, date);
    let asked_for = StoreView::positions_on(of_number, of_symbol, on_date);
    let in_symbol = StoreView::positions_in(of_number, of_symbol);
    let of_account = StoreView::positions_of(of_number);
    lemma_first_index(store.account_positions, wanted);
    lemma_first_index(store.account_positions, asked_for);
    lemma_first_index(store.account_positions, in_symbol);
    lemma_first_index(store.account_positions, of_account);
    let at = first_index(store.account_positions, wanted);
    if at < store.account_positions.len() {
        lemma_first_index_agrees(store.account_positions, after.account_positions, asked_for);
        lemma_first_index_agrees(store.account_positions, after.account_positions, in_symbol);
        lemma_first_index_agrees(store.account_positions, after.account_positions, of_account);
        if first_index(store.account_positions, asked_for) == at {
            let day = store.account_positions[at].day;
            lemma_first_later(position_times(day.readings), reading.time_retrieved, 0);
            lemma_insert_keeps_items(
                day.readings,
                slot_for(position_times(day.readings), reading.time_retrieved),
                reading,
                held,
            );
        }
    } else {
        let shelf = PositionShelfView {
            number,
            symbol: reading.symbol,
            day: PositionDayView { date, readings: seq![reading] },
        };
        lemma_first_index_push(store.account_positions, shelf, asked_for);
        lemma_first_index_push(store.account_positions, shelf, in_symbol);
        lemma_first_index_push(store.account_positions, shelf, of_account);
    }
}

/// Two balance readings taken at one time with different values are both
/// kept: the later comer is taken in, and the day holds both.
pub proof fn law_equal_times_are_both_kept(
    day: BalanceDayView,
    held: DBInfoAccountBalance,
    coming: DBInfoAccountBalance,
)
    requires
        day.wf(),
        day.over_day_balances.contains(held),
        coming.time_retrieved == held.time_retrieved,
        coming != held,
        !day.over_day_balances.contains(coming),
    ensures
        day.with_reading(coming).wf(),
        day.with_reading(coming).over_day_balances.contains(held),
        day.with_reading(coming).over_day_balances.contains(coming),
        day.with_reading(coming).over_day_balances.len() == day.over_day_balances.len() + 1,
{
    lemma_with_reading_wf(day, coming);
    lemma_first_later(balance_times(day.over_day_balances), coming.time_retrieved, 0);
    lemma_insert_keeps_items(
        day.over_day_balances,
        slot_for(balance_times(day.over_day_balances), coming.time_retrieved),
        coming,
        held,
    );
}

/// Where no balance reading of the day is a leap second, the balance that
/// the search for the one closest to a time returns lies as close to that
/// time as any reading of the day.
pub proof fn law_closest_balance_is_nearest(day: BalanceDayView, time: TimeOfDay)
    requires
        day.wf(),
        day.over_day_balances.len() > 0,
        forall|i: int|
            0 <= i < day.over_day_balances.len() ==> (
            #[trigger] day.over_day_balances[i]).time_retrieved.is_plain(),
    ensures
        day.over_day_balances.contains(day.closest_to(time)),
        forall|i: int|
            0 <= i < day.over_day_balances.len() ==> crate::clock::distance(
                time,
                day.closest_to(time).time_retrieved,
            ) <= crate::clock::distance(time, (#[trigger] day.over_day_balances[i]).time_retrieved),
{
    let times = balance_times(day.over_day_balances);
    assert forall|i: int| 0 <= i < times.len() implies (#[trigger] times[i]).is_plain() by {
        assert(times[i] == day.over_day_balances[i].time_retrieved);
    }
    lemma_closest_is_nearest(times, time);
    let k = crate::storage::series::closest_index(times, time);
    assert(times[k] == day.over_day_balances[k].time_retrieved);
    assert forall|i: int| 0 <= i < day.over_day_balances.len() implies crate::clock::distance(
        time,
        day.closest_to(time).time_retrieved,
    ) <= crate::clock::distance(time, (#[trigger] day.over_day_balances[i]).time_retrieved) by {
        assert(times[i] == day.over_day_balances[i].time_retrieved);
    }
}

/// Where no position reading of the day is a leap second, the reading
/// that the search for the one closest to a time returns lies as close to
/// that time as any reading of the day.
pub proof fn law_closest_position_is_nearest(day: PositionDayView, time: TimeOfDay)
    requires
        day.wf(),
        day.readings.len() > 0,
        forall|i: int|
            0 <= i < day.readings.len() ==> (#[trigger] day.readings[i]).time_retrieved.is_plain(),
    ensures
        day.closest_to(time) matches Some(found) && day.readings.contains(found) && forall|
            i: int,
        |
            0 <= i < day.readings.len() ==> crate::clock::distance(time, found.time_retrieved)
                <= crate::clock::distance(time, (#[trigger] day.readings[i]).time_retrieved),
{
    let times = position_times(day.readings);
    assert forall|i: int| 0 <= i < times.len() implies (#[trigger] times[i]).is_plain() by {
        assert(times[i] == day.readings[i].time_retrieved);
    }
    lemma_closest_is_nearest(times, time);
    let k = crate::storage::series::closest_index(times, time);
    let found = day.readings[k];
    assert(times[k] == found.time_retrieved);
    assert forall|i: int| 0 <= i < day.readings.len() implies crate::clock::distance(
        time,
        found.time_retrieved,
    ) <= crate::clock::distance(time, (#[trigger] day.readings[i]).time_retrieved) by {
        assert(times[i] == day.readings[i].time_retrieved);
    }
}

} // verus!
