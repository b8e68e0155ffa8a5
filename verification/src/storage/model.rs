//! The store as a mathematical value: what it holds, how a name or a number
//! leads to an account, and what each change and each question comes to.

use crate::account::AccountView;
use crate::clock::{Date, TimeOfDay};
use crate::myerrors::{DBInsertError, RetrieveErrorView};
use crate::storage::balance::{BalanceDayView, DBInfoAccountBalance};
use crate::storage::position::{PositionDayView, PositionView};
use vstd::prelude::*;

verus! {

/// The first place at or behind `from` whose item meets `wanted`, or the
/// length where no item does.
pub open spec fn first_index_from<T>(s: Seq<T>, wanted: spec_fn(T) -> bool, from: int) -> int
    decreases s.len() - from,
{
    if from < 0 || from >= s.len() || wanted(s[from]) {
        from
    } else {
        first_index_from(s, wanted, from + 1)
    }
}

/// The first place whose item meets `wanted`, or the length where no item
/// does.
pub open spec fn first_index<T>(s: Seq<T>, wanted: spec_fn(T) -> bool) -> int {
    first_index_from(s, wanted, 0)
}

/// What `first_index_from` finds: no item in front of it meets `wanted`,
/// and the item at it does.
pub proof fn lemma_first_index_from<T>(s: Seq<T>, wanted: spec_fn(T) -> bool, from: int)
    requires
        0 <= from <= s.len(),
    ensures
        from <= first_index_from(s, wanted, from) <= s.len(),
        forall|i: int| from <= i < first_index_from(s, wanted, from) ==> !wanted(s[i]),
        first_index_from(s, wanted, from) < s.len() ==> wanted(
            s[first_index_from(s, wanted, from)],
        ),
    decreases s.len() - from,
{
    if from < s.len() && !wanted(s[from]) {
        lemma_first_index_from(s, wanted, from + 1);
    }
}

/// What `first_index` finds: no item in front of it meets `wanted`, and
/// the item at it does; it is the length exactly when no item does.
pub proof fn lemma_first_index<T>(s: Seq<T>, wanted: spec_fn(T) -> bool)
    ensures
        0 <= first_index(s, wanted) <= s.len(),
        forall|i: int| 0 <= i < first_index(s, wanted) ==> !wanted(s[i]),
        first_index(s, wanted) < s.len() ==> wanted(s[first_index(s, wanted)]),
        first_index(s, wanted) == s.len() <==> forall|i: int| 0 <= i < s.len() ==> !wanted(s[i]),
{
    lemma_first_index_from(s, wanted, 0);
}

/// The place that meets `wanted` is the first one where no place in front
/// of it does.
pub proof fn lemma_first_index_is<T>(s: Seq<T>, wanted: spec_fn(T) -> bool, at: int)
    requires
        0 <= at <= s.len(),
        forall|i: int| 0 <= i < at ==> !wanted(s[i]),
        at < s.len() ==> wanted(s[at]),
    ensures
        first_index(s, wanted) == at,
{
    lemma_first_index(s, wanted);
}

/// An account under the name the store keeps it by.
pub struct AccountEntryView {
    pub name: Seq<char>,
    pub account: AccountView,
}

/// The balance readings of one account on one date.
pub struct BalanceShelfView {
    pub number: Seq<char>,
    pub day: BalanceDayView,
}

/// The position readings of one account in one symbol on one date.
pub struct PositionShelfView {
    pub number: Seq<char>,
    pub symbol: Seq<char>,
    pub day: PositionDayView,
}

/// Everything the store holds.
pub struct StoreView {
    pub accounts: Seq<AccountEntryView>,
    pub account_balances: Seq<BalanceShelfView>,
    pub account_positions: Seq<PositionShelfView>,
}

impl StoreView {
    /// Entries kept under `name`.
    pub open spec fn named(name: Seq<char>) -> spec_fn(AccountEntryView) -> bool {
        |e: AccountEntryView| e.name == name
    }

    /// Entries whose account has `number`.
    pub open spec fn numbered(number: Seq<char>) -> spec_fn(AccountEntryView) -> bool {
        |e: AccountEntryView| e.account.number == number
    }

    /// Balance shelves of the account `number`.
    pub open spec fn balances_of(number: Seq<char>) -> spec_fn(BalanceShelfView) -> bool {
        |s: BalanceShelfView| s.number == number
    }

    /// The balance shelf of the account `number` for `date`.
    pub open spec fn balances_on(number: Seq<char>, date: Date) -> spec_fn(
        BalanceShelfView,
    ) -> bool {
        |s: BalanceShelfView| s.number == number && s.day.date == date
    }

    /// Position shelves of the account `number`.
    pub open spec fn positions_of(number: Seq<char>) -> spec_fn(PositionShelfView) -> bool {
        |s: PositionShelfView| s.number == number
    }

    /// Position shelves of the account `number` for `symbol`.
    pub open spec fn positions_in(number: Seq<char>, symbol: Seq<char>) -> spec_fn(
        PositionShelfView,
    ) -> bool {
        |s: PositionShelfView| s.number == number && s.symbol == symbol
    }

    /// The position shelf of the account `number` for `symbol` on `date`.
    pub open spec fn positions_on(number: Seq<char>, symbol: Seq<char>, date: Date) -> spec_fn(
        PositionShelfView,
    ) -> bool {
        |s: PositionShelfView| s.number == number && s.symbol == symbol && s.day.date == date
    }

    /// No name is bound twice, and no two names are bound to accounts with
    /// one number; no account has two balance shelves for one date, nor two
    /// position shelves for one symbol and date; every day holds its
    /// readings in the order of their times, none of them twice; and every
    /// position shelf holds a reading, and only readings of its symbol.
    pub open spec fn wf(self) -> bool {
        &&& forall|i: int, j: int|
            0 <= i < j < self.accounts.len() ==> self.accounts[i].name != self.accounts[j].name
        &&& forall|i: int, j: int|
            0 <= i < j < self.accounts.len() ==> self.accounts[i].account.number
                != self.accounts[j].account.number
        &&& forall|i: int, j: int|
            0 <= i < j < self.account_balances.len() ==> !(self.account_balances[i].number
                == self.account_balances[j].number && self.account_balances[i].day.date
                == self.account_balances[j].day.date)
        &&& forall|i: int, j: int|
            0 <= i < j < self.account_positions.len() ==> !(self.account_positions[i].number
                == self.account_positions[j].number && self.account_positions[i].symbol
                == self.account_positions[j].symbol && self.account_positions[i].day.date
                == self.account_positions[j].day.date)
        &&& forall|i: int|
            0 <= i < self.account_balances.len() ==> (#[trigger] self.account_balances[i]).day.wf()
        &&& forall|i: int|
            0 <= i < self.account_positions.len() ==> (
            #[trigger] self.account_positions[i]).day.wf()
                && self.account_positions[i].day.readings.len() > 0
                && self.account_positions[i].day.all_of(self.account_positions[i].symbol)
    }

    /// Whether an account with `number` is known.
    pub open spec fn knows_number(self, number: Seq<char>) -> bool {
        first_index(self.accounts, Self::numbered(number)) < self.accounts.len()
    }

    /// The account number that an identifier stands for: the number of the
    /// account kept under it as a name, else the identifier itself where it
    /// is the number of a known account.
    pub open spec fn resolve(self, identifier: Seq<char>) -> Option<Seq<char>> {
        let by_name = first_index(self.accounts, Self::named(identifier));
        if by_name < self.accounts.len() {
            Some(self.accounts[by_name].account.number)
        } else if self.knows_number(identifier) {
            Some(identifier)
        } else {
            None
        }
    }

    /// Why an account cannot be taken in under `name`, or `None` where it
    /// can: a known name stands for one number for good, and a number is
    /// kept under one name only.
    pub open spec fn account_refusal(self, name: Seq<char>, account: AccountView) -> Option<
        DBInsertError,
    > {
        let at = first_index(self.accounts, Self::named(name));
        if at < self.accounts.len() {
            if self.accounts[at].account.number != account.number {
                Some(DBInsertError::InsertAccountDuplicateNameError)
            } else {
                None
            }
        } else if self.knows_number(account.number) {
            Some(DBInsertError::InsertAccountDuplicateInfoError)
        } else {
            None
        }
    }

    /// The store once `account` has been taken in under `name`: a new name
    /// comes last, a known name keeps its place and gets the account.
    pub open spec fn with_account(self, name: Seq<char>, account: AccountView) -> StoreView {
        let at = first_index(self.accounts, Self::named(name));
        let entry = AccountEntryView { name, account };
        if at < self.accounts.len() {
            StoreView { accounts: self.accounts.update(at, entry), ..self }
        } else {
            StoreView { accounts: self.accounts.push(entry), ..self }
        }
    }

    /// Why a balance reading cannot be taken in, or `None` where it can.
    pub open spec fn balance_refusal(
        self,
        number: Seq<char>,
        date: Date,
        reading: DBInfoAccountBalance,
    ) -> Option<DBInsertError> {
        let at = first_index(self.account_balances, Self::balances_on(number, date));
        if !self.knows_number(number) {
            Some(DBInsertError::InsertAccountBalanceNoAccountError)
        } else if at < self.account_balances.len()
            && self.account_balances[at].day.over_day_balances.contains(reading) {
            Some(DBInsertError::InsertAccountBalanceDuplicateError)
        } else {
            None
        }
    }

    /// The store once a balance reading has been taken in. The first
    /// reading of a date opens its shelf, with `start_of_day` as the
    /// balance the day started with; later readings leave that balance as it
    /// is.
    pub open spec fn with_balance(
        self,
        number: Seq<char>,
        date: Date,
        reading: DBInfoAccountBalance,
        start_of_day: DBInfoAccountBalance,
    ) -> StoreView {
        let at = first_index(self.account_balances, Self::balances_on(number, date));
        if at < self.account_balances.len() {
            StoreView {
                account_balances: self.account_balances.update(
                    at,
                    BalanceShelfView {
                        number,
                        day: self.account_balances[at].day.with_reading(reading),
                    },
                ),
                ..self
            }
        } else {
            StoreView {
                account_balances: self.account_balances.push(
                    BalanceShelfView {
                        number,
                        day: BalanceDayView {
                            date,
                            start_of_day_bal: start_of_day,
                            over_day_balances: seq![reading],
                        },
                    },
                ),
                ..self
            }
        }
    }

    /// Why a position reading cannot be taken in, or `None` where it can.
    pub open spec fn position_refusal(
        self,
        number: Seq<char>,
        date: Date,
        reading: PositionView,
    ) -> Option<DBInsertError> {
        let at = first_index(
            self.account_positions,
            Self::positions_on(number, reading.symbol, date),
        );
        if !self.knows_number(number) {
            Some(DBInsertError::InsertAccountPositionNoAccountError)
        } else if at < self.account_positions.len()
            && self.account_positions[at].day.readings.contains(reading) {
            Some(DBInsertError::InsertAccountPositionDuplicateError)
        } else {
            None
        }
    }

    /// The store once a position reading has been taken in.
    pub open spec fn with_position(
        self,
        number: Seq<char>,
        date: Date,
        reading: PositionView,
    ) -> StoreView {
        let at = first_index(
            self.account_positions,
            Self::positions_on(number, reading.symbol, date),
        );
        if at < self.account_positions.len() {
            StoreView {
                account_positions: self.account_positions.update(
                    at,
                    PositionShelfView {
                        number,
                        symbol: reading.symbol,
                        day: self.account_positions[at].day.with_reading(reading),
                    },
                ),
                ..self
            }
        } else {
            StoreView {
                account_positions: self.account_positions.push(
                    PositionShelfView {
                        number,
                        symbol: reading.symbol,
                        day: PositionDayView { date, readings: seq![reading] },
                    },
                ),
                ..self
            }
        }
    }

    /// The symbols among the first `upto` position shelves that belong to
    /// the account `number`, each once, in the order in which they first
    /// come.
    pub open spec fn symbols_upto(self, number: Seq<char>, upto: int) -> Seq<Seq<char>>
        decreases upto,
    {
        if upto <= 0 || upto > self.account_positions.len() {
            Seq::empty()
        } else {
            let earlier = self.symbols_upto(number, upto - 1);
            let shelf = self.account_positions[upto - 1];
            if shelf.number == number && !earlier.contains(shelf.symbol) {
                earlier.push(shelf.symbol)
            } else {
                earlier
            }
        }
    }

    /// The symbols that the account behind an identifier has position
    /// readings of, each once, in the order in which the store first took a
    /// reading of them.
    pub open spec fn position_symbols(self, identifier: Seq<char>) -> Result<
        Seq<Seq<char>>,
        RetrieveErrorView,
    > {
        match self.resolve(identifier) {
            None => Err(RetrieveErrorView::RetrieveAccountNoAccountError(identifier)),
            Some(number) => if first_index(self.account_positions, Self::positions_of(number))
                >= self.account_positions.len() {
                Err(RetrieveErrorView::RetrieveAccountPositionAllNotSyncedError)
            } else {
                Ok(self.symbols_upto(number, self.account_positions.len() as int))
            },
        }
    }

    /// Whether the store holds readings of `symbol` for the account
    /// `number`.
    pub open spec fn has_symbol(self, number: Seq<char>, symbol: Seq<char>) -> bool {
        first_index(self.account_positions, Self::positions_in(number, symbol))
            < self.account_positions.len()
    }

    /// The balance readings of the account `number` on `date`.
    pub open spec fn balances_of_date(self, number: Seq<char>, date: Date) -> Result<
        BalanceDayView,
        RetrieveErrorView,
    > {
        let at = first_index(self.account_balances, Self::balances_on(number, date));
        if first_index(self.account_balances, Self::balances_of(number))
            >= self.account_balances.len() {
            Err(RetrieveErrorView::RetrieveAccountBalanceNotSyncedError)
        } else if at >= self.account_balances.len() {
            Err(RetrieveErrorView::RetrieveAccountBalanceNotSyncedDayError(date))
        } else {
            Ok(self.account_balances[at].day)
        }
    }

    /// The position readings of the account `number` in `symbol` on `date`.
    pub open spec fn positions_of_date(
        self,
        number: Seq<char>,
        symbol: Seq<char>,
        date: Date,
    ) -> Result<PositionDayView, RetrieveErrorView> {
        let at = first_index(self.account_positions, Self::positions_on(number, symbol, date));
        if first_index(self.account_positions, Self::positions_of(number))
            >= self.account_positions.len() {
            Err(RetrieveErrorView::RetrieveAccountPositionAllNotSyncedError)
        } else if first_index(self.account_positions, Self::positions_in(number, symbol))
            >= self.account_positions.len() {
            Err(RetrieveErrorView::RetrieveAccountPositionNotSyncedError(symbol))
        } else if at >= self.account_positions.len() {
            Err(RetrieveErrorView::RetrieveAccountPositionNotSyncedDayError(symbol, date))
        } else {
            Ok(self.account_positions[at].day)
        }
    }

    /// The balance that the account `number` started `date` with, where
    /// the store holds that day.
    pub open spec fn start_of_day_of(self, number: Seq<char>, date: Date) -> Option<
        DBInfoAccountBalance,
    > {
        match self.balances_of_date(number, date) {
            Ok(day) => Some(day.start_of_day_bal),
            Err(_) => None,
        }
    }

    /// Whether the store holds a balance reading for the account `number`
    /// on `date`.
    pub open spec fn holds_balance(
        self,
        number: Seq<char>,
        date: Date,
        reading: DBInfoAccountBalance,
    ) -> bool {
        self.balances_of_date(number, date) matches Ok(day) && day.over_day_balances.contains(
            reading,
        )
    }

    /// Whether the store holds a position reading for the account `number`
    /// on `date`, under the reading's symbol.
    pub open spec fn holds_position(self, number: Seq<char>, date: Date, reading: PositionView)
        -> bool {
        self.positions_of_date(number, reading.symbol, date) matches Ok(day)
            && day.readings.contains(reading)
    }

    /// The balance day that a question about `identifier` and `date` is
    /// answered from.
    pub open spec fn balance_day_for(self, identifier: Seq<char>, date: Date) -> Result<
        BalanceDayView,
        RetrieveErrorView,
    > {
        match self.resolve(identifier) {
            None => Err(RetrieveErrorView::RetrieveAccountNoAccountError(identifier)),
            Some(number) => self.balances_of_date(number, date),
        }
    }

    /// The position day that a question about `identifier`, `symbol` and
    /// `date` is answered from.
    pub open spec fn position_day_for(
        self,
        identifier: Seq<char>,
        symbol: Seq<char>,
        date: Date,
    ) -> Result<PositionDayView, RetrieveErrorView> {
        match self.resolve(identifier) {
            None => Err(RetrieveErrorView::RetrieveAccountNoAccountError(identifier)),
            Some(number) => self.positions_of_date(number, symbol, date),
        }
    }

    /// The balance that `identifier`'s account started `date` with.
    pub open spec fn start_of_day_balance(self, identifier: Seq<char>, date: Date) -> Result<
        DBInfoAccountBalance,
        RetrieveErrorView,
    > {
        match self.balance_day_for(identifier, date) {
            Err(e) => Err(e),
            Ok(day) => Ok(day.start_of_day_bal),
        }
    }

    /// The latest balance reading of `identifier`'s account on `date`.
    pub open spec fn latest_balance(self, identifier: Seq<char>, date: Date) -> Result<
        DBInfoAccountBalance,
        RetrieveErrorView,
    > {
        match self.balance_day_for(identifier, date) {
            Err(e) => Err(e),
            Ok(day) => Ok(day.most_recent()),
        }
    }

    /// The balance reading of `identifier`'s account on `date` that the
    /// search for the one closest to `time` returns.
    pub open spec fn closest_balance(
        self,
        identifier: Seq<char>,
        date: Date,
        time: TimeOfDay,
    ) -> Result<DBInfoAccountBalance, RetrieveErrorView> {
        match self.balance_day_for(identifier, date) {
            Err(e) => Err(e),
            Ok(day) => Ok(day.closest_to(time)),
        }
    }

    /// The latest reading of `symbol` for `identifier`'s account on `date`.
    pub open spec fn latest_position(
        self,
        identifier: Seq<char>,
        symbol: Seq<char>,
        date: Date,
    ) -> Result<PositionView, RetrieveErrorView> {
        match self.position_day_for(identifier, symbol, date) {
            Err(e) => Err(e),
            Ok(day) => Ok(day.readings.last()),
        }
    }

    /// The reading of `symbol` for `identifier`'s account on `date` that
    /// the search for the one closest to `time` returns.
    pub open spec fn closest_position(
        self,
        identifier: Seq<char>,
        symbol: Seq<char>,
        date: Date,
        time: TimeOfDay,
    ) -> Result<PositionView, RetrieveErrorView> {
        match self.position_day_for(identifier, symbol, date) {
            Err(e) => Err(e),
            Ok(day) => Ok(
                day.readings[crate::storage::series::closest_index(
                    crate::storage::position::position_times(day.readings),
                    time,
                )],
            ),
        }
    }
}

/// The symbols of an account hold no symbol twice, and just the symbols
/// of the account's shelves.
pub proof fn lemma_symbols_upto(store: StoreView, number: Seq<char>, upto: int)
    requires
        0 <= upto <= store.account_positions.len(),
    ensures
        store.symbols_upto(number, upto).no_duplicates(),
        forall|symbol: Seq<char>|
            store.symbols_upto(number, upto).contains(symbol) <==> exists|j: int|
                0 <= j < upto && store.account_positions[j].number == number
                    && #[trigger] store.account_positions[j].symbol == symbol,
    decreases upto,
{
    if upto > 0 {
        lemma_symbols_upto(store, number, upto - 1);
        let earlier = store.symbols_upto(number, upto - 1);
        let now = store.symbols_upto(number, upto);
        let shelf = store.account_positions[upto - 1];
        assert forall|symbol: Seq<char>| now.contains(symbol) <==> exists|j: int|
            0 <= j < upto && store.account_positions[j].number == number
                && #[trigger] store.account_positions[j].symbol == symbol by {
            if now.contains(symbol) {
                let k = choose|k: int| 0 <= k < now.len() && now[k] == symbol;
                if k < earlier.len() {
                    assert(earlier[k] == symbol);
                    assert(earlier.contains(symbol));
                } else {
                    assert(store.account_positions[upto - 1].symbol == symbol);
                }
            }
            if exists|j: int|
                0 <= j < upto && store.account_positions[j].number == number
                    && #[trigger] store.account_positions[j].symbol == symbol {
                let j = choose|j: int|
                    0 <= j < upto && store.account_positions[j].number == number
                        && #[trigger] store.account_positions[j].symbol == symbol;
                if j < upto - 1 {
                    assert(earlier.contains(symbol));
                    let k = choose|k: int| 0 <= k < earlier.len() && earlier[k] == symbol;
                    assert(now[k] == symbol);
                } else if earlier.contains(symbol) {
                    let k = choose|k: int| 0 <= k < earlier.len() && earlier[k] == symbol;
                    assert(now[k] == symbol);
                } else {
                    assert(now[earlier.len() as int] == symbol);
                }
            }
        }
    }
}

/// The list of symbols that the store gives for an account holds no symbol
/// twice, and a symbol exactly where the store holds readings of it for the
/// account.
pub proof fn lemma_position_symbols(store: StoreView, identifier: Seq<char>)
    ensures
        match store.position_symbols(identifier) {
            Ok(symbols) => symbols.no_duplicates() && forall|symbol: Seq<char>|
                symbols.contains(symbol) <==> store.has_symbol(
                    store.resolve(identifier).unwrap(),
                    symbol,
                ),
            Err(_) => true,
        },
{
    if store.position_symbols(identifier) is Ok {
        let number = store.resolve(identifier).unwrap();
        let n = store.account_positions.len() as int;
        lemma_symbols_upto(store, number, n);
        let symbols = store.symbols_upto(number, n);
        assert forall|symbol: Seq<char>|
            symbols.contains(symbol) <==> store.has_symbol(number, symbol) by {
            lemma_first_index(store.account_positions, StoreView::positions_in(number, symbol));
            if symbols.contains(symbol) {
                let j = choose|j: int|
                    0 <= j < n && store.account_positions[j].number == number
                        && #[trigger] store.account_positions[j].symbol == symbol;
                assert(StoreView::positions_in(number, symbol)(store.account_positions[j]));
            }
            if store.has_symbol(number, symbol) {
                let j = first_index(
                    store.account_positions,
                    StoreView::positions_in(number, symbol),
                );
                assert(store.account_positions[j].number == number
                    && store.account_positions[j].symbol == symbol);
            }
        }
    }
}

/// A store that takes in an account which it does not refuse stays well
/// formed.
pub proof fn lemma_with_account_wf(store: StoreView, name: Seq<char>, account: AccountView)
    requires
        store.wf(),
        store.account_refusal(name, account) is None,
    ensures
        store.with_account(name, account).wf(),
{
    lemma_first_index(store.accounts, StoreView::named(name));
    lemma_first_index(store.accounts, StoreView::numbered(account.number));
    let after = store.with_account(name, account);
    assert forall|i: int, j: int| 0 <= i < j < after.accounts.len() implies after.accounts[i].name
        != after.accounts[j].name && after.accounts[i].account.number
        != after.accounts[j].account.number by {
        if j == store.accounts.len() {
            assert(!StoreView::named(name)(store.accounts[i]));
            assert(!StoreView::numbered(account.number)(store.accounts[i]));
        }
    }
}

/// A store that takes in a balance reading which it does not refuse stays
/// well formed.
pub proof fn lemma_with_balance_wf(
    store: StoreView,
    number: Seq<char>,
    date: Date,
    reading: DBInfoAccountBalance,
    start_of_day: DBInfoAccountBalance,
)
    requires
        store.wf(),
        store.balance_refusal(number, date, reading) is None,
    ensures
        store.with_balance(number, date, reading, start_of_day).wf(),
{
    let wanted = StoreView::balances_on(number, date);
    lemma_first_index(store.account_balances, wanted);
    let at = first_index(store.account_balances, wanted);
    let after = store.with_balance(number, date, reading, start_of_day);
    if at < store.account_balances.len() {
        crate::storage::balance::lemma_with_reading_wf(store.account_balances[at].day, reading);
        assert forall|i: int| 0 <= i < after.account_balances.len() implies (
        #[trigger] after.account_balances[i]).day.wf() by {
            if i != at {
                assert(after.account_balances[i] == store.account_balances[i]);
            }
        }
    } else {
        let day = BalanceDayView {
            date,
            start_of_day_bal: start_of_day,
            over_day_balances: seq![reading],
        };
        assert(crate::storage::balance::balance_times(day.over_day_balances).len() == 1);
        assert(day.wf());
        assert forall|i: int| 0 <= i < after.account_balances.len() implies (
        #[trigger] after.account_balances[i]).day.wf() by {
            if i < store.account_balances.len() {
                assert(after.account_balances[i] == store.account_balances[i]);
            }
        }
        assert forall|i: int, j: int| 0 <= i < j < after.account_balances.len() implies !(
        after.account_balances[i].number == after.account_balances[j].number
            && after.account_balances[i].day.date == after.account_balances[j].day.date) by {
            if j == store.account_balances.len() {
                assert(!wanted(store.account_balances[i]));
            }
        }
    }
}

/// A store that takes in a position reading which it does not refuse stays
/// well formed.
pub proof fn lemma_with_position_wf(
    store: StoreView,
    number: Seq<char>,
    date: Date,
    reading: PositionView,
)
    requires
        store.wf(),
        store.position_refusal(number, date, reading) is None,
    ensures
        store.with_position(number, date, reading).wf(),
{
    let wanted = StoreView::positions_on(number, reading.symbol, date);
    lemma_first_index(store.account_positions, wanted);
    let at = first_index(store.account_positions, wanted);
    let after = store.with_position(number, date, reading);
    if at < store.account_positions.len() {
        crate::storage::position::lemma_with_position_wf(
            store.account_positions[at].day,
            reading,
        );
        assert(wanted(store.account_positions[at]));
        assert forall|i: int| 0 <= i < after.account_positions.len() implies (
        #[trigger] after.account_positions[i]).day.wf()
            && after.account_positions[i].day.readings.len() > 0
            && after.account_positions[i].day.all_of(after.account_positions[i].symbol) by {
            if i != at {
                assert(after.account_positions[i] == store.account_positions[i]);
            }
        }
    } else {
        let day = PositionDayView { date, readings: seq![reading] };
        assert(crate::storage::position::position_times(day.readings).len() == 1);
        assert(day.wf());
        assert(day.all_of(reading.symbol));
        assert forall|i: int| 0 <= i < after.account_positions.len() implies (
        #[trigger] after.account_positions[i]).day.wf()
            && after.account_positions[i].day.readings.len() > 0
            && after.account_positions[i].day.all_of(after.account_positions[i].symbol) by {
            if i < store.account_positions.len() {
                assert(after.account_positions[i] == store.account_positions[i]);
            }
        }
        assert forall|i: int, j: int| 0 <= i < j < after.account_positions.len() implies !(
        after.account_positions[i].number == after.account_positions[j].number
            && after.account_positions[i].symbol == after.account_positions[j].symbol
            && after.account_positions[i].day.date == after.account_positions[j].day.date) by {
            if j == store.account_positions.len() {
                assert(!wanted(store.account_positions[i]));
            }
        }
    }
}

} // verus!
