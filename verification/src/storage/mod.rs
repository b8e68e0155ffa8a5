//! The store: accounts under their names, and for each account the balance
//! and position readings of each day.

pub mod balance;
pub mod laws;
pub mod model;
pub mod position;
pub mod series;

use crate::account::{Account, AccountBalance, AccountPosition};
use crate::clock::{make_dateime_naive, Date, DateTime, TimeOfDay};
use crate::myerrors::{DBInsertError, DBRetrieveError, RetrieveErrorView};
use crate::storage::balance::{DBInfoAccountBalance, DBInfoAccountBalanceDay};
use crate::storage::model::{
    first_index, first_index_from, lemma_first_index, lemma_with_account_wf,
    lemma_with_balance_wf, lemma_with_position_wf, AccountEntryView, BalanceShelfView,
    PositionShelfView, StoreView,
};
use crate::storage::position::{DBInfoAccountPosition, DBInfoAccountPositionDay, PositionView};
use vstd::prelude::*;
use vstd::string::StringExecFns;

verus! {

/// An account under the name the store keeps it by.
#[derive(Debug, PartialEq, Eq)]
pub struct AccountEntry {
    pub name: String,
    pub account: Account,
}

impl View for AccountEntry {
    type V = AccountEntryView;

    open spec fn view(&self) -> AccountEntryView {
        AccountEntryView { name: self.name@, account: self.account@ }
    }
}

/// The balance readings of one account on one date.
#[derive(Debug, PartialEq, Eq)]
pub struct BalanceShelf {
    pub number: String,
    pub day: DBInfoAccountBalanceDay,
}

impl View for BalanceShelf {
    type V = BalanceShelfView;

    open spec fn view(&self) -> BalanceShelfView {
        BalanceShelfView { number: self.number@, day: self.day@ }
    }
}

/// The position readings of one account in one symbol on one date.
#[derive(Debug, PartialEq, Eq)]
pub struct PositionShelf {
    pub number: String,
    pub symbol: String,
    pub day: DBInfoAccountPositionDay,
}

impl View for PositionShelf {
    type V = PositionShelfView;

    open spec fn view(&self) -> PositionShelfView {
        PositionShelfView { number: self.number@, symbol: self.symbol@, day: self.day@ }
    }
}

/// The entries as mathematical values.
pub open spec fn account_views(entries: Seq<AccountEntry>) -> Seq<AccountEntryView> {
    entries.map_values(|e: AccountEntry| e@)
}

/// The balance shelves as mathematical values.
pub open spec fn balance_views(shelves: Seq<BalanceShelf>) -> Seq<BalanceShelfView> {
    shelves.map_values(|s: BalanceShelf| s@)
}

/// The position shelves as mathematical values.
pub open spec fn position_views(shelves: Seq<PositionShelf>) -> Seq<PositionShelfView> {
    shelves.map_values(|s: PositionShelf| s@)
}

/// The texts as sequences of characters.
pub open spec fn text_views(texts: Seq<String>) -> Seq<Seq<char>> {
    texts.map_values(|t: String| t@)
}

/// The outcome of a question about a balance, with an error's texts as
/// sequences of characters.
pub open spec fn balance_answer(r: Result<DBInfoAccountBalance, DBRetrieveError>) -> Result<
    DBInfoAccountBalance,
    RetrieveErrorView,
> {
    match r {
        Ok(b) => Ok(b),
        Err(e) => Err(e@),
    }
}

/// The outcome of a question about a position, with its texts as
/// sequences of characters.
pub open spec fn position_answer(r: Result<DBInfoAccountPosition, DBRetrieveError>) -> Result<
    PositionView,
    RetrieveErrorView,
> {
    match r {
        Ok(p) => Ok(p@),
        Err(e) => Err(e@),
    }
}

/// The outcome of a question about a list of texts, with every text as a
/// sequence of characters.
pub open spec fn texts_answer(r: Result<Vec<String>, DBRetrieveError>) -> Result<
    Seq<Seq<char>>,
    RetrieveErrorView,
> {
    match r {
        Ok(texts) => Ok(text_views(texts@)),
        Err(e) => Err(e@),
    }
}

/// Whether a list of texts holds `text`.
fn holds_text(texts: &Vec<String>, text: &String) -> (r: bool)
    ensures
        r == text_views(texts@).contains(text@),
{
    let n = texts.len();
    let mut i: usize = 0;
    while i < n
        invariant
            n == texts@.len(),
            i <= n,
            forall|j: int| 0 <= j < i ==> text_views(texts@)[j] != text@,
        decreases n - i,
    {
        if texts[i] == *text {
            assert(text_views(texts@)[i as int] == text@);
            return true;
        }
        i += 1;
    }
    false
}

/// The place of the first entry kept under `name`, or the length.
fn find_name(accounts: &Vec<AccountEntry>, name: &String) -> (at: usize)
    ensures
        at == first_index(account_views(accounts@), StoreView::named(name@)),
        at <= accounts.len(),
{
    let ghost views = account_views(accounts@);
    let ghost wanted = StoreView::named(name@);
    let n = accounts.len();
    let mut i: usize = 0;
    while i < n
        invariant
            n == accounts@.len(),
            i <= n,
            views == account_views(accounts@),
            wanted == StoreView::named(name@),
            first_index(views, wanted) == first_index_from(views, wanted, i as int),
        decreases n - i,
    {
        assert(views[i as int] == accounts@[i as int]@);
        if accounts[i].name == *name {
            return i;
        }
        i += 1;
    }
    i
}

/// The place of the first entry whose account has `number`, or the length.
fn find_number(accounts: &Vec<AccountEntry>, number: &String) -> (at: usize)
    ensures
        at == first_index(account_views(accounts@), StoreView::numbered(number@)),
        at <= accounts.len(),
{
    let ghost views = account_views(accounts@);
    let ghost wanted = StoreView::numbered(number@);
    let n = accounts.len();
    let mut i: usize = 0;
    while i < n
        invariant
            n == accounts@.len(),
            i <= n,
            views == account_views(accounts@),
            wanted == StoreView::numbered(number@),
            first_index(views, wanted) == first_index_from(views, wanted, i as int),
        decreases n - i,
    {
        assert(views[i as int] == accounts@[i as int]@);
        if accounts[i].account.number == *number {
            return i;
        }
        i += 1;
    }
    i
}

/// The place of the first balance shelf of `number`, or the length.
fn find_balances_of(shelves: &Vec<BalanceShelf>, number: &String) -> (at: usize)
    ensures
        at == first_index(balance_views(shelves@), StoreView::balances_of(number@)),
        at <= shelves.len(),
{
    let ghost views = balance_views(shelves@);
    let ghost wanted = StoreView::balances_of(number@);
    let n = shelves.len();
    let mut i: usize = 0;
    while i < n
        invariant
            n == shelves@.len(),
            i <= n,
            views == balance_views(shelves@),
            wanted == StoreView::balances_of(number@),
            first_index(views, wanted) == first_index_from(views, wanted, i as int),
        decreases n - i,
    {
        assert(views[i as int] == shelves@[i as int]@);
        if shelves[i].number == *number {
            return i;
        }
        i += 1;
    }
    i
}

/// The place of the balance shelf of `number` for `date`, or the length.
fn find_balances_on(shelves: &Vec<BalanceShelf>, number: &String, date: Date) -> (at: usize)
    ensures
        at == first_index(balance_views(shelves@), StoreView::balances_on(number@, date)),
        at <= shelves.len(),
{
    let ghost views = balance_views(shelves@);
    let ghost wanted = StoreView::balances_on(number@, date);
    let n = shelves.len();
    let mut i: usize = 0;
    while i < n
        invariant
            n == shelves@.len(),
            i <= n,
            views == balance_views(shelves@),
            wanted == StoreView::balances_on(number@, date),
            first_index(views, wanted) == first_index_from(views, wanted, i as int),
        decreases n - i,
    {
        assert(views[i as int] == shelves@[i as int]@);
        if shelves[i].number == *number && shelves[i].day.date() == date {
            return i;
        }
        i += 1;
    }
    i
}

/// The place of the first position shelf of `number`, or the length.
fn find_positions_of(shelves: &Vec<PositionShelf>, number: &String) -> (at: usize)
    ensures
        at == first_index(position_views(shelves@), StoreView::positions_of(number@)),
        at <= shelves.len(),
{
    let ghost views = position_views(shelves@);
    let ghost wanted = StoreView::positions_of(number@);
    let n = shelves.len();
    let mut i: usize = 0;
    while i < n
        invariant
            n == shelves@.len(),
            i <= n,
            views == position_views(shelves@),
            wanted == StoreView::positions_of(number@),
            first_index(views, wanted) == first_index_from(views, wanted, i as int),
        decreases n - i,
    {
        assert(views[i as int] == shelves@[i as int]@);
        if shelves[i].number == *number {
            return i;
        }
        i += 1;
    }
    i
}

/// The place of the first position shelf of `number` for `symbol`, or the
/// length.
fn find_positions_in(shelves: &Vec<PositionShelf>, number: &String, symbol: &String) -> (at:
    usize)
    ensures
        at == first_index(position_views(shelves@), StoreView::positions_in(number@, symbol@)),
        at <= shelves.len(),
{
    let ghost views = position_views(shelves@);
    let ghost wanted = StoreView::positions_in(number@, symbol@);
    let n = shelves.len();
    let mut i: usize = 0;
    while i < n
        invariant
            n == shelves@.len(),
            i <= n,
            views == position_views(shelves@),
            wanted == StoreView::positions_in(number@, symbol@),
            first_index(views, wanted) == first_index_from(views, wanted, i as int),
        decreases n - i,
    {
        assert(views[i as int] == shelves@[i as int]@);
        if shelves[i].number == *number && shelves[i].symbol == *symbol {
            return i;
        }
        i += 1;
    }
    i
}

/// The place of the position shelf of `number` for `symbol` on `date`, or
/// the length.
fn find_positions_on(
    shelves: &Vec<PositionShelf>,
    number: &String,
    symbol: &String,
    date: Date,
) -> (at: usize)
    ensures
        at == first_index(
            position_views(shelves@),
            StoreView::positions_on(number@, symbol@, date),
        ),
        at <= shelves.len(),
{
    let ghost views = position_views(shelves@);
    let ghost wanted = StoreView::positions_on(number@, symbol@, date);
    let n = shelves.len();
    let mut i: usize = 0;
    while i < n
        invariant
            n == shelves@.len(),
            i <= n,
            views == position_views(shelves@),
            wanted == StoreView::positions_on(number@, symbol@, date),
            first_index(views, wanted) == first_index_from(views, wanted, i as int),
        decreases n - i,
    {
        assert(views[i as int] == shelves@[i as int]@);
        if shelves[i].number == *number && shelves[i].symbol == *symbol && shelves[i].day.date()
            == date {
            return i;
        }
        i += 1;
    }
    i
}

/// The store of accounts and of their balance and position readings.
#[derive(Debug, PartialEq, Eq)]
pub struct DBInfo {
    accounts: Vec<AccountEntry>,
    account_balances: Vec<BalanceShelf>,
    account_positions: Vec<PositionShelf>,
}

impl View for DBInfo {
    type V = StoreView;

    closed spec fn view(&self) -> StoreView {
        StoreView {
            accounts: account_views(self.accounts@),
            account_balances: balance_views(self.account_balances@),
            account_positions: position_views(self.account_positions@),
        }
    }
}

impl Default for DBInfo {
    /// The store that holds nothing.
    fn default() -> (r: DBInfo)
        ensures
            r@.accounts.len() == 0,
            r@.account_balances.len() == 0,
            r@.account_positions.len() == 0,
            r@.wf(),
    {
        DBInfo {
            accounts: Vec::new(),
            account_balances: Vec::new(),
            account_positions: Vec::new(),
        }
    }
}

impl DBInfo {
    #[verifier::type_invariant]
    pub closed spec fn inv(&self) -> bool {
        self@.wf()
    }

    /// The accounts under their names, in the order in which the names
    /// came.
    pub fn accounts(&self) -> (r: &Vec<AccountEntry>)
        ensures
            account_views(r@) == self@.accounts,
    {
        &self.accounts
    }

    /// The balance readings, a shelf for each account and date.
    pub fn account_balances(&self) -> (r: &Vec<BalanceShelf>)
        ensures
            balance_views(r@) == self@.account_balances,
    {
        &self.account_balances
    }

    /// The position readings, a shelf for each account, symbol and date.
    pub fn account_positions(&self) -> (r: &Vec<PositionShelf>)
        ensures
            position_views(r@) == self@.account_positions,
    {
        &self.account_positions
    }

    /// Puts back a day of balance readings that was kept elsewhere. A day
    /// that the store already holds for that account and date is left as it
    /// is, and the one handed in is dropped.
    pub fn restore_balance_day(&mut self, number: String, day: DBInfoAccountBalanceDay) -> (taken:
        bool)
        ensures
            final(self)@.wf(),
            taken == (first_index(
                old(self)@.account_balances,
                StoreView::balances_on(number@, day@.date),
            ) >= old(self)@.account_balances.len()),
            taken ==> final(self)@ == (StoreView {
                account_balances: old(self)@.account_balances.push(
                    BalanceShelfView { number: number@, day: day@ },
                ),
                ..old(self)@
            }),
            !taken ==> final(self)@ == old(self)@,
    {
        proof {
            use_type_invariant(&*self);
            use_type_invariant(&day);
            day.lemma_inv_is_wf();
            lemma_first_index(
                self@.account_balances,
                StoreView::balances_on(number@, day@.date),
            );
        }
        let ghost before = self@;
        let ghost shelf = BalanceShelfView { number: number@, day: day@ };
        let date = day.date();
        if find_balances_on(&self.account_balances, &number, date) < self.account_balances.len() {
            return false;
        }
        let mut shelves: Vec<BalanceShelf> = Vec::new();
        std::mem::swap(&mut self.account_balances, &mut shelves);
        shelves.push(BalanceShelf { number, day });
        proof {
            let after = before.account_balances.push(shelf);
            assert(balance_views(shelves@) =~= after);
            assert forall|i: int| 0 <= i < after.len() implies (#[trigger] after[i]).day.wf() by {
                if i < before.account_balances.len() {
                    assert(after[i] == before.account_balances[i]);
                }
            }
            assert forall|i: int, j: int| 0 <= i < j < after.len() implies !(after[i].number
                == after[j].number && after[i].day.date == after[j].day.date) by {
                if j == before.account_balances.len() {
                    assert(!StoreView::balances_on(shelf.number, shelf.day.date)(
                        before.account_balances[i],
                    ));
                }
            }
        }
        self.account_balances = shelves;
        true
    }

    /// Puts back a day of position readings that was kept elsewhere. A day
    /// without a reading is dropped, and so are a day that holds a reading
    /// of another symbol and one for an account, symbol and date that the
    /// store already holds a day for.
    pub fn restore_position_day(
        &mut self,
        number: String,
        symbol: String,
        day: DBInfoAccountPositionDay,
    ) -> (taken: bool)
        ensures
            final(self)@.wf(),
            taken == (day@.readings.len() > 0 && day@.all_of(symbol@) && first_index(
                old(self)@.account_positions,
                StoreView::positions_on(number@, symbol@, day@.date),
            ) >= old(self)@.account_positions.len()),
            taken ==> final(self)@ == (StoreView {
                account_positions: old(self)@.account_positions.push(
                    PositionShelfView { number: number@, symbol: symbol@, day: day@ },
                ),
                ..old(self)@
            }),
            !taken ==> final(self)@ == old(self)@,
    {
        proof {
            use_type_invariant(&*self);
            lemma_first_index(
                self@.account_positions,
                StoreView::positions_on(number@, symbol@, day@.date),
            );
        }
        let ghost before = self@;
        let ghost shelf = PositionShelfView { number: number@, symbol: symbol@, day: day@ };
        let date = day.date();
        if day.readings().len() == 0 || !day.is_all_of(&symbol) {
            return false;
        }
        if find_positions_on(&self.account_positions, &number, &symbol, date)
            < self.account_positions.len() {
            return false;
        }
        let mut shelves: Vec<PositionShelf> = Vec::new();
        std::mem::swap(&mut self.account_positions, &mut shelves);
        shelves.push(PositionShelf { number, symbol, day });
        proof {
            let after = before.account_positions.push(shelf);
            assert(position_views(shelves@) =~= after);
            assert forall|i: int| 0 <= i < after.len() implies (#[trigger] after[i]).day.wf()
                && after[i].day.readings.len() > 0 && after[i].day.all_of(after[i].symbol) by {
                if i < before.account_positions.len() {
                    assert(after[i] == before.account_positions[i]);
                }
            }
            assert forall|i: int, j: int| 0 <= i < j < after.len() implies !(after[i].number
                == after[j].number && after[i].symbol == after[j].symbol && after[i].day.date
                == after[j].day.date) by {
                if j == before.account_positions.len() {
                    assert(!StoreView::positions_on(shelf.number, shelf.symbol, shelf.day.date)(
                        before.account_positions[i],
                    ));
                }
            }
        }
        self.account_positions = shelves;
        true
    }

    /// What the type's invariant says of what the store holds.
    pub proof fn lemma_inv_is_wf(&self)
        requires
            self.inv(),
        ensures
            self@.wf(),
    {
    }

    /// Takes an account in under a name. A known name stands for one number
    /// for good: an account with another number is turned down under it,
    /// and an account with that number takes the place of the one kept, so
    /// that the same account again changes nothing. Under a new name an
    /// account is turned down where the store already keeps its number
    /// under another name. Whenever the account is turned down the store
    /// stays as it is.
    pub fn insert_account(&mut self, name: String, account: Account) -> (r: Result<
        (),
        DBInsertError,
    >)
        ensures
            old(self)@.wf(),
            final(self)@.wf(),
            match old(self)@.account_refusal(name@, account@) {
                Some(e) => r == Err::<(), DBInsertError>(e) && final(self)@ == old(self)@,
                None => r.is_ok() && final(self)@ == old(self)@.with_account(name@, account@),
            },
    {
        proof {
            use_type_invariant(&*self);
            lemma_first_index(self@.accounts, StoreView::named(name@));
            if self@.account_refusal(name@, account@) is None {
                lemma_with_account_wf(self@, name@, account@);
            }
        }
        let ghost before = self@;
        let ghost entry = AccountEntryView { name: name@, account: account@ };
        let at = find_name(&self.accounts, &name);
        let n = self.accounts.len();
        if at < n {
            assert(account_views(self.accounts@)[at as int] == self.accounts@[at as int]@);
            if self.accounts[at].account.number != account.number {
                return Err(DBInsertError::InsertAccountDuplicateNameError);
            }
            let mut accounts: Vec<AccountEntry> = Vec::new();
            std::mem::swap(&mut self.accounts, &mut accounts);
            accounts.set(at, AccountEntry { name, account });
            assert(account_views(accounts@) =~= before.accounts.update(at as int, entry));
            self.accounts = accounts;
            Ok(())
        } else if find_number(&self.accounts, &account.number) < n {
            Err(DBInsertError::InsertAccountDuplicateInfoError)
        } else {
            let mut accounts: Vec<AccountEntry> = Vec::new();
            std::mem::swap(&mut self.accounts, &mut accounts);
            accounts.push(AccountEntry { name, account });
            assert(account_views(accounts@) =~= before.accounts.push(entry));
            self.accounts = accounts;
            Ok(())
        }
    }
}

impl DBInfo {
    /// Takes in the balance of an account read at a moment. The account
    /// must be known. The first reading of a date opens the day, with `sod`
    /// as the balance the day started with; on a later reading of that date
    /// `sod` is left aside. A reading that the day holds already is turned
    /// down. Whenever the reading is turned down the store stays as it is.
    pub fn insert_account_balance(
        &mut self,
        datetime: DateTime,
        number: &String,
        balance: AccountBalance,
        sod: AccountBalance,
    ) -> (r: Result<(), DBInsertError>)
        ensures
            old(self)@.wf(),
            final(self)@.wf(),
            match old(self)@.balance_refusal(
                number@,
                datetime.date,
                DBInfoAccountBalance::of(balance, datetime.time),
            ) {
                Some(e) => r == Err::<(), DBInsertError>(e) && final(self)@ == old(self)@,
                None => r.is_ok() && final(self)@ == old(self)@.with_balance(
                    number@,
                    datetime.date,
                    DBInfoAccountBalance::of(balance, datetime.time),
                    DBInfoAccountBalance::of(sod, datetime.time),
                ),
            },
    {
        proof {
            use_type_invariant(&*self);
        }
        let ghost before = self@;
        let (date, time) = make_dateime_naive(datetime);
        if find_number(&self.accounts, number) >= self.accounts.len() {
            return Err(DBInsertError::InsertAccountBalanceNoAccountError);
        }
        let reading = DBInfoAccountBalance::new(balance, time);
        let at = find_balances_on(&self.account_balances, number, date);
        let n = self.account_balances.len();
        proof {
            lemma_first_index(before.account_balances, StoreView::balances_on(number@, date));
            if at < n {
                assert(before.account_balances[at as int] == self.account_balances@[at as int]@);
            }
        }
        if at < n {
            if self.account_balances[at].day.holds(&reading) {
                return Err(DBInsertError::InsertAccountBalanceDuplicateError);
            }
            proof {
                lemma_with_balance_wf(
                    before,
                    number@,
                    date,
                    reading,
                    DBInfoAccountBalance::of(sod, time),
                );
            }
            let mut shelves: Vec<BalanceShelf> = Vec::new();
            std::mem::swap(&mut self.account_balances, &mut shelves);
            let taken = shelves[at].day.insert_bal(reading);
            assert(balance_views(shelves@) =~= before.account_balances.update(
                at as int,
                BalanceShelfView {
                    number: number@,
                    day: before.account_balances[at as int].day.with_reading(reading),
                },
            ));
            self.account_balances = shelves;
            taken
        } else {
            let mut day = DBInfoAccountBalanceDay::new(date, DBInfoAccountBalance::new(sod, time));
            let taken = day.insert_bal(reading);
            proof {
                lemma_with_balance_wf(
                    before,
                    number@,
                    date,
                    reading,
                    DBInfoAccountBalance::of(sod, time),
                );
                assert(Seq::<DBInfoAccountBalance>::empty().insert(0, reading) =~= seq![reading]);
                assert(crate::storage::balance::balance_times(
                    Seq::<DBInfoAccountBalance>::empty(),
                ) =~= Seq::empty());
            }
            let mut shelves: Vec<BalanceShelf> = Vec::new();
            std::mem::swap(&mut self.account_balances, &mut shelves);
            shelves.push(BalanceShelf { number: number.clone(), day });
            assert(balance_views(shelves@) =~= before.account_balances.push(
                BalanceShelfView {
                    number: number@,
                    day: crate::storage::balance::BalanceDayView {
                        date,
                        start_of_day_bal: DBInfoAccountBalance::of(sod, time),
                        over_day_balances: seq![reading],
                    },
                },
            ));
            self.account_balances = shelves;
            taken
        }
    }

    /// Takes in a position of an account read at a moment. The account must
    /// be known. The reading goes to the day of its symbol and date, which
    /// the first reading opens. A reading that the day holds already is
    /// turned down. Whenever the reading is turned down the store stays as
    /// it is.
    pub fn insert_account_position(
        &mut self,
        datetime: DateTime,
        number: &String,
        position: AccountPosition,
    ) -> (r: Result<(), DBInsertError>)
        ensures
            old(self)@.wf(),
            final(self)@.wf(),
            match old(self)@.position_refusal(
                number@,
                datetime.date,
                PositionView::of(position, datetime.time),
            ) {
                Some(e) => r == Err::<(), DBInsertError>(e) && final(self)@ == old(self)@,
                None => r.is_ok() && final(self)@ == old(self)@.with_position(
                    number@,
                    datetime.date,
                    PositionView::of(position, datetime.time),
                ),
            },
    {
        proof {
            use_type_invariant(&*self);
        }
        let ghost before = self@;
        let (date, time) = make_dateime_naive(datetime);
        if find_number(&self.accounts, number) >= self.accounts.len() {
            return Err(DBInsertError::InsertAccountPositionNoAccountError);
        }
        let reading = DBInfoAccountPosition::new(position, time);
        let ghost image = reading@;
        let at = find_positions_on(&self.account_positions, number, &reading.symbol, date);
        let n = self.account_positions.len();
        proof {
            lemma_first_index(
                before.account_positions,
                StoreView::positions_on(number@, image.symbol, date),
            );
            if at < n {
                assert(before.account_positions[at as int] == self.account_positions@[at as int]@);
            }
        }
        if at < n {
            if self.account_positions[at].day.holds(&reading) {
                return Err(DBInsertError::InsertAccountPositionDuplicateError);
            }
            proof {
                lemma_with_position_wf(before, number@, date, image);
            }
            let mut shelves: Vec<PositionShelf> = Vec::new();
            std::mem::swap(&mut self.account_positions, &mut shelves);
            let taken = shelves[at].day.insert(reading);
            assert(position_views(shelves@) =~= before.account_positions.update(
                at as int,
                PositionShelfView {
                    number: number@,
                    symbol: image.symbol,
                    day: before.account_positions[at as int].day.with_reading(image),
                },
            ));
            self.account_positions = shelves;
            taken
        } else {
            let symbol = reading.symbol.clone();
            let mut day = DBInfoAccountPositionDay::new(date);
            let taken = day.insert(reading);
            proof {
                lemma_with_position_wf(before, number@, date, image);
                assert(Seq::<PositionView>::empty().insert(0, image) =~= seq![image]);
                assert(crate::storage::position::position_times(Seq::<PositionView>::empty())
                    =~= Seq::empty());
            }
            let mut shelves: Vec<PositionShelf> = Vec::new();
            std::mem::swap(&mut self.account_positions, &mut shelves);
            shelves.push(PositionShelf { number: number.clone(), symbol, day });
            assert(position_views(shelves@) =~= before.account_positions.push(
                PositionShelfView {
                    number: number@,
                    symbol: image.symbol,
                    day: crate::storage::position::PositionDayView {
                        date,
                        readings: seq![image],
                    },
                },
            ));
            self.account_positions = shelves;
            taken
        }
    }
}

impl DBInfo {
    /// The accounts that the store keeps, in the order in which their names
    /// came.
    pub fn iter_accounts(&self) -> (r: Vec<Account>)
        ensures
            r@.map_values(|a: Account| a@) == self@.accounts.map_values(
                |e: AccountEntryView| e.account,
            ),
    {
        let n = self.accounts.len();
        let mut out: Vec<Account> = Vec::new();
        let mut i: usize = 0;
        while i < n
            invariant
                n == self.accounts@.len(),
                i <= n,
                out@.len() == i,
                forall|j: int| 0 <= j < i ==> out@[j]@ == self.accounts@[j].account@,
            decreases n - i,
        {
            out.push(self.accounts[i].account.clone());
            i += 1;
        }
        assert(out@.map_values(|a: Account| a@) =~= self@.accounts.map_values(
            |e: AccountEntryView| e.account,
        ));
        out
    }

    /// The names that accounts are kept under, in the order in which they
    /// came. A store without accounts has no list to give.
    pub fn get_account_list(&self) -> (r: Result<Vec<String>, DBRetrieveError>)
        ensures
            match r {
                Ok(names) => self@.accounts.len() > 0 && text_views(names@)
                    == self@.accounts.map_values(|e: AccountEntryView| e.name),
                Err(e) => self@.accounts.len() == 0 && e@
                    == RetrieveErrorView::RetrieveAccountsNotSyncedError,
            },
    {
        let n = self.accounts.len();
        if n == 0 {
            return Err(DBRetrieveError::RetrieveAccountsNotSyncedError);
        }
        let mut out: Vec<String> = Vec::new();
        let mut i: usize = 0;
        while i < n
            invariant
                n == self.accounts@.len(),
                i <= n,
                out@.len() == i,
                forall|j: int| 0 <= j < i ==> out@[j]@ == self.accounts@[j].name@,
            decreases n - i,
        {
            out.push(self.accounts[i].name.clone());
            i += 1;
        }
        assert(text_views(out@) =~= self@.accounts.map_values(|e: AccountEntryView| e.name));
        Ok(out)
    }

    /// The number of the account that an identifier stands for. The
    /// identifier is taken as a name first; where no account is kept under
    /// it, it stands for itself if it is the number of a known account.
    pub fn acct_identifier_to_number(&self, acct_ident: &str) -> (r: Result<
        String,
        DBRetrieveError,
    >)
        ensures
            match r {
                Ok(number) => self@.resolve(acct_ident@) == Some(number@),
                Err(e) => self@.resolve(acct_ident@) is None && e@
                    == RetrieveErrorView::RetrieveAccountNoAccountError(acct_ident@),
            },
    {
        let key = String::from_str(acct_ident);
        let n = self.accounts.len();
        let at = find_name(&self.accounts, &key);
        if at < n {
            assert(self@.accounts[at as int] == self.accounts@[at as int]@);
            Ok(self.accounts[at].account.number.clone())
        } else if find_number(&self.accounts, &key) < n {
            Ok(key)
        } else {
            Err(DBRetrieveError::RetrieveAccountNoAccountError(key))
        }
    }

    /// The account that an identifier stands for: the first one kept with
    /// the number that the identifier resolves to.
    pub fn get_account_info(&self, account_identifier: &str) -> (r: Result<
        Account,
        DBRetrieveError,
    >)
        ensures
            match self@.resolve(account_identifier@) {
                Some(number) => r matches Ok(a) && first_index(
                    self@.accounts,
                    StoreView::numbered(number),
                ) < self@.accounts.len() && a@ == self@.accounts[first_index(
                    self@.accounts,
                    StoreView::numbered(number),
                )].account,
                None => r matches Err(e) && e@ == RetrieveErrorView::RetrieveAccountNoAccountError(
                    account_identifier@,
                ),
            },
    {
        let number = match self.acct_identifier_to_number(account_identifier) {
            Ok(number) => number,
            Err(e) => {
                return Err(e);
            },
        };
        let at = find_number(&self.accounts, &number);
        proof {
            let by_name = first_index(self@.accounts, StoreView::named(account_identifier@));
            lemma_first_index(self@.accounts, StoreView::named(account_identifier@));
            lemma_first_index(self@.accounts, StoreView::numbered(number@));
            if by_name < self@.accounts.len() {
                assert(StoreView::numbered(number@)(self@.accounts[by_name]));
            }
        }
        assert(self@.accounts[at as int] == self.accounts@[at as int]@);
        Ok(self.accounts[at].account.clone())
    }

    /// The balance readings of the account `acct_num` on `date`. An
    /// account without any balance reading and an account without one on
    /// that date give different errors.
    pub fn list_balances_of_date(&self, acct_num: &str, date: &Date) -> (r: Result<
        &DBInfoAccountBalanceDay,
        DBRetrieveError,
    >)
        ensures
            match r {
                Ok(day) => self@.balances_of_date(acct_num@, *date) == Ok::<
                    crate::storage::balance::BalanceDayView,
                    RetrieveErrorView,
                >(day@) && day@.wf(),
                Err(e) => self@.balances_of_date(acct_num@, *date) == Err::<
                    crate::storage::balance::BalanceDayView,
                    RetrieveErrorView,
                >(e@),
            },
    {
        proof {
            use_type_invariant(self);
        }
        let key = String::from_str(acct_num);
        let n = self.account_balances.len();
        if find_balances_of(&self.account_balances, &key) >= n {
            return Err(DBRetrieveError::RetrieveAccountBalanceNotSyncedError);
        }
        let at = find_balances_on(&self.account_balances, &key, *date);
        if at >= n {
            return Err(DBRetrieveError::RetrieveAccountBalanceNotSyncedDayError(*date));
        }
        assert(self@.account_balances[at as int] == self.account_balances@[at as int]@);
        Ok(&self.account_balances[at].day)
    }

    /// The readings of `symbol` for the account `acct_num` on `date`. An
    /// account without any position reading, one without a reading of that
    /// symbol and one without a reading of it on that date give different
    /// errors. A day that is given holds a reading, and only readings of
    /// that symbol.
    pub fn list_positions_of_date(&self, acct_num: &str, symbol: &str, date: &Date) -> (r:
        Result<&DBInfoAccountPositionDay, DBRetrieveError>)
        ensures
            match r {
                Ok(day) => self@.positions_of_date(acct_num@, symbol@, *date) == Ok::<
                    crate::storage::position::PositionDayView,
                    RetrieveErrorView,
                >(day@) && day@.wf() && day@.readings.len() > 0 && day@.all_of(symbol@),
                Err(e) => self@.positions_of_date(acct_num@, symbol@, *date) == Err::<
                    crate::storage::position::PositionDayView,
                    RetrieveErrorView,
                >(e@),
            },
    {
        proof {
            use_type_invariant(self);
        }
        let key = String::from_str(acct_num);
        let wanted = String::from_str(symbol);
        let n = self.account_positions.len();
        if find_positions_of(&self.account_positions, &key) >= n {
            return Err(DBRetrieveError::RetrieveAccountPositionAllNotSyncedError);
        }
        if find_positions_in(&self.account_positions, &key, &wanted) >= n {
            return Err(DBRetrieveError::RetrieveAccountPositionNotSyncedError(wanted));
        }
        let at = find_positions_on(&self.account_positions, &key, &wanted, *date);
        if at >= n {
            return Err(DBRetrieveError::RetrieveAccountPositionNotSyncedDayError(wanted, *date));
        }
        assert(self@.account_positions[at as int] == self.account_positions@[at as int]@);
        proof {
            lemma_first_index(
                self@.account_positions,
                StoreView::positions_on(acct_num@, symbol@, *date),
            );
        }
        Ok(&self.account_positions[at].day)
    }

    /// The balance that the account behind an identifier started a date
    /// with: the one handed in with the first reading of that date.
    pub fn get_start_of_day_balance(&self, account_identifier: &str, date: Date) -> (r: Result<
        DBInfoAccountBalance,
        DBRetrieveError,
    >)
        ensures
            balance_answer(r) == self@.start_of_day_balance(account_identifier@, date),
    {
        let account_number = match self.acct_identifier_to_number(account_identifier) {
            Ok(an) => an,
            Err(e) => {
                return Err(e);
            },
        };
        let todays_bal = match self.list_balances_of_date(account_number.as_str(), &date) {
            Ok(tb) => tb,
            Err(e) => {
                return Err(e);
            },
        };
        Ok(*todays_bal.get_start_of_day())
    }

    /// The latest balance reading of the account behind an identifier on
    /// a date.
    pub fn get_latest_balance(&self, account_identifier: &str, date: Date) -> (r: Result<
        DBInfoAccountBalance,
        DBRetrieveError,
    >)
        ensures
            balance_answer(r) == self@.latest_balance(account_identifier@, date),
    {
        let account_number = match self.acct_identifier_to_number(account_identifier) {
            Ok(an) => an,
            Err(e) => {
                return Err(e);
            },
        };
        let todays_bal = match self.list_balances_of_date(account_number.as_str(), &date) {
            Ok(tb) => tb,
            Err(e) => {
                return Err(e);
            },
        };
        Ok(*todays_bal.get_most_recent())
    }

    /// The balance reading of the account behind an identifier on a date
    /// that lies closest to a time of day. The search goes through the
    /// readings of the day from the earliest on and stops at the first
    /// one whose successor lies strictly farther from the time.
    pub fn get_closest_balance(&self, account_identifier: &str, date: Date, time: TimeOfDay) -> (r:
        Result<DBInfoAccountBalance, DBRetrieveError>)
        ensures
            balance_answer(r) == self@.closest_balance(account_identifier@, date, time),
    {
        let account_number = match self.acct_identifier_to_number(account_identifier) {
            Ok(an) => an,
            Err(e) => {
                return Err(e);
            },
        };
        let todays_bal = match self.list_balances_of_date(account_number.as_str(), &date) {
            Ok(tb) => tb,
            Err(e) => {
                return Err(e);
            },
        };
        Ok(*todays_bal.get_closest(time))
    }

    /// The symbols that the account behind an identifier has position
    /// readings of, each once, in the order in which the store first took a
    /// reading of them. An account without any position reading has no
    /// list to give.
    pub fn get_position_symbols(&self, acct_ident: &str) -> (r: Result<
        Vec<String>,
        DBRetrieveError,
    >)
        ensures
            texts_answer(r) == self@.position_symbols(acct_ident@),
    {
        let number = match self.acct_identifier_to_number(acct_ident) {
            Ok(an) => an,
            Err(e) => {
                return Err(e);
            },
        };
        let n = self.account_positions.len();
        if find_positions_of(&self.account_positions, &number) >= n {
            return Err(DBRetrieveError::RetrieveAccountPositionAllNotSyncedError);
        }
        let mut out: Vec<String> = Vec::new();
        let mut i: usize = 0;
        while i < n
            invariant
                n == self.account_positions@.len(),
                self@.account_positions == position_views(self.account_positions@),
                i <= n,
                text_views(out@) == self@.symbols_upto(number@, i as int),
            decreases n - i,
        {
            assert(self@.account_positions[i as int] == self.account_positions@[i as int]@);
            if self.account_positions[i].number == number && !holds_text(
                &out,
                &self.account_positions[i].symbol,
            ) {
                let ghost earlier = text_views(out@);
                out.push(self.account_positions[i].symbol.clone());
                assert(text_views(out@) =~= earlier.push(self@.account_positions[i as int].symbol));
            }
            i += 1;
        }
        Ok(out)
    }

    /// The latest reading of a symbol for the account behind an
    /// identifier on a date. It is a reading of that symbol.
    pub fn get_latest_position(&self, acct_ident: &str, position_symbol: &str, date: Date) -> (r:
        Result<DBInfoAccountPosition, DBRetrieveError>)
        ensures
            position_answer(r) == self@.latest_position(acct_ident@, position_symbol@, date),
            r matches Ok(p) ==> p.symbol@ == position_symbol@,
    {
        let acc_num = match self.acct_identifier_to_number(acct_ident) {
            Ok(an) => an,
            Err(e) => {
                return Err(e);
            },
        };
        let day_list_of_positions = match self.list_positions_of_date(
            acc_num.as_str(),
            position_symbol,
            &date,
        ) {
            Ok(dlop) => dlop,
            Err(e) => {
                return Err(e);
            },
        };
        assert(day_list_of_positions@.readings.last().symbol == position_symbol@);
        match day_list_of_positions.get_most_recent() {
            Some(p) => Ok(p.clone()),
            None => Err(
                DBRetrieveError::RetrieveAccountPositionNotSyncedDayError(
                    String::from_str(position_symbol),
                    date,
                ),
            ),
        }
    }

    /// The reading of a symbol for the account behind an identifier on a
    /// date that lies closest to a time of day, found as for balances. It
    /// is a reading of that symbol.
    pub fn get_closest_position(
        &self,
        acct_ident: &str,
        position_symbol: &str,
        date: Date,
        time: TimeOfDay,
    ) -> (r: Result<DBInfoAccountPosition, DBRetrieveError>)
        ensures
            position_answer(r) == self@.closest_position(
                acct_ident@,
                position_symbol@,
                date,
                time,
            ),
            r matches Ok(p) ==> p.symbol@ == position_symbol@,
    {
        let acc_num = match self.acct_identifier_to_number(acct_ident) {
            Ok(an) => an,
            Err(e) => {
                return Err(e);
            },
        };
        let day_list_of_positions = match self.list_positions_of_date(
            acc_num.as_str(),
            position_symbol,
            &date,
        ) {
            Ok(dlop) => dlop,
            Err(e) => {
                return Err(e);
            },
        };
        proof {
            crate::storage::series::lemma_scan(
                crate::storage::position::position_times(day_list_of_positions@.readings),
                time,
                0,
            );
        }
        match day_list_of_positions.get_closest(time) {
            Some(p) => Ok(p.clone()),
            None => Err(
                DBRetrieveError::RetrieveAccountPositionNotSyncedDayError(
                    String::from_str(position_symbol),
                    date,
                ),
            ),
        }
    }
}

} // verus!
