//! What the query interface answers: each question put to the store by
//! texts from a request path, and the reply where it cannot be answered.

use crate::account::Account;
use crate::clock::{
    chrono_date_from_text, chrono_parse_date, chrono_parse_time, chrono_time_from_text, Date,
    TimeOfDay,
};
use crate::myerrors::DBRetrieveError;
use crate::storage::balance::DBInfoAccountBalance;
use crate::storage::position::DBInfoAccountPosition;
use crate::storage::DBInfo;
use vstd::prelude::*;
use vstd::string::StringExecFns;

verus! {

/// The reply to a question that could not be answered.
#[derive(Debug, PartialEq, Eq)]
pub struct ErrorReply {
    message: String,
}

impl View for ErrorReply {
    type V = Seq<char>;

    closed spec fn view(&self) -> Seq<char> {
        self.message@
    }
}

impl ErrorReply {
    pub fn new(message: String) -> (r: ErrorReply)
        ensures
            r@ == message@,
    {
        Self { message }
    }

    /// What the reply says.
    pub fn message(&self) -> (r: &str)
        ensures
            r@ == self@,
    {
        self.message.as_str()
    }
}

/// What a reply says of a text that is not a date or a time, given what
/// the parser said of it.
pub open spec fn parse_failure_text(text: Seq<char>, error: Seq<char>) -> Seq<char> {
    "Could not parse date: "@ + text + ". Error: "@ + error
}

/// The date that was read from a text, or the reply that tells why there
/// is none.
pub fn date_or_reply(date_str: &str, parsed: Result<Date, String>) -> (r: Result<Date, ErrorReply>)
    ensures
        match parsed {
            Ok(d) => r == Ok::<Date, ErrorReply>(d),
            Err(e) => r matches Err(reply) && reply@ == parse_failure_text(date_str@, e@),
        },
{
    match parsed {
        Ok(d) => Ok(d),
        Err(e) => {
            let mut message = String::from_str("Could not parse date: ");
            message.append(date_str);
            message.append(". Error: ");
            message.append(e.as_str());
            Err(ErrorReply::new(message))
        },
    }
}

/// The time that was read from a text, or the reply that tells why there
/// is none.
pub fn time_or_reply(time_str: &str, parsed: Result<TimeOfDay, String>) -> (r: Result<
    TimeOfDay,
    ErrorReply,
>)
    ensures
        match parsed {
            Ok(t) => r == Ok::<TimeOfDay, ErrorReply>(t),
            Err(e) => r matches Err(reply) && reply@ == parse_failure_text(time_str@, e@),
        },
{
    match parsed {
        Ok(t) => Ok(t),
        Err(e) => {
            let mut message = String::from_str("Could not parse date: ");
            message.append(time_str);
            message.append(". Error: ");
            message.append(e.as_str());
            Err(ErrorReply::new(message))
        },
    }
}

/// Reads a date written as year, month and day with hyphens between.
pub fn parse_date(date_str: String) -> (r: Result<Date, ErrorReply>)
    ensures
        match chrono_date_from_text(date_str@, "%Y-%m-%d"@) {
            Ok(days) => r == Ok::<Date, ErrorReply>(Date::of_days(days)),
            Err(e) => r matches Err(reply) && reply@ == parse_failure_text(date_str@, e),
        },
{
    let parsed = chrono_parse_date(date_str.as_str(), "%Y-%m-%d");
    proof {
        if let Ok(d) = parsed {
            Date::lemma_of_days(d);
        }
    }
    date_or_reply(date_str.as_str(), parsed)
}

/// Reads a time written as hour and minute with a colon between.
pub fn parse_time(time_str: String) -> (r: Result<TimeOfDay, ErrorReply>)
    ensures
        match chrono_time_from_text(time_str@, "%H:%M"@) {
            Ok(reading) => r == Ok::<TimeOfDay, ErrorReply>(TimeOfDay::at(reading.0, reading.1)),
            Err(e) => r matches Err(reply) && reply@ == parse_failure_text(time_str@, e),
        },
{
    let parsed = chrono_parse_time(time_str.as_str(), "%H:%M");
    proof {
        if let Ok(t) = parsed {
            TimeOfDay::lemma_at(t);
        }
    }
    time_or_reply(time_str.as_str(), parsed)
}

/// What a reply says where the store could not answer: what was asked
/// for, then the store's own words.
pub open spec fn failure_text(asked: Seq<char>, error: Seq<char>) -> Seq<char> {
    "Error getting "@ + asked + ". Error: "@ + error
}

/// The reply for a question that the store could not answer.
pub fn failure_reply(asked: &str, error: &DBRetrieveError) -> (r: ErrorReply)
    ensures
        r@ == failure_text(asked@, error@.message_text()),
{
    let mut message = String::from_str("Error getting ");
    message.append(asked);
    message.append(". Error: ");
    let words = error.message();
    message.append(words.as_str());
    ErrorReply::new(message)
}

/// The names of the accounts.
pub fn raw_account_list(db: &DBInfo) -> (r: Result<Vec<String>, ErrorReply>)
    ensures
        match r {
            Ok(names) => db@.accounts.len() > 0 && crate::storage::text_views(names@)
                == db@.accounts.map_values(|e: crate::storage::model::AccountEntryView| e.name),
            Err(reply) => db@.accounts.len() == 0 && reply@ == failure_text(
                "account list"@,
                crate::myerrors::RetrieveErrorView::RetrieveAccountsNotSyncedError.message_text(),
            ),
        },
{
    match db.get_account_list() {
        Ok(val) => Ok(val),
        Err(e) => Err(failure_reply("account list", &e)),
    }
}

/// The account behind an identifier.
pub fn raw_account_info(db: &DBInfo, a: &str) -> (r: Result<Account, ErrorReply>)
    ensures
        match db@.resolve(a@) {
            Some(number) => r matches Ok(account) && first_index_of_number(db, number)
                < db@.accounts.len() && account@ == db@.accounts[first_index_of_number(
                db,
                number,
            )].account,
            None => r matches Err(reply) && reply@ == failure_text(
                "account info"@,
                crate::myerrors::RetrieveErrorView::RetrieveAccountNoAccountError(
                    a@,
                ).message_text(),
            ),
        },
{
    match db.get_account_info(a) {
        Ok(val) => Ok(val),
        Err(e) => Err(failure_reply("account info", &e)),
    }
}

/// The place of the first account with `number` in the store.
pub open spec fn first_index_of_number(db: &DBInfo, number: Seq<char>) -> int {
    crate::storage::model::first_index(
        db@.accounts,
        crate::storage::model::StoreView::numbered(number),
    )
}

/// The answer to a question about a balance: the balance, or the reply
/// that tells under `asked` why there is none.
pub open spec fn balance_reply(
    answer: Result<DBInfoAccountBalance, crate::myerrors::RetrieveErrorView>,
    asked: Seq<char>,
    r: Result<DBInfoAccountBalance, ErrorReply>,
) -> bool {
    match answer {
        Ok(balance) => r == Ok::<DBInfoAccountBalance, ErrorReply>(balance),
        Err(e) => r matches Err(reply) && reply@ == failure_text(asked, e.message_text()),
    }
}

/// The answer to a question about a position: the position, or the
/// reply that tells under `asked` why there is none.
pub open spec fn position_reply(
    answer: Result<crate::storage::position::PositionView, crate::myerrors::RetrieveErrorView>,
    asked: Seq<char>,
    r: Result<DBInfoAccountPosition, ErrorReply>,
) -> bool {
    match answer {
        Ok(position) => r matches Ok(p) && p@ == position,
        Err(e) => r matches Err(reply) && reply@ == failure_text(asked, e.message_text()),
    }
}

/// The balance that an account started a date with.
pub fn raw_balance_sod(db: &DBInfo, a: &str, date: Date) -> (r: Result<
    DBInfoAccountBalance,
    ErrorReply,
>)
    ensures
        balance_reply(db@.start_of_day_balance(a@, date), "latest balance"@, r),
{
    match db.get_start_of_day_balance(a, date) {
        Ok(val) => Ok(val),
        Err(e) => Err(failure_reply("latest balance", &e)),
    }
}

/// The balance that an account started a date with, the date given as
/// text.
pub fn raw_balance_sod_date(db: &DBInfo, a: &str, b: String) -> (r: Result<
    DBInfoAccountBalance,
    ErrorReply,
>)
    ensures
        match chrono_date_from_text(b@, "%Y-%m-%d"@) {
            Ok(days) => balance_reply(
                db@.start_of_day_balance(a@, Date::of_days(days)),
                    "latest balance"@,
                    r,
                ),
            Err(e) => r matches Err(reply) && reply@ == parse_failure_text(b@, e),
        },
{
    let date = match parse_date(b) {
        Ok(d) => d,
        Err(e) => {
            return Err(e);
        },
    };
    raw_balance_sod(db, a, date)
}

/// The latest balance of an account on a date.
pub fn raw_balance_latest(db: &DBInfo, a: &str, date: Date) -> (r: Result<
    DBInfoAccountBalance,
    ErrorReply,
>)
    ensures
        balance_reply(db@.latest_balance(a@, date), "latest balance"@, r),
{
    match db.get_latest_balance(a, date) {
        Ok(val) => Ok(val),
        Err(e) => Err(failure_reply("latest balance", &e)),
    }
}

/// The latest balance of an account on a date, the date given as text.
pub fn raw_balance_latest_date(db: &DBInfo, a: &str, b: String) -> (r: Result<
    DBInfoAccountBalance,
    ErrorReply,
>)
    ensures
        match chrono_date_from_text(b@, "%Y-%m-%d"@) {
            Ok(days) => balance_reply(
                db@.latest_balance(a@, Date::of_days(days)),
                    "latest balance"@,
                    r,
                ),
            Err(e) => r matches Err(reply) && reply@ == parse_failure_text(b@, e),
        },
{
    let date = match parse_date(b) {
        Ok(d) => d,
        Err(e) => {
            return Err(e);
        },
    };
    raw_balance_latest(db, a, date)
}

/// The balance of an account closest to a time on a date.
pub fn raw_balance_closest(db: &DBInfo, a: &str, date: Date, time: TimeOfDay) -> (r: Result<
    DBInfoAccountBalance,
    ErrorReply,
>)
    ensures
        balance_reply(db@.closest_balance(a@, date, time), "latest balance"@, r),
{
    match db.get_closest_balance(a, date, time) {
        Ok(val) => Ok(val),
        Err(e) => Err(failure_reply("latest balance", &e)),
    }
}

/// The balance of an account closest to a time on a date, both given as
/// text. The date is read first.
pub fn raw_balance_date_time(db: &DBInfo, a: &str, b: String, c: String) -> (r: Result<
    DBInfoAccountBalance,
    ErrorReply,
>)
    ensures
        match chrono_date_from_text(b@, "%Y-%m-%d"@) {
            Ok(days) => match chrono_time_from_text(c@, "%H:%M"@) {
                Ok(reading) => balance_reply(
                    db@.closest_balance(a@, Date::of_days(days), TimeOfDay::at(reading.0, reading.1)),
                        "latest balance"@,
                        r,
                    ),
                Err(e) => r matches Err(reply) && reply@ == parse_failure_text(c@, e),
            },
            Err(e) => r matches Err(reply) && reply@ == parse_failure_text(b@, e),
        },
{
    let date = match parse_date(b) {
        Ok(d) => d,
        Err(e) => {
            return Err(e);
        },
    };
    let time = match parse_time(c) {
        Ok(t) => t,
        Err(e) => {
            return Err(e);
        },
    };
    raw_balance_closest(db, a, date, time)
}

/// The symbols that an account has positions in.
pub fn raw_position_list(db: &DBInfo, a: &str) -> (r: Result<Vec<String>, ErrorReply>)
    ensures
        match db@.position_symbols(a@) {
            Ok(symbols) => r matches Ok(found) && crate::storage::text_views(found@) == symbols,
            Err(e) => r matches Err(reply) && reply@ == failure_text(
                "position list"@,
                e.message_text(),
            ),
        },
{
    match db.get_position_symbols(a) {
        Ok(val) => Ok(val),
        Err(e) => Err(failure_reply("position list", &e)),
    }
}

/// The latest position of an account in a symbol on a date.
pub fn raw_position_latest(db: &DBInfo, a: &str, b: &str, date: Date) -> (r: Result<
    DBInfoAccountPosition,
    ErrorReply,
>)
    ensures
        position_reply(db@.latest_position(a@, b@, date), "position list"@, r),
{
    match db.get_latest_position(a, b, date) {
        Ok(val) => Ok(val),
        Err(e) => Err(failure_reply("position list", &e)),
    }
}

/// The latest position of an account in a symbol on a date, the date
/// given as text.
pub fn raw_position_date_latest(db: &DBInfo, a: &str, b: &str, c: String) -> (r: Result<
    DBInfoAccountPosition,
    ErrorReply,
>)
    ensures
        match chrono_date_from_text(c@, "%Y-%m-%d"@) {
            Ok(days) => position_reply(
                db@.latest_position(a@, b@, Date::of_days(days)),
                    "position list"@,
                    r,
                ),
            Err(e) => r matches Err(reply) && reply@ == parse_failure_text(c@, e),
        },
{
    let date = match parse_date(c) {
        Ok(d) => d,
        Err(e) => {
            return Err(e);
        },
    };
    raw_position_latest(db, a, b, date)
}

/// The position of an account in a symbol closest to a time on a date.
pub fn raw_position_closest(db: &DBInfo, a: &str, b: &str, date: Date, time: TimeOfDay) -> (r:
    Result<DBInfoAccountPosition, ErrorReply>)
    ensures
        position_reply(db@.closest_position(a@, b@, date, time), "position list"@, r),
{
    match db.get_closest_position(a, b, date, time) {
        Ok(val) => Ok(val),
        Err(e) => Err(failure_reply("position list", &e)),
    }
}

/// The position of an account in a symbol closest to a time on a date,
/// both given as text. The date is read first.
pub fn raw_position_date_time(db: &DBInfo, a: &str, b: &str, c: String, d: String) -> (r: Result<
    DBInfoAccountPosition,
    ErrorReply,
>)
    ensures
        match chrono_date_from_text(c@, "%Y-%m-%d"@) {
            Ok(days) => match chrono_time_from_text(d@, "%H:%M"@) {
                Ok(reading) => position_reply(
                    db@.closest_position(a@, b@, Date::of_days(days), TimeOfDay::at(reading.0, reading.1)),
                        "position list"@,
                        r,
                    ),
                Err(e) => r matches Err(reply) && reply@ == parse_failure_text(d@, e),
            },
            Err(e) => r matches Err(reply) && reply@ == parse_failure_text(c@, e),
        },
{
    let date = match parse_date(c) {
        Ok(d) => d,
        Err(e) => {
            return Err(e);
        },
    };
    let time = match parse_time(d) {
        Ok(t) => t,
        Err(e) => {
            return Err(e);
        },
    };
    raw_position_closest(db, a, b, date, time)
}

/// The positions with their symbols as mathematical values.
pub open spec fn named_positions(found: Seq<(String, DBInfoAccountPosition)>) -> Seq<
    (Seq<char>, crate::storage::position::PositionView),
> {
    found.map_values(|x: (String, DBInfoAccountPosition)| (x.0@, x.1@))
}

/// The readings in front of what is still to come, or the failure that is
/// still to come.
pub open spec fn with_front(
    front: Seq<(Seq<char>, crate::storage::position::PositionView)>,
    rest: Result<
        Seq<(Seq<char>, crate::storage::position::PositionView)>,
        crate::myerrors::RetrieveErrorView,
    >,
) -> Result<
    Seq<(Seq<char>, crate::storage::position::PositionView)>,
    crate::myerrors::RetrieveErrorView,
> {
    match rest {
        Ok(readings) => Ok(front + readings),
        Err(e) => Err(e),
    }
}

/// The latest reading on `day` of each symbol from place `from` on, each
/// with its symbol, or the failure of the first symbol that has no reading
/// on that day.
pub open spec fn latest_positions_from(
    store: crate::storage::model::StoreView,
    a: Seq<char>,
    symbols: Seq<Seq<char>>,
    day: Date,
    from: int,
) -> Result<
    Seq<(Seq<char>, crate::storage::position::PositionView)>,
    crate::myerrors::RetrieveErrorView,
>
    decreases symbols.len() - from,
{
    if from < 0 || from >= symbols.len() {
        Ok(Seq::empty())
    } else {
        match store.latest_position(a, symbols[from], day) {
            Err(e) => Err(e),
            Ok(reading) => with_front(
                seq![(symbols[from], reading)],
                latest_positions_from(store, a, symbols, day, from + 1),
            ),
        }
    }
}

/// What a status bar is filled in from: the latest reading on `day` of
/// every symbol of the account, then the balance that the account started
/// the day with and its latest balance. The first of these that the store
/// cannot give decides the failure.
pub open spec fn figures_of(store: crate::storage::model::StoreView, a: Seq<char>, day: Date)
    -> Result<
    (
        Seq<(Seq<char>, crate::storage::position::PositionView)>,
        DBInfoAccountBalance,
        DBInfoAccountBalance,
    ),
    crate::myerrors::RetrieveErrorView,
> {
    match store.position_symbols(a) {
        Err(e) => Err(e),
        Ok(symbols) => match latest_positions_from(store, a, symbols, day, 0) {
            Err(e) => Err(e),
            Ok(positions) => match store.start_of_day_balance(a, day) {
                Err(e) => Err(e),
                Ok(sod_balance) => match store.latest_balance(a, day) {
                    Err(e) => Err(e),
                    Ok(latest_balance) => Ok((positions, sod_balance, latest_balance)),
                },
            },
        },
    }
}

/// The outcome of gathering the figures for a status bar, with its texts
/// as sequences of characters.
pub open spec fn figures_answer(
    r: Result<
        (Vec<(String, DBInfoAccountPosition)>, DBInfoAccountBalance, DBInfoAccountBalance),
        DBRetrieveError,
    >,
) -> Result<
    (
        Seq<(Seq<char>, crate::storage::position::PositionView)>,
        DBInfoAccountBalance,
        DBInfoAccountBalance,
    ),
    crate::myerrors::RetrieveErrorView,
> {
    match r {
        Ok(figures) => Ok((named_positions(figures.0@), figures.1, figures.2)),
        Err(e) => Err(e@),
    }
}

/// Gathers what a status bar for an account is filled in from: the latest
/// reading on `day` of every symbol of the account, in the order of the
/// account's symbols, then the balance that the account started the day
/// with and its latest balance.
pub fn statusbar_figures(db: &DBInfo, a: &str, day: Date) -> (r: Result<
    (Vec<(String, DBInfoAccountPosition)>, DBInfoAccountBalance, DBInfoAccountBalance),
    DBRetrieveError,
>)
    ensures
        figures_answer(r) == figures_of(db@, a@, day),
{
    let symbols = match db.get_position_symbols(a) {
        Ok(symbols) => symbols,
        Err(e) => {
            return Err(e);
        },
    };
    let ghost names = crate::storage::text_views(symbols@);
    let n = symbols.len();
    let mut positions: Vec<(String, DBInfoAccountPosition)> = Vec::new();
    let mut i: usize = 0;
    assert(named_positions(positions@) + Seq::empty() =~= named_positions(positions@));
    while i < n
        invariant
            n == symbols@.len(),
            names == crate::storage::text_views(symbols@),
            db@.position_symbols(a@) == Ok::<Seq<Seq<char>>, crate::myerrors::RetrieveErrorView>(
                names,
            ),
            i <= n,
            latest_positions_from(db@, a@, names, day, 0) == with_front(
                named_positions(positions@),
                latest_positions_from(db@, a@, names, day, i as int),
            ),
        decreases n - i,
    {
        assert(names[i as int] == symbols@[i as int]@);
        let reading = match db.get_latest_position(a, symbols[i].as_str(), day) {
            Ok(reading) => reading,
            Err(e) => {
                return Err(e);
            },
        };
        let ghost front = named_positions(positions@);
        let ghost next = (names[i as int], reading@);
        let ghost rest = latest_positions_from(db@, a@, names, day, i as int + 1);
        positions.push((symbols[i].clone(), reading));
        proof {
            assert(named_positions(positions@) =~= front.push(next));
            if let Ok(readings) = rest {
                assert(front + (seq![next] + readings) =~= front.push(next) + readings);
            }
        }
        i += 1;
    }
    assert(named_positions(positions@) + Seq::empty() =~= named_positions(positions@));
    let sod_balance = match db.get_start_of_day_balance(a, day) {
        Ok(balance) => balance,
        Err(e) => {
            return Err(e);
        },
    };
    let latest_balance = match db.get_latest_balance(a, day) {
        Ok(balance) => balance,
        Err(e) => {
            return Err(e);
        },
    };
    Ok((positions, sod_balance, latest_balance))
}

} // verus!
