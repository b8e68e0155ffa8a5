use qtmon::account::{
    Account, AccountBalance, AccountPosition, AccountStatus, AccountType, Amount,
    ClientAccountType, Currency,
};
use qtmon::clock::{Date, DateTime, TimeOfDay};
use qtmon::http_server::{
    date_or_reply, failure_reply, parse_date, parse_time, raw_account_list,
    raw_balance_date_time, raw_balance_latest_date, raw_position_date_time, raw_position_list,
    statusbar_figures, time_or_reply, ErrorReply,
};
use qtmon::myerrors::DBRetrieveError;
use qtmon::storage::balance::DBInfoAccountBalance;
use qtmon::storage::position::DBInfoAccountPosition;
use qtmon::storage::DBInfo;

fn amount(x: f64) -> Amount {
    Amount::from_bits(x.to_bits())
}

fn balance(cash: f64) -> AccountBalance {
    AccountBalance {
        currency: Currency::CAD,
        cash: amount(cash),
        market_value: amount(0.0),
        total_equity: amount(0.0),
        buying_power: amount(0.0),
        maintenance_excess: amount(0.0),
        is_real_time: true,
    }
}

fn position(symbol: &str, quantity: f64) -> AccountPosition {
    AccountPosition {
        symbol: symbol.to_string(),
        symbol_id: 1,
        open_quantity: amount(quantity),
        closed_quantity: amount(0.0),
        current_market_value: amount(0.0),
        current_price: amount(0.0),
        day_profit_and_loss: amount(0.0),
        average_entry_price: amount(0.0),
        closed_profit_and_loss: amount(0.0),
        open_profit_and_loss: amount(0.0),
        total_cost: amount(0.0),
        is_real_time: false,
        is_under_reorg: false,
    }
}

fn day(n: i32) -> Date {
    Date::from_num_days_from_ce(737_745 + n).unwrap()
}

fn hm(h: u32, m: u32) -> TimeOfDay {
    TimeOfDay::new(h * 3600 + m * 60, 0).unwrap()
}

fn at(n: i32, h: u32, m: u32) -> DateTime {
    DateTime { date: day(n), time: hm(h, m) }
}

fn store() -> DBInfo {
    let mut db = DBInfo::default();
    let account = Account {
        account_type: AccountType::Margin,
        number: "123".to_string(),
        status: AccountStatus::Active,
        is_primary: true,
        is_billing: true,
        client_account_type: ClientAccountType::Individual,
    };
    db.insert_account("Primary".to_string(), account).unwrap();
    let n = "123".to_string();
    db.insert_account_balance(at(0, 9, 0), &n, balance(1.0), balance(0.5)).unwrap();
    db.insert_account_balance(at(0, 9, 5), &n, balance(2.0), balance(0.6)).unwrap();
    db.insert_account_position(at(0, 9, 0), &n, position("XYZ", 1.0)).unwrap();
    db.insert_account_position(at(0, 9, 5), &n, position("ABC", 2.0)).unwrap();
    db.insert_account_position(at(0, 9, 9), &n, position("XYZ", 3.0)).unwrap();
    db
}

#[test]
fn statusbar_figures_of_a_day() {
    let db = store();
    let (positions, sod, latest) = statusbar_figures(&db, "Primary", day(0)).unwrap();
    assert_eq!(
        positions,
        vec![
            ("XYZ".to_string(), DBInfoAccountPosition::new(position("XYZ", 3.0), hm(9, 9))),
            ("ABC".to_string(), DBInfoAccountPosition::new(position("ABC", 2.0), hm(9, 5))),
        ]
    );
    assert_eq!(sod, DBInfoAccountBalance::new(balance(0.5), hm(9, 0)));
    assert_eq!(latest, DBInfoAccountBalance::new(balance(2.0), hm(9, 5)));
}

#[test]
fn statusbar_figures_fail_with_the_first_thing_missing() {
    let mut db = store();
    assert_eq!(
        statusbar_figures(&db, "nobody", day(0)),
        Err(DBRetrieveError::RetrieveAccountNoAccountError("nobody".to_string()))
    );
    // no reading of any symbol on the next day: the first symbol decides
    assert_eq!(
        statusbar_figures(&db, "Primary", day(1)),
        Err(DBRetrieveError::RetrieveAccountPositionNotSyncedDayError("XYZ".to_string(), day(1)))
    );
    let n = "123".to_string();
    db.insert_account_position(at(1, 9, 0), &n, position("XYZ", 1.0)).unwrap();
    assert_eq!(
        statusbar_figures(&db, "Primary", day(1)),
        Err(DBRetrieveError::RetrieveAccountPositionNotSyncedDayError("ABC".to_string(), day(1)))
    );
    db.insert_account_position(at(1, 9, 0), &n, position("ABC", 1.0)).unwrap();
    assert_eq!(
        statusbar_figures(&db, "Primary", day(1)),
        Err(DBRetrieveError::RetrieveAccountBalanceNotSyncedDayError(day(1)))
    );
    db.insert_account_balance(at(1, 9, 0), &n, balance(1.0), balance(0.5)).unwrap();
    assert!(statusbar_figures(&db, "Primary", day(1)).is_ok());
    let mut bare = DBInfo::default();
    bare.insert_account("Primary".to_string(), db.get_account_info("123").unwrap()).unwrap();
    assert_eq!(
        statusbar_figures(&bare, "Primary", day(0)),
        Err(DBRetrieveError::RetrieveAccountPositionAllNotSyncedError)
    );
}

#[test]
fn raw_answers_and_their_replies() {
    let db = store();
    assert_eq!(raw_account_list(&db), Ok(vec!["Primary".to_string()]));
    assert_eq!(
        raw_account_list(&DBInfo::default()).unwrap_err().message(),
        "Error getting account list. Error: Could not find accounts! No accounts synced yet."
    );
    assert_eq!(
        raw_position_list(&db, "Primary"),
        Ok(vec!["XYZ".to_string(), "ABC".to_string()])
    );
    assert_eq!(
        raw_balance_latest_date(&db, "123", "2020-11-16".to_string()),
        Ok(DBInfoAccountBalance::new(balance(2.0), hm(9, 5)))
    );
    assert_eq!(
        raw_balance_date_time(&db, "123", "2020-11-16".to_string(), "09:01".to_string()),
        Ok(DBInfoAccountBalance::new(balance(1.0), hm(9, 0)))
    );
    assert_eq!(
        raw_balance_date_time(&db, "123", "2020-11-17".to_string(), "09:01".to_string())
            .unwrap_err()
            .message(),
        "Error getting latest balance. Error: Could not find balance! No balances synced for account date: 2020-11-17."
    );
    assert_eq!(
        raw_balance_date_time(&db, "123", "2020-11-16".to_string(), "9h".to_string())
            .unwrap_err()
            .message(),
        format!(
            "Could not parse date: 9h. Error: {}",
            chrono::NaiveTime::parse_from_str("9h", "%H:%M").unwrap_err()
        )
    );
    assert_eq!(
        raw_position_date_time(&db, "Primary", "XYZ", "2020-11-16".to_string(), "09:08".to_string()),
        Ok(DBInfoAccountPosition::new(position("XYZ", 3.0), hm(9, 9)))
    );
}

#[test]
fn parse_date_reads_year_month_day() {
    let d = parse_date("2020-11-16".to_string()).unwrap();
    assert_eq!(d, Date::from_num_days_from_ce(737_745).unwrap());
    let e = parse_date("1970-01-01".to_string()).unwrap();
    assert_eq!(e.num_days_from_ce(), 719_163);
}

#[test]
fn parse_date_tells_why_not() {
    let r = parse_date("16/11/2020".to_string());
    let expected = chrono::NaiveDate::parse_from_str("16/11/2020", "%Y-%m-%d").unwrap_err();
    assert_eq!(
        r.unwrap_err().message(),
        format!("Could not parse date: 16/11/2020. Error: {}", expected)
    );
    let s = parse_date("2020-02-30".to_string());
    assert_eq!(
        s.unwrap_err().message(),
        "Could not parse date: 2020-02-30. Error: input is out of range"
    );
    assert!(parse_date(String::new()).is_err());
}

#[test]
fn parse_time_reads_hour_and_minute() {
    let t = parse_time("09:07".to_string()).unwrap();
    assert_eq!(t, TimeOfDay::new(9 * 3600 + 7 * 60, 0).unwrap());
    assert_eq!(parse_time("00:00".to_string()).unwrap().num_seconds_from_midnight(), 0);
    assert_eq!(
        parse_time("23:59".to_string()).unwrap().num_seconds_from_midnight(),
        86_340
    );
}

#[test]
fn parse_time_tells_why_not() {
    let r = parse_time("25:00".to_string());
    assert_eq!(
        r.unwrap_err().message(),
        "Could not parse date: 25:00. Error: input is out of range"
    );
    let s = parse_time("nine".to_string());
    let expected = chrono::NaiveTime::parse_from_str("nine", "%H:%M").unwrap_err();
    assert_eq!(
        s.unwrap_err().message(),
        format!("Could not parse date: nine. Error: {}", expected)
    );
}

#[test]
fn date_or_reply_for_each_outcome() {
    let d = Date::from_num_days_from_ce(10).unwrap();
    assert_eq!(date_or_reply("x", Ok(d)), Ok(d));
    assert_eq!(
        date_or_reply("x", Err("bad".to_string())),
        Err(ErrorReply::new("Could not parse date: x. Error: bad".to_string()))
    );
}

#[test]
fn time_or_reply_for_each_outcome() {
    let t = TimeOfDay::new(10, 0).unwrap();
    assert_eq!(time_or_reply("x", Ok(t)), Ok(t));
    assert_eq!(
        time_or_reply("y", Err("worse".to_string())),
        Err(ErrorReply::new("Could not parse date: y. Error: worse".to_string()))
    );
}

#[test]
fn failure_reply_quotes_the_store() {
    let e = DBRetrieveError::RetrieveAccountBalanceNotSyncedError;
    assert_eq!(
        failure_reply("latest balance", &e).message(),
        "Error getting latest balance. Error: Could not find balance! No balances at all synced for account."
    );
}

#[test]
fn error_reply_keeps_its_message() {
    assert_eq!(ErrorReply::new("gone".to_string()).message(), "gone");
}
