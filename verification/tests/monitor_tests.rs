use qtmon::account::{
    Account, AccountBalance, AccountPosition, AccountStatus, AccountType, Amount,
    ClientAccountType, Currency,
};
use qtmon::clock::{Date, DateTime, TimeOfDay};
use qtmon::config::{AccountSelector, AccountToSync};
use qtmon::monitor::{
    account_name, checked_cycle_deadline, cycle_deadline, recovery_for, renew_auth,
    select_balance, sync_account_balances, sync_account_positions, sync_accounts, Action,
    AfterRenewal, ApiFailure, Engine, Event, Outcome, Phase, Recovery,
};
use qtmon::myerrors::{DBInsertError, DBRetrieveError};
use qtmon::storage::balance::DBInfoAccountBalance;
use qtmon::storage::position::DBInfoAccountPosition;
use qtmon::storage::DBInfo;

fn amount(x: f64) -> Amount {
    Amount::from_bits(x.to_bits())
}

fn account(number: &str, primary: bool) -> Account {
    Account {
        account_type: AccountType::Margin,
        number: number.to_string(),
        status: AccountStatus::Active,
        is_primary: primary,
        is_billing: false,
        client_account_type: ClientAccountType::Individual,
    }
}

fn balance(currency: Currency, cash: f64) -> AccountBalance {
    AccountBalance {
        currency,
        cash: amount(cash),
        market_value: amount(0.0),
        total_equity: amount(0.0),
        buying_power: amount(0.0),
        maintenance_excess: amount(0.0),
        is_real_time: true,
    }
}

fn position(symbol: &str, quantity: f64) -> AccountPosition {
    AccountPosition {
        symbol: symbol.to_string(),
        symbol_id: 1,
        open_quantity: amount(quantity),
        closed_quantity: amount(0.0),
        current_market_value: amount(0.0),
        current_price: amount(0.0),
        day_profit_and_loss: amount(0.0),
        average_entry_price: amount(0.0),
        closed_profit_and_loss: amount(0.0),
        open_profit_and_loss: amount(0.0),
        total_cost: amount(0.0),
        is_real_time: false,
        is_under_reorg: false,
    }
}

fn today() -> Date {
    Date::from_num_days_from_ce(737_745).unwrap()
}

fn at(h: u32, m: u32) -> DateTime {
    DateTime { date: today(), time: TimeOfDay::new(h * 3600 + m * 60, 0).unwrap() }
}

fn rules() -> Vec<AccountToSync> {
    vec![
        AccountToSync("Primary".to_string(), vec![AccountSelector::IsPrimary(true)]),
        AccountToSync(String::new(), vec![AccountSelector::Number("456".to_string())]),
    ]
}

#[test]
fn a_whole_cycle() {
    let mut e = Engine::new(300);
    assert_eq!(e.phase, Phase::Idle);
    assert_eq!(e.begin_cycle(1_000), Action::Discover(301_000));
    assert_eq!(e.phase, Phase::Discovering);
    assert_eq!(
        e.step(Event::DiscoveryEnded(Outcome::Done)),
        Action::SyncBalancesAndPositions(301_000)
    );
    assert_eq!(e.phase, Phase::SyncingBalancesAndPositions);
    assert_eq!(e.step(Event::SyncEnded(Outcome::Done, Outcome::Done)), Action::Persist);
    assert_eq!(e.phase, Phase::Persisting);
    assert_eq!(e.step(Event::Persisted), Action::SleepUntil(301_000));
    assert_eq!(e.phase, Phase::Sleeping);
    assert_eq!(e.step(Event::DeadlineReached), Action::BeginCycle);
    assert_eq!(e.phase, Phase::Idle);
    assert_eq!(e.begin_cycle(301_000), Action::Discover(601_000));
}

#[test]
fn failed_work_does_not_hold_the_cycle_up() {
    for discovery in vec![Outcome::Done, Outcome::Failed, Outcome::TimedOut] {
        for balances in vec![Outcome::Done, Outcome::Failed, Outcome::TimedOut] {
            for positions in vec![Outcome::Done, Outcome::Failed, Outcome::TimedOut] {
                let mut e = Engine::new(5);
                e.begin_cycle(0);
                assert_eq!(
                    e.step(Event::DiscoveryEnded(discovery)),
                    Action::SyncBalancesAndPositions(5_000)
                );
                assert_eq!(e.step(Event::SyncEnded(balances, positions)), Action::Persist);
                assert_eq!(e.step(Event::Persisted), Action::SleepUntil(5_000));
            }
        }
    }
}

#[test]
fn a_store_that_cannot_be_written_stops_the_engine() {
    let mut e = Engine::new(5);
    e.begin_cycle(0);
    e.step(Event::DiscoveryEnded(Outcome::Done));
    e.step(Event::SyncEnded(Outcome::Done, Outcome::Done));
    assert_eq!(e.step(Event::PersistFailed), Action::Stop);
    assert_eq!(e.phase, Phase::Stopped);
    assert_eq!(e.step(Event::DeadlineReached), Action::Ignore);
    assert_eq!(e.begin_cycle(10), Action::Ignore);
    assert_eq!(e.phase, Phase::Stopped);
}

#[test]
fn events_out_of_turn_are_ignored() {
    let mut e = Engine::new(5);
    assert_eq!(e.step(Event::Persisted), Action::Ignore);
    assert_eq!(e.phase, Phase::Idle);
    e.begin_cycle(7);
    assert_eq!(e.begin_cycle(9), Action::Ignore);
    assert_eq!(e.deadline, 5_007);
    assert_eq!(e.step(Event::SyncEnded(Outcome::Done, Outcome::Done)), Action::Ignore);
    assert_eq!(e.step(Event::PersistFailed), Action::Ignore);
    assert_eq!(e.phase, Phase::Discovering);
}

#[test]
fn deadline_is_now_plus_delay() {
    assert_eq!(cycle_deadline(1_000, 300), 301_000);
    assert_eq!(cycle_deadline(0, 0), 0);
    assert_eq!(checked_cycle_deadline(1_000, 300), Some(301_000));
    assert_eq!(checked_cycle_deadline(u64::MAX, 0), Some(u64::MAX));
    assert_eq!(checked_cycle_deadline(u64::MAX, 1), None);
    assert_eq!(checked_cycle_deadline(0, u64::MAX / 1000), Some(u64::MAX / 1000 * 1000));
    assert_eq!(checked_cycle_deadline(0, u64::MAX / 1000 + 1), None);
    assert_eq!(checked_cycle_deadline(u64::MAX % 1000, u64::MAX / 1000), Some(u64::MAX));
    assert_eq!(checked_cycle_deadline(u64::MAX % 1000 + 1, u64::MAX / 1000), None);
}

#[test]
fn credentials_are_renewed_once() {
    assert_eq!(recovery_for(ApiFailure::NotAuthenticated, false), Recovery::RenewThenRetry);
    assert_eq!(recovery_for(ApiFailure::NotAuthenticated, true), Recovery::GiveUp);
    assert_eq!(recovery_for(ApiFailure::Other, false), Recovery::GiveUp);
    assert_eq!(recovery_for(ApiFailure::Other, true), Recovery::GiveUp);
}

#[test]
fn after_a_renewal() {
    assert_eq!(renew_auth(true), AfterRenewal::SaveThenCall);
    assert_eq!(renew_auth(false), AfterRenewal::FailOperation);
}

#[test]
fn account_name_from_the_first_rule_met() {
    assert_eq!(account_name(&rules(), &account("123", true)), Some("Primary".to_string()));
    assert_eq!(account_name(&rules(), &account("456", false)), Some("456".to_string()));
    assert_eq!(account_name(&rules(), &account("456", true)), Some("Primary".to_string()));
    assert_eq!(account_name(&rules(), &account("789", false)), None);
    assert_eq!(account_name(&vec![], &account("123", true)), None);
}

#[test]
fn sync_accounts_merges_what_meets_a_rule() {
    let mut db = DBInfo::default();
    let fetched = vec![account("789", false), account("123", true), account("456", false)];
    assert_eq!(sync_accounts(&mut db, &rules(), &fetched), Ok(()));
    assert_eq!(
        db.get_account_list(),
        Ok(vec!["Primary".to_string(), "456".to_string()])
    );
    assert_eq!(db.acct_identifier_to_number("Primary"), Ok("123".to_string()));
    // the same list again changes nothing
    assert_eq!(sync_accounts(&mut db, &rules(), &fetched), Ok(()));
    assert_eq!(
        db.get_account_list(),
        Ok(vec!["Primary".to_string(), "456".to_string()])
    );
}

#[test]
fn sync_accounts_keeps_a_number_under_one_name() {
    let mut db = DBInfo::default();
    let rules = vec![
        AccountToSync("Primary".to_string(), vec![AccountSelector::IsPrimary(true)]),
        AccountToSync("Other".to_string(), vec![AccountSelector::IsPrimary(false)]),
    ];
    assert_eq!(sync_accounts(&mut db, &rules, &vec![account("123", true)]), Ok(()));
    // the account is no longer primary: it would come under another name
    assert_eq!(
        sync_accounts(&mut db, &rules, &vec![account("123", false)]),
        Err(DBInsertError::InsertAccountDuplicateInfoError)
    );
    assert_eq!(db.get_account_list(), Ok(vec!["Primary".to_string()]));
    assert_eq!(db.get_account_info("123"), Ok(account("123", true)));
}

#[test]
fn sync_accounts_stops_at_the_first_refusal() {
    let mut db = DBInfo::default();
    let fetched = vec![account("123", true), account("999", true), account("456", false)];
    assert_eq!(
        sync_accounts(&mut db, &rules(), &fetched),
        Err(DBInsertError::InsertAccountDuplicateNameError)
    );
    assert_eq!(db.get_account_list(), Ok(vec!["Primary".to_string()]));
}

#[test]
fn select_balance_takes_the_currency_or_falls_back() {
    let list = vec![balance(Currency::CAD, 1.0), balance(Currency::USD, 2.0)];
    let other = balance(Currency::CAD, 9.0);
    assert_eq!(select_balance(&list, Currency::USD, other), balance(Currency::USD, 2.0));
    assert_eq!(select_balance(&list, Currency::CAD, other), balance(Currency::CAD, 1.0));
    let only_cad = vec![balance(Currency::CAD, 1.0)];
    assert_eq!(select_balance(&only_cad, Currency::USD, other), other);
    assert_eq!(select_balance(&vec![], Currency::USD, other), other);
    let twice = vec![balance(Currency::USD, 1.0), balance(Currency::USD, 2.0)];
    assert_eq!(select_balance(&twice, Currency::USD, other), balance(Currency::USD, 1.0));
}

#[test]
fn sync_account_balances_takes_the_wanted_currency() {
    let mut db = DBInfo::default();
    db.insert_account("Primary".to_string(), account("123", true)).unwrap();
    let per = vec![balance(Currency::CAD, 1.0), balance(Currency::USD, 2.0)];
    let sod = vec![balance(Currency::CAD, 3.0), balance(Currency::USD, 4.0)];
    let r = sync_account_balances(&mut db, at(9, 0), &"123".to_string(), &per, &sod, Currency::USD);
    assert_eq!(r, Ok(()));
    assert_eq!(
        db.get_latest_balance("Primary", today()),
        Ok(DBInfoAccountBalance::new(balance(Currency::USD, 2.0), at(9, 0).time))
    );
    assert_eq!(
        db.get_start_of_day_balance("Primary", today()),
        Ok(DBInfoAccountBalance::new(balance(Currency::USD, 4.0), at(9, 0).time))
    );
}

#[test]
fn sync_account_balances_falls_back_on_the_first_reported() {
    let mut db = DBInfo::default();
    db.insert_account("Primary".to_string(), account("123", true)).unwrap();
    let per = vec![balance(Currency::CAD, 1.0)];
    let sod = vec![balance(Currency::CAD, 3.0)];
    let r = sync_account_balances(&mut db, at(9, 0), &"123".to_string(), &per, &sod, Currency::USD);
    assert_eq!(r, Ok(()));
    assert_eq!(
        db.get_latest_balance("Primary", today()),
        Ok(DBInfoAccountBalance::new(balance(Currency::CAD, 1.0), at(9, 0).time))
    );
    assert_eq!(
        db.get_start_of_day_balance("Primary", today()),
        Ok(DBInfoAccountBalance::new(balance(Currency::CAD, 3.0), at(9, 0).time))
    );
}

#[test]
fn each_list_falls_back_on_its_own_first_balance() {
    let mut db = DBInfo::default();
    db.insert_account("Primary".to_string(), account("123", true)).unwrap();
    let per = vec![balance(Currency::USD, 1.0), balance(Currency::USD, 2.0)];
    let sod = vec![balance(Currency::USD, 3.0), balance(Currency::CAD, 4.0)];
    let r = sync_account_balances(&mut db, at(9, 0), &"123".to_string(), &per, &sod, Currency::CAD);
    assert_eq!(r, Ok(()));
    assert_eq!(
        db.get_latest_balance("Primary", today()),
        Ok(DBInfoAccountBalance::new(balance(Currency::USD, 1.0), at(9, 0).time))
    );
    assert_eq!(
        db.get_start_of_day_balance("Primary", today()),
        Ok(DBInfoAccountBalance::new(balance(Currency::CAD, 4.0), at(9, 0).time))
    );
}

#[test]
fn without_a_start_of_day_balance_the_first_current_one_stands_in() {
    let mut db = DBInfo::default();
    db.insert_account("Primary".to_string(), account("123", true)).unwrap();
    let per = vec![balance(Currency::CAD, 1.0), balance(Currency::USD, 2.0)];
    let r = sync_account_balances(
        &mut db,
        at(9, 0),
        &"123".to_string(),
        &per,
        &vec![],
        Currency::USD,
    );
    assert_eq!(r, Ok(()));
    assert_eq!(
        db.get_latest_balance("Primary", today()),
        Ok(DBInfoAccountBalance::new(balance(Currency::USD, 2.0), at(9, 0).time))
    );
    assert_eq!(
        db.get_start_of_day_balance("Primary", today()),
        Ok(DBInfoAccountBalance::new(balance(Currency::CAD, 1.0), at(9, 0).time))
    );
}

#[test]
fn sync_account_balances_for_an_unknown_account() {
    let mut db = DBInfo::default();
    let per = vec![balance(Currency::CAD, 1.0)];
    assert_eq!(
        sync_account_balances(&mut db, at(9, 0), &"123".to_string(), &per, &per, Currency::CAD),
        Err(DBInsertError::InsertAccountBalanceNoAccountError)
    );
    assert_eq!(db, DBInfo::default());
}

#[test]
fn sync_account_positions_takes_all_in() {
    let mut db = DBInfo::default();
    db.insert_account("Primary".to_string(), account("123", true)).unwrap();
    let list = vec![position("XYZ", 1.0), position("ABC", 2.0)];
    assert_eq!(sync_account_positions(&mut db, at(9, 0), &"123".to_string(), &list), Ok(()));
    assert_eq!(
        db.get_latest_position("Primary", "ABC", today()),
        Ok(DBInfoAccountPosition::new(position("ABC", 2.0), at(9, 0).time))
    );
    assert_eq!(
        db.get_latest_position("Primary", "XYZ", today()),
        Ok(DBInfoAccountPosition::new(position("XYZ", 1.0), at(9, 0).time))
    );
    assert_eq!(
        sync_account_positions(&mut db, at(9, 0), &"123".to_string(), &vec![]),
        Ok(())
    );
}

#[test]
fn sync_account_positions_stops_at_the_first_refusal() {
    let mut db = DBInfo::default();
    db.insert_account("Primary".to_string(), account("123", true)).unwrap();
    let list = vec![position("XYZ", 1.0), position("XYZ", 1.0), position("ABC", 2.0)];
    assert_eq!(
        sync_account_positions(&mut db, at(9, 0), &"123".to_string(), &list),
        Err(DBInsertError::InsertAccountPositionDuplicateError)
    );
    assert_eq!(db.get_position_symbols("Primary"), Ok(vec!["XYZ".to_string()]));
}

#[test]
fn positions_are_committed_when_balances_time_out() {
    let mut db = DBInfo::default();
    db.insert_account("Primary".to_string(), account("123", true)).unwrap();
    let per = vec![balance(Currency::CAD, 1.0)];
    sync_account_balances(&mut db, at(9, 0), &"123".to_string(), &per, &per, Currency::CAD)
        .unwrap();
    let balance_before = db.get_latest_balance("Primary", today());
    let anchor_before = db.get_start_of_day_balance("Primary", today());

    // next cycle: the balance fetch runs out of time, the positions arrive
    let mut e = Engine::new(300);
    e.begin_cycle(0);
    e.step(Event::DiscoveryEnded(Outcome::Done));
    let list = vec![position("XYZ", 1.0)];
    assert_eq!(sync_account_positions(&mut db, at(9, 5), &"123".to_string(), &list), Ok(()));
    assert_eq!(e.step(Event::SyncEnded(Outcome::TimedOut, Outcome::Done)), Action::Persist);

    assert_eq!(
        db.get_latest_position("Primary", "XYZ", today()),
        Ok(DBInfoAccountPosition::new(position("XYZ", 1.0), at(9, 5).time))
    );
    assert_eq!(db.get_latest_balance("Primary", today()), balance_before);
    assert_eq!(db.get_start_of_day_balance("Primary", today()), anchor_before);
    assert_eq!(
        db.get_latest_balance("Primary", Date::from_num_days_from_ce(737_746).unwrap()),
        Err(DBRetrieveError::RetrieveAccountBalanceNotSyncedDayError(
            Date::from_num_days_from_ce(737_746).unwrap()
        ))
    );
}
