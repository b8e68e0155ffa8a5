//! The engine that keeps the store in step with the broker: the order of
//! its work within a cycle, what it does when the broker refuses a call,
//! and how it merges what the broker sent into the store.

use crate::account::{Account, AccountBalance, AccountPosition, AccountView, Currency};
use crate::clock::DateTime;
use crate::config::AccountToSync;
use crate::myerrors::DBInsertError;
use crate::storage::balance::DBInfoAccountBalance;
use crate::storage::model::{first_index, first_index_from, StoreView};
use crate::storage::position::PositionView;
use crate::storage::DBInfo;
use vstd::prelude::*;

verus! {

/// Where the engine stands within a cycle.
#[derive(Clone, Copy, Debug, PartialEq, Eq, Structural, Hash)]
pub enum Phase {
    /// Between cycles.
    Idle,
    /// Asking the broker for the accounts.
    Discovering,
    /// Asking the broker for balances and positions, side by side.
    SyncingBalancesAndPositions,
    /// Writing the store out.
    Persisting,
    /// Waiting for the end of the cycle.
    Sleeping,
    /// Given up after the store could not be written out.
    Stopped,
}

/// How a piece of work ended.
#[derive(Clone, Copy, Debug, PartialEq, Eq, Structural, Hash)]
pub enum Outcome {
    Done,
    Failed,
    TimedOut,
}

/// What happened outside the engine.
#[derive(Clone, Copy, Debug, PartialEq, Eq, Structural, Hash)]
pub enum Event {
    /// The account list was merged, or could not be had.
    DiscoveryEnded(Outcome),
    /// The balances and, independently, the positions were merged, or could
    /// not be had.
    SyncEnded(Outcome, Outcome),
    /// The store was written out.
    Persisted,
    /// The store could not be written out.
    PersistFailed,
    /// The end of the cycle has come.
    DeadlineReached,
}

/// What the engine asks to be done next.
#[derive(Clone, Copy, Debug, PartialEq, Eq, Structural, Hash)]
pub enum Action {
    /// Fetch the accounts and merge them, until the deadline at the latest.
    Discover(u64),
    /// Fetch and merge balances and positions side by side, each until the
    /// deadline at the latest.
    SyncBalancesAndPositions(u64),
    /// Write the store out, however long it takes.
    Persist,
    /// Wait for the deadline.
    SleepUntil(u64),
    /// Start the next cycle.
    BeginCycle,
    /// End the program with an error.
    Stop,
    /// Nothing: the event does not belong to the phase.
    Ignore,
}

/// Milliseconds in a second.
pub const MILLIS_PER_SEC: u64 = 1000;

/// The deadline of a cycle that starts at `now`, both in milliseconds on
/// the engine's clock: the configured delay, in seconds, later.
pub fn cycle_deadline(now: u64, delay: u64) -> (r: u64)
    requires
        now + delay * 1000 <= u64::MAX,
    ensures
        r == now + delay * 1000,
{
    now + delay * MILLIS_PER_SEC
}

/// The deadline of a cycle that starts at `now`, or `None` where the
/// engine's clock cannot hold it.
pub fn checked_cycle_deadline(now: u64, delay: u64) -> (r: Option<u64>)
    ensures
        match r {
            Some(deadline) => deadline == now + delay * 1000,
            None => now + delay * 1000 > u64::MAX,
        },
{
    if delay > (u64::MAX - now) / MILLIS_PER_SEC {
        assert(delay * 1000 > u64::MAX - now) by (nonlinear_arith)
            requires
                delay > (u64::MAX - now) / 1000,
        ;
        None
    } else {
        assert(delay * 1000 <= u64::MAX - now) by (nonlinear_arith)
            requires
                delay <= (u64::MAX - now) / 1000,
        ;
        Some(cycle_deadline(now, delay))
    }
}

/// The phase after an event, and what is to be done next. Work that
/// failed or ran out of time never holds the cycle up; only a store that
/// could not be written out ends it.
pub open spec fn next_step(phase: Phase, deadline: u64, event: Event) -> (Phase, Action) {
    match (phase, event) {
        (Phase::Discovering, Event::DiscoveryEnded(_)) => (
            Phase::SyncingBalancesAndPositions,
            Action::SyncBalancesAndPositions(deadline),
        ),
        (Phase::SyncingBalancesAndPositions, Event::SyncEnded(_, _)) => (
            Phase::Persisting,
            Action::Persist,
        ),
        (Phase::Persisting, Event::Persisted) => (Phase::Sleeping, Action::SleepUntil(deadline)),
        (Phase::Persisting, Event::PersistFailed) => (Phase::Stopped, Action::Stop),
        (Phase::Sleeping, Event::DeadlineReached) => (Phase::Idle, Action::BeginCycle),
        _ => (phase, Action::Ignore),
    }
}

/// The engine's place in its cycle.
#[derive(Clone, Copy, Debug, PartialEq, Eq, Structural, Hash)]
pub struct Engine {
    pub phase: Phase,
    /// The end of the running cycle, in milliseconds on the engine's
    /// clock.
    pub deadline: u64,
    /// Seconds from the start of a cycle to its end.
    pub delay: u64,
}

impl Engine {
    /// An engine between cycles.
    pub fn new(delay: u64) -> (r: Engine)
        ensures
            r == (Engine { phase: Phase::Idle, deadline: 0, delay }),
    {
        Engine { phase: Phase::Idle, deadline: 0, delay }
    }

    /// Starts a cycle at `now`, in milliseconds on the engine's clock, and
    /// sets its deadline. An engine that is not between cycles stays as it
    /// is.
    pub fn begin_cycle(&mut self, now: u64) -> (r: Action)
        requires
            now + old(self).delay * 1000 <= u64::MAX,
        ensures
            final(self).delay == old(self).delay,
            old(self).phase == Phase::Idle ==> final(self).phase == Phase::Discovering
                && final(self).deadline == now + old(self).delay * 1000
                && r == Action::Discover(final(self).deadline),
            old(self).phase != Phase::Idle ==> *final(self) == *old(self) && r == Action::Ignore,
    {
        match self.phase {
            Phase::Idle => {
                self.deadline = cycle_deadline(now, self.delay);
                self.phase = Phase::Discovering;
                Action::Discover(self.deadline)
            },
            _ => Action::Ignore,
        }
    }

    /// Takes an event in and says what is to be done next.
    pub fn step(&mut self, event: Event) -> (r: Action)
        ensures
            final(self).delay == old(self).delay,
            final(self).deadline == old(self).deadline,
            (final(self).phase, r) == next_step(old(self).phase, old(self).deadline, event),
    {
        let (phase, action) = match (self.phase, event) {
            (Phase::Discovering, Event::DiscoveryEnded(_)) => (
                Phase::SyncingBalancesAndPositions,
                Action::SyncBalancesAndPositions(self.deadline),
            ),
            (Phase::SyncingBalancesAndPositions, Event::SyncEnded(_, _)) => (
                Phase::Persisting,
                Action::Persist,
            ),
            (Phase::Persisting, Event::Persisted) => (
                Phase::Sleeping,
                Action::SleepUntil(self.deadline),
            ),
            (Phase::Persisting, Event::PersistFailed) => (Phase::Stopped, Action::Stop),
            (Phase::Sleeping, Event::DeadlineReached) => (Phase::Idle, Action::BeginCycle),
            _ => (self.phase, Action::Ignore),
        };
        self.phase = phase;
        action
    }
}

/// Through a whole cycle in which every piece of work ends somehow and
/// the store is written out, the engine comes back to where it started,
/// whatever failed or ran out of time on the way.
pub proof fn law_cycle_returns_to_idle(
    deadline: u64,
    discovery: Outcome,
    balances: Outcome,
    positions: Outcome,
)
    ensures
        next_step(Phase::Discovering, deadline, Event::DiscoveryEnded(discovery)).0
            == Phase::SyncingBalancesAndPositions,
        next_step(
            Phase::SyncingBalancesAndPositions,
            deadline,
            Event::SyncEnded(balances, positions),
        ) == (Phase::Persisting, Action::Persist),
        next_step(Phase::Persisting, deadline, Event::Persisted) == (
            Phase::Sleeping,
            Action::SleepUntil(deadline),
        ),
        next_step(Phase::Sleeping, deadline, Event::DeadlineReached).0 == Phase::Idle,
{
}

/// The engine stops only where the store could not be written out.
pub proof fn law_only_persistence_stops(phase: Phase, deadline: u64, event: Event)
    requires
        phase != Phase::Stopped,
    ensures
        next_step(phase, deadline, event).0 == Phase::Stopped <==> phase == Phase::Persisting
            && event == Event::PersistFailed,
{
}

/// Why the broker did not answer a call.
#[derive(Clone, Copy, Debug, PartialEq, Eq, Structural, Hash)]
pub enum ApiFailure {
    /// The broker did not accept the credentials.
    NotAuthenticated,
    /// Anything else.
    Other,
}

/// What to do about a call that the broker did not answer.
#[derive(Clone, Copy, Debug, PartialEq, Eq, Structural, Hash)]
pub enum Recovery {
    /// Renew the credentials, then make the call once more.
    RenewThenRetry,
    /// Report the failure and leave this piece of work for the cycle.
    GiveUp,
}

/// What to do about a call that the broker did not answer: credentials
/// that it did not accept are renewed and the call is made once more,
/// but only once; everything else ends the piece of work for the cycle.
pub fn recovery_for(failure: ApiFailure, renewed: bool) -> (r: Recovery)
    ensures
        r == if failure == ApiFailure::NotAuthenticated && !renewed {
            Recovery::RenewThenRetry
        } else {
            Recovery::GiveUp
        },
{
    match failure {
        ApiFailure::NotAuthenticated => if renewed {
            Recovery::GiveUp
        } else {
            Recovery::RenewThenRetry
        },
        ApiFailure::Other => Recovery::GiveUp,
    }
}

/// What follows an attempt to renew the credentials.
#[derive(Clone, Copy, Debug, PartialEq, Eq, Structural, Hash)]
pub enum AfterRenewal {
    /// Keep the new credentials, then go on with the call.
    SaveThenCall,
    /// The operation that asked for the renewal fails.
    FailOperation,
}

/// What follows an attempt to renew the credentials: new credentials are
/// kept before any other call is made; without them the operation that
/// asked for them fails.
pub fn renew_auth(renewed: bool) -> (r: AfterRenewal)
    ensures
        r == if renewed {
            AfterRenewal::SaveThenCall
        } else {
            AfterRenewal::FailOperation
        },
{
    if renewed {
        AfterRenewal::SaveThenCall
    } else {
        AfterRenewal::FailOperation
    }
}

/// Rules that an account meets in every selector.
pub open spec fn selecting(acct: AccountView) -> spec_fn(AccountToSync) -> bool {
    |rule: AccountToSync| rule.selects(acct)
}

/// The name that an account is kept under: that of the first rule it
/// meets, or its own number where that rule names none; `None` where it
/// meets no rule.
pub open spec fn name_for(rules: Seq<AccountToSync>, acct: AccountView) -> Option<Seq<char>> {
    let at = first_index(rules, selecting(acct));
    if at >= rules.len() {
        None
    } else if rules[at].0@.len() == 0 {
        Some(acct.number)
    } else {
        Some(rules[at].0@)
    }
}

/// The name that an account is kept under, if it is to be kept.
pub fn account_name(accounts_to_sync: &Vec<AccountToSync>, acc: &Account) -> (r: Option<String>)
    ensures
        match r {
            Some(name) => name_for(accounts_to_sync@, acc@) == Some(name@),
            None => name_for(accounts_to_sync@, acc@) is None,
        },
{
    let ghost wanted = selecting(acc@);
    let n = accounts_to_sync.len();
    let mut i: usize = 0;
    while i < n
        invariant
            n == accounts_to_sync@.len(),
            i <= n,
            wanted == selecting(acc@),
            first_index(accounts_to_sync@, wanted) == first_index_from(
                accounts_to_sync@,
                wanted,
                i as int,
            ),
        decreases n - i,
    {
        if accounts_to_sync[i].check_account_match(acc) {
            if accounts_to_sync[i].name_is_empty() {
                return Some(acc.number.clone());
            } else {
                return Some(accounts_to_sync[i].name());
            }
        }
        i += 1;
    }
    None
}

/// The store after the accounts from place `from` on have been merged in
/// one by one, and the refusal that stopped the merge, if one did.
/// Accounts that meet no rule are passed over.
pub open spec fn merged_accounts(
    store: StoreView,
    rules: Seq<AccountToSync>,
    fetched: Seq<AccountView>,
    from: int,
) -> (StoreView, Option<DBInsertError>)
    decreases fetched.len() - from,
{
    if from < 0 || from >= fetched.len() {
        (store, None)
    } else {
        match name_for(rules, fetched[from]) {
            None => merged_accounts(store, rules, fetched, from + 1),
            Some(name) => match store.account_refusal(name, fetched[from]) {
                Some(e) => (store, Some(e)),
                None => merged_accounts(
                    store.with_account(name, fetched[from]),
                    rules,
                    fetched,
                    from + 1,
                ),
            },
        }
    }
}

/// The accounts as mathematical values.
pub open spec fn account_images(accounts: Seq<Account>) -> Seq<AccountView> {
    accounts.map_values(|a: Account| a@)
}

/// Merges the accounts that the broker listed into the store, in their
/// order: each one that meets a rule is taken in under the name the rule
/// gives it. The first account that the store refuses ends the merge;
/// those before it stay merged.
pub fn sync_accounts(db: &mut DBInfo, accounts_to_sync: &Vec<AccountToSync>, fetched: &Vec<Account>)
    -> (r: Result<(), DBInsertError>)
    ensures
        final(db)@.wf(),
        final(db)@ == merged_accounts(
            old(db)@,
            accounts_to_sync@,
            account_images(fetched@),
            0,
        ).0,
        match merged_accounts(old(db)@, accounts_to_sync@, account_images(fetched@), 0).1 {
            Some(e) => r == Err::<(), DBInsertError>(e),
            None => r.is_ok(),
        },
{
    let ghost start = db@;
    let ghost images = account_images(fetched@);
    let n = fetched.len();
    let mut i: usize = 0;
    proof {
        use_type_invariant(&*db);
        db.lemma_inv_is_wf();
    }
    while i < n
        invariant
            n == fetched@.len(),
            i <= n,
            images == account_images(fetched@),
            start == old(db)@,
            db@.wf(),
            merged_accounts(start, accounts_to_sync@, images, 0) == merged_accounts(
                db@,
                accounts_to_sync@,
                images,
                i as int,
            ),
        decreases n - i,
    {
        assert(images[i as int] == fetched@[i as int]@);
        match account_name(accounts_to_sync, &fetched[i]) {
            Some(name) => {
                match db.insert_account(name, fetched[i].clone()) {
                    Ok(_) => {},
                    Err(e) => {
                        return Err(e);
                    },
                }
            },
            None => {},
        }
        i += 1;
    }
    Ok(())
}

/// The first balance in a currency, or `fallback` where there is none.
pub open spec fn balance_in(
    balances: Seq<AccountBalance>,
    currency: Currency,
    fallback: AccountBalance,
) -> AccountBalance {
    let at = first_index(balances, |b: AccountBalance| b.currency == currency);
    if at < balances.len() {
        balances[at]
    } else {
        fallback
    }
}

/// The first balance in a currency, or `fallback` where there is none.
pub fn select_balance(balances: &Vec<AccountBalance>, currency: Currency, fallback: AccountBalance)
    -> (r: AccountBalance)
    ensures
        r == balance_in(balances@, currency, fallback),
{
    let ghost wanted = |b: AccountBalance| b.currency == currency;
    let n = balances.len();
    let mut i: usize = 0;
    while i < n
        invariant
            n == balances@.len(),
            i <= n,
            wanted == (|b: AccountBalance| b.currency == currency),
            first_index(balances@, wanted) == first_index_from(balances@, wanted, i as int),
        decreases n - i,
    {
        if balances[i].currency == currency {
            return balances[i];
        }
        i += 1;
    }
    fallback
}

/// The balance that a day started with, out of what the broker reported:
/// the first start-of-day balance in a currency, or the first start-of-day
/// balance of all where none is in that currency. Where the broker reported
/// no start-of-day balance at all, the first of the current balances stands
/// in.
pub open spec fn start_of_day_in(
    per_currency_balances: Seq<AccountBalance>,
    sod_per_currency_balances: Seq<AccountBalance>,
    currency: Currency,
) -> AccountBalance {
    if sod_per_currency_balances.len() > 0 {
        balance_in(sod_per_currency_balances, currency, sod_per_currency_balances[0])
    } else {
        per_currency_balances[0]
    }
}

/// Takes the balances that the broker reported for an account at a moment
/// into the store: of the current balances and of the balances at the start
/// of the day, the one in the wanted currency each, or the first of its
/// list where the list has none in that currency. Without any start-of-day
/// balance the first of the current balances stands in for it.
pub fn sync_account_balances(
    db: &mut DBInfo,
    now: DateTime,
    acct_num: &String,
    per_currency_balances: &Vec<AccountBalance>,
    sod_per_currency_balances: &Vec<AccountBalance>,
    currency: Currency,
) -> (r: Result<(), DBInsertError>)
    requires
        per_currency_balances@.len() > 0,
    ensures
        final(db)@.wf(),
        match old(db)@.balance_refusal(
            acct_num@,
            now.date,
            DBInfoAccountBalance::of(
                balance_in(per_currency_balances@, currency, per_currency_balances@[0]),
                now.time,
            ),
        ) {
            Some(e) => r == Err::<(), DBInsertError>(e) && final(db)@ == old(db)@,
            None => r.is_ok() && final(db)@ == old(db)@.with_balance(
                acct_num@,
                now.date,
                DBInfoAccountBalance::of(
                    balance_in(per_currency_balances@, currency, per_currency_balances@[0]),
                    now.time,
                ),
                DBInfoAccountBalance::of(
                    start_of_day_in(per_currency_balances@, sod_per_currency_balances@, currency),
                    now.time,
                ),
            ),
        },
{
    let balance = select_balance(per_currency_balances, currency, per_currency_balances[0]);
    let sod = if sod_per_currency_balances.len() > 0 {
        select_balance(sod_per_currency_balances, currency, sod_per_currency_balances[0])
    } else {
        per_currency_balances[0]
    };
    db.insert_account_balance(now, acct_num, balance, sod)
}

/// The store after the positions from place `from` on have been taken in
/// one by one, and the refusal that stopped it, if one did.
pub open spec fn merged_positions(
    store: StoreView,
    number: Seq<char>,
    now: DateTime,
    positions: Seq<AccountPosition>,
    from: int,
) -> (StoreView, Option<DBInsertError>)
    decreases positions.len() - from,
{
    if from < 0 || from >= positions.len() {
        (store, None)
    } else {
        let reading = PositionView::of(positions[from], now.time);
        match store.position_refusal(number, now.date, reading) {
            Some(e) => (store, Some(e)),
            None => merged_positions(
                store.with_position(number, now.date, reading),
                number,
                now,
                positions,
                from + 1,
            ),
        }
    }
}

/// The place of the first position from `from` on that the store turns
/// down, or the length where it takes them all in.
pub open spec fn first_refused(
    store: StoreView,
    number: Seq<char>,
    now: DateTime,
    positions: Seq<AccountPosition>,
    from: int,
) -> int
    decreases positions.len() - from,
{
    if from < 0 || from >= positions.len() {
        from
    } else {
        let reading = PositionView::of(positions[from], now.time);
        if store.position_refusal(number, now.date, reading) is Some {
            from
        } else {
            first_refused(
                store.with_position(number, now.date, reading),
                number,
                now,
                positions,
                from + 1,
            )
        }
    }
}

/// Positions that are taken in while the balances of the cycle stay out
/// are in the store from then on, each among the readings of its symbol
/// and date: every position in front of the first one that the store turns
/// down, and all of them where it turns none down. The accounts and every
/// balance reading are as they were before.
pub proof fn law_positions_commit_alone(
    store: StoreView,
    number: Seq<char>,
    now: DateTime,
    positions: Seq<AccountPosition>,
    from: int,
)
    requires
        store.wf(),
        0 <= from <= positions.len(),
    ensures
        merged_positions(store, number, now, positions, from).0.wf(),
        merged_positions(store, number, now, positions, from).0.accounts == store.accounts,
        merged_positions(store, number, now, positions, from).0.account_balances
            == store.account_balances,
        from <= first_refused(store, number, now, positions, from) <= positions.len(),
        merged_positions(store, number, now, positions, from).1 is None <==> first_refused(
            store,
            number,
            now,
            positions,
            from,
        ) == positions.len(),
        forall|k: int|
            from <= k < first_refused(store, number, now, positions, from) ==> merged_positions(
                store,
                number,
                now,
                positions,
                from,
            ).0.holds_position(number, now.date, PositionView::of(#[trigger] positions[k], now.time)),
    decreases positions.len() - from,
{
    if from < positions.len() {
        let reading = PositionView::of(positions[from], now.time);
        if store.position_refusal(number, now.date, reading) is None {
            let next = store.with_position(number, now.date, reading);
            crate::storage::model::lemma_with_position_wf(store, number, now.date, reading);
            crate::storage::laws::law_position_leaves_balances(store, number, now.date, reading);
            law_positions_commit_alone(next, number, now, positions, from + 1);
            law_positions_are_carried(next, number, now, positions, from + 1, reading);
        }
    }
}

/// A position reading that the store holds is still among the readings of
/// its symbol and date after more positions have been taken in.
pub proof fn law_positions_are_carried(
    store: StoreView,
    number: Seq<char>,
    now: DateTime,
    positions: Seq<AccountPosition>,
    from: int,
    held: PositionView,
)
    requires
        store.wf(),
        0 <= from <= positions.len(),
        store.holds_position(number, now.date, held),
    ensures
        merged_positions(store, number, now, positions, from).0.holds_position(
            number,
            now.date,
            held,
        ),
    decreases positions.len() - from,
{
    if from < positions.len() {
        let reading = PositionView::of(positions[from], now.time);
        if store.position_refusal(number, now.date, reading) is None {
            let next = store.with_position(number, now.date, reading);
            crate::storage::model::lemma_with_position_wf(store, number, now.date, reading);
            crate::storage::laws::law_positions_are_kept(
                store,
                number,
                now.date,
                reading,
                number,
                held.symbol,
                now.date,
                held,
            );
            law_positions_are_carried(next, number, now, positions, from + 1, held);
        }
    }
}

/// Takes the positions that the broker reported for an account at a
/// moment into the store, in their order. The first one that the store
/// refuses ends it; those before it stay.
pub fn sync_account_positions(
    db: &mut DBInfo,
    now: DateTime,
    acct_num: &String,
    positions: &Vec<AccountPosition>,
) -> (r: Result<(), DBInsertError>)
    ensures
        final(db)@.wf(),
        final(db)@ == merged_positions(old(db)@, acct_num@, now, positions@, 0).0,
        match merged_positions(old(db)@, acct_num@, now, positions@, 0).1 {
            Some(e) => r == Err::<(), DBInsertError>(e),
            None => r.is_ok(),
        },
{
    let ghost start = db@;
    let n = positions.len();
    let mut i: usize = 0;
    proof {
        use_type_invariant(&*db);
        db.lemma_inv_is_wf();
    }
    while i < n
        invariant
            n == positions@.len(),
            i <= n,
            start == old(db)@,
            db@.wf(),
            merged_positions(start, acct_num@, now, positions@, 0) == merged_positions(
                db@,
                acct_num@,
                now,
                positions@,
                i as int,
            ),
        decreases n - i,
    {
        let pos = positions[i].clone();
        assert(PositionView::of(pos, now.time) == PositionView::of(positions@[i as int], now.time));
        match db.insert_account_position(now, acct_num, pos) {
            Ok(_) => {},
            Err(e) => {
                return Err(e);
            },
        }
        i += 1;
    }
    Ok(())
}

} // verus!
