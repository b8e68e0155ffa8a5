//! Accounts as the broker describes them, and the figures it reports for
//! them.

use vstd::prelude::*;

verus! {

/// The kind of an account.
#[derive(Clone, Copy, Debug, PartialEq, Eq, Structural, Hash)]
pub enum AccountType {
    Cash,
    Margin,
    TFSA,
    RRSP,
    SRRSP,
    LRRSP,
    LIRA,
    LIF,
    RIF,
    SRIF,
    LRIF,
    RRIF,
    PRIF,
    RESP,
    FRESP,
}

/// The standing of an account.
#[derive(Clone, Copy, Debug, PartialEq, Eq, Structural, Hash)]
pub enum AccountStatus {
    Active,
    SuspendedClosed,
    SuspendedViewOnly,
    Liquidate,
    Closed,
}

/// The kind of client that holds an account.
#[derive(Clone, Copy, Debug, PartialEq, Eq, Structural, Hash)]
pub enum ClientAccountType {
    Individual,
    Joint,
    InformalTrust,
    Corporation,
    InvestmentClub,
    FormalTrust,
    Partnership,
    SoleProprietorship,
    Family,
    JointAndInformalTrust,
    Institution,
}

/// The currency of a balance.
#[derive(Clone, Copy, Debug, PartialEq, Eq, Structural, Hash)]
pub enum Currency {
    CAD,
    USD,
}

/// An amount of money, a quantity or a price as the broker reported it,
/// held by the bit pattern of its double-precision value. Two amounts are
/// the same exactly when their bit patterns are.
#[derive(Clone, Copy, Debug, PartialEq, Eq, Structural, Hash)]
pub struct Amount {
    pub bits: u64,
}

impl Amount {
    pub fn from_bits(bits: u64) -> (r: Amount)
        ensures
            r.bits == bits,
    {
        Amount { bits }
    }

    pub fn to_bits(&self) -> (r: u64)
        ensures
            r == self.bits,
    {
        self.bits
    }
}

/// An account of the broker. Its number identifies it; the other fields
/// classify it.
#[derive(Debug, PartialEq, Eq)]
pub struct Account {
    pub account_type: AccountType,
    pub number: String,
    pub status: AccountStatus,
    pub is_primary: bool,
    pub is_billing: bool,
    pub client_account_type: ClientAccountType,
}

/// What an account holds, with its number as a sequence of characters.
pub struct AccountView {
    pub account_type: AccountType,
    pub number: Seq<char>,
    pub status: AccountStatus,
    pub is_primary: bool,
    pub is_billing: bool,
    pub client_account_type: ClientAccountType,
}

impl View for Account {
    type V = AccountView;

    open spec fn view(&self) -> AccountView {
        AccountView {
            account_type: self.account_type,
            number: self.number@,
            status: self.status,
            is_primary: self.is_primary,
            is_billing: self.is_billing,
            client_account_type: self.client_account_type,
        }
    }
}

impl Clone for Account {
    fn clone(&self) -> (r: Account)
        ensures
            r@ == self@,
    {
        Account {
            account_type: self.account_type,
            number: self.number.clone(),
            status: self.status,
            is_primary: self.is_primary,
            is_billing: self.is_billing,
            client_account_type: self.client_account_type,
        }
    }
}

impl Account {
    /// Whether two accounts agree in every field.
    pub fn same_as(&self, other: &Account) -> (r: bool)
        ensures
            r == (self@ == other@),
    {
        self.account_type == other.account_type && self.number == other.number && self.status
            == other.status && self.is_primary == other.is_primary && self.is_billing
            == other.is_billing && self.client_account_type == other.client_account_type
    }
}

/// The balance of an account in one currency, as the broker reports it.
#[derive(Clone, Copy, Debug, PartialEq, Eq, Structural, Hash)]
pub struct AccountBalance {
    pub currency: Currency,
    pub cash: Amount,
    pub market_value: Amount,
    pub total_equity: Amount,
    pub buying_power: Amount,
    pub maintenance_excess: Amount,
    pub is_real_time: bool,
}

/// A position of an account in one symbol, as the broker reports it.
#[derive(Debug, PartialEq, Eq)]
pub struct AccountPosition {
    pub symbol: String,
    pub symbol_id: u32,
    pub open_quantity: Amount,
    pub closed_quantity: Amount,
    pub current_market_value: Amount,
    pub current_price: Amount,
    pub day_profit_and_loss: Amount,
    pub average_entry_price: Amount,
    pub closed_profit_and_loss: Amount,
    pub open_profit_and_loss: Amount,
    pub total_cost: Amount,
    pub is_real_time: bool,
    pub is_under_reorg: bool,
}

impl Clone for AccountPosition {
    fn clone(&self) -> (r: AccountPosition)
        ensures
            r.symbol@ == self.symbol@,
            r.symbol_id == self.symbol_id,
            r.open_quantity == self.open_quantity,
            r.closed_quantity == self.closed_quantity,
            r.current_market_value == self.current_market_value,
            r.current_price == self.current_price,
            r.day_profit_and_loss == self.day_profit_and_loss,
            r.average_entry_price == self.average_entry_price,
            r.closed_profit_and_loss == self.closed_profit_and_loss,
            r.open_profit_and_loss == self.open_profit_and_loss,
            r.total_cost == self.total_cost,
            r.is_real_time == self.is_real_time,
            r.is_under_reorg == self.is_under_reorg,
    {
        AccountPosition {
            symbol: self.symbol.clone(),
            symbol_id: self.symbol_id,
            open_quantity: self.open_quantity,
            closed_quantity: self.closed_quantity,
            current_market_value: self.current_market_value,
            current_price: self.current_price,
            day_profit_and_loss: self.day_profit_and_loss,
            average_entry_price: self.average_entry_price,
            closed_profit_and_loss: self.closed_profit_and_loss,
            open_profit_and_loss: self.open_profit_and_loss,
            total_cost: self.total_cost,
            is_real_time: self.is_real_time,
            is_under_reorg: self.is_under_reorg,
        }
    }
}

} // verus!
