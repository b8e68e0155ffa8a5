//! The ways in which a change to the store, or a question put to it, can
//! fail.

use crate::clock::{chrono_date_text, Date};
use vstd::prelude::*;
use vstd::string::StringExecFns;

verus! {

/// Why the store turned down a new account or reading.
#[derive(Clone, Copy, Debug, PartialEq, Eq, Structural, Hash)]
pub enum DBInsertError {
    /// The name already stands for an account with another number.
    InsertAccountDuplicateNameError,
    /// The same account is already kept under another name.
    InsertAccountDuplicateInfoError,
    /// The day already holds this very balance reading.
    InsertAccountBalanceDuplicateError,
    /// No account with this number is known.
    InsertAccountBalanceNoAccountError,
    /// The day already holds this very position reading.
    InsertAccountPositionDuplicateError,
    /// No account with this number is known.
    InsertAccountPositionNoAccountError,
}

impl DBInsertError {
    /// What the error says.
    pub open spec fn message_text(self) -> Seq<char> {
        match self {
            Self::InsertAccountDuplicateNameError =>
                "Could not insert Account into DataBase! Duplicate account name already in DB."@,
            Self::InsertAccountDuplicateInfoError =>
                "Could not insert Account into DataBase! Duplicate account info already in DB."@,
            Self::InsertAccountBalanceDuplicateError =>
                "Could not insert Account Balance into DataBase! Duplicate already in DB."@,
            Self::InsertAccountBalanceNoAccountError =>
                "Could not insert Account Balance into DataBase! Account for balance does not exist."@,
            Self::InsertAccountPositionDuplicateError =>
                "Could not insert Account Position into DataBase! Duplicate already in DB."@,
            Self::InsertAccountPositionNoAccountError =>
                "Could not insert Account Position into DataBase! Account that position belongs to does not exist."@,
        }
    }

    /// The error as a line of text.
    pub fn message(&self) -> (r: String)
        ensures
            r@ == self.message_text(),
    {
        match self {
            Self::InsertAccountDuplicateNameError => String::from_str(
                "Could not insert Account into DataBase! Duplicate account name already in DB.",
            ),
            Self::InsertAccountDuplicateInfoError => String::from_str(
                "Could not insert Account into DataBase! Duplicate account info already in DB.",
            ),
            Self::InsertAccountBalanceDuplicateError => String::from_str(
                "Could not insert Account Balance into DataBase! Duplicate already in DB.",
            ),
            Self::InsertAccountBalanceNoAccountError => String::from_str(
                "Could not insert Account Balance into DataBase! Account for balance does not exist.",
            ),
            Self::InsertAccountPositionDuplicateError => String::from_str(
                "Could not insert Account Position into DataBase! Duplicate already in DB.",
            ),
            Self::InsertAccountPositionNoAccountError => String::from_str(
                "Could not insert Account Position into DataBase! Account that position belongs to does not exist.",
            ),
        }
    }
}

/// Why the store could not answer a question.
#[derive(Debug, PartialEq, Eq)]
pub enum DBRetrieveError {
    /// Neither a name nor a number of a known account; holds what was asked for.
    RetrieveAccountNoAccountError(String),
    /// The account has readings, but none for this symbol.
    RetrieveAccountPositionNotSyncedError(String),
    /// The account has no position readings at all.
    RetrieveAccountPositionAllNotSyncedError,
    RetrieveAccountPositionNoAccountError,
    RetrieveAccountBalanceNoAccountError,
    /// The account has no balance readings at all.
    RetrieveAccountBalanceNotSyncedError,
    /// The account has balance readings, but none for this date.
    RetrieveAccountBalanceNotSyncedDayError(Date),
    /// The account has readings for this symbol, but none for this date.
    RetrieveAccountPositionNotSyncedDayError(String, Date),
    /// The store knows no account yet.
    RetrieveAccountsNotSyncedError,
}

/// A retrieval error with its texts as sequences of characters.
pub enum RetrieveErrorView {
    RetrieveAccountNoAccountError(Seq<char>),
    RetrieveAccountPositionNotSyncedError(Seq<char>),
    RetrieveAccountPositionAllNotSyncedError,
    RetrieveAccountPositionNoAccountError,
    RetrieveAccountBalanceNoAccountError,
    RetrieveAccountBalanceNotSyncedError,
    RetrieveAccountBalanceNotSyncedDayError(Date),
    RetrieveAccountPositionNotSyncedDayError(Seq<char>, Date),
    RetrieveAccountsNotSyncedError,
}

impl View for DBRetrieveError {
    type V = RetrieveErrorView;

    open spec fn view(&self) -> RetrieveErrorView {
        match self {
            Self::RetrieveAccountNoAccountError(s) =>
                RetrieveErrorView::RetrieveAccountNoAccountError(s@),
            Self::RetrieveAccountPositionNotSyncedError(s) =>
                RetrieveErrorView::RetrieveAccountPositionNotSyncedError(s@),
            Self::RetrieveAccountPositionAllNotSyncedError =>
                RetrieveErrorView::RetrieveAccountPositionAllNotSyncedError,
            Self::RetrieveAccountPositionNoAccountError =>
                RetrieveErrorView::RetrieveAccountPositionNoAccountError,
            Self::RetrieveAccountBalanceNoAccountError =>
                RetrieveErrorView::RetrieveAccountBalanceNoAccountError,
            Self::RetrieveAccountBalanceNotSyncedError =>
                RetrieveErrorView::RetrieveAccountBalanceNotSyncedError,
            Self::RetrieveAccountBalanceNotSyncedDayError(d) =>
                RetrieveErrorView::RetrieveAccountBalanceNotSyncedDayError(*d),
            Self::RetrieveAccountPositionNotSyncedDayError(s, d) =>
                RetrieveErrorView::RetrieveAccountPositionNotSyncedDayError(s@, *d),
            Self::RetrieveAccountsNotSyncedError =>
                RetrieveErrorView::RetrieveAccountsNotSyncedError,
        }
    }
}

impl Clone for DBRetrieveError {
    fn clone(&self) -> (r: DBRetrieveError)
        ensures
            r@ == self@,
    {
        match self {
            Self::RetrieveAccountNoAccountError(s) => Self::RetrieveAccountNoAccountError(
                s.clone(),
            ),
            Self::RetrieveAccountPositionNotSyncedError(s) =>
                Self::RetrieveAccountPositionNotSyncedError(s.clone()),
            Self::RetrieveAccountPositionAllNotSyncedError =>
                Self::RetrieveAccountPositionAllNotSyncedError,
            Self::RetrieveAccountPositionNoAccountError =>
                Self::RetrieveAccountPositionNoAccountError,
            Self::RetrieveAccountBalanceNoAccountError =>
                Self::RetrieveAccountBalanceNoAccountError,
            Self::RetrieveAccountBalanceNotSyncedError =>
                Self::RetrieveAccountBalanceNotSyncedError,
            Self::RetrieveAccountBalanceNotSyncedDayError(d) =>
                Self::RetrieveAccountBalanceNotSyncedDayError(*d),
            Self::RetrieveAccountPositionNotSyncedDayError(s, d) =>
                Self::RetrieveAccountPositionNotSyncedDayError(s.clone(), *d),
            Self::RetrieveAccountsNotSyncedError => Self::RetrieveAccountsNotSyncedError,
        }
    }
}

impl RetrieveErrorView {
    /// The date that the error speaks of, if it speaks of one.
    pub open spec fn date(self) -> Option<Date> {
        match self {
            Self::RetrieveAccountPositionNotSyncedDayError(_, date) => Some(date),
            Self::RetrieveAccountBalanceNotSyncedDayError(date) => Some(date),
            _ => None,
        }
    }

    /// What the error says, with `date_text` where it names its date.
    pub open spec fn message_with(self, date_text: Seq<char>) -> Seq<char> {
        match self {
            Self::RetrieveAccountNoAccountError(s) => "Error looking up account with: "@ + s
                + "! No such account found by number or name."@,
            Self::RetrieveAccountPositionNoAccountError =>
                "Could not find position! No account matching identifier in DB."@,
            Self::RetrieveAccountPositionAllNotSyncedError =>
                "Could not find position! No positions at all synced on account."@,
            Self::RetrieveAccountPositionNotSyncedError(s) => "Could not find position: "@ + s
                + "! Not synced for account."@,
            Self::RetrieveAccountPositionNotSyncedDayError(s, _) =>
                "Could not find position! No "@ + s + " positions synced for account date: "@
                    + date_text + "."@,
            Self::RetrieveAccountBalanceNoAccountError =>
                "Could not find balance! No account matching identifier in DB."@,
            Self::RetrieveAccountBalanceNotSyncedError =>
                "Could not find balance! No balances at all synced for account."@,
            Self::RetrieveAccountBalanceNotSyncedDayError(_) =>
                "Could not find balance! No balances synced for account date: "@ + date_text
                    + "."@,
            Self::RetrieveAccountsNotSyncedError =>
                "Could not find accounts! No accounts synced yet."@,
        }
    }

    /// What the error says. A date stands in it as chrono writes it.
    pub open spec fn message_text(self) -> Seq<char> {
        match self.date() {
            Some(date) => self.message_with(chrono_date_text(date.days())),
            None => self.message_with(Seq::empty()),
        }
    }
}

impl DBRetrieveError {
    /// The error as a line of text, with `date_text` where it names its
    /// date.
    pub fn message_with(&self, date_text: &str) -> (r: String)
        ensures
            r@ == self@.message_with(date_text@),
    {
        match self {
            Self::RetrieveAccountNoAccountError(s) => {
                let mut out = String::from_str("Error looking up account with: ");
                out.append(s.as_str());
                out.append("! No such account found by number or name.");
                out
            },
            Self::RetrieveAccountPositionNoAccountError => String::from_str(
                "Could not find position! No account matching identifier in DB.",
            ),
            Self::RetrieveAccountPositionAllNotSyncedError => String::from_str(
                "Could not find position! No positions at all synced on account.",
            ),
            Self::RetrieveAccountPositionNotSyncedError(s) => {
                let mut out = String::from_str("Could not find position: ");
                out.append(s.as_str());
                out.append("! Not synced for account.");
                out
            },
            Self::RetrieveAccountPositionNotSyncedDayError(s, _) => {
                let mut out = String::from_str("Could not find position! No ");
                out.append(s.as_str());
                out.append(" positions synced for account date: ");
                out.append(date_text);
                out.append(".");
                out
            },
            Self::RetrieveAccountBalanceNoAccountError => String::from_str(
                "Could not find balance! No account matching identifier in DB.",
            ),
            Self::RetrieveAccountBalanceNotSyncedError => String::from_str(
                "Could not find balance! No balances at all synced for account.",
            ),
            Self::RetrieveAccountBalanceNotSyncedDayError(_) => {
                let mut out = String::from_str(
                    "Could not find balance! No balances synced for account date: ",
                );
                out.append(date_text);
                out.append(".");
                out
            },
            Self::RetrieveAccountsNotSyncedError => String::from_str(
                "Could not find accounts! No accounts synced yet.",
            ),
        }
    }

    /// The error as a line of text.
    pub fn message(&self) -> (r: String)
        ensures
            r@ == self@.message_text(),
    {
        match self {
            Self::RetrieveAccountPositionNotSyncedDayError(_, date) => {
                let day = date.text();
                self.message_with(day.as_str())
            },
            Self::RetrieveAccountBalanceNotSyncedDayError(date) => {
                let day = date.text();
                self.message_with(day.as_str())
            },
            _ => {
                let none = String::new();
                self.message_with(none.as_str())
            },
        }
    }
}

} // verus!
