//! The settings that the rest works from, the rules that pick the accounts
//! to keep in step, and the credentials for the broker.

use crate::account::{Account, AccountStatus, AccountType, AccountView, ClientAccountType, Currency};
use crate::clock::{Moment, Span};
use vstd::prelude::*;

verus! {

/// How much of the log goes to the log file.
#[derive(Clone, Copy, Debug, PartialEq, Eq, Structural, Hash)]
pub enum LevelFilter {
    Off,
    Error,
    Warn,
    Info,
    Debug,
    Trace,
}

/// How much of the log is repeated on standard output.
#[derive(Clone, Copy, Debug, PartialEq, Eq, Structural, Hash)]
pub enum Duplicate {
    Off,
    Error,
    Warn,
    Info,
    Debug,
    Trace,
    All,
}

/// A level of detail for a log, as the settings name it.
#[derive(Clone, Copy, Debug, PartialEq, Eq, Structural, Hash)]
pub enum LogLevel {
    Off,
    Info,
    Warn,
    Error,
}

impl LogLevel {
    /// The level for the log file and the level for standard output that
    /// a setting stands for.
    pub fn to_usable(&self) -> (r: (LevelFilter, Duplicate))
        ensures
            r == match *self {
                LogLevel::Off => (LevelFilter::Off, Duplicate::Off),
                LogLevel::Info => (LevelFilter::Info, Duplicate::Info),
                LogLevel::Warn => (LevelFilter::Warn, Duplicate::Warn),
                LogLevel::Error => (LevelFilter::Error, Duplicate::Error),
            },
    {
        match self {
            Self::Off => (LevelFilter::Off, Duplicate::Off),
            Self::Info => (LevelFilter::Info, Duplicate::Info),
            Self::Warn => (LevelFilter::Warn, Duplicate::Warn),
            Self::Error => (LevelFilter::Error, Duplicate::Error),
        }
    }
}

/// One thing asked of an account for it to be kept in step.
#[derive(Debug, PartialEq, Eq)]
pub enum AccountSelector {
    Number(String),
    IsPrimary(bool),
    IsBilling(bool),
    AccountType(AccountType),
    ClientAccountType(ClientAccountType),
    Status(AccountStatus),
}

impl AccountSelector {
    /// Whether an account has what this selector asks for.
    pub open spec fn selects(&self, acct: AccountView) -> bool {
        match self {
            Self::Number(acc_num) => acc_num@ == acct.number,
            Self::IsPrimary(ip) => *ip == acct.is_primary,
            Self::IsBilling(ib) => *ib == acct.is_billing,
            Self::AccountType(acc_type) => *acc_type == acct.account_type,
            Self::ClientAccountType(cli_acc_type) => *cli_acc_type == acct.client_account_type,
            Self::Status(acc_stat) => *acc_stat == acct.status,
        }
    }

    /// Whether an account has what this selector asks for.
    pub fn check_account_match(&self, acct: &Account) -> (r: bool)
        ensures
            r == self.selects(acct@),
    {
        match self {
            Self::Number(acc_num) => *acc_num == acct.number,
            Self::IsPrimary(ip) => *ip == acct.is_primary,
            Self::IsBilling(ib) => *ib == acct.is_billing,
            Self::AccountType(acc_type) => *acc_type == acct.account_type,
            Self::ClientAccountType(cli_acc_type) => *cli_acc_type == acct.client_account_type,
            Self::Status(acc_stat) => *acc_stat == acct.status,
        }
    }
}

/// A name to keep accounts under, and what is asked of an account for it
/// to be kept under that name. An empty name stands for the account's own
/// number.
#[derive(Debug, PartialEq, Eq)]
pub struct AccountToSync(pub String, pub Vec<AccountSelector>);

impl AccountToSync {
    /// Whether an account has what every selector asks for.
    pub open spec fn selects(&self, acct: AccountView) -> bool {
        forall|i: int| 0 <= i < self.1@.len() ==> (#[trigger] self.1@[i]).selects(acct)
    }

    /// Whether an account has what every selector asks for.
    pub fn check_account_match(&self, acct: &Account) -> (r: bool)
        ensures
            r == self.selects(acct@),
    {
        let n = self.1.len();
        let mut i: usize = 0;
        while i < n
            invariant
                n == self.1@.len(),
                i <= n,
                forall|j: int| 0 <= j < i ==> (#[trigger] self.1@[j]).selects(acct@),
            decreases n - i,
        {
            if !self.1[i].check_account_match(acct) {
                return false;
            }
            i += 1;
        }
        true
    }

    pub fn name(&self) -> (r: String)
        ensures
            r@ == self.0@,
    {
        self.0.clone()
    }

    pub fn name_is_empty(&self) -> (r: bool)
        ensures
            r == (self.0@.len() == 0),
    {
        self.0.as_str().is_empty()
    }
}

/// The settings as the settings file gives them.
#[derive(Debug, PartialEq, Eq)]
pub struct ConfigFile {
    pub db_file_path: String,
    pub auth_file_path: String,
    pub log_file_dir: String,
    pub file_log_level: LogLevel,
    pub stdout_log_level: LogLevel,
    pub http_port: u16,
    pub accounts_to_sync: Vec<AccountToSync>,
    pub account_balance_currency: Currency,
    pub delay: u64,
}

/// Where a path of the settings is taken from.
#[derive(Clone, Copy, Debug, PartialEq, Eq, Structural, Hash)]
pub enum PathBase {
    /// Below the user's configuration directory, in the program's own
    /// directory there.
    ProgramDirectory,
    /// Beside the settings file that the command line named.
    BesideConfigFile,
    /// As it stands.
    AsGiven,
}

/// Where a path of the settings is taken from: an absolute path stands as
/// it is; a relative one is taken from beside the settings file that the
/// command line named, or from the program's own directory where it named
/// none.
pub fn validate_pathbuf(is_relative: bool, config_path_given: bool) -> (r: PathBase)
    ensures
        r == if !is_relative {
            PathBase::AsGiven
        } else if config_path_given {
            PathBase::BesideConfigFile
        } else {
            PathBase::ProgramDirectory
        },
{
    if is_relative && !config_path_given {
        PathBase::ProgramDirectory
    } else if is_relative && config_path_given {
        PathBase::BesideConfigFile
    } else {
        PathBase::AsGiven
    }
}

/// What to do where the settings file could not be read.
#[derive(Clone, Copy, Debug, PartialEq, Eq, Structural, Hash)]
pub enum MissingSettings {
    /// Write the settings that come with the program to the default place,
    /// and go on with them.
    WriteDefaultThenUse,
    /// Give up with the error that reading brought.
    Fail,
}

/// What to do where the settings file could not be read: a file that is
/// missing in the default place is written out first; a file that the
/// command line named must be there, and any other failure of reading ends
/// the start.
pub fn on_missing_settings(config_path_given: bool, not_found: bool) -> (r: MissingSettings)
    ensures
        r == if not_found && !config_path_given {
            MissingSettings::WriteDefaultThenUse
        } else {
            MissingSettings::Fail
        },
{
    if not_found && !config_path_given {
        MissingSettings::WriteDefaultThenUse
    } else {
        MissingSettings::Fail
    }
}

/// Credentials as the broker's client works with them. The access token
/// runs out `expires_in` after the moment the value was made for.
#[derive(Debug, PartialEq, Eq)]
pub struct AuthenticationInfo {
    pub refresh_token: String,
    pub access_token: String,
    pub expires_in: Span,
    pub api_server: String,
    pub is_demo: bool,
}

/// Credentials as they are kept between runs. The access token runs out
/// at `expires_at`.
#[derive(Debug, PartialEq, Eq)]
pub struct SavedAuthInfo {
    pub refresh_token: String,
    pub access_token: String,
    pub expires_at: Moment,
    pub api_server: String,
    pub is_demo: bool,
}

/// Why credentials could not be kept.
#[derive(Clone, Copy, Debug, PartialEq, Eq, Structural, Hash)]
pub enum AuthError {
    /// The access token would run out at a moment that cannot be held.
    ExpiryOutOfRange,
}

impl SavedAuthInfo {
    /// The credentials for the broker's client at the moment `now`. They
    /// never name the practice server.
    pub fn convert_to_api(&self, now: Moment) -> (r: AuthenticationInfo)
        ensures
            r.refresh_token@ == self.refresh_token@,
            r.access_token@ == self.access_token@,
            r.api_server@ == self.api_server@,
            r.is_demo == false,
            r.expires_in.length() == self.expires_at.at() - now.at(),
    {
        AuthenticationInfo {
            refresh_token: self.refresh_token.clone(),
            access_token: self.access_token.clone(),
            api_server: self.api_server.clone(),
            is_demo: false,
            expires_in: self.expires_at.since(&now),
        }
    }

    /// The credentials to keep, for credentials that the broker's client
    /// holds at the moment `now`.
    pub fn convert_from_api(api_auth: AuthenticationInfo, now: Moment) -> (r: Result<
        SavedAuthInfo,
        AuthError,
    >)
        ensures
            match r {
                Ok(saved) => saved.refresh_token@ == api_auth.refresh_token@
                    && saved.access_token@ == api_auth.access_token@ && saved.api_server@
                    == api_auth.api_server@ && saved.is_demo == api_auth.is_demo
                    && saved.expires_at.at() == now.at() + api_auth.expires_in.length(),
                Err(e) => e == AuthError::ExpiryOutOfRange && (now.at()
                    + api_auth.expires_in.length() < -8_334_601_228_800 * 1_000_000_000
                    || now.at() + api_auth.expires_in.length() >= 8_210_266_876_800
                    * 1_000_000_000),
            },
    {
        match now.checked_add(&api_auth.expires_in) {
            Some(expires_at) => Ok(
                SavedAuthInfo {
                    refresh_token: api_auth.refresh_token,
                    access_token: api_auth.access_token,
                    expires_at,
                    api_server: api_auth.api_server,
                    is_demo: api_auth.is_demo,
                },
            ),
            None => Err(AuthError::ExpiryOutOfRange),
        }
    }
}

/// The credentials at hand: a refresh token alone, or all that the broker
/// handed out with it.
#[derive(Debug, PartialEq, Eq)]
pub enum AuthInfo {
    RefreshToken(String),
    FullAuthInfo(SavedAuthInfo),
}

/// Seconds before the access token runs out from which on it counts as run
/// out.
pub const EXPIRY_GRACE_SECS: i64 = 300;

impl AuthInfo {
    /// The token to renew the credentials with.
    pub open spec fn token_text(&self) -> Seq<char> {
        match self {
            Self::RefreshToken(rt) => rt@,
            Self::FullAuthInfo(sai) => sai.refresh_token@,
        }
    }

    /// Whether the credentials have to be renewed at the moment `now`: a
    /// refresh token alone always has to be, full credentials from
    /// five minutes before the access token runs out.
    pub open spec fn expired_at(&self, now: Moment) -> bool {
        match self {
            Self::RefreshToken(_) => true,
            Self::FullAuthInfo(sai) => sai.expires_at.at() - now.at() <= 300 * 1_000_000_000,
        }
    }

    /// The credentials to keep, for credentials that the broker's client
    /// holds at the moment `now`.
    pub fn convert_from_api_auth(api_auth: AuthenticationInfo, now: Moment) -> (r: Result<
        AuthInfo,
        AuthError,
    >)
        ensures
            match r {
                Ok(auth) => auth matches AuthInfo::FullAuthInfo(saved) && saved.refresh_token@
                    == api_auth.refresh_token@ && saved.access_token@ == api_auth.access_token@
                    && saved.api_server@ == api_auth.api_server@ && saved.is_demo
                    == api_auth.is_demo && saved.expires_at.at() == now.at()
                    + api_auth.expires_in.length(),
                Err(e) => e == AuthError::ExpiryOutOfRange && (now.at()
                    + api_auth.expires_in.length() < -8_334_601_228_800 * 1_000_000_000
                    || now.at() + api_auth.expires_in.length() >= 8_210_266_876_800
                    * 1_000_000_000),
            },
    {
        match SavedAuthInfo::convert_from_api(api_auth, now) {
            Ok(saved) => Ok(Self::FullAuthInfo(saved)),
            Err(e) => Err(e),
        }
    }

    /// The token to renew the credentials with.
    pub fn refresh_token(&self) -> (r: &str)
        ensures
            r@ == self.token_text(),
    {
        match self {
            Self::RefreshToken(rt) => rt.as_str(),
            Self::FullAuthInfo(sai) => sai.refresh_token.as_str(),
        }
    }

    /// Whether the credentials have to be renewed at the moment `now`.
    pub fn is_expired(&self, now: Moment) -> (r: bool)
        ensures
            r == self.expired_at(now),
    {
        match self {
            Self::RefreshToken(_) => true,
            Self::FullAuthInfo(sai) => sai.expires_at.since(&now).is_at_most_seconds(
                EXPIRY_GRACE_SECS,
            ),
        }
    }
}

/// What the program runs with: the settings and the credentials.
#[derive(Debug, PartialEq, Eq)]
pub struct Config {
    pub settings: ConfigFile,
    pub auth: AuthInfo,
}

impl Config {
    /// What the program runs with, from the settings, the refresh token
    /// that the command line gave, and the credentials kept from an earlier
    /// run. A token from the command line goes before kept credentials;
    /// without either there is nothing to run with.
    pub fn generate(
        settings: ConfigFile,
        refresh_token: Option<String>,
        saved: Option<AuthInfo>,
    ) -> (r: Option<Config>)
        ensures
            match refresh_token {
                Some(rt) => r matches Some(c) && c.settings == settings && c.auth
                    == AuthInfo::RefreshToken(rt),
                None => match saved {
                    Some(auth) => r matches Some(c) && c.settings == settings && c.auth == auth,
                    None => r is None,
                },
            },
    {
        let auth = match refresh_token {
            Some(rt) => AuthInfo::RefreshToken(rt),
            None => match saved {
                Some(auth) => auth,
                None => {
                    return None;
                },
            },
        };
        Some(Config { settings, auth })
    }

    /// Takes the credentials that the broker's client holds at the moment
    /// `now` as the ones to run with and to keep. Where they cannot be
    /// kept, the credentials at hand stay.
    pub fn save_new_auth_info(&mut self, auth_info: AuthenticationInfo, now: Moment) -> (r: Result<
        (),
        AuthError,
    >)
        ensures
            final(self).settings == old(self).settings,
            match r {
                Ok(_) => final(self).auth matches AuthInfo::FullAuthInfo(saved)
                    && saved.refresh_token@ == auth_info.refresh_token@ && saved.access_token@
                    == auth_info.access_token@ && saved.api_server@ == auth_info.api_server@
                    && saved.is_demo == auth_info.is_demo && saved.expires_at.at() == now.at()
                    + auth_info.expires_in.length(),
                Err(e) => e == AuthError::ExpiryOutOfRange && final(self).auth == old(self).auth
                    && (now.at() + auth_info.expires_in.length() < -8_334_601_228_800
                    * 1_000_000_000 || now.at() + auth_info.expires_in.length()
                    >= 8_210_266_876_800 * 1_000_000_000),
            },
    {
        match AuthInfo::convert_from_api_auth(auth_info, now) {
            Ok(auth) => {
                self.auth = auth;
                Ok(())
            },
            Err(e) => Err(e),
        }
    }
}

} // verus!
