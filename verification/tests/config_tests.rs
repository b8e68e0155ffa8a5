use qtmon::account::{
    Account, AccountStatus, AccountType, ClientAccountType, Currency,
};
use qtmon::clock::{Moment, Span};
use qtmon::config::{
    on_missing_settings, validate_pathbuf, AccountSelector, AccountToSync, AuthError, AuthInfo,
    AuthenticationInfo, Config, ConfigFile, Duplicate, LevelFilter, LogLevel, MissingSettings,
    PathBase, SavedAuthInfo,
};

fn account() -> Account {
    Account {
        account_type: AccountType::TFSA,
        number: "123".to_string(),
        status: AccountStatus::Active,
        is_primary: true,
        is_billing: false,
        client_account_type: ClientAccountType::Joint,
    }
}

fn settings() -> ConfigFile {
    ConfigFile {
        db_file_path: "db.ron".to_string(),
        auth_file_path: "auth.ron".to_string(),
        log_file_dir: "logs".to_string(),
        file_log_level: LogLevel::Info,
        stdout_log_level: LogLevel::Warn,
        http_port: 49494,
        accounts_to_sync: vec![AccountToSync(
            "Primary".to_string(),
            vec![AccountSelector::IsPrimary(true)],
        )],
        account_balance_currency: Currency::CAD,
        delay: 300,
    }
}

fn saved(expires_at: Moment) -> SavedAuthInfo {
    SavedAuthInfo {
        refresh_token: "refresh".to_string(),
        access_token: "access".to_string(),
        expires_at,
        api_server: "https://api".to_string(),
        is_demo: true,
    }
}

#[test]
fn log_levels_to_usable() {
    assert_eq!(LogLevel::Off.to_usable(), (LevelFilter::Off, Duplicate::Off));
    assert_eq!(LogLevel::Info.to_usable(), (LevelFilter::Info, Duplicate::Info));
    assert_eq!(LogLevel::Warn.to_usable(), (LevelFilter::Warn, Duplicate::Warn));
    assert_eq!(LogLevel::Error.to_usable(), (LevelFilter::Error, Duplicate::Error));
}

#[test]
fn each_selector_looks_at_its_field() {
    let a = account();
    assert!(AccountSelector::Number("123".to_string()).check_account_match(&a));
    assert!(!AccountSelector::Number("124".to_string()).check_account_match(&a));
    assert!(AccountSelector::IsPrimary(true).check_account_match(&a));
    assert!(!AccountSelector::IsPrimary(false).check_account_match(&a));
    assert!(AccountSelector::IsBilling(false).check_account_match(&a));
    assert!(!AccountSelector::IsBilling(true).check_account_match(&a));
    assert!(AccountSelector::AccountType(AccountType::TFSA).check_account_match(&a));
    assert!(!AccountSelector::AccountType(AccountType::Cash).check_account_match(&a));
    assert!(AccountSelector::ClientAccountType(ClientAccountType::Joint).check_account_match(&a));
    assert!(
        !AccountSelector::ClientAccountType(ClientAccountType::Family).check_account_match(&a)
    );
    assert!(AccountSelector::Status(AccountStatus::Active).check_account_match(&a));
    assert!(!AccountSelector::Status(AccountStatus::Closed).check_account_match(&a));
}

#[test]
fn a_rule_asks_for_every_selector() {
    let a = account();
    let all = AccountToSync(
        "x".to_string(),
        vec![
            AccountSelector::IsPrimary(true),
            AccountSelector::Number("123".to_string()),
        ],
    );
    assert!(all.check_account_match(&a));
    let one_off = AccountToSync(
        "x".to_string(),
        vec![
            AccountSelector::IsPrimary(true),
            AccountSelector::Number("999".to_string()),
        ],
    );
    assert!(!one_off.check_account_match(&a));
    let none = AccountToSync("x".to_string(), vec![]);
    assert!(none.check_account_match(&a));
}

#[test]
fn a_rule_and_its_name() {
    let named = AccountToSync("Primary".to_string(), vec![]);
    assert_eq!(named.name(), "Primary");
    assert!(!named.name_is_empty());
    let bare = AccountToSync(String::new(), vec![]);
    assert_eq!(bare.name(), "");
    assert!(bare.name_is_empty());
}

#[test]
fn validate_pathbuf_for_each_case() {
    assert_eq!(validate_pathbuf(true, false), PathBase::ProgramDirectory);
    assert_eq!(validate_pathbuf(true, true), PathBase::BesideConfigFile);
    assert_eq!(validate_pathbuf(false, false), PathBase::AsGiven);
    assert_eq!(validate_pathbuf(false, true), PathBase::AsGiven);
}

#[test]
fn refresh_token_of_each_kind() {
    assert_eq!(AuthInfo::RefreshToken("abc".to_string()).refresh_token(), "abc");
    let full = AuthInfo::FullAuthInfo(saved(Moment::new(0, 0).unwrap()));
    assert_eq!(full.refresh_token(), "refresh");
}

#[test]
fn a_token_alone_is_always_expired() {
    let now = Moment::new(1_000, 0).unwrap();
    assert!(AuthInfo::RefreshToken("abc".to_string()).is_expired(now));
}

#[test]
fn full_credentials_expire_five_minutes_early() {
    let now = Moment::new(1_000_000, 500).unwrap();
    let at = |secs: i64, nanos: u32| AuthInfo::FullAuthInfo(saved(Moment::new(secs, nanos).unwrap()));
    assert!(at(1_000_300, 500).is_expired(now));
    assert!(!at(1_000_300, 501).is_expired(now));
    assert!(at(1_000_300, 499).is_expired(now));
    assert!(at(1_000_299, 999_999_999).is_expired(now));
    assert!(!at(1_000_301, 0).is_expired(now));
    assert!(at(999_999, 0).is_expired(now));
    assert!(!at(2_000_000, 0).is_expired(now));
}

#[test]
fn convert_to_api_counts_from_now() {
    let s = saved(Moment::new(2_000, 250).unwrap());
    let api = s.convert_to_api(Moment::new(1_500, 750).unwrap());
    assert_eq!(api.refresh_token, "refresh");
    assert_eq!(api.access_token, "access");
    assert_eq!(api.api_server, "https://api");
    assert!(!api.is_demo);
    assert_eq!(api.expires_in, Span::new(499, 999_999_500).unwrap());
    let late = s.convert_to_api(Moment::new(2_001, 0).unwrap());
    assert_eq!(late.expires_in, Span::new(-1, 250).unwrap());
}

#[test]
fn convert_from_api_counts_from_now() {
    let api = AuthenticationInfo {
        refresh_token: "r".to_string(),
        access_token: "a".to_string(),
        expires_in: Span::new(1_800, 5).unwrap(),
        api_server: "s".to_string(),
        is_demo: true,
    };
    let kept = SavedAuthInfo::convert_from_api(api, Moment::new(1_000, 999_999_999).unwrap());
    assert_eq!(
        kept,
        Ok(SavedAuthInfo {
            refresh_token: "r".to_string(),
            access_token: "a".to_string(),
            expires_at: Moment::new(2_801, 4).unwrap(),
            api_server: "s".to_string(),
            is_demo: true,
        })
    );
}

#[test]
fn convert_from_api_out_of_range() {
    let api = AuthenticationInfo {
        refresh_token: "r".to_string(),
        access_token: "a".to_string(),
        expires_in: Span::new(i64::MAX, 0).unwrap(),
        api_server: "s".to_string(),
        is_demo: false,
    };
    assert_eq!(
        AuthInfo::convert_from_api_auth(api, Moment::new(0, 0).unwrap()),
        Err(AuthError::ExpiryOutOfRange)
    );
}

#[test]
fn there_and_back_keeps_the_expiry() {
    let s = saved(Moment::new(5_000, 123).unwrap());
    let now = Moment::new(4_000, 900_000_000).unwrap();
    let mut api = s.convert_to_api(now);
    api.is_demo = true;
    assert_eq!(SavedAuthInfo::convert_from_api(api, now), Ok(s));
}

#[test]
fn generate_prefers_the_command_line() {
    let kept = AuthInfo::FullAuthInfo(saved(Moment::new(0, 0).unwrap()));
    let c = Config::generate(settings(), Some("fresh".to_string()), Some(kept)).unwrap();
    assert_eq!(c.auth, AuthInfo::RefreshToken("fresh".to_string()));
    assert_eq!(c.settings, settings());
    let d = Config::generate(settings(), Some("fresh".to_string()), None).unwrap();
    assert_eq!(d.auth, AuthInfo::RefreshToken("fresh".to_string()));
}

#[test]
fn generate_falls_back_on_what_was_kept() {
    let kept = AuthInfo::FullAuthInfo(saved(Moment::new(7, 0).unwrap()));
    let c = Config::generate(settings(), None, Some(kept)).unwrap();
    assert_eq!(c.auth, AuthInfo::FullAuthInfo(saved(Moment::new(7, 0).unwrap())));
    assert_eq!(Config::generate(settings(), None, None), None);
}

#[test]
fn save_new_auth_info_replaces_the_credentials() {
    let mut c = Config::generate(settings(), Some("fresh".to_string()), None).unwrap();
    let api = AuthenticationInfo {
        refresh_token: "r".to_string(),
        access_token: "a".to_string(),
        expires_in: Span::new(1_800, 0).unwrap(),
        api_server: "s".to_string(),
        is_demo: false,
    };
    assert_eq!(c.save_new_auth_info(api, Moment::new(100, 0).unwrap()), Ok(()));
    assert_eq!(c.auth.refresh_token(), "r");
    assert!(!c.auth.is_expired(Moment::new(100, 0).unwrap()));
    assert!(c.auth.is_expired(Moment::new(1_600, 0).unwrap()));
    assert_eq!(c.settings, settings());
}

#[test]
fn save_new_auth_info_keeps_the_old_on_failure() {
    let mut c = Config::generate(settings(), Some("fresh".to_string()), None).unwrap();
    let api = AuthenticationInfo {
        refresh_token: "r".to_string(),
        access_token: "a".to_string(),
        expires_in: Span::new(i64::MIN, 0).unwrap(),
        api_server: "s".to_string(),
        is_demo: false,
    };
    assert_eq!(
        c.save_new_auth_info(api, Moment::new(100, 0).unwrap()),
        Err(AuthError::ExpiryOutOfRange)
    );
    assert_eq!(c.auth, AuthInfo::RefreshToken("fresh".to_string()));
}

#[test]
fn a_missing_settings_file_is_written_in_the_default_place_only() {
    assert_eq!(on_missing_settings(false, true), MissingSettings::WriteDefaultThenUse);
    assert_eq!(on_missing_settings(true, true), MissingSettings::Fail);
    assert_eq!(on_missing_settings(false, false), MissingSettings::Fail);
    assert_eq!(on_missing_settings(true, false), MissingSettings::Fail);
}
