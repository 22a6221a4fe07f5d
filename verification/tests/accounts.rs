use std::collections::BTreeSet;
use tantivy_eml_dump::account::{
    account_pk, AccountType, AccountV1, AccountV2, AccountV3, AuthConfig, AuthType, DateSince,
    Encryption, ImapConfig, RelativeDate, Unit,
};
use tantivy_eml_dump::selection::{
    account_label, choose_account, selected_account, AccountChoice,
};

fn first_version() -> AccountV1 {
    AccountV1 {
        id: 7,
        imap: Some(ImapConfig {
            host: "imap.example.com".to_string(),
            port: 993,
            encryption: Encryption::StartTls,
            auth: AuthConfig {
                auth_type: AuthType::OAuth2,
                password: Some("pw".to_string()),
            },
            use_proxy: Some(3),
        }),
        enabled: true,
        email: "user@example.com".to_string(),
        name: Some("User".to_string()),
        capabilities: Some(vec!["IDLE".to_string()]),
        date_since: Some(DateSince {
            fixed: None,
            relative: Some(RelativeDate {
                unit: Unit::Months,
                value: 6,
            }),
        }),
        folder_limit: Some(100),
        sync_folders: Some(vec!["INBOX".to_string()]),
        account_type: AccountType::NoSync,
        sync_interval_min: Some(-5),
        known_folders: Some(BTreeSet::from(["INBOX".to_string(), "Sent".to_string()])),
        created_at: 1700000000000,
        updated_at: 1700000000001,
        use_proxy: Some(4),
    }
}

#[test]
fn upgrades_fill_the_new_fields() {
    let v2 = AccountV2::from(first_version());
    assert!(!v2.use_dangerous);
    assert_eq!(v2.pgp_key, None);
    let v3 = AccountV3::from(v2);
    assert_eq!(v3.date_before, None);
    assert_eq!(v3.sync_batch_size, None);
    assert_eq!(v3.created_by, 1);
    assert_eq!(v3.email, "user@example.com");
    assert_eq!(v3.known_folders.unwrap().len(), 2);
}

#[test]
fn upgrades_lose_nothing() {
    let v1 = first_version();
    let v2 = AccountV2::from(v1.clone());
    let v3 = AccountV3::from(v2.clone());
    assert_eq!(AccountV1::from(v2.clone()), v1);
    assert_eq!(AccountV2::from(v3.clone()), v2);
    assert_eq!(AccountV1::from(AccountV2::from(v3)), v1);
}

#[test]
fn downgrades_reset_the_new_fields() {
    let mut v3 = AccountV3::from(AccountV2::from(first_version()));
    v3.date_before = Some(RelativeDate {
        unit: Unit::Years,
        value: 1,
    });
    v3.sync_batch_size = Some(50);
    v3.created_by = 9;
    v3.use_dangerous = true;
    v3.pgp_key = Some("key".to_string());
    let again = AccountV3::from(AccountV2::from(v3.clone()));
    assert_eq!(
        again,
        AccountV3 {
            date_before: None,
            sync_batch_size: None,
            created_by: 1,
            ..v3.clone()
        }
    );
    let v2 = AccountV2::from(v3);
    let again = AccountV2::from(AccountV1::from(v2.clone()));
    assert_eq!(
        again,
        AccountV2 {
            use_dangerous: false,
            pgp_key: None,
            ..v2
        }
    );
}

#[test]
fn primary_key_is_time_and_id() {
    let v1 = first_version();
    assert_eq!(v1.pk(), "1700000000000_7");
    let v2 = AccountV2::from(v1);
    assert_eq!(v2.pk(), "1700000000000_7");
    assert_eq!(AccountV3::from(v2).pk(), "1700000000000_7");
}

#[test]
fn primary_key_covers_all_numbers() {
    assert_eq!(account_pk(0, 0), "0_0");
    assert_eq!(account_pk(-1, 10), "-1_10");
    assert_eq!(
        account_pk(i64::MIN, u64::MAX),
        "-9223372036854775808_18446744073709551615"
    );
    assert_eq!(account_pk(i64::MAX, 9), "9223372036854775807_9");
}

#[test]
fn different_accounts_have_different_keys() {
    assert_ne!(account_pk(1, 23), account_pk(12, 3));
    assert_ne!(account_pk(-1, 2), account_pk(1, 2));
}

#[test]
fn defaults() {
    assert_eq!(AccountType::default(), AccountType::IMAP);
    assert_eq!(Encryption::default(), Encryption::Ssl);
    assert_eq!(AuthType::default(), AuthType::Password);
    assert_eq!(Unit::default(), Unit::Days);
    assert_eq!(AuthConfig::default().password, None);
    assert_eq!(ImapConfig::default().port, 0);
    assert_eq!(RelativeDate::default().value, 0);
    assert_eq!(DateSince::default().fixed, None);
    assert_eq!(AccountV1::default().email, "");
    assert_eq!(AccountV2::default().pk(), "0_0");
    assert_eq!(AccountV3::default().created_by, 0);
}

fn account(id: u64, email: &str, name: Option<&str>) -> AccountV3 {
    AccountV3 {
        id,
        email: email.to_string(),
        name: name.map(|n| n.to_string()),
        ..AccountV3::default()
    }
}

#[test]
fn label_shows_address_and_name() {
    assert_eq!(account_label(&account(1, "a@b", Some("Ann"))), "a@b | Ann");
    assert_eq!(account_label(&account(1, "a@b", None)), "a@b | (no name)");
}

#[test]
fn choice_depends_on_the_number_of_accounts() {
    assert!(matches!(choose_account(&[]), AccountChoice::NoAccounts));
    match choose_account(&[account(1, "a@b", None)]) {
        AccountChoice::Only { label } => assert_eq!(label, "a@b | (no name)"),
        other => panic!("{other:?}"),
    }
    match choose_account(&[account(1, "a@b", None), account(2, "c@d", Some("C"))]) {
        AccountChoice::Ask { labels } => assert_eq!(labels, ["a@b | (no name)", "c@d | C"]),
        other => panic!("{other:?}"),
    }
}

#[test]
fn selection_is_exported() {
    let accounts = [account(1, "a", None), account(2, "b", None), account(3, "c", None)];
    for selection in 0..3 {
        assert_eq!(selected_account(&accounts, selection), selection);
    }
}

#[test]
fn first_account_with_the_id_is_exported() {
    let accounts = [account(1, "a", None), account(2, "b", None), account(2, "c", None)];
    assert_eq!(selected_account(&accounts, 2), 1);
}
