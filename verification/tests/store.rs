use racoes_bot::bot::location_handler;
use racoes_bot::db::{StoreError, UserPreference, UserStore};
use racoes_bot::err::Error;
use racoes_bot::tg::TgResponse;

fn pref(id: u64, tz: &str) -> UserPreference {
    UserPreference {
        external_id: id,
        first_name: "Grace".to_string(),
        last_name: None,
        username: Some("grace".to_string()),
        timezone: Some(tz.to_string()),
    }
}

#[test]
fn upsert_inserts_unseen_id() {
    let mut store = UserStore::new();
    assert_eq!(store.len(), 0);
    store.upsert(pref(1, "Europe/London"));
    assert_eq!(store.len(), 1);
    let row = store.get(1).expect("row inserted");
    assert_eq!(row.timezone.as_deref(), Some("Europe/London"));
}

#[test]
fn upsert_twice_same_id_keeps_one_row_with_second_timezone() {
    let mut store = UserStore::new();
    store.upsert(pref(5, "Europe/London"));
    store.upsert(pref(5, "America/New_York"));
    assert_eq!(store.len(), 1);
    let row = store.get(5).expect("exactly one row for the id");
    assert_eq!(row.timezone.as_deref(), Some("America/New_York"));
}

#[test]
fn upsert_overwrites_mutable_fields_but_not_the_key() {
    let mut store = UserStore::new();
    store.upsert(pref(9, "Asia/Tokyo"));
    store.upsert(UserPreference {
        external_id: 9,
        first_name: "Grace".to_string(),
        last_name: Some("Hopper".to_string()),
        username: None,
        timezone: None,
    });
    assert_eq!(store.len(), 1);
    let row = store.get(9).expect("row kept");
    assert_eq!(row.external_id, 9);
    assert_eq!(row.last_name.as_deref(), Some("Hopper"));
    assert_eq!(row.username, None);
    assert_eq!(row.timezone, None);
}

#[test]
fn upsert_keeps_other_ids_untouched() {
    let mut store = UserStore::new();
    store.upsert(pref(1, "Europe/London"));
    store.upsert(pref(2, "Europe/Paris"));
    store.upsert(pref(1, "Asia/Tokyo"));
    assert_eq!(store.len(), 2);
    assert_eq!(store.get(2).unwrap().timezone.as_deref(), Some("Europe/Paris"));
    assert_eq!(store.get(1).unwrap().timezone.as_deref(), Some("Asia/Tokyo"));
    assert!(store.get(3).is_none());
}

#[test]
fn store_fault_reports_failed_set_timezone() {
    let fault = StoreError::Database("connection reset".to_string());
    let logged = fault.describe();
    assert_eq!(logged, "Database error: connection reset");
    let resp = location_handler("Europe/London".to_string(), Err(fault));
    match resp {
        TgResponse::FailedSetTimezone(tz) => assert_eq!(tz, "Europe/London"),
        _ => panic!("a store fault must be reported as a failed timezone set"),
    }
}

#[test]
fn store_success_reports_chosen_timezone() {
    let resp = location_handler("Europe/London".to_string(), Ok(()));
    match resp {
        TgResponse::ChosenTimezone(tz) => assert_eq!(tz, "Europe/London"),
        _ => panic!("a successful store must confirm the chosen timezone"),
    }
}

#[test]
fn file_fault_describes_itself() {
    let fault = StoreError::File("missing data directory".to_string());
    assert_eq!(fault.describe(), "File error: missing data directory");
}

#[test]
fn handler_error_wraps_store_fault() {
    let err = Error::from(StoreError::Database("timeout".to_string()));
    match &err {
        Error::Database(_) => {}
        _ => panic!("a store fault must map to the database variant"),
    }
    assert_eq!(err.describe(), "Database error Database error: timeout");
}

#[test]
fn delivery_error_describes_itself() {
    let err = Error::Delivery("bad gateway".to_string());
    assert_eq!(err.describe(), "Telegram request error bad gateway");
}
