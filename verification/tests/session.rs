use webauthn_rs::prelude::Url;
use webauthn_rs::WebauthnBuilder;
use webauthn_tiny::session::{unexpired, Record, Session, SqliteSessionStore};
use webauthn_tiny::AppError;

fn record(id: &str, username: &str, expiry_date: i64) -> Record {
    let mut data = Session::new();
    data.username = Some(username.to_string());
    Record {
        id: id.to_string(),
        data,
        expiry_date,
    }
}

fn store() -> SqliteSessionStore {
    let mut store = SqliteSessionStore::new();
    store.init().unwrap();
    store
}

#[test]
fn test_session_lifecycle() {
    let mut store = SqliteSessionStore::new();
    store.init().unwrap();

    {
        let session = record("first", "alice", 100);

        store.create(&session).unwrap();
        let loaded = store.load(&session.id, 0).unwrap().unwrap();
        store.delete(&loaded.id).unwrap();
        assert!(store.is_empty());
    }

    {
        let session = record("second", "alice", 100);
        store.create(&session).unwrap();
        store.clear().unwrap();
        assert!(store.is_empty());
    }
}

#[test]
fn a_new_session_holds_nothing() {
    let session = Session::new();
    assert_eq!(session.username, None);
    assert!(!session.logged_in);
    assert_eq!(session.redirect_url, None);
    assert!(session.passkey_registration.is_none());
    assert!(session.passkey_authentication.is_none());
}

#[test]
fn session_init_is_idempotent() {
    let mut store = store();
    store.save(&record("a", "alice", 10)).unwrap();
    assert_eq!(store.init(), Ok(()));
    assert!(!store.is_empty());
    assert!(store.load(&"a".to_string(), 0).unwrap().is_some());
}

#[test]
fn store_without_table_fails() {
    let mut store = SqliteSessionStore::new();
    assert!(store.is_empty());
    assert_eq!(
        store.save(&record("a", "alice", 10)),
        Err(AppError::StorageError)
    );
    assert_eq!(
        store.create(&record("a", "alice", 10)),
        Err(AppError::StorageError)
    );
    assert!(matches!(
        store.load(&"a".to_string(), 0),
        Err(AppError::StorageError)
    ));
    assert_eq!(store.delete(&"a".to_string()), Err(AppError::StorageError));
    assert_eq!(store.clear(), Err(AppError::StorageError));
}

#[test]
fn load_returns_what_was_saved() {
    let mut store = store();
    store.save(&record("a", "alice", 10)).unwrap();
    store.save(&record("b", "bob", 10)).unwrap();
    let loaded = store.load(&"b".to_string(), 9).unwrap().unwrap();
    assert_eq!(loaded.id, "b");
    assert_eq!(loaded.data.username, Some("bob".to_string()));
    assert_eq!(loaded.expiry_date, 10);
    let loaded = store.load(&"a".to_string(), 9).unwrap().unwrap();
    assert_eq!(loaded.data.username, Some("alice".to_string()));
}

#[test]
fn unknown_and_expired_sessions_are_absent() {
    let mut store = store();
    store.save(&record("a", "alice", 10)).unwrap();
    assert!(store.load(&"zzz".to_string(), 0).unwrap().is_none());
    assert!(store.load(&"a".to_string(), 9).unwrap().is_some());
    assert!(store.load(&"a".to_string(), 10).unwrap().is_none());
    assert!(store.load(&"a".to_string(), 11).unwrap().is_none());
    // an expired record is still stored
    assert!(!store.is_empty());
}

#[test]
fn unexpired_needs_time_left() {
    assert_eq!(unexpired("a", 10, 9), Some("a"));
    assert_eq!(unexpired("a", 10, 10), None);
    assert_eq!(unexpired("a", 10, 11), None);
    assert_eq!(unexpired("a", -5, -6), Some("a"));
    assert_eq!(unexpired("a", i64::MIN, i64::MIN), None);
    assert_eq!(unexpired("a", i64::MAX, i64::MIN), Some("a"));
}

#[test]
fn the_last_writer_wins() {
    let mut store = store();
    store.save(&record("a", "alice", 10)).unwrap();
    store.save(&record("b", "bob", 10)).unwrap();
    store.save(&record("a", "carol", 20)).unwrap();
    let loaded = store.load(&"a".to_string(), 15).unwrap().unwrap();
    assert_eq!(loaded.data.username, Some("carol".to_string()));
    assert_eq!(loaded.expiry_date, 20);
    store.delete(&"a".to_string()).unwrap();
    assert!(store.load(&"a".to_string(), 0).unwrap().is_none());
    assert!(store.load(&"b".to_string(), 0).unwrap().is_some());
}

#[test]
fn deleting_an_unknown_session_is_no_error() {
    let mut store = store();
    store.save(&record("a", "alice", 10)).unwrap();
    assert_eq!(store.delete(&"b".to_string()), Ok(()));
    assert!(store.load(&"a".to_string(), 0).unwrap().is_some());
}

#[test]
fn a_stored_session_keeps_its_ceremony_state() {
    let origin = Url::parse("https://localhost:8080").unwrap();
    let webauthn = WebauthnBuilder::new("localhost", &origin)
        .unwrap()
        .build()
        .unwrap();
    let (_, state) = webauthn
        .start_passkey_registration(uuid::Uuid::from_u128(1), "alice", "alice", None)
        .unwrap();
    let written = serde_json::to_string(&state).unwrap();

    let mut session = record("a", "alice", 10);
    session.data.passkey_registration = Some(state);
    session.data.logged_in = true;
    session.data.redirect_url = Some("/credentials".to_string());

    let mut store = store();
    store.save(&session).unwrap();
    let loaded = store.load(&"a".to_string(), 0).unwrap().unwrap();
    assert!(loaded.data.logged_in);
    assert_eq!(loaded.data.redirect_url, Some("/credentials".to_string()));
    assert!(loaded.data.passkey_authentication.is_none());
    assert_eq!(
        serde_json::to_string(&loaded.data.passkey_registration.unwrap()).unwrap(),
        written
    );
}
