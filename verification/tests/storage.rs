use webauthn_authenticator_rs::softtoken::SoftToken;
use webauthn_authenticator_rs::AuthenticatorBackend;
use webauthn_rs::prelude::Url;
use webauthn_rs::WebauthnBuilder;
use webauthn_tiny::handlers::stored_form;
use webauthn_tiny::relying_party::RelyingParty;
use webauthn_tiny::app::{Credential, CredentialWithName, UserWithCredentials};
use webauthn_tiny::error::StorageFailure;
use webauthn_tiny::storage::{
    credential_from_material, credential_inserted, credential_touched, database_outcome,
    looked_again, material_selected, user_from_rows, user_inserted, JoinedRow, UserInsert,
};
use webauthn_tiny::AppError;

fn sqlite_failure(code: i32) -> rusqlite::Error {
    rusqlite::Error::SqliteFailure(rusqlite::ffi::Error::new(code), None)
}

fn row(id: u128, username: &str, name: Option<&str>, value: Option<&str>) -> JoinedRow {
    JoinedRow {
        id,
        username: username.to_string(),
        name: name.map(|n| n.to_string()),
        value: value.map(|v| v.to_string()),
    }
}

/// A credential as a real authenticator and the ceremony library make it.
fn real_credential() -> Credential {
    let origin = Url::parse("https://localhost:8080").unwrap();
    let party = RelyingParty::new("localhost", &origin, &vec![], false).unwrap();
    let (mut token, _) = SoftToken::new(true).unwrap();
    let (challenge, state) = party.start_registration(1, "someone", None).unwrap();
    let answer = token
        .perform_register(origin, challenge.public_key, 60000)
        .unwrap();
    stored_form(&party.finish_registration(&answer, &state).unwrap()).unwrap()
}

#[test]
fn database_errors_are_told_apart() {
    assert_eq!(database_outcome(Ok::<usize, rusqlite::Error>(3)), Ok(3));
    // SQLITE_CONSTRAINT, and its extended code for a unique constraint
    assert_eq!(
        database_outcome::<usize>(Err(sqlite_failure(19))),
        Err(StorageFailure::ConstraintViolation)
    );
    assert_eq!(
        database_outcome::<usize>(Err(sqlite_failure(2067))),
        Err(StorageFailure::ConstraintViolation)
    );
    assert_eq!(
        database_outcome::<usize>(Err(rusqlite::Error::QueryReturnedNoRows)),
        Err(StorageFailure::NoRows)
    );
    // SQLITE_BUSY, and an error that does not come from SQLite
    assert_eq!(
        database_outcome::<usize>(Err(sqlite_failure(5))),
        Err(StorageFailure::Other)
    );
    assert_eq!(
        database_outcome::<usize>(Err(rusqlite::Error::InvalidQuery)),
        Err(StorageFailure::Other)
    );
}

#[test]
fn a_real_database_reports_what_the_store_expects() {
    let db = rusqlite::Connection::open_in_memory().unwrap();
    db.execute(
        "create table users (id text primary key not null, username text not null unique)",
        [],
    )
    .unwrap();
    let insert = "insert into users (id, username) values (?1, ?2)";
    assert_eq!(database_outcome(db.execute(insert, ("1", "alice"))), Ok(1));
    assert_eq!(
        user_inserted(database_outcome(db.execute(insert, ("2", "alice")))),
        UserInsert::LookAgain
    );
    assert_eq!(
        database_outcome(db.query_row(
            "select id from users where username = ?1",
            ("bob",),
            |row| row.get::<_, String>(0)
        )),
        Err(StorageFailure::NoRows)
    );
    assert_eq!(
        credential_touched(database_outcome(db.execute("delete from nowhere", []))),
        Err(AppError::StorageError)
    );
}

#[test]
fn insert_of_a_credential_row() {
    assert_eq!(credential_inserted(Ok(1)), Ok(()));
    assert_eq!(credential_inserted(Ok(0)), Err(AppError::UserNotFound));
    assert_eq!(
        credential_inserted(Err(StorageFailure::ConstraintViolation)),
        Err(AppError::DuplicateCredential)
    );
    assert_eq!(
        credential_inserted(Err(StorageFailure::NoRows)),
        Err(AppError::EntityNotFound)
    );
    assert_eq!(
        credential_inserted(Err(StorageFailure::Other)),
        Err(AppError::StorageError)
    );
}

#[test]
fn delete_or_update_by_credential_id() {
    assert_eq!(credential_touched(Ok(1)), Ok(()));
    assert_eq!(credential_touched(Ok(2)), Ok(()));
    assert_eq!(credential_touched(Ok(0)), Err(AppError::CredentialNotFound));
    assert_eq!(
        credential_touched(Err(StorageFailure::ConstraintViolation)),
        Err(AppError::BadInput)
    );
    assert_eq!(
        credential_touched(Err(StorageFailure::Other)),
        Err(AppError::StorageError)
    );
}

#[test]
fn select_of_a_record() {
    assert_eq!(material_selected(Ok("m".to_string())), Ok("m".to_string()));
    assert_eq!(
        material_selected(Err(StorageFailure::NoRows)),
        Err(AppError::CredentialNotFound)
    );
    assert_eq!(
        material_selected(Err(StorageFailure::Other)),
        Err(AppError::StorageError)
    );
    assert_eq!(
        material_selected(Err(StorageFailure::ConstraintViolation)),
        Err(AppError::BadInput)
    );
}

#[test]
fn insert_of_a_user_row() {
    assert_eq!(user_inserted(Ok(1)), UserInsert::Created);
    assert_eq!(
        user_inserted(Err(StorageFailure::ConstraintViolation)),
        UserInsert::LookAgain
    );
    assert_eq!(
        user_inserted(Err(StorageFailure::Other)),
        UserInsert::Failed(AppError::StorageError)
    );
    assert_eq!(
        user_inserted(Err(StorageFailure::NoRows)),
        UserInsert::Failed(AppError::EntityNotFound)
    );
    let user = UserWithCredentials {
        id: 1,
        username: "alice".to_string(),
        credentials: vec![],
    };
    assert_eq!(looked_again(None), Err(AppError::BadInput));
    assert_eq!(
        looked_again(Some(UserWithCredentials {
            id: 1,
            username: "alice".to_string(),
            credentials: vec![],
        })),
        Ok(user)
    );
}

#[test]
fn rows_are_put_together_into_a_user() {
    let (first, second) = (real_credential(), real_credential());
    assert_eq!(user_from_rows(vec![]), Ok(None));
    assert_eq!(
        user_from_rows(vec![row(7, "alice", None, None)]),
        Ok(Some(UserWithCredentials {
            id: 7,
            username: "alice".to_string(),
            credentials: vec![],
        }))
    );
    assert_eq!(
        user_from_rows(vec![
            row(7, "alice", Some("one"), Some(&first.material)),
            row(7, "alice", Some("two"), Some(&second.material)),
        ]),
        Ok(Some(UserWithCredentials {
            id: 7,
            username: "alice".to_string(),
            credentials: vec![
                CredentialWithName {
                    name: "one".to_string(),
                    credential: first,
                },
                CredentialWithName {
                    name: "two".to_string(),
                    credential: second,
                },
            ],
        }))
    );
}

#[test]
fn a_row_with_an_unreadable_record_fails_the_whole() {
    let good = real_credential();
    assert_eq!(
        user_from_rows(vec![
            row(7, "alice", Some("one"), Some(&good.material)),
            row(7, "alice", Some("two"), Some("corrupt")),
        ]),
        Err(AppError::SerializationError)
    );
    assert_eq!(
        user_from_rows(vec![
            row(7, "alice", Some("two"), Some("{}")),
            row(7, "alice", Some("one"), Some(&good.material)),
        ]),
        Err(AppError::SerializationError)
    );
    // not even where the rows describe no user
    assert_eq!(
        user_from_rows(vec![row(0, "alice", Some("two"), Some("corrupt"))]),
        Err(AppError::SerializationError)
    );
}

#[test]
fn rows_without_name_or_record_hold_no_credential() {
    let good = real_credential();
    let user = user_from_rows(vec![
        row(7, "alice", Some("one"), None),
        row(7, "alice", None, Some("never read")),
        row(7, "alice", Some("three"), Some(&good.material)),
    ])
    .unwrap()
    .unwrap();
    assert_eq!(user.credentials.len(), 1);
    assert_eq!(user.credentials[0].name, "three");
    assert_eq!(user.credentials[0].credential, good);
    // the id zero stands for no user
    assert_eq!(user_from_rows(vec![row(0, "alice", None, None)]), Ok(None));
    // id and name are those of the last row
    let user = user_from_rows(vec![row(1, "old", None, None), row(2, "new", None, None)])
        .unwrap()
        .unwrap();
    assert_eq!(user.id, 2);
    assert_eq!(user.username, "new");
}

#[test]
fn a_record_is_read_back_into_a_credential() {
    assert_eq!(credential_from_material("not a passkey".to_string()), None);
    assert_eq!(credential_from_material("{}".to_string()), None);

    let origin = Url::parse("https://localhost:8080").unwrap();
    let webauthn = WebauthnBuilder::new("localhost", &origin)
        .unwrap()
        .build()
        .unwrap();
    let (mut token, _) = SoftToken::new(true).unwrap();
    let (challenge, state) = webauthn
        .start_passkey_registration(uuid::Uuid::from_u128(1), "alice", "alice", None)
        .unwrap();
    let answer = token
        .perform_register(origin.clone(), challenge.public_key, 60000)
        .unwrap();
    let passkey = webauthn.finish_passkey_registration(&answer, &state).unwrap();
    let material = serde_json::to_string(&passkey).unwrap();

    let credential = credential_from_material(material.clone()).unwrap();
    assert_eq!(credential.id, passkey.cred_id().to_vec());
    assert_eq!(credential.material, material);
}
