use std::time::Duration;

use webauthn_authenticator_rs::softtoken::SoftToken;
use webauthn_authenticator_rs::{AuthenticatorBackend, WebauthnAuthenticator};
use webauthn_rs::prelude::{Passkey, Url, Uuid};
use webauthn_rs_core::WebauthnCore;
use webauthn_tiny::app::{App, Credential, CredentialWithName};
use webauthn_tiny::handlers::stored_form;
use webauthn_tiny::relying_party::RelyingParty;
use webauthn_tiny::AppError;

fn get_app_with_db() -> App {
    let mut app = App::new();
    app.init().unwrap();
    app
}

fn credential(id: &[u8], material: &str) -> Credential {
    Credential {
        id: id.to_vec(),
        material: material.to_string(),
    }
}

/// A credential as a real authenticator and the ceremony library make it.
fn real_credential() -> Credential {
    let origin = Url::parse("https://localhost:8080").unwrap();
    let party = RelyingParty::new("localhost", &origin, &vec![], false).unwrap();
    let (mut token, _) = SoftToken::new(true).unwrap();
    let (challenge, state) = party.start_registration(1, "someone", None).unwrap();
    let answer = token
        .perform_register(origin, challenge.public_key, 60000)
        .unwrap();
    stored_form(&party.finish_registration(&answer, &state).unwrap()).unwrap()
}

#[test]
fn test_init_is_idempotent() {
    let mut app = get_app_with_db();
    app.init().unwrap();
}

#[test]
fn test_get_user_with_credentials() {
    let mut app = get_app_with_db();

    assert_eq!(app.find_user(&"foo_user".to_string()), Ok(None));

    app.get_user_with_credentials("foo_user".to_string())
        .unwrap(); // user is created if they do not exist

    assert!(app
        .find_user(&"foo_user".to_string())
        .unwrap()
        .is_some());
}

#[test]
fn test_credential_lifecycle() {
    let (soft_token, _) = SoftToken::new(true).unwrap();

    let wan = WebauthnCore::new_unsafe_experts_only(
        "https://localhost:8080/auth",
        "localhost",
        vec![Url::parse("https://localhost:8080").unwrap()],
        Duration::from_secs(1),
        None,
        None,
    );
    let mut wa = WebauthnAuthenticator::new(soft_token);

    let mut app = get_app_with_db();
    let user = app
        .get_user_with_credentials("bar_user".to_string())
        .unwrap();

    assert!(user.credentials.is_empty());

    let (chal, reg_state) = wan
        .generate_challenge_register(
            wan.new_challenge_register_builder(
                &Uuid::from_u128(user.id).into_bytes(),
                &user.username,
                &user.username,
            )
            .unwrap(),
        )
        .unwrap();

    let r = wa
        .do_registration(Url::parse("https://localhost:8080").unwrap(), chal)
        .unwrap();

    let cred = wan.register_credential(&r, &reg_state, None).unwrap();

    app.add_credential(
        user.username,
        "bar_credential".to_string(),
        &stored_form(&Passkey::from(cred.clone())).unwrap(),
    )
    .unwrap();

    let user = app
        .get_user_with_credentials("bar_user".to_string())
        .unwrap();
    assert!(user.credentials.len() == 1);

    app.delete_credential(cred.cred_id.to_vec()).unwrap();

    let user = app
        .get_user_with_credentials("bar_user".to_string())
        .unwrap();
    assert!(user.credentials.is_empty());
}

#[test]
fn init_keeps_what_is_stored() {
    let mut app = get_app_with_db();
    let user = app.get_or_create_user("alice".to_string(), 7).unwrap();
    app.add_credential("alice".to_string(), "laptop".to_string(), &real_credential())
        .unwrap();
    assert_eq!(app.init(), Ok(()));
    let again = app.find_user(&"alice".to_string()).unwrap().unwrap();
    assert_eq!(again.id, user.id);
    assert_eq!(again.credentials.len(), 1);
}

#[test]
fn store_without_tables_fails_every_operation() {
    let mut app = App::new();
    assert!(!app.is_ready());
    assert_eq!(
        app.get_or_create_user("alice".to_string(), 1),
        Err(AppError::StorageError)
    );
    assert_eq!(app.find_user(&"alice".to_string()), Err(AppError::StorageError));
    assert_eq!(
        app.add_credential("alice".to_string(), "k".to_string(), &credential(&[1], "a")),
        Err(AppError::StorageError)
    );
    assert_eq!(app.delete_credential(vec![1]), Err(AppError::StorageError));
    assert_eq!(app.credential_material(&vec![1]), Err(AppError::StorageError));
    assert_eq!(
        app.store_update(&vec![1], Ok("b".to_string())),
        Err(AppError::StorageError)
    );
    app.init().unwrap();
    assert!(app.is_ready());
}

#[test]
fn get_or_create_user_twice_returns_the_same_user() {
    let mut app = get_app_with_db();
    let first = app.get_or_create_user("alice".to_string(), 11).unwrap();
    assert_eq!(first.id, 11);
    assert_eq!(first.username, "alice");
    assert!(first.credentials.is_empty());
    let second = app.get_or_create_user("alice".to_string(), 22).unwrap();
    assert_eq!(second, first);
    // the second candidate was not used: it is still free
    let other = app.get_or_create_user("bob".to_string(), 22).unwrap();
    assert_eq!(other.id, 22);
}

#[test]
fn get_user_with_credentials_is_stable() {
    let mut app = get_app_with_db();
    let first = app.get_user_with_credentials("alice".to_string()).unwrap();
    let second = app.get_user_with_credentials("alice".to_string()).unwrap();
    assert_eq!(first.id, second.id);
    let bob = app.get_user_with_credentials("bob".to_string()).unwrap();
    assert_ne!(bob.id, first.id);
}

#[test]
fn candidate_id_of_another_user_is_refused() {
    let mut app = get_app_with_db();
    app.get_or_create_user("alice".to_string(), 5).unwrap();
    assert_eq!(
        app.get_or_create_user("bob".to_string(), 5),
        Err(AppError::BadInput)
    );
    assert_eq!(app.find_user(&"bob".to_string()), Ok(None));
}

#[test]
fn credential_for_unknown_user_is_refused() {
    let mut app = get_app_with_db();
    app.get_or_create_user("alice".to_string(), 1).unwrap();
    assert_eq!(
        app.add_credential("nobody".to_string(), "laptop".to_string(), &credential(&[1], "a")),
        Err(AppError::UserNotFound)
    );
    assert!(app.list_credentials(&"nobody".to_string()).is_empty());
    assert!(app.list_credentials(&"alice".to_string()).is_empty());
    assert_eq!(app.credential_material(&vec![1]), Err(AppError::CredentialNotFound));
}

#[test]
fn second_credential_of_one_name_is_refused() {
    let mut app = get_app_with_db();
    app.get_or_create_user("alice".to_string(), 1).unwrap();
    app.add_credential("alice".to_string(), "laptop".to_string(), &credential(&[1], "first"))
        .unwrap();
    assert_eq!(
        app.add_credential("alice".to_string(), "laptop".to_string(), &credential(&[2], "second")),
        Err(AppError::DuplicateCredential)
    );
    assert_eq!(
        app.list_credentials(&"alice".to_string()),
        vec![CredentialWithName {
            name: "laptop".to_string(),
            credential: credential(&[1], "first"),
        }]
    );
}

#[test]
fn two_users_may_use_one_name() {
    let mut app = get_app_with_db();
    app.get_or_create_user("alice".to_string(), 1).unwrap();
    app.get_or_create_user("bob".to_string(), 2).unwrap();
    app.add_credential("alice".to_string(), "laptop".to_string(), &credential(&[1], "a"))
        .unwrap();
    app.add_credential("bob".to_string(), "laptop".to_string(), &credential(&[2], "b"))
        .unwrap();
    assert_eq!(app.list_credentials(&"alice".to_string()).len(), 1);
    assert_eq!(app.list_credentials(&"bob".to_string())[0].credential.id, vec![2]);
}

#[test]
fn credentials_are_listed_oldest_first() {
    let mut app = get_app_with_db();
    let (first, second) = (real_credential(), real_credential());
    app.get_or_create_user("alice".to_string(), 1).unwrap();
    app.get_or_create_user("bob".to_string(), 2).unwrap();
    app.add_credential("alice".to_string(), "one".to_string(), &first)
        .unwrap();
    app.add_credential("bob".to_string(), "other".to_string(), &credential(&[9], "z"))
        .unwrap();
    app.add_credential("alice".to_string(), "two".to_string(), &second)
        .unwrap();
    let names: Vec<String> = app
        .list_credentials(&"alice".to_string())
        .into_iter()
        .map(|c| c.name)
        .collect();
    assert_eq!(names, vec!["one".to_string(), "two".to_string()]);
    let user = app.get_or_create_user("alice".to_string(), 99).unwrap();
    assert_eq!(user.credentials.len(), 2);
    assert_eq!(user.credentials[0].credential, first);
    assert_eq!(user.credentials[1].credential, second);
}

#[test]
fn a_record_that_cannot_be_read_fails_the_lookup() {
    let mut app = get_app_with_db();
    let good = real_credential();
    app.get_or_create_user("alice".to_string(), 1).unwrap();
    app.get_or_create_user("bob".to_string(), 2).unwrap();
    app.add_credential("alice".to_string(), "good".to_string(), &good)
        .unwrap();
    app.add_credential("alice".to_string(), "bad".to_string(), &credential(&[9], "corrupt"))
        .unwrap();
    app.add_credential("bob".to_string(), "fine".to_string(), &good)
        .unwrap();

    assert_eq!(
        app.find_user(&"alice".to_string()),
        Err(AppError::SerializationError)
    );
    assert_eq!(
        app.get_or_create_user("alice".to_string(), 3),
        Err(AppError::SerializationError)
    );
    assert_eq!(
        app.get_user_with_credentials("alice".to_string()),
        Err(AppError::SerializationError)
    );
    // nothing was stored or lost by the failed lookups
    assert_eq!(app.list_credentials(&"alice".to_string()).len(), 2);
    assert_eq!(app.find_user(&"carol".to_string()), Ok(None));
    // another user's lookup is not touched by it
    assert_eq!(
        app.find_user(&"bob".to_string()).unwrap().unwrap().credentials[0].credential,
        good
    );
    // once the record is gone the lookup works again
    app.delete_credential(vec![9]).unwrap();
    assert_eq!(
        app.find_user(&"alice".to_string()).unwrap().unwrap().credentials.len(),
        1
    );
}

#[test]
fn no_user_has_the_id_zero() {
    let mut app = get_app_with_db();
    assert_eq!(
        app.get_or_create_user("alice".to_string(), 0),
        Err(AppError::BadInput)
    );
    assert_eq!(app.find_user(&"alice".to_string()), Ok(None));
    let first = app.get_user_with_credentials("alice".to_string()).unwrap();
    assert_ne!(first.id, Uuid::nil().as_u128());
    let second = app.get_user_with_credentials("alice".to_string()).unwrap();
    assert_eq!(second.id, first.id);
    assert_eq!(second.username, "alice");
    // a stored user is found whatever the candidate
    assert_eq!(app.get_or_create_user("alice".to_string(), 0), Ok(first));
}

#[test]
fn deleting_unknown_credential_is_refused() {
    let mut app = get_app_with_db();
    app.get_or_create_user("alice".to_string(), 1).unwrap();
    app.add_credential("alice".to_string(), "laptop".to_string(), &credential(&[1], "a"))
        .unwrap();
    assert_eq!(app.delete_credential(vec![2]), Err(AppError::CredentialNotFound));
    assert_eq!(app.list_credentials(&"alice".to_string()).len(), 1);
    assert_eq!(app.delete_credential(vec![1]), Ok(()));
    assert_eq!(app.delete_credential(vec![1]), Err(AppError::CredentialNotFound));
    assert!(app.list_credentials(&"alice".to_string()).is_empty());
}

#[test]
fn delete_removes_only_the_named_credential() {
    let mut app = get_app_with_db();
    app.get_or_create_user("alice".to_string(), 1).unwrap();
    app.add_credential("alice".to_string(), "one".to_string(), &credential(&[1], "a"))
        .unwrap();
    app.add_credential("alice".to_string(), "two".to_string(), &credential(&[2], "b"))
        .unwrap();
    app.add_credential("alice".to_string(), "three".to_string(), &credential(&[3], "c"))
        .unwrap();
    app.delete_credential(vec![2]).unwrap();
    let left: Vec<Vec<u8>> = app
        .list_credentials(&"alice".to_string())
        .into_iter()
        .map(|c| c.credential.id)
        .collect();
    assert_eq!(left, vec![vec![1], vec![3]]);
    // the name is free again
    app.add_credential("alice".to_string(), "two".to_string(), &credential(&[4], "d"))
        .unwrap();
}

#[test]
fn store_update_replaces_the_record() {
    let mut app = get_app_with_db();
    app.get_or_create_user("alice".to_string(), 1).unwrap();
    app.add_credential("alice".to_string(), "one".to_string(), &credential(&[1], "old"))
        .unwrap();
    app.add_credential("alice".to_string(), "two".to_string(), &credential(&[2], "other"))
        .unwrap();
    assert_eq!(app.credential_material(&vec![1]), Ok("old".to_string()));
    assert_eq!(app.store_update(&vec![1], Ok("new".to_string())), Ok(()));
    assert_eq!(app.credential_material(&vec![1]), Ok("new".to_string()));
    assert_eq!(app.credential_material(&vec![2]), Ok("other".to_string()));
    let listed = app.list_credentials(&"alice".to_string());
    assert_eq!(listed[0].name, "one");
    assert_eq!(listed[0].credential, credential(&[1], "new"));
}

#[test]
fn store_update_passes_failures_on() {
    let mut app = get_app_with_db();
    app.get_or_create_user("alice".to_string(), 1).unwrap();
    app.add_credential("alice".to_string(), "one".to_string(), &credential(&[1], "old"))
        .unwrap();
    assert_eq!(
        app.store_update(&vec![1], Err(AppError::MismatchingCredential)),
        Err(AppError::MismatchingCredential)
    );
    assert_eq!(app.credential_material(&vec![1]), Ok("old".to_string()));
    assert_eq!(
        app.store_update(&vec![7], Ok("new".to_string())),
        Err(AppError::CredentialNotFound)
    );
    assert_eq!(
        app.store_update(&vec![7], Err(AppError::MismatchingCredential)),
        Err(AppError::CredentialNotFound)
    );
}

#[test]
fn update_credential_writes_the_new_counter_back() {
    let origin = Url::parse("https://localhost:8080").unwrap();
    let webauthn = webauthn_rs::WebauthnBuilder::new("localhost", &origin)
        .unwrap()
        .build()
        .unwrap();
    let (soft_token, _) = SoftToken::new(true).unwrap();
    let mut wa = WebauthnAuthenticator::new(soft_token);

    let mut app = get_app_with_db();
    let user = app.get_or_create_user("bar_user".to_string(), 77).unwrap();

    let (chal, reg_state) = webauthn
        .start_passkey_registration(Uuid::from_u128(user.id), "bar_user", "bar_user", None)
        .unwrap();
    let r = wa.do_registration(origin.clone(), chal).unwrap();
    let passkey = webauthn.finish_passkey_registration(&r, &reg_state).unwrap();
    let stored = stored_form(&passkey).unwrap();
    assert_eq!(stored.id, passkey.cred_id().to_vec());
    assert_eq!(stored.material, serde_json::to_string(&passkey).unwrap());

    let (chal, auth_state) = webauthn
        .start_passkey_authentication(&[passkey.clone()])
        .unwrap();
    let r = wa.do_authentication(origin.clone(), chal).unwrap();
    let auth_result = webauthn
        .finish_passkey_authentication(&r, &auth_state)
        .unwrap();
    assert!(auth_result.needs_update());

    // nothing is stored yet
    assert_eq!(
        app.update_credential(auth_result.clone()),
        Err(AppError::CredentialNotFound)
    );

    app.add_credential("bar_user".to_string(), "bar_credential".to_string(), &stored)
        .unwrap();
    assert_eq!(app.update_credential(auth_result.clone()), Ok(()));

    let mut expected = passkey.clone();
    assert_eq!(expected.update_credential(&auth_result), Some(true));
    assert_eq!(
        app.credential_material(&stored.id),
        Ok(serde_json::to_string(&expected).unwrap())
    );
    assert_ne!(app.credential_material(&stored.id), Ok(stored.material.clone()));

    // a record that cannot be read back
    app.store_update(&stored.id, Ok("no passkey".to_string()))
        .unwrap();
    assert_eq!(
        app.update_credential(auth_result.clone()),
        Err(AppError::SerializationError)
    );
    assert_eq!(
        webauthn_tiny::app::refresh_material("no passkey", &auth_result),
        Err(AppError::SerializationError)
    );

    // the record of another credential
    let (other_token, _) = SoftToken::new(true).unwrap();
    let mut other = WebauthnAuthenticator::new(other_token);
    let (chal, reg_state) = webauthn
        .start_passkey_registration(Uuid::from_u128(user.id), "bar_user", "bar_user", None)
        .unwrap();
    let r = other.do_registration(origin.clone(), chal).unwrap();
    let other_passkey = webauthn.finish_passkey_registration(&r, &reg_state).unwrap();
    assert_eq!(
        webauthn_tiny::app::refresh_material(
            &serde_json::to_string(&other_passkey).unwrap(),
            &auth_result
        ),
        Err(AppError::MismatchingCredential)
    );
}
