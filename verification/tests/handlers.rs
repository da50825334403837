use argon2::password_hash::{PasswordHasher, SaltString};
use argon2::Argon2;
use webauthn_authenticator_rs::softtoken::SoftToken;
use webauthn_authenticator_rs::AuthenticatorBackend;
use webauthn_rs::prelude::Url;
use webauthn_tiny::app::{App, Credential};
use webauthn_tiny::relying_party::RelyingParty;
use webauthn_tiny::handlers::{
    allow_only_localhost, credential_listing, finish_html, get_authenticate_template_handler,
    stored_form,
    get_credentials_template_handler, require_logged_in, root_handler, same_text,
    AuthenticatePage, CredentialIDWithName, CredentialsPage, GetAuthenticateQueryParams,
    GetCredentialsResponsePayload, LoggedIn, RootResponse, BOTTOM_HTML, NO_CONTENT, TOP_HTML,
    UNAUTHORIZED, UNAUTHORIZED_HTML,
};
use webauthn_tiny::identity::{read_password_file, Passwords};
use webauthn_tiny::session::Session;
use webauthn_tiny::AppError;

// base64 of "alice:correct horse" and of "alice:wrong horse"
const RIGHT: &str = "Basic YWxpY2U6Y29ycmVjdCBob3JzZQ==";
const WRONG: &str = "Basic YWxpY2U6d3JvbmcgaG9yc2U=";

fn passwords() -> Passwords {
    let salt = SaltString::from_b64("c29tZXNhbHRzb21lc2FsdA").unwrap();
    let hash = Argon2::default()
        .hash_password("correct horse".as_bytes(), &salt)
        .unwrap()
        .to_string();
    read_password_file(&format!("alice:{}\n", hash))
}

fn allowed() -> Vec<Url> {
    vec![Url::parse("https://auth.foo.com").unwrap()]
}

fn no_params() -> GetAuthenticateQueryParams {
    GetAuthenticateQueryParams { redirect_url: None }
}

fn wants(url: &str) -> GetAuthenticateQueryParams {
    GetAuthenticateQueryParams {
        redirect_url: Some(url.to_string()),
    }
}

/// A credential as a real authenticator and the ceremony library make it.
fn real_credential() -> Credential {
    let origin = Url::parse("https://localhost:8080").unwrap();
    let party = RelyingParty::new("localhost", &origin, &vec![], false).unwrap();
    let (mut token, _) = SoftToken::new(true).unwrap();
    let (challenge, state) = party.start_registration(1, "someone", None).unwrap();
    let answer = token
        .perform_register(origin, challenge.public_key, 60000)
        .unwrap();
    stored_form(&party.finish_registration(&answer, &state).unwrap()).unwrap()
}

fn app() -> App {
    let mut app = App::new();
    app.init().unwrap();
    app
}

#[test]
fn the_login_flag_is_read_from_the_session() {
    let mut session = Session::new();
    assert_eq!(LoggedIn::from_session(&session), LoggedIn(false));
    session.logged_in = true;
    assert_eq!(LoggedIn::from_session(&session), LoggedIn(true));
}

#[test]
fn only_logged_in_clients_pass() {
    assert_eq!(UNAUTHORIZED, 401);
    assert_eq!(NO_CONTENT, 204);
    assert_eq!(require_logged_in(LoggedIn(true)), Ok(()));
    assert_eq!(require_logged_in(LoggedIn(false)), Err(401));
}

#[test]
fn only_this_machine_passes() {
    // no proxy: the connection itself counts
    assert_eq!(allow_only_localhost(None, true), Ok(()));
    assert_eq!(allow_only_localhost(None, false), Err(401));
    // behind a proxy only the forwarded address counts
    assert_eq!(allow_only_localhost(Some(true), false), Ok(()));
    assert_eq!(allow_only_localhost(Some(true), true), Ok(()));
    assert_eq!(allow_only_localhost(Some(false), true), Err(401));
    assert_eq!(allow_only_localhost(Some(false), false), Err(401));
}

#[test]
fn paths_without_a_route() {
    assert_eq!(root_handler("/"), RootResponse::ToCredentials);
    assert_eq!(root_handler("/favicon.ico"), RootResponse::Favicon);
    assert_eq!(root_handler("/main.js"), RootResponse::MainScript);
    assert_eq!(root_handler(""), RootResponse::NotFound);
    assert_eq!(root_handler("/main.js/"), RootResponse::NotFound);
    assert_eq!(root_handler("/Favicon.ico"), RootResponse::NotFound);
    assert_eq!(root_handler("/somewhere"), RootResponse::NotFound);
    assert!(same_text("abc", "abc"));
    assert!(!same_text("abc", "abd"));
    assert!(!same_text("abc", "ab"));
}

#[test]
fn pages_get_their_beginning_and_end() {
    assert_eq!(
        finish_html("<main></main>".to_string()),
        "\n<!DOCTYPE html>\n<head>\n  <meta name=\"viewport\" content=\"width=device-width, initial-scale=1.0\">\n  <script type=\"module\" src=\"/main.js\" defer></script>\n  <title>WebAuthnTiny</title>\n</head>\n<html>\n<body>\n<main></main>\n</body>\n</html>\n"
    );
    assert_eq!(finish_html(String::new()), format!("{}{}", TOP_HTML, BOTTOM_HTML));
    assert_eq!(UNAUTHORIZED_HTML, "<main><p>Unauthorized</p></main>");
}

#[test]
fn the_page_of_credentials_needs_a_login() {
    let mut app = app();
    let session = Session::new();
    assert_eq!(
        get_credentials_template_handler(LoggedIn(false), &session, &mut app),
        Ok(CredentialsPage::Redirect(
            "/authenticate?redirect_url=/credentials".to_string()
        ))
    );
    assert_eq!(
        get_credentials_template_handler(LoggedIn(true), &session, &mut app),
        Err(AppError::BadSession)
    );
}

#[test]
fn the_page_of_credentials_lists_them() {
    let mut app = app();
    let mut session = Session::new();
    session.username = Some("alice".to_string());
    session.logged_in = true;

    // the user is created by the first visit
    assert_eq!(
        get_credentials_template_handler(LoggedIn(true), &session, &mut app),
        Ok(CredentialsPage::Listing(GetCredentialsResponsePayload {
            data: vec![]
        }))
    );
    assert!(app.find_user(&"alice".to_string()).unwrap().is_some());

    let (first, second) = (real_credential(), real_credential());
    app.add_credential("alice".to_string(), "one".to_string(), &first)
        .unwrap();
    app.add_credential("alice".to_string(), "two".to_string(), &second)
        .unwrap();
    let listing = GetCredentialsResponsePayload {
        data: vec![
            CredentialIDWithName {
                id: first.id.clone(),
                name: "one".to_string(),
            },
            CredentialIDWithName {
                id: second.id.clone(),
                name: "two".to_string(),
            },
        ],
    };
    assert_eq!(
        credential_listing(&app.list_credentials(&"alice".to_string())),
        listing
    );
    assert_eq!(
        get_credentials_template_handler(LoggedIn(true), &session, &mut app),
        Ok(CredentialsPage::Listing(listing))
    );

    // a record that cannot be read is no part of a listing: the page fails
    app.add_credential(
        "alice".to_string(),
        "three".to_string(),
        &Credential {
            id: vec![3],
            material: "b".to_string(),
        },
    )
    .unwrap();
    assert_eq!(
        get_credentials_template_handler(LoggedIn(true), &session, &mut app),
        Err(AppError::SerializationError)
    );

    let mut closed = App::new();
    assert_eq!(
        get_credentials_template_handler(LoggedIn(true), &session, &mut closed),
        Err(AppError::StorageError)
    );
}

#[test]
fn the_login_page_asks_for_a_password() {
    let mut session = Session::new();
    assert_eq!(
        get_authenticate_template_handler(
            LoggedIn(false),
            &no_params(),
            None,
            &mut session,
            &allowed(),
            &passwords()
        ),
        AuthenticatePage::BasicChallenge
    );
    assert_eq!(
        get_authenticate_template_handler(
            LoggedIn(false),
            &no_params(),
            Some("Basic not base64"),
            &mut session,
            &allowed(),
            &passwords()
        ),
        AuthenticatePage::BasicChallenge
    );
    assert_eq!(session.username, None);
}

#[test]
fn a_wrong_password_is_unauthorized() {
    let mut session = Session::new();
    assert_eq!(
        get_authenticate_template_handler(
            LoggedIn(false),
            &wants("/somewhere"),
            Some(WRONG),
            &mut session,
            &allowed(),
            &passwords()
        ),
        AuthenticatePage::Unauthorized
    );
    assert_eq!(session.username, None);
    assert_eq!(session.redirect_url, None);
    // base64 of "bob:correct horse": no entry for bob
    assert_eq!(
        get_authenticate_template_handler(
            LoggedIn(false),
            &no_params(),
            Some("Basic Ym9iOmNvcnJlY3QgaG9yc2U="),
            &mut session,
            &allowed(),
            &passwords()
        ),
        AuthenticatePage::Unauthorized
    );
    assert_eq!(session.username, None);
}

#[test]
fn the_right_password_sets_the_claim() {
    let mut session = Session::new();
    assert_eq!(
        get_authenticate_template_handler(
            LoggedIn(false),
            &no_params(),
            Some(RIGHT),
            &mut session,
            &allowed(),
            &passwords()
        ),
        AuthenticatePage::Page {
            username: "alice".to_string(),
            logged_in: false
        }
    );
    assert_eq!(session.username, Some("alice".to_string()));
    assert_eq!(session.redirect_url, None);
    assert!(!session.logged_in);
}

#[test]
fn an_accepted_redirect_target_is_kept() {
    for target in ["/credentials", "https://auth.foo.com/next"] {
        let mut session = Session::new();
        get_authenticate_template_handler(
            LoggedIn(false),
            &wants(target),
            Some(RIGHT),
            &mut session,
            &allowed(),
            &passwords(),
        );
        assert_eq!(session.redirect_url, Some(target.to_string()));
    }
    for target in ["https://evil.com/next", "credentials"] {
        let mut session = Session::new();
        assert_eq!(
            get_authenticate_template_handler(
                LoggedIn(false),
                &wants(target),
                Some(RIGHT),
                &mut session,
                &allowed(),
                &passwords(),
            ),
            AuthenticatePage::Page {
                username: "alice".to_string(),
                logged_in: false
            }
        );
        assert_eq!(session.redirect_url, None);
        assert_eq!(session.username, Some("alice".to_string()));
    }
}

#[test]
fn a_logged_in_client_is_sent_on_once() {
    let mut session = Session::new();
    session.username = Some("alice".to_string());
    session.logged_in = true;
    session.redirect_url = Some("/credentials".to_string());
    assert_eq!(
        get_authenticate_template_handler(
            LoggedIn(true),
            &wants("/elsewhere"),
            None,
            &mut session,
            &allowed(),
            &passwords()
        ),
        AuthenticatePage::Redirect("/credentials".to_string())
    );
    assert_eq!(session.redirect_url, None);
    // nothing waits any more: the page is shown, and no new target is kept
    assert_eq!(
        get_authenticate_template_handler(
            LoggedIn(true),
            &wants("/elsewhere"),
            Some(RIGHT),
            &mut session,
            &allowed(),
            &passwords()
        ),
        AuthenticatePage::Page {
            username: "alice".to_string(),
            logged_in: true
        }
    );
    assert_eq!(session.redirect_url, None);
    assert_eq!(
        get_authenticate_template_handler(
            LoggedIn(true),
            &no_params(),
            None,
            &mut session,
            &allowed(),
            &passwords()
        ),
        AuthenticatePage::BasicChallenge
    );
}

#[test]
fn a_waiting_target_stays_for_a_client_that_is_not_logged_in() {
    let mut session = Session::new();
    session.redirect_url = Some("/credentials".to_string());
    assert_eq!(
        get_authenticate_template_handler(
            LoggedIn(false),
            &no_params(),
            Some(RIGHT),
            &mut session,
            &allowed(),
            &passwords()
        ),
        AuthenticatePage::Page {
            username: "alice".to_string(),
            logged_in: false
        }
    );
    assert_eq!(session.redirect_url, Some("/credentials".to_string()));
}
