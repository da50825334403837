//! The coordinator of the two ceremonies: when a registration or an
//! authentication may begin, how the state kept between its two steps is
//! used up, and what its completion changes in the credential store.
//!
//! Every step here takes what the ceremony library answered as an
//! argument, so that each is decided for every answer.

use crate::app::{
    named_credentials, same_bytes, text_outcome, App, Credential, CredentialView,
    CredentialWithName, NamedCredential, Tables,
};
use crate::error::AppError;
use crate::session::{Session, SessionView};
use vstd::prelude::*;
use webauthn_rs::prelude::{
    CreationChallengeResponse, PasskeyAuthentication, PasskeyRegistration,
    RequestChallengeResponse,
};

verus! {

/// The name that the session's client has been recognised under, or
/// `BadSession` where there is no such claim.
pub open spec fn claimed(s: SessionView) -> Result<Seq<char>, AppError> {
    match s.username {
        Some(username) => Ok(username),
        None => Err(AppError::BadSession),
    }
}

/// The username claim of the session. A session without one cannot take
/// part in a ceremony.
pub fn claimed_username(session: &Session) -> (claim: Result<String, AppError>)
    ensures
        text_outcome(claim) == claimed(session@),
{
    match &session.username {
        Some(username) => Ok(username.clone()),
        None => Err(AppError::BadSession),
    }
}

/// The credential IDs that a new registration must not repeat: those of
/// the credentials the user has, or nothing where the user has none.
pub open spec fn exclusions(credentials: Seq<NamedCredential>) -> Option<Seq<Seq<u8>>> {
    if credentials.len() == 0 {
        None
    } else {
        Some(credentials.map_values(|c: NamedCredential| c.credential.id))
    }
}

/// The values of a list of credential IDs.
pub open spec fn id_list(ids: Option<Vec<Vec<u8>>>) -> Option<Seq<Seq<u8>>> {
    match ids {
        Some(ids) => Some(ids@.map_values(|id: Vec<u8>| id@)),
        None => None,
    }
}

/// The IDs of a user's credentials, in the form in which a registration
/// excludes them.
pub fn excluded_credentials(credentials: &Vec<CredentialWithName>) -> (excluded: Option<
    Vec<Vec<u8>>,
>)
    ensures
        id_list(excluded) == exclusions(named_credentials(credentials@)),
{
    if credentials.len() == 0 {
        return None;
    }
    let mut ids: Vec<Vec<u8>> = Vec::new();
    let mut k: usize = 0;
    while k < credentials.len()
        invariant
            k <= credentials.len(),
            ids.len() == k,
            forall|l: int| 0 <= l < k ==> (#[trigger] ids[l])@ == credentials[l].credential.id@,
        decreases credentials.len() - k,
    {
        ids.push(credentials[k].credential.id.clone());
        k += 1;
    }
    assert(ids@.map_values(|id: Vec<u8>| id@) =~= named_credentials(credentials@).map_values(
        |c: NamedCredential| c.credential.id,
    ));
    Some(ids)
}

/// Whether one of the listed credentials has this ID.
pub open spec fn lists_id(credentials: Seq<NamedCredential>, id: Seq<u8>) -> bool {
    exists|k: int| 0 <= k < credentials.len() && (#[trigger] credentials[k]).credential.id == id
}

/// Whether a credential with this ID is among those already registered.
pub fn is_registered(existing: &Vec<CredentialWithName>, cred_id: &Vec<u8>) -> (registered: bool)
    ensures
        registered == lists_id(named_credentials(existing@), cred_id@),
{
    let mut k: usize = 0;
    while k < existing.len()
        invariant
            k <= existing.len(),
            forall|l: int| 0 <= l < k ==> existing[l].credential.id@ != cred_id@,
        decreases existing.len() - k,
    {
        if same_bytes(&existing[k].credential.id, cred_id) {
            assert(named_credentials(existing@)[k as int].credential.id == cred_id@);
            return true;
        }
        k += 1;
    }
    assert forall|l: int| 0 <= l < named_credentials(existing@).len() implies (
    #[trigger] named_credentials(existing@)[l]).credential.id != cred_id@ by {
        assert(named_credentials(existing@)[l] == existing[l]@);
    }
    false
}

/// What the start of a registration does to a session, given the
/// ceremony library's answer: the new state takes the place of any
/// earlier one and the challenge goes out; where the library refused,
/// the session stays as it was.
pub open spec fn registration_started(
    s: SessionView,
    started: Option<(CreationChallengeResponse, PasskeyRegistration)>,
) -> (SessionView, Result<CreationChallengeResponse, AppError>) {
    match started {
        Some((challenge, state)) => (
            SessionView { passkey_registration: Some(state), ..s },
            Ok(challenge),
        ),
        None => (s, Err(AppError::WebauthnFailed)),
    }
}

/// Records the start of a registration in the session.
///
/// With an answer from the ceremony library, its state is kept in the
/// session, in place of the state of any registration begun earlier, and
/// the challenge is returned. Without one the result is `WebauthnFailed`
/// and the session is unchanged.
pub fn start_registration(
    session: &mut Session,
    started: Option<(CreationChallengeResponse, PasskeyRegistration)>,
) -> (challenge: Result<CreationChallengeResponse, AppError>)
    ensures
        (final(session)@, challenge) == registration_started(old(session)@, started),
{
    match started {
        Some((challenge, state)) => {
            session.passkey_registration = Some(state);
            Ok(challenge)
        },
        None => Err(AppError::WebauthnFailed),
    }
}

/// Refuses a verified credential whose ID one of the user's credentials
/// already has, with `DuplicateCredential`.
pub fn refuse_duplicate(existing: &Vec<CredentialWithName>, credential: &Credential) -> (admitted:
    Result<(), AppError>)
    ensures
        admitted == if lists_id(named_credentials(existing@), credential@.id) {
            Err::<(), AppError>(AppError::DuplicateCredential)
        } else {
            Ok::<(), AppError>(())
        },
{
    if is_registered(existing, &credential.id) {
        Err(AppError::DuplicateCredential)
    } else {
        Ok(())
    }
}

/// What storing a verified credential does. The user is looked up once
/// more, and a failure of that is the result, as it is where one of the
/// user's records cannot be read back. The credential is refused as a
/// duplicate where its user already has a credential with the same ID,
/// and registered under `name` otherwise.
pub open spec fn registered(
    t: Tables,
    username: Seq<char>,
    name: Seq<char>,
    credential: CredentialView,
) -> (Tables, Result<(), AppError>) {
    match t.find_user(username) {
        Err(e) => (t, Err(e)),
        Ok(Some(user)) => if lists_id(user.credentials, credential.id) {
            (t, Err(AppError::DuplicateCredential))
        } else {
            t.add_credential(username, name, credential)
        },
        Ok(None) => t.add_credential(username, name, credential),
    }
}

/// Stores a credential that the ceremony library has verified.
///
/// The user's credentials are read again at this point: where one of them
/// already has the new credential's ID the result is
/// `DuplicateCredential` and nothing is stored.
pub fn register_credential(
    app: &mut App,
    username: String,
    name: String,
    credential: &Credential,
) -> (stored: Result<(), AppError>)
    ensures
        (final(app)@, stored) == registered(old(app)@, username@, name@, credential@),
{
    let existing = match app.find_user(&username) {
        Ok(Some(user)) => user.credentials,
        Ok(None) => Vec::new(),
        Err(e) => {
            return Err(e);
        },
    };
    assert(named_credentials(Seq::<CredentialWithName>::empty()) =~= Seq::empty());
    match refuse_duplicate(&existing, credential) {
        Ok(()) => app.add_credential(username, name, credential),
        Err(e) => Err(e),
    }
}

/// What the finish of a registration does, given the ceremony library's
/// verdict on the client's answer (`None` where it rejected the answer).
///
/// The state of the registration leaves the session whatever happens.
/// Without a username claim or without such a state the result is
/// `BadSession`; a rejected answer gives `WebauthnFailed`; a verified
/// credential is stored as [`registered`] says.
pub open spec fn registration_finished(
    s: SessionView,
    t: Tables,
    name: Seq<char>,
    verified: Option<CredentialView>,
) -> (SessionView, Tables, Result<(), AppError>) {
    let after = SessionView { passkey_registration: None, ..s };
    if s.username is None || s.passkey_registration is None {
        (after, t, Err(AppError::BadSession))
    } else {
        match verified {
            None => (after, t, Err(AppError::WebauthnFailed)),
            Some(credential) => {
                let (stored, outcome) = registered(t, s.username->0, name, credential);
                (after, stored, outcome)
            },
        }
    }
}

/// The value of a credential that may be absent.
pub open spec fn credential_view(credential: Option<Credential>) -> Option<CredentialView> {
    match credential {
        Some(c) => Some(c@),
        None => None,
    }
}

/// What taking the state of the registration out of a session gives:
/// the claimed username and the state, or `BadSession` where either is
/// missing. The state leaves the session in both cases.
pub open spec fn registration_taken(s: SessionView) -> (
    SessionView,
    Result<(Seq<char>, PasskeyRegistration), AppError>,
) {
    let after = SessionView { passkey_registration: None, ..s };
    match (s.username, s.passkey_registration) {
        (Some(username), Some(state)) => (after, Ok((username, state))),
        _ => (after, Err(AppError::BadSession)),
    }
}

/// The value of what was taken out of a session.
pub open spec fn taken_view(taken: Result<(String, PasskeyRegistration), AppError>) -> Result<
    (Seq<char>, PasskeyRegistration),
    AppError,
> {
    match taken {
        Ok((username, state)) => Ok((username@, state)),
        Err(e) => Err(e),
    }
}

/// Takes the state of the registration in progress out of the session,
/// together with the username it is for. Whatever the result, the state
/// is no longer in the session afterwards.
pub fn take_registration(session: &mut Session) -> (taken: Result<
    (String, PasskeyRegistration),
    AppError,
>)
    ensures
        (final(session)@, taken_view(taken)) == registration_taken(old(session)@),
{
    let state = session.passkey_registration.take();
    let username = match claimed_username(session) {
        Ok(username) => username,
        Err(e) => {
            return Err(e);
        },
    };
    match state {
        Some(state) => Ok((username, state)),
        None => Err(AppError::BadSession),
    }
}

/// What the ceremony library's verdict on a registration does to the
/// store: a rejected answer gives `WebauthnFailed`, and a verified
/// credential is stored as [`registered`] says.
pub open spec fn registration_concluded(
    t: Tables,
    username: Seq<char>,
    name: Seq<char>,
    verified: Option<CredentialView>,
) -> (Tables, Result<(), AppError>) {
    match verified {
        None => (t, Err(AppError::WebauthnFailed)),
        Some(credential) => registered(t, username, name, credential),
    }
}

/// Acts on the ceremony library's verdict on a registration whose state
/// has been taken out of the session.
pub fn conclude_registration(
    app: &mut App,
    username: String,
    name: String,
    verified: Option<Credential>,
) -> (finished: Result<(), AppError>)
    ensures
        (final(app)@, finished) == registration_concluded(
            old(app)@,
            username@,
            name@,
            credential_view(verified),
        ),
{
    match verified {
        None => Err(AppError::WebauthnFailed),
        Some(credential) => register_credential(app, username, name, &credential),
    }
}

/// Finishes a registration, given the ceremony library's verdict on the
/// client's answer.
///
/// The state of the registration is removed from the session before the
/// verdict is looked at, so that no answer can be used twice.
pub fn finish_registration(
    session: &mut Session,
    app: &mut App,
    name: String,
    verified: Option<Credential>,
) -> (finished: Result<(), AppError>)
    ensures
        (final(session)@, final(app)@, finished) == registration_finished(
            old(session)@,
            old(app)@,
            name@,
            credential_view(verified),
        ),
{
    match take_registration(session) {
        Ok((username, _)) => conclude_registration(app, username, name, verified),
        Err(e) => Err(e),
    }
}

/// What the start of an authentication does to a session, given the
/// user's credentials and the ceremony library's answer.
///
/// A user without credentials is logged in at once and there is no
/// challenge; `started` plays no part. Otherwise the new state takes the
/// place of any earlier one and the challenge goes out, or the session
/// stays as it was where the library refused.
pub open spec fn authentication_started(
    s: SessionView,
    credentials: Seq<NamedCredential>,
    started: Option<(RequestChallengeResponse, PasskeyAuthentication)>,
) -> (SessionView, Result<RequestChallengeResponse, AppError>) {
    if credentials.len() == 0 {
        (SessionView { logged_in: true, ..s }, Err(AppError::NoUserCredentials))
    } else {
        match started {
            Some((challenge, state)) => (
                SessionView { passkey_authentication: Some(state), ..s },
                Ok(challenge),
            ),
            None => (s, Err(AppError::WebauthnFailed)),
        }
    }
}

/// Records the start of an authentication in the session.
///
/// For a user without credentials the session is marked as logged in and
/// the result is `NoUserCredentials`, whatever `started` holds.
pub fn start_authentication(
    session: &mut Session,
    credentials: &Vec<CredentialWithName>,
    started: Option<(RequestChallengeResponse, PasskeyAuthentication)>,
) -> (challenge: Result<RequestChallengeResponse, AppError>)
    ensures
        (final(session)@, challenge) == authentication_started(
            old(session)@,
            named_credentials(credentials@),
            started,
        ),
{
    if credentials.len() == 0 {
        session.logged_in = true;
        return Err(AppError::NoUserCredentials);
    }
    match started {
        Some((challenge, state)) => {
            session.passkey_authentication = Some(state);
            Ok(challenge)
        },
        None => Err(AppError::WebauthnFailed),
    }
}

/// What the ceremony library reported of an accepted authentication: the
/// credential it was made with and, where that credential's stored record
/// needs an update, what the library made of the stored record.
#[derive(Debug)]
pub struct Authentication {
    pub cred_id: Vec<u8>,
    pub update: Option<Result<String, AppError>>,
}

/// The mathematical value of an [`Authentication`].
pub ghost struct AuthenticationView {
    pub cred_id: Seq<u8>,
    pub update: Option<Result<Seq<char>, AppError>>,
}

impl View for Authentication {
    type V = AuthenticationView;

    open spec fn view(&self) -> AuthenticationView {
        AuthenticationView {
            cred_id: self.cred_id@,
            update: match self.update {
                Some(update) => Some(text_outcome(update)),
                None => None,
            },
        }
    }
}

/// The value of an authentication that may have been rejected.
pub open spec fn authentication_view(verified: Option<Authentication>) -> Option<
    AuthenticationView,
> {
    match verified {
        Some(a) => Some(a@),
        None => None,
    }
}

/// What the finish of an authentication does, given the ceremony
/// library's verdict on the client's answer (`None` where it rejected the
/// answer).
///
/// The state of the authentication leaves the session whatever happens.
/// Without such a state the result is `BadSession`; a rejected answer
/// gives `WebauthnFailed` and the store is not touched. An accepted one
/// that needs an update has the credential's record replaced first, and a
/// failure of that is the result. The session is logged in only when all
/// of this went well.
pub open spec fn authentication_finished(
    s: SessionView,
    t: Tables,
    verified: Option<AuthenticationView>,
) -> (SessionView, Tables, Result<(), AppError>) {
    let after = SessionView { passkey_authentication: None, ..s };
    let logged_in = SessionView { logged_in: true, ..after };
    if s.passkey_authentication is None {
        (after, t, Err(AppError::BadSession))
    } else {
        match verified {
            None => (after, t, Err(AppError::WebauthnFailed)),
            Some(a) => match a.update {
                Some(update) => {
                    let (stored, outcome) = t.update_credential(a.cred_id, update);
                    if outcome is Ok {
                        (logged_in, stored, Ok(()))
                    } else {
                        (after, stored, outcome)
                    }
                },
                None => (logged_in, t, Ok(())),
            },
        }
    }
}

/// What taking the state of the authentication out of a session gives:
/// the state, or `BadSession` where there is none. The state leaves the
/// session in both cases.
pub open spec fn authentication_taken(s: SessionView) -> (
    SessionView,
    Result<PasskeyAuthentication, AppError>,
) {
    let after = SessionView { passkey_authentication: None, ..s };
    match s.passkey_authentication {
        Some(state) => (after, Ok(state)),
        None => (after, Err(AppError::BadSession)),
    }
}

/// Takes the state of the authentication in progress out of the session.
/// Whatever the result, the state is no longer in the session afterwards.
pub fn take_authentication(session: &mut Session) -> (taken: Result<
    PasskeyAuthentication,
    AppError,
>)
    ensures
        (final(session)@, taken) == authentication_taken(old(session)@),
{
    match session.passkey_authentication.take() {
        Some(state) => Ok(state),
        None => Err(AppError::BadSession),
    }
}

/// What the ceremony library's verdict on an authentication does to a
/// session whose state has been taken out, and to the store.
///
/// A rejected answer gives `WebauthnFailed`. An accepted one that needs
/// an update has the credential's record replaced first, and a failure
/// of that is the result. The session is logged in only when all of this
/// went well.
pub open spec fn authentication_concluded(
    s: SessionView,
    t: Tables,
    verified: Option<AuthenticationView>,
) -> (SessionView, Tables, Result<(), AppError>) {
    let logged_in = SessionView { logged_in: true, ..s };
    match verified {
        None => (s, t, Err(AppError::WebauthnFailed)),
        Some(a) => match a.update {
            Some(update) => {
                let (stored, outcome) = t.update_credential(a.cred_id, update);
                if outcome is Ok {
                    (logged_in, stored, Ok(()))
                } else {
                    (s, stored, outcome)
                }
            },
            None => (logged_in, t, Ok(())),
        },
    }
}

/// What the end of an accepted authentication does to the session,
/// given how the update of the credential's record went, where one was
/// due: a failed update is the result and the session is not logged in;
/// otherwise the session is logged in.
pub open spec fn login_concluded(s: SessionView, update: Option<Result<(), AppError>>) -> (
    SessionView,
    Result<(), AppError>,
) {
    match update {
        Some(Err(e)) => (s, Err(e)),
        _ => (SessionView { logged_in: true, ..s }, Ok(())),
    }
}

/// Logs the session in at the end of an accepted authentication, unless
/// the update of the credential's record was due and failed.
pub fn conclude_login(session: &mut Session, update: Option<Result<(), AppError>>) -> (finished:
    Result<(), AppError>)
    ensures
        (final(session)@, finished) == login_concluded(old(session)@, update),
{
    match update {
        Some(Err(e)) => Err(e),
        _ => {
            session.logged_in = true;
            Ok(())
        },
    }
}

/// Acts on the ceremony library's verdict on an authentication whose
/// state has been taken out of the session.
pub fn conclude_authentication(
    session: &mut Session,
    app: &mut App,
    verified: Option<Authentication>,
) -> (finished: Result<(), AppError>)
    ensures
        (final(session)@, final(app)@, finished) == authentication_concluded(
            old(session)@,
            old(app)@,
            authentication_view(verified),
        ),
{
    let accepted = match verified {
        Some(accepted) => accepted,
        None => {
            return Err(AppError::WebauthnFailed);
        },
    };
    let update = match accepted.update {
        Some(update) => Some(app.store_update(&accepted.cred_id, update)),
        None => None,
    };
    conclude_login(session, update)
}

/// Finishes an authentication, given the ceremony library's verdict on
/// the client's answer.
///
/// The state of the authentication is removed from the session before
/// the verdict is looked at, so that no answer can be used twice.
pub fn finish_authentication(
    session: &mut Session,
    app: &mut App,
    verified: Option<Authentication>,
) -> (finished: Result<(), AppError>)
    ensures
        (final(session)@, final(app)@, finished) == authentication_finished(
            old(session)@,
            old(app)@,
            authentication_view(verified),
        ),
{
    match take_authentication(session) {
        Ok(_) => conclude_authentication(session, app, verified),
        Err(e) => Err(e),
    }
}

/// The state of a ceremony is used exactly once: after the finish of a
/// registration, whether it succeeded or failed, a second finish on the
/// same session fails with `BadSession`, and changes nothing in the
/// store. The same holds of an authentication.
pub proof fn law_state_is_consumed_once(
    s: SessionView,
    t: Tables,
    name: Seq<char>,
    verified: Option<CredentialView>,
    name_again: Seq<char>,
    verified_again: Option<CredentialView>,
    accepted: Option<AuthenticationView>,
    accepted_again: Option<AuthenticationView>,
)
    ensures
        ({
            let (s1, t1, _) = registration_finished(s, t, name, verified);
            registration_finished(s1, t1, name_again, verified_again) == (
                s1,
                t1,
                Err::<(), AppError>(AppError::BadSession),
            )
        }),
        ({
            let (s1, t1, _) = authentication_finished(s, t, accepted);
            authentication_finished(s1, t1, accepted_again) == (
                s1,
                t1,
                Err::<(), AppError>(AppError::BadSession),
            )
        }),
{
}

/// Starting a ceremony again puts the new state in the place of the old
/// one: a session never holds two states of one kind, and the state of
/// the other kind is not touched.
pub proof fn law_one_ceremony_in_flight(
    s: SessionView,
    credentials: Seq<NamedCredential>,
    registration: (CreationChallengeResponse, PasskeyRegistration),
    authentication: (RequestChallengeResponse, PasskeyAuthentication),
)
    requires
        credentials.len() > 0,
    ensures
        registration_started(s, Some(registration)).0 == (SessionView {
            passkey_registration: Some(registration.1),
            ..s
        }),
        authentication_started(s, credentials, Some(authentication)).0 == (SessionView {
            passkey_authentication: Some(authentication.1),
            ..s
        }),
{
}

/// A user without credentials is logged in by the start of an
/// authentication: there is no challenge, and what the ceremony library
/// would have answered makes no difference.
pub proof fn law_no_credentials_no_challenge(
    s: SessionView,
    started: Option<(RequestChallengeResponse, PasskeyAuthentication)>,
)
    ensures
        authentication_started(s, Seq::empty(), started) == (
            SessionView { logged_in: true, ..s },
            Err::<RequestChallengeResponse, AppError>(AppError::NoUserCredentials),
        ),
{
}

/// An answer that the ceremony library rejects, as it does a signature
/// counter that was seen before, ends in `WebauthnFailed`: no stored
/// credential changes and the session is not logged in by it.
pub proof fn law_rejected_answer_changes_nothing(s: SessionView, t: Tables, name: Seq<char>)
    requires
        s.passkey_authentication is Some,
    ensures
        authentication_finished(s, t, None) == (
            SessionView { passkey_authentication: None, ..s },
            t,
            Err::<(), AppError>(AppError::WebauthnFailed),
        ),
        s.username is Some && s.passkey_registration is Some ==> registration_finished(
            s,
            t,
            name,
            None,
        ) == (
            SessionView { passkey_registration: None, ..s },
            t,
            Err::<(), AppError>(AppError::WebauthnFailed),
        ),
{
}

/// A failed finish never logs the session in, and a failed step never
/// changes the store.
pub proof fn law_failure_leaves_no_trace(
    s: SessionView,
    t: Tables,
    name: Seq<char>,
    verified: Option<CredentialView>,
    accepted: Option<AuthenticationView>,
)
    ensures
        ({
            let (s1, t1, outcome) = authentication_finished(s, t, accepted);
            outcome is Err ==> s1.logged_in == s.logged_in && t1 == t
        }),
        ({
            let (s1, t1, outcome) = registration_finished(s, t, name, verified);
            s1.logged_in == s.logged_in && (outcome is Err ==> t1 == t)
        }),
{
}

} // verus!
