//! What each request of the service does to the session and the store,
//! and what goes back to the client.

use crate::app::{
    all_readable, brought_up_to_date, named_credentials, refresh_material, user_outcome, App,
    Credential, CredentialView, CredentialWithName, NamedCredential, Tables,
};
use crate::ceremony::{
    authentication_finished, authentication_started, claimed, claimed_username,
    conclude_authentication, conclude_registration, credential_view, excluded_credentials,
    registered, registration_started, registration_taken, start_authentication,
    start_registration, take_authentication, take_registration, Authentication,
    AuthenticationView,
};
use crate::error::AppError;
use crate::identity::{admitted, basic_credentials, carried, Passwords};
use crate::redirect::{accepted_redirect, get_redirect_url};
use crate::session::{text_view, Session, SessionView};
use crate::relying_party::RelyingParty;
use crate::webauthn::{
    authentication_verdict, parsed_passkey, passkey_cred_id, passkey_from_json, passkey_id,
    passkey_record, passkey_to_json, registration_verdict, result_cred_id, result_id,
    result_needs_update, result_wants_update,
};
use vstd::prelude::*;
use vstd::string::StringExecFns;
use webauthn_rs::prelude::{
    AuthenticationResult, CreationChallengeResponse, Passkey, PasskeyAuthentication,
    PasskeyRegistration, PublicKeyCredential, RegisterPublicKeyCredential,
    RequestChallengeResponse, Url,
};

verus! {

/// Whether the client of a request is logged in.
#[derive(Debug, Clone, Copy, PartialEq, Eq)]
pub struct LoggedIn(pub bool);

impl LoggedIn {
    /// Reads the login flag of a session. A session that has never been
    /// logged in is not logged in.
    pub fn from_session(session: &Session) -> (flag: LoggedIn)
        ensures
            flag.0 == session@.logged_in,
    {
        LoggedIn(session.logged_in)
    }
}

/// The status that refuses a request: 401, Unauthorized.
pub const UNAUTHORIZED: u16 = 401;

/// The status of a successful request that sends nothing back: 204.
pub const NO_CONTENT: u16 = 204;

/// Lets a request through only where its client is logged in; refuses it
/// with 401 otherwise.
pub fn require_logged_in(logged_in: LoggedIn) -> (gate: Result<(), u16>)
    ensures
        gate == if logged_in.0 {
            Ok::<(), u16>(())
        } else {
            Err::<(), u16>(UNAUTHORIZED)
        },
{
    if logged_in.0 {
        Ok(())
    } else {
        Err(UNAUTHORIZED)
    }
}

/// Lets a request through only where it comes from this machine.
///
/// `forwarded` is absent where the request names no forwarding proxy;
/// otherwise it says whether the first address that the proxy names could
/// be read and is a loopback address. Only without it does the address of
/// the connection itself count.
pub fn allow_only_localhost(forwarded: Option<bool>, peer_is_loopback: bool) -> (gate: Result<
    (),
    u16,
>)
    ensures
        gate is Ok <==> match forwarded {
            Some(local) => local,
            None => peer_is_loopback,
        },
        gate matches Err(status) ==> status == UNAUTHORIZED,
{
    let local = match forwarded {
        Some(local) => local,
        None => peer_is_loopback,
    };
    if local {
        Ok(())
    } else {
        Err(UNAUTHORIZED)
    }
}

/// What a request to begin a registration does, for each id that may be
/// drawn for a new user and each answer of the ceremony library.
///
/// Without a username claim it fails with `BadSession`. The user is
/// looked up, and stored where new; a failure of that is the result.
/// Then the session records the start as
/// [`registration_started`] says.
pub open spec fn register_start(
    s: SessionView,
    t: Tables,
    candidate: u128,
    started: Option<(CreationChallengeResponse, PasskeyRegistration)>,
) -> (SessionView, Tables, Result<CreationChallengeResponse, AppError>) {
    match claimed(s) {
        Err(e) => (s, t, Err(e)),
        Ok(username) => {
            let (stored, found) = t.get_or_create_user(username, candidate);
            match found {
                Err(e) => (s, stored, Err(e)),
                Ok(_) => {
                    let (after, challenge) = registration_started(s, started);
                    (after, stored, challenge)
                },
            }
        },
    }
}

/// Begins the registration of a new credential for the session's user.
///
/// The ceremony library is asked for a challenge that excludes the
/// credentials the user already has, with the username as display name.
pub fn register_start_handler(session: &mut Session, app: &mut App, webauthn: &RelyingParty) -> (challenge:
    Result<CreationChallengeResponse, AppError>)
    ensures
        exists|candidate: u128, started: Option<(CreationChallengeResponse, PasskeyRegistration)>|
            candidate != 0 && (old(session)@.username matches Some(username) ==> (started is Some
                <==> username.len() > 0)) && (final(session)@, final(app)@, challenge)
                == #[trigger] register_start(old(session)@, old(app)@, candidate, started),
        old(session)@.username matches Some(username) && old(app)@.find_user(username) matches Ok(
            Some(_),
        ) && username.len() > 0 ==> challenge is Ok && final(session)@.passkey_registration
            is Some && final(app)@ == old(app)@,
        old(session)@.username matches Some(username) && old(app)@.ready
            && old(app)@.users.len() == 0 && username.len() > 0 ==> challenge is Ok
            && final(session)@.passkey_registration is Some && final(app)@.has_user(
            old(session)@.username->0,
        ),
{
    let ghost s = session@;
    let ghost t = app@;
    let username = match claimed_username(session) {
        Ok(username) => username,
        Err(e) => {
            assert((s, t, Err::<CreationChallengeResponse, AppError>(e)) == register_start(
                s,
                t,
                1,
                None,
            ));
            return Err(e);
        },
    };
    let found = app.get_user_with_credentials(username);
    let ghost candidate = choose|candidate: u128|
        candidate != 0 && (app@, user_outcome(found)) == #[trigger] t.get_or_create_user(
            s.username->0,
            candidate,
        );
    proof {
        if t.ready && t.users.len() == 0 {
            t.law_first_user_is_created(s.username->0, candidate);
        }
    }
    let user = match found {
        Ok(user) => user,
        Err(e) => {
            let ghost unasked: Option<(CreationChallengeResponse, PasskeyRegistration)> =
                if s.username->0.len() > 0 {
                Some(arbitrary())
            } else {
                None
            };
            assert((s, app@, Err::<CreationChallengeResponse, AppError>(e)) == register_start(
                s,
                t,
                candidate,
                unasked,
            ));
            return Err(e);
        },
    };
    let exclude = excluded_credentials(&user.credentials);
    let started = webauthn.start_registration(user.id, user.username.as_str(), exclude);
    let challenge = start_registration(session, started);
    assert((session@, app@, challenge) == register_start(s, t, candidate, started));
    challenge
}

/// What a client sends to finish a registration: the display name for the
/// new credential and the answer to the challenge.
pub struct RegisterEndRequestPayload {
    pub name: String,
    pub credential: RegisterPublicKeyCredential,
}

/// What the store keeps of a passkey: its ID and its serialized record.
/// Nothing where the record cannot be written.
pub open spec fn kept_form(passkey: Passkey) -> Option<CredentialView> {
    match passkey_record(passkey) {
        Some(material) => Some(CredentialView { id: passkey_cred_id(passkey), material }),
        None => None,
    }
}

/// Reads off a verified passkey what the store keeps of it, see
/// [`kept_form`].
pub fn stored_form(passkey: &Passkey) -> (credential: Option<Credential>)
    ensures
        credential_view(credential) == kept_form(*passkey),
{
    match passkey_to_json(passkey) {
        Ok(material) => Some(Credential { id: passkey_id(passkey), material }),
        Err(_) => None,
    }
}

/// What the ceremony library's verdict on a registration does to the
/// store: a rejected answer gives `WebauthnFailed`, a verified passkey
/// whose record cannot be written gives `UnknownError`, and any other is
/// stored, in the form that the store keeps, as [`registered`] says.
pub open spec fn passkey_concluded(
    t: Tables,
    username: Seq<char>,
    name: Seq<char>,
    verified: Option<Passkey>,
) -> (Tables, Result<(), AppError>) {
    match verified {
        None => (t, Err(AppError::WebauthnFailed)),
        Some(passkey) => match kept_form(passkey) {
            Some(credential) => registered(t, username, name, credential),
            None => (t, Err(AppError::UnknownError)),
        },
    }
}

/// Acts on the ceremony library's verdict on a registration whose state
/// has been taken out of the session.
pub fn conclude_passkey(app: &mut App, username: String, name: String, verified: Option<Passkey>) -> (finished:
    Result<(), AppError>)
    ensures
        (final(app)@, finished) == passkey_concluded(old(app)@, username@, name@, verified),
{
    match verified {
        None => conclude_registration(app, username, name, None),
        Some(passkey) => match stored_form(&passkey) {
            Some(credential) => conclude_registration(app, username, name, Some(credential)),
            None => Err(AppError::UnknownError),
        },
    }
}

/// What a request to finish a registration does, for each verdict of the
/// ceremony library on the client's answer. The state of the
/// registration leaves the session whatever happens. Without a username
/// claim or without such a state the result is `BadSession`; otherwise
/// the verdict is acted on as [`passkey_concluded`] says.
pub open spec fn register_end(
    s: SessionView,
    t: Tables,
    name: Seq<char>,
    verified: Option<Passkey>,
) -> (SessionView, Tables, Result<(), AppError>) {
    let (after, taken) = registration_taken(s);
    match taken {
        Err(e) => (after, t, Err(e)),
        Ok((username, _)) => {
            let (stored, outcome) = passkey_concluded(t, username, name, verified);
            (after, stored, outcome)
        },
    }
}

/// Finishes the registration that the session has in progress.
///
/// The state of the registration leaves the session first. Then the
/// ceremony library checks the client's answer against it, and everything
/// goes as [`register_end`] says for its verdict. A session without a
/// claim or without such a state fails with `BadSession` and the library
/// is not asked.
pub fn register_end_handler(
    session: &mut Session,
    app: &mut App,
    webauthn: &RelyingParty,
    payload: &RegisterEndRequestPayload,
) -> (finished: Result<(), AppError>)
    ensures
        (final(session)@, final(app)@, finished) == register_end(
            old(session)@,
            old(app)@,
            payload.name@,
            match old(session)@.passkey_registration {
                Some(state) => if old(session)@.username is Some {
                    registration_verdict(webauthn@, payload.credential, state)
                } else {
                    None
                },
                None => None,
            },
        ),
{
    let (username, state) = match take_registration(session) {
        Ok(taken) => taken,
        Err(e) => {
            return Err(e);
        },
    };
    let verified = webauthn.finish_registration(&payload.credential, &state);
    conclude_passkey(app, username, payload.name.clone(), verified)
}

/// What the ceremony library reads from the serialized record of each
/// of some credentials, in order.
pub open spec fn records_read(credentials: Seq<NamedCredential>) -> Seq<Option<Passkey>> {
    credentials.map_values(|c: NamedCredential| parsed_passkey(c.credential.material))
}

/// Reads the passkeys back from the serialized records of a user's
/// credentials, for the ceremony library. A record that cannot be read
/// fails the whole with `SerializationError`.
pub fn stored_passkeys(credentials: &Vec<CredentialWithName>) -> (passkeys: Result<
    Vec<Passkey>,
    AppError,
>)
    ensures
        match passkeys {
            Ok(list) => list.len() == credentials.len() && forall|k: int|
                0 <= k < list.len() ==> (#[trigger] records_read(
                    named_credentials(credentials@),
                )[k]) == Some(list[k]),
            Err(e) => e == AppError::SerializationError && exists|k: int|
                0 <= k < credentials.len() && #[trigger] records_read(
                    named_credentials(credentials@),
                )[k] is None,
        },
{
    let mut passkeys: Vec<Passkey> = Vec::new();
    let mut k: usize = 0;
    let ghost read = records_read(named_credentials(credentials@));
    while k < credentials.len()
        invariant
            k <= credentials.len(),
            passkeys.len() == k,
            read == records_read(named_credentials(credentials@)),
            forall|l: int| 0 <= l < k ==> read[l] == Some(#[trigger] passkeys[l]),
        decreases credentials.len() - k,
    {
        match passkey_from_json(credentials[k].credential.material.as_str()) {
            Ok(passkey) => {
                passkeys.push(passkey);
            },
            Err(_) => {
                assert(read[k as int] is None);
                return Err(AppError::SerializationError);
            },
        }
        k += 1;
    }
    Ok(passkeys)
}

/// What a request to begin an authentication does, for each id that may
/// be drawn for a new user and each answer of the ceremony library.
///
/// Without a username claim it fails with `BadSession`. The user is
/// looked up, and stored where new; a failure of that is the result, as
/// it is where a record of the user cannot be read back. A user without
/// credentials is logged in at once. Otherwise the session records the
/// start as [`authentication_started`] says.
pub open spec fn authenticate_start(
    s: SessionView,
    t: Tables,
    candidate: u128,
    started: Option<(RequestChallengeResponse, PasskeyAuthentication)>,
) -> (SessionView, Tables, Result<RequestChallengeResponse, AppError>) {
    match claimed(s) {
        Err(e) => (s, t, Err(e)),
        Ok(username) => {
            let (stored, found) = t.get_or_create_user(username, candidate);
            match found {
                Err(e) => (s, stored, Err(e)),
                Ok(user) => {
                    let (after, challenge) = authentication_started(s, user.credentials, started);
                    (after, stored, challenge)
                },
            }
        },
    }
}

/// Begins an authentication of the session's user.
///
/// A user who has no credentials is logged in without a challenge and
/// the ceremony library is not asked. For any other user the library is
/// asked for a challenge over all the user's credentials.
pub fn authenticate_start_handler(session: &mut Session, app: &mut App, webauthn: &RelyingParty) -> (challenge:
    Result<RequestChallengeResponse, AppError>)
    ensures
        exists|candidate: u128, started: (RequestChallengeResponse, PasskeyAuthentication)|
            candidate != 0 && (final(session)@, final(app)@, challenge)
                == #[trigger] authenticate_start(
                old(session)@,
                old(app)@,
                candidate,
                Some(started),
            ),
        old(session)@.username matches Some(username) && old(app)@.find_user(username) matches Ok(
            Some(user),
        ) && user.credentials.len() > 0 ==> challenge is Ok
            && final(session)@.passkey_authentication is Some && final(app)@ == old(app)@,
        old(session)@.username matches Some(username) && old(app)@.find_user(username) matches Ok(
            Some(user),
        ) && user.credentials.len() == 0 ==> challenge == Err::<RequestChallengeResponse, AppError>(
            AppError::NoUserCredentials,
        ) && final(session)@ == (SessionView { logged_in: true, ..old(session)@ }) && final(app)@
            == old(app)@,
        old(session)@.username matches Some(username) && old(app)@.ready
            && old(app)@.users.len() == 0 ==> challenge == Err::<
            RequestChallengeResponse,
            AppError,
        >(AppError::NoUserCredentials) && final(session)@ == (SessionView {
            logged_in: true,
            ..old(session)@
        }) && final(app)@.has_user(old(session)@.username->0),
{
    let ghost s = session@;
    let ghost t = app@;
    let ghost unasked: (RequestChallengeResponse, PasskeyAuthentication) = arbitrary();
    let username = match claimed_username(session) {
        Ok(username) => username,
        Err(e) => {
            assert((s, t, Err::<RequestChallengeResponse, AppError>(e)) == authenticate_start(
                s,
                t,
                1,
                Some(unasked),
            ));
            return Err(e);
        },
    };
    let found = app.get_user_with_credentials(username);
    let ghost candidate = choose|candidate: u128|
        candidate != 0 && (app@, user_outcome(found)) == #[trigger] t.get_or_create_user(
            s.username->0,
            candidate,
        );
    proof {
        if t.ready && t.users.len() == 0 {
            t.law_first_user_is_created(s.username->0, candidate);
        }
    }
    let user = match found {
        Ok(user) => user,
        Err(e) => {
            assert((s, app@, Err::<RequestChallengeResponse, AppError>(e)) == authenticate_start(
                s,
                t,
                candidate,
                Some(unasked),
            ));
            return Err(e);
        },
    };
    if user.credentials.len() == 0 {
        let challenge = start_authentication(session, &user.credentials, None);
        assert((session@, app@, challenge) == authenticate_start(
            s,
            t,
            candidate,
            Some(unasked),
        ));
        return challenge;
    }
    assert(all_readable(user@.credentials));
    let passkeys = match stored_passkeys(&user.credentials) {
        Ok(passkeys) => passkeys,
        Err(e) => {
            proof {
                let k = choose|k: int|
                    0 <= k < user.credentials.len() && #[trigger] records_read(
                        user@.credentials,
                    )[k] is None;
                assert(parsed_passkey(user@.credentials[k].credential.material) is None);
            }
            return Err(e);
        },
    };
    let started = webauthn.start_authentication(&passkeys);
    let challenge = start_authentication(session, &user.credentials, started);
    assert((session@, app@, challenge) == authenticate_start(s, t, candidate, started));
    assert(started == Some(started->0));
    challenge
}

/// The form in which an accepted authentication is acted on: the ID of
/// the credential it was made with and, where the library asks for an
/// update, what it makes of the credential's stored record. Without a
/// stored record the library is not asked.
pub open spec fn acted_on(t: Tables, result: AuthenticationResult) -> AuthenticationView {
    let cred_id = result_cred_id(result);
    AuthenticationView {
        cred_id,
        update: if result_wants_update(result) {
            Some(
                match t.credential_material(cred_id) {
                    Ok(material) => brought_up_to_date(material, result),
                    Err(e) => Err(e),
                },
            )
        } else {
            None
        },
    }
}

/// Puts what the ceremony library reported of an accepted authentication
/// into the form in which it is acted on, see [`acted_on`]. Where the
/// credential's record needs an update, the stored record is read and
/// the library's update is applied to it.
pub fn accepted_authentication(app: &App, auth_result: &AuthenticationResult) -> (accepted:
    Authentication)
    ensures
        accepted@ == acted_on(app@, *auth_result),
{
    let cred_id = result_id(auth_result);
    let update = if result_needs_update(auth_result) {
        match app.credential_material(&cred_id) {
            Ok(material) => Some(refresh_material(material.as_str(), auth_result)),
            Err(e) => Some(Err(e)),
        }
    } else {
        None
    };
    Authentication { cred_id, update }
}

/// What a request to finish an authentication does, for each verdict of
/// the ceremony library on the client's answer: everything goes as
/// [`authentication_finished`] says, with an accepted authentication in
/// the form in which it is acted on.
pub open spec fn authenticate_end(s: SessionView, t: Tables, verified: Option<AuthenticationResult>) -> (
    SessionView,
    Tables,
    Result<(), AppError>,
) {
    authentication_finished(
        s,
        t,
        match verified {
            Some(result) => Some(acted_on(t, result)),
            None => None,
        },
    )
}

/// Finishes the authentication that the session has in progress.
///
/// The state of the authentication leaves the session first. Then the
/// ceremony library checks the client's answer against it, and
/// [`authenticate_end`] says what follows from its verdict. A stored
/// record that needs an update is brought up to date before the session
/// is logged in. A session without such a state fails with `BadSession`
/// and the library is not asked.
pub fn authenticate_end_handler(
    session: &mut Session,
    app: &mut App,
    webauthn: &RelyingParty,
    payload: &PublicKeyCredential,
) -> (finished: Result<(), AppError>)
    ensures
        (final(session)@, final(app)@, finished) == authenticate_end(
            old(session)@,
            old(app)@,
            match old(session)@.passkey_authentication {
                Some(state) => authentication_verdict(webauthn@, *payload, state),
                None => None,
            },
        ),
{
    let state = match take_authentication(session) {
        Ok(state) => state,
        Err(e) => {
            return Err(e);
        },
    };
    let verified = match webauthn.finish_authentication(payload, &state) {
        Some(auth_result) => Some(accepted_authentication(app, &auth_result)),
        None => None,
    };
    conclude_authentication(session, app, verified)
}

/// Revokes the credential with this ID and answers 204, or fails with
/// `CredentialNotFound` where no such credential is stored.
pub fn delete_credentials_api_handler(cred_id: Vec<u8>, app: &mut App) -> (status: Result<
    u16,
    AppError,
>)
    ensures
        final(app)@ == old(app)@.delete_credential(cred_id@).0,
        match old(app)@.delete_credential(cred_id@).1 {
            Ok(_) => status == Ok::<u16, AppError>(NO_CONTENT),
            Err(e) => status == Err::<u16, AppError>(e),
        },
{
    match app.delete_credential(cred_id) {
        Ok(()) => Ok(NO_CONTENT),
        Err(e) => Err(e),
    }
}

/// A credential as a listing shows it: its ID and its display name.
#[derive(Debug, PartialEq, Eq)]
pub struct CredentialIDWithName {
    pub id: Vec<u8>,
    pub name: String,
}

/// The mathematical value of a [`CredentialIDWithName`].
pub ghost struct ListedCredential {
    pub id: Seq<u8>,
    pub name: Seq<char>,
}

impl View for CredentialIDWithName {
    type V = ListedCredential;

    open spec fn view(&self) -> ListedCredential {
        ListedCredential { id: self.id@, name: self.name@ }
    }
}

/// The listing of a user's credentials.
#[derive(Debug, PartialEq, Eq)]
pub struct GetCredentialsResponsePayload {
    pub data: Vec<CredentialIDWithName>,
}

impl View for GetCredentialsResponsePayload {
    type V = Seq<ListedCredential>;

    open spec fn view(&self) -> Seq<ListedCredential> {
        self.data@.map_values(|c: CredentialIDWithName| c@)
    }
}

/// What a listing shows of a user's credentials: of each its ID and its
/// name, in the same order.
pub open spec fn shown(credentials: Seq<NamedCredential>) -> Seq<ListedCredential> {
    credentials.map_values(
        |c: NamedCredential| ListedCredential { id: c.credential.id, name: c.name },
    )
}

/// The listing of these credentials.
pub fn credential_listing(credentials: &Vec<CredentialWithName>) -> (listing:
    GetCredentialsResponsePayload)
    ensures
        listing@ == shown(named_credentials(credentials@)),
{
    let mut data: Vec<CredentialIDWithName> = Vec::new();
    let mut k: usize = 0;
    while k < credentials.len()
        invariant
            k <= credentials.len(),
            data.len() == k,
            forall|l: int|
                0 <= l < k ==> (#[trigger] data[l])@ == (ListedCredential {
                    id: credentials[l].credential.id@,
                    name: credentials[l].name@,
                }),
        decreases credentials.len() - k,
    {
        data.push(
            CredentialIDWithName {
                id: credentials[k].credential.id.clone(),
                name: credentials[k].name.clone(),
            },
        );
        k += 1;
    }
    let listing = GetCredentialsResponsePayload { data };
    assert(listing@ =~= shown(named_credentials(credentials@)));
    listing
}

/// The answer to a request for the page of credentials.
#[derive(Debug, PartialEq, Eq)]
pub enum CredentialsPage {
    /// The client is sent elsewhere for the time being.
    Redirect(String),
    /// The page is shown with these credentials.
    Listing(GetCredentialsResponsePayload),
}

/// The mathematical value of a [`CredentialsPage`].
pub ghost enum CredentialsPageView {
    Redirect(Seq<char>),
    Listing(Seq<ListedCredential>),
}

impl View for CredentialsPage {
    type V = CredentialsPageView;

    open spec fn view(&self) -> CredentialsPageView {
        match self {
            CredentialsPage::Redirect(to) => CredentialsPageView::Redirect(to@),
            CredentialsPage::Listing(payload) => CredentialsPageView::Listing(payload@),
        }
    }
}

/// The value of what a request for the page of credentials returned.
pub open spec fn page_outcome(r: Result<CredentialsPage, AppError>) -> Result<
    CredentialsPageView,
    AppError,
> {
    match r {
        Ok(page) => Ok(page@),
        Err(e) => Err(e),
    }
}

/// Where a client who is not logged in is sent from the page of
/// credentials.
pub open spec fn login_detour() -> Seq<char> {
    "/authenticate?redirect_url=/credentials"@
}

/// What a request for the page of credentials does, for each id that
/// may be drawn for a new user.
///
/// A client who is not logged in is sent to log in and come back.
/// Without a username claim the request fails with `BadSession`. The
/// user is looked up, and stored where new, and the page lists the
/// user's credentials.
pub open spec fn credentials_page(logged_in: bool, s: SessionView, t: Tables, candidate: u128) -> (
    Tables,
    Result<CredentialsPageView, AppError>,
) {
    if !logged_in {
        (t, Ok(CredentialsPageView::Redirect(login_detour())))
    } else {
        match claimed(s) {
            Err(e) => (t, Err(e)),
            Ok(username) => {
                let (stored, found) = t.get_or_create_user(username, candidate);
                match found {
                    Err(e) => (stored, Err(e)),
                    Ok(user) => (stored, Ok(CredentialsPageView::Listing(shown(user.credentials)))),
                }
            },
        }
    }
}

/// Answers a request for the page of credentials.
pub fn get_credentials_template_handler(logged_in: LoggedIn, session: &Session, app: &mut App) -> (page:
    Result<CredentialsPage, AppError>)
    ensures
        exists|candidate: u128|
            candidate != 0 && (final(app)@, page_outcome(page)) == #[trigger] credentials_page(
                logged_in.0,
                session@,
                old(app)@,
                candidate,
            ),
{
    let ghost t = app@;
    if !logged_in.0 {
        let page = Ok(
            CredentialsPage::Redirect("/authenticate?redirect_url=/credentials".to_owned()),
        );
        assert((t, page_outcome(page)) == credentials_page(logged_in.0, session@, t, 1));
        return page;
    }
    let username = match claimed_username(session) {
        Ok(username) => username,
        Err(e) => {
            assert((t, Err::<CredentialsPageView, AppError>(e)) == credentials_page(
                logged_in.0,
                session@,
                t,
                1,
            ));
            return Err(e);
        },
    };
    let found = app.get_user_with_credentials(username);
    let ghost candidate = choose|candidate: u128|
        candidate != 0 && (app@, user_outcome(found)) == #[trigger] t.get_or_create_user(
            session@.username->0,
            candidate,
        );
    let page = match found {
        Ok(user) => Ok(CredentialsPage::Listing(credential_listing(&user.credentials))),
        Err(e) => Err(e),
    };
    assert((app@, page_outcome(page)) == credentials_page(logged_in.0, session@, t, candidate));
    page
}

/// What the service answers to a path that none of its routes takes.
#[derive(Debug, Clone, Copy, PartialEq, Eq, Structural)]
pub enum RootResponse {
    /// A permanent redirect to the page of credentials.
    ToCredentials,
    /// The icon, served as `image/svg+xml`.
    Favicon,
    /// The script of the pages, served as `text/javascript`.
    MainScript,
    /// 404, with an empty body.
    NotFound,
}

/// The answer to each path that no route takes.
pub open spec fn root_answer(path: Seq<char>) -> RootResponse {
    if path == "/"@ {
        RootResponse::ToCredentials
    } else if path == "/favicon.ico"@ {
        RootResponse::Favicon
    } else if path == "/main.js"@ {
        RootResponse::MainScript
    } else {
        RootResponse::NotFound
    }
}

/// Whether two pieces of text are the same.
pub fn same_text(a: &str, b: &str) -> (same: bool)
    ensures
        same == (a@ == b@),
{
    a.to_owned() == b.to_owned()
}

/// Answers a request whose path no route takes: the root leads to the
/// page of credentials, the icon and the script are served, and anything
/// else is not found.
pub fn root_handler(path: &str) -> (answer: RootResponse)
    ensures
        answer == root_answer(path@),
{
    if same_text(path, "/") {
        RootResponse::ToCredentials
    } else if same_text(path, "/favicon.ico") {
        RootResponse::Favicon
    } else if same_text(path, "/main.js") {
        RootResponse::MainScript
    } else {
        RootResponse::NotFound
    }
}

/// What a request for the login page may carry in its query.
#[derive(Debug, PartialEq, Eq)]
pub struct GetAuthenticateQueryParams {
    pub redirect_url: Option<String>,
}

/// The answer to a request for the login page.
#[derive(Debug, PartialEq, Eq)]
pub enum AuthenticatePage {
    /// The client is logged in and is sent on to where it wanted to go.
    Redirect(String),
    /// 401 with the header `WWW-Authenticate: Basic`: the client is asked
    /// for a username and a password.
    BasicChallenge,
    /// 401 with a page that says so: the password was not the user's.
    Unauthorized,
    /// The login page for this user.
    Page { username: String, logged_in: bool },
}

/// The mathematical value of an [`AuthenticatePage`].
pub ghost enum AuthenticatePageView {
    Redirect(Seq<char>),
    BasicChallenge,
    Unauthorized,
    Page { username: Seq<char>, logged_in: bool },
}

impl View for AuthenticatePage {
    type V = AuthenticatePageView;

    open spec fn view(&self) -> AuthenticatePageView {
        match self {
            AuthenticatePage::Redirect(to) => AuthenticatePageView::Redirect(to@),
            AuthenticatePage::BasicChallenge => AuthenticatePageView::BasicChallenge,
            AuthenticatePage::Unauthorized => AuthenticatePageView::Unauthorized,
            AuthenticatePage::Page { username, logged_in } => AuthenticatePageView::Page {
                username: username@,
                logged_in: *logged_in,
            },
        }
    }
}

/// What a request for the login page does.
///
/// A client that is logged in and has a redirect target waiting is sent
/// there, and the target leaves the session. Otherwise the client must
/// show a username and a password that the password file admits. Then
/// the username becomes the session's claim. Of a client that is not
/// logged in yet, the redirect target it asks for is kept in the session
/// where it is an accepted one.
pub open spec fn authenticate_page(
    logged_in: bool,
    s: SessionView,
    redirect_url: Option<Seq<char>>,
    authorization: Option<Seq<char>>,
    allowed_origins: Seq<Url>,
    passwords: Seq<(Seq<char>, Seq<char>)>,
) -> (SessionView, AuthenticatePageView) {
    if logged_in && s.redirect_url is Some {
        (SessionView { redirect_url: None, ..s }, AuthenticatePageView::Redirect(s.redirect_url->0))
    } else {
        match authorization {
            None => (s, AuthenticatePageView::BasicChallenge),
            Some(header) => match carried(header) {
                None => (s, AuthenticatePageView::BasicChallenge),
                Some((username, password)) => if !admitted(passwords, username, password) {
                    (s, AuthenticatePageView::Unauthorized)
                } else {
                    let known = SessionView { username: Some(username), ..s };
                    let page = AuthenticatePageView::Page { username, logged_in };
                    match redirect_url {
                        Some(wanted) => match accepted_redirect(wanted, allowed_origins) {
                            Ok(accepted) => if logged_in {
                                (known, page)
                            } else {
                                (SessionView { redirect_url: Some(accepted), ..known }, page)
                            },
                            Err(_) => (known, page),
                        },
                        None => (known, page),
                    }
                },
            },
        }
    }
}

/// Answers a request for the login page; `authorization` is the text of
/// the request's `Authorization` header, where it has one that is text.
pub fn get_authenticate_template_handler(
    logged_in: LoggedIn,
    params: &GetAuthenticateQueryParams,
    authorization: Option<&str>,
    session: &mut Session,
    allowed_origins: &[Url],
    passwords: &Passwords,
) -> (page: AuthenticatePage)
    ensures
        (final(session)@, page@) == authenticate_page(
            logged_in.0,
            old(session)@,
            text_view(params.redirect_url),
            match authorization {
                Some(header) => Some(header@),
                None => None,
            },
            allowed_origins@,
            passwords@,
        ),
{
    if logged_in.0 {
        if let Some(redirect_url) = session.redirect_url.take() {
            return AuthenticatePage::Redirect(redirect_url);
        }
    }
    let header = match authorization {
        Some(header) => header,
        None => {
            return AuthenticatePage::BasicChallenge;
        },
    };
    let (username, password) = match basic_credentials(header) {
        Some(pair) => pair,
        None => {
            return AuthenticatePage::BasicChallenge;
        },
    };
    if !passwords.admits(&username, &password) {
        return AuthenticatePage::Unauthorized;
    }
    session.username = Some(username.clone());
    if !logged_in.0 {
        if let Some(redirect_url) = &params.redirect_url {
            if let Ok(accepted) = get_redirect_url(redirect_url.clone(), allowed_origins) {
                session.redirect_url = Some(accepted);
            }
        }
    }
    AuthenticatePage::Page { username, logged_in: logged_in.0 }
}

/// What every page begins with.
pub const TOP_HTML: &'static str = "\n<!DOCTYPE html>\n<head>\n  <meta name=\"viewport\" content=\"width=device-width, initial-scale=1.0\">\n  <script type=\"module\" src=\"/main.js\" defer></script>\n  <title>WebAuthnTiny</title>\n</head>\n<html>\n<body>\n";

/// What every page ends with.
pub const BOTTOM_HTML: &'static str = "\n</body>\n</html>\n";

/// The page that tells a client that its password was not accepted.
pub const UNAUTHORIZED_HTML: &'static str = "<main><p>Unauthorized</p></main>";

/// Puts the common beginning and end around the body of a page.
pub fn finish_html(page_html: String) -> (html: String)
    ensures
        html@ == TOP_HTML@ + page_html@ + BOTTOM_HTML@,
{
    let mut html = TOP_HTML.to_owned();
    html.append(page_html.as_str());
    html.append(BOTTOM_HTML);
    html
}

} // verus!
