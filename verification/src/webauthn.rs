//! The ceremony library at its interface: the types it hands out and the
//! calls the service makes into it, and with them the source of fresh
//! user ids. Nothing here is proved; each item says what is taken on
//! trust.

use vstd::prelude::*;

verus! {

/// A stored passkey of the ceremony library. Opaque here.
#[verifier::external_type_specification]
#[verifier::external_body]
pub struct ExPasskey(webauthn_rs::prelude::Passkey);

/// What the ceremony library reports of a finished authentication.
/// Opaque here.
#[verifier::external_type_specification]
#[verifier::external_body]
pub struct ExAuthenticationResult(webauthn_rs::prelude::AuthenticationResult);

/// The passkey that `serde_json::from_str` reads from a serialized
/// record, or nothing where it refuses the text.
pub uninterp spec fn parsed_passkey(material: Seq<char>) -> Option<webauthn_rs::prelude::Passkey>;

/// The serialized record that `serde_json::to_string` writes for a
/// passkey, or nothing where it fails.
pub uninterp spec fn passkey_record(passkey: webauthn_rs::prelude::Passkey) -> Option<Seq<char>>;

/// The bytes of the credential ID that `Passkey::cred_id` returns.
pub uninterp spec fn passkey_cred_id(passkey: webauthn_rs::prelude::Passkey) -> Seq<u8>;

/// The passkey as `Passkey::update_credential` leaves it after an
/// authentication, or nothing where the authentication was made with
/// another credential.
pub uninterp spec fn updated_passkey(
    passkey: webauthn_rs::prelude::Passkey,
    result: webauthn_rs::prelude::AuthenticationResult,
) -> Option<webauthn_rs::prelude::Passkey>;

/// The bytes of the credential ID that `AuthenticationResult::cred_id`
/// returns.
pub uninterp spec fn result_cred_id(result: webauthn_rs::prelude::AuthenticationResult) -> Seq<u8>;

/// What `AuthenticationResult::needs_update` answers.
pub uninterp spec fn result_wants_update(result: webauthn_rs::prelude::AuthenticationResult) -> bool;

/// Calls `serde_json::from_str` to read a passkey back from its
/// serialized record. The result is a function of the text alone, named
/// [`parsed_passkey`].
#[verifier::external_body]
pub(crate) fn passkey_from_json(material: &str) -> (parsed: Result<
    webauthn_rs::prelude::Passkey,
    serde_json::Error,
>)
    ensures
        match parsed {
            Ok(passkey) => parsed_passkey(material@) == Some(passkey),
            Err(_) => parsed_passkey(material@) is None,
        },
{
    serde_json::from_str::<webauthn_rs::prelude::Passkey>(material)
}

/// Calls `serde_json::to_string` to serialize a passkey. The result is a
/// function of the passkey alone, named [`passkey_record`].
#[verifier::external_body]
pub(crate) fn passkey_to_json(passkey: &webauthn_rs::prelude::Passkey) -> (written: Result<
    String,
    serde_json::Error,
>)
    ensures
        match written {
            Ok(material) => passkey_record(*passkey) == Some(material@),
            Err(_) => passkey_record(*passkey) is None,
        },
{
    serde_json::to_string(passkey)
}

/// Calls `Passkey::cred_id` and copies the ID's bytes, named
/// [`passkey_cred_id`].
#[verifier::external_body]
pub(crate) fn passkey_id(passkey: &webauthn_rs::prelude::Passkey) -> (id: Vec<u8>)
    ensures
        id@ == passkey_cred_id(*passkey),
{
    passkey.cred_id().to_vec()
}

/// Calls `Passkey::update_credential`, which brings the passkey's counter
/// and backup flags up to date with an authentication. What it leaves is
/// a function of the passkey and the authentication alone, named
/// [`updated_passkey`]; `None` is the library's answer exactly where
/// the authentication was made with another credential, and the passkey
/// is then as it was. The update never changes the passkey's ID.
#[verifier::external_body]
pub(crate) fn passkey_update(
    passkey: &mut webauthn_rs::prelude::Passkey,
    result: &webauthn_rs::prelude::AuthenticationResult,
) -> (changed: Option<bool>)
    ensures
        match changed {
            Some(_) => updated_passkey(*old(passkey), *result) == Some(*final(passkey))
                && result_cred_id(*result) == passkey_cred_id(*old(passkey)),
            None => updated_passkey(*old(passkey), *result) is None && *final(passkey) == *old(
                passkey,
            ) && result_cred_id(*result) != passkey_cred_id(*old(passkey)),
        },
        passkey_cred_id(*final(passkey)) == passkey_cred_id(*old(passkey)),
{
    passkey.update_credential(result)
}

/// Calls `AuthenticationResult::cred_id` and copies the ID's bytes,
/// named [`result_cred_id`].
#[verifier::external_body]
pub(crate) fn result_id(result: &webauthn_rs::prelude::AuthenticationResult) -> (id: Vec<u8>)
    ensures
        id@ == result_cred_id(*result),
{
    result.cred_id().to_vec()
}

/// Calls `AuthenticationResult::needs_update`; the answer is named
/// [`result_wants_update`].
#[verifier::external_body]
pub(crate) fn result_needs_update(result: &webauthn_rs::prelude::AuthenticationResult) -> (needed:
    bool)
    ensures
        needed == result_wants_update(*result),
{
    result.needs_update()
}

/// Calls `uuid::Uuid::new_v4` for a random identifier and hands it out as
/// a number. The number is random but for the version and variant bits,
/// which are always set: it is never zero.
#[verifier::external_body]
pub(crate) fn fresh_user_id() -> (id: u128)
    ensures
        id != 0,
{
    uuid::Uuid::new_v4().as_u128()
}

/// The state that the ceremony library keeps between the start and the
/// finish of a registration. Opaque here.
#[verifier::external_type_specification]
#[verifier::external_body]
pub struct ExPasskeyRegistration(webauthn_rs::prelude::PasskeyRegistration);

/// The state that the ceremony library keeps between the start and the
/// finish of an authentication. Opaque here.
#[verifier::external_type_specification]
#[verifier::external_body]
pub struct ExPasskeyAuthentication(webauthn_rs::prelude::PasskeyAuthentication);

/// Calls `PasskeyRegistration::clone`, which `derive` wrote: the copy is
/// the same value.
#[verifier::external_body]
pub(crate) fn clone_registration(state: &webauthn_rs::prelude::PasskeyRegistration) -> (copy:
    webauthn_rs::prelude::PasskeyRegistration)
    ensures
        copy == *state,
{
    state.clone()
}

/// Calls `PasskeyAuthentication::clone`, which `derive` wrote: the copy
/// is the same value.
#[verifier::external_body]
pub(crate) fn clone_authentication(state: &webauthn_rs::prelude::PasskeyAuthentication) -> (copy:
    webauthn_rs::prelude::PasskeyAuthentication)
    ensures
        copy == *state,
{
    state.clone()
}

/// The relying party's instance of the ceremony library. Opaque here.
#[verifier::external_type_specification]
#[verifier::external_body]
pub struct ExWebauthn(webauthn_rs::prelude::Webauthn);

/// The error of the ceremony library. Opaque here.
#[verifier::external_type_specification]
#[verifier::external_body]
pub struct ExWebauthnError(webauthn_rs::prelude::WebauthnError);

/// The challenge that starts a registration. Opaque here.
#[verifier::external_type_specification]
#[verifier::external_body]
pub struct ExCreationChallengeResponse(webauthn_rs::prelude::CreationChallengeResponse);

/// The challenge that starts an authentication. Opaque here.
#[verifier::external_type_specification]
#[verifier::external_body]
pub struct ExRequestChallengeResponse(webauthn_rs::prelude::RequestChallengeResponse);

/// A client's answer to a registration challenge. Opaque here.
#[verifier::external_type_specification]
#[verifier::external_body]
pub struct ExRegisterPublicKeyCredential(webauthn_rs::prelude::RegisterPublicKeyCredential);

/// A client's answer to an authentication challenge. Opaque here.
#[verifier::external_type_specification]
#[verifier::external_body]
pub struct ExPublicKeyCredential(webauthn_rs::prelude::PublicKeyCredential);

/// The instance that `WebauthnBuilder::new`, `allow_subdomains`,
/// `append_allowed_origin` for each further origin, and `build` make of
/// a relying party's id and origins; nothing where the library refuses
/// the id for the origin.
pub uninterp spec fn built_webauthn(
    rp_id: Seq<char>,
    rp_origin: webauthn_rs::prelude::Url,
    extra_allowed_origins: Seq<webauthn_rs::prelude::Url>,
    allow_subdomains: bool,
) -> Option<webauthn_rs::prelude::Webauthn>;

/// Whether an instance of the ceremony library is one that
/// [`build_webauthn`] makes. Such an instance has the library's own
/// timeout for challenges, five minutes.
pub open spec fn made_here(webauthn: webauthn_rs::prelude::Webauthn) -> bool {
    exists|
        rp_id: Seq<char>,
        rp_origin: webauthn_rs::prelude::Url,
        extra_allowed_origins: Seq<webauthn_rs::prelude::Url>,
        allow_subdomains: bool,
    |
        built_webauthn(rp_id, rp_origin, extra_allowed_origins, allow_subdomains) == Some(
            webauthn,
        )
}

/// Calls `WebauthnBuilder::new`, `allow_subdomains`,
/// `append_allowed_origin` once for each further origin, and `build`. No
/// timeout is set. The result is a function of the arguments alone, named
/// [`built_webauthn`].
#[verifier::external_body]
pub(crate) fn build_webauthn(
    rp_id: &str,
    rp_origin: &webauthn_rs::prelude::Url,
    extra_allowed_origins: &Vec<webauthn_rs::prelude::Url>,
    allow_subdomains: bool,
) -> (built: Result<webauthn_rs::prelude::Webauthn, webauthn_rs::prelude::WebauthnError>)
    ensures
        match built {
            Ok(webauthn) => built_webauthn(
                rp_id@,
                *rp_origin,
                extra_allowed_origins@,
                allow_subdomains,
            ) == Some(webauthn),
            Err(_) => built_webauthn(
                rp_id@,
                *rp_origin,
                extra_allowed_origins@,
                allow_subdomains,
            ) is None,
        },
{
    let mut builder = webauthn_rs::WebauthnBuilder::new(rp_id, rp_origin)?.allow_subdomains(
        allow_subdomains,
    );
    for origin in extra_allowed_origins {
        builder = builder.append_allowed_origin(origin);
    }
    builder.build()
}

/// Calls `Webauthn::start_passkey_registration`, which draws a random
/// challenge. The user's id goes in as a UUID and the credential IDs to
/// exclude in the library's own type. Of the challenge and the state
/// nothing is claimed; the call succeeds exactly where neither name is
/// empty, the only case which the library refuses.
///
/// The library turns the instance's timeout into 32-bit milliseconds and
/// panics where it does not fit; an instance that [`build_webauthn`] made
/// has a timeout of five minutes.
#[verifier::external_body]
pub(crate) fn start_passkey_registration(
    webauthn: &webauthn_rs::prelude::Webauthn,
    user_id: u128,
    user_name: &str,
    user_display_name: &str,
    exclude_credentials: Option<Vec<Vec<u8>>>,
) -> (started: Result<
    (webauthn_rs::prelude::CreationChallengeResponse, webauthn_rs::prelude::PasskeyRegistration),
    webauthn_rs::prelude::WebauthnError,
>)
    requires
        made_here(*webauthn),
    ensures
        match started {
            Ok(_) => user_name@.len() > 0 && user_display_name@.len() > 0,
            Err(_) => !(user_name@.len() > 0 && user_display_name@.len() > 0),
        },
{
    webauthn.start_passkey_registration(
        webauthn_rs::prelude::Uuid::from_u128(user_id),
        user_name,
        user_display_name,
        exclude_credentials.map(
            |ids| ids.into_iter().map(webauthn_rs::prelude::CredentialID::from).collect(),
        ),
    )
}

/// The passkey that `Webauthn::finish_passkey_registration` verifies from
/// a client's answer and the state of the registration it belongs to, or
/// nothing where it rejects the answer.
pub uninterp spec fn registration_verdict(
    webauthn: webauthn_rs::prelude::Webauthn,
    answer: webauthn_rs::prelude::RegisterPublicKeyCredential,
    state: webauthn_rs::prelude::PasskeyRegistration,
) -> Option<webauthn_rs::prelude::Passkey>;

/// What `Webauthn::finish_passkey_authentication` reports of a client's
/// answer and the state of the authentication it belongs to, or nothing
/// where it rejects the answer.
pub uninterp spec fn authentication_verdict(
    webauthn: webauthn_rs::prelude::Webauthn,
    answer: webauthn_rs::prelude::PublicKeyCredential,
    state: webauthn_rs::prelude::PasskeyAuthentication,
) -> Option<webauthn_rs::prelude::AuthenticationResult>;

/// Calls `Webauthn::finish_passkey_registration`, which checks a client's
/// answer against the state of the registration it belongs to. The
/// verdict depends on the instance, the answer and the state alone, and
/// is named [`registration_verdict`].
#[verifier::external_body]
pub(crate) fn finish_passkey_registration(
    webauthn: &webauthn_rs::prelude::Webauthn,
    reg: &webauthn_rs::prelude::RegisterPublicKeyCredential,
    state: &webauthn_rs::prelude::PasskeyRegistration,
) -> (verified: Result<webauthn_rs::prelude::Passkey, webauthn_rs::prelude::WebauthnError>)
    ensures
        match verified {
            Ok(passkey) => registration_verdict(*webauthn, *reg, *state) == Some(passkey),
            Err(_) => registration_verdict(*webauthn, *reg, *state) is None,
        },
{
    webauthn.finish_passkey_registration(reg, state)
}

/// Calls `Webauthn::start_passkey_authentication`, which draws a random
/// challenge for the given passkeys. Of the challenge and the state
/// nothing is claimed; the call always succeeds, since the library asks
/// for user verification itself and has no other ground to refuse.
///
/// The library turns the instance's timeout into 32-bit milliseconds and
/// panics where it does not fit; an instance that [`build_webauthn`] made
/// has a timeout of five minutes.
#[verifier::external_body]
pub(crate) fn start_passkey_authentication(
    webauthn: &webauthn_rs::prelude::Webauthn,
    creds: &Vec<webauthn_rs::prelude::Passkey>,
) -> (started: Result<
    (webauthn_rs::prelude::RequestChallengeResponse, webauthn_rs::prelude::PasskeyAuthentication),
    webauthn_rs::prelude::WebauthnError,
>)
    requires
        made_here(*webauthn),
    ensures
        started is Ok,
{
    webauthn.start_passkey_authentication(creds.as_slice())
}

/// Calls `Webauthn::finish_passkey_authentication`, which checks a
/// client's answer against the state of the authentication it belongs to.
/// The verdict depends on the instance, the answer and the state alone,
/// and is named [`authentication_verdict`].
#[verifier::external_body]
pub(crate) fn finish_passkey_authentication(
    webauthn: &webauthn_rs::prelude::Webauthn,
    reg: &webauthn_rs::prelude::PublicKeyCredential,
    state: &webauthn_rs::prelude::PasskeyAuthentication,
) -> (verified: Result<
    webauthn_rs::prelude::AuthenticationResult,
    webauthn_rs::prelude::WebauthnError,
>)
    ensures
        match verified {
            Ok(result) => authentication_verdict(*webauthn, *reg, *state) == Some(result),
            Err(_) => authentication_verdict(*webauthn, *reg, *state) is None,
        },
{
    webauthn.finish_passkey_authentication(reg, state)
}

} // verus!
