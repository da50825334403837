//! The relying party: the service's own instance of the ceremony library,
//! made here so that every call into it is one the library can answer.

use crate::error::AppError;
use crate::webauthn::{
    authentication_verdict, build_webauthn, built_webauthn, finish_passkey_authentication,
    finish_passkey_registration, made_here, registration_verdict, start_passkey_authentication,
    start_passkey_registration,
};
use vstd::prelude::*;
use webauthn_rs::prelude::{
    AuthenticationResult, CreationChallengeResponse, Passkey, PasskeyAuthentication,
    PasskeyRegistration, PublicKeyCredential, RegisterPublicKeyCredential,
    RequestChallengeResponse, Url, Webauthn,
};

verus! {

/// The relying party on whose behalf credentials are registered and
/// verified. It holds an instance of the ceremony library that was built
/// by [`RelyingParty::new`] and by nothing else.
pub struct RelyingParty {
    webauthn: Webauthn,
}

impl View for RelyingParty {
    type V = Webauthn;

    closed spec fn view(&self) -> Webauthn {
        self.webauthn
    }
}

/// The value of a relying party that was made or not.
pub open spec fn party_view(made: Result<RelyingParty, AppError>) -> Option<Webauthn> {
    match made {
        Ok(party) => Some(party@),
        Err(_) => None,
    }
}

impl RelyingParty {
    /// What holds of every relying party: its instance of the ceremony
    /// library is one that was built here.
    #[verifier::type_invariant]
    pub open spec fn consistent(self) -> bool {
        made_here(self@)
    }

    /// Makes the relying party with this id, which must be the domain of
    /// `rp_origin` or a suffix of it; challenges may be answered from
    /// `rp_origin`, from each of the further origins and, where
    /// `allow_subdomains` holds, from their subdomains. An id that is not
    /// of the origin is refused with `BadInput`.
    pub fn new(
        rp_id: &str,
        rp_origin: &Url,
        extra_allowed_origins: &Vec<Url>,
        allow_subdomains: bool,
    ) -> (made: Result<RelyingParty, AppError>)
        ensures
            party_view(made) == built_webauthn(
                rp_id@,
                *rp_origin,
                extra_allowed_origins@,
                allow_subdomains,
            ),
            made matches Err(e) ==> e == AppError::BadInput,
    {
        match build_webauthn(rp_id, rp_origin, extra_allowed_origins, allow_subdomains) {
            Ok(webauthn) => Ok(RelyingParty { webauthn }),
            Err(_) => Err(AppError::BadInput),
        }
    }

    /// The instance of the ceremony library.
    pub fn webauthn(&self) -> (webauthn: &Webauthn)
        ensures
            *webauthn == self@,
            made_here(*webauthn),
    {
        proof {
            use_type_invariant(self);
        }
        &self.webauthn
    }

    /// Asks the ceremony library for the challenge that starts a
    /// registration of this user, with the username as display name. The
    /// challenge is drawn at random; the library refuses exactly an empty
    /// username.
    pub fn start_registration(
        &self,
        user_id: u128,
        username: &str,
        exclude_credentials: Option<Vec<Vec<u8>>>,
    ) -> (started: Option<(CreationChallengeResponse, PasskeyRegistration)>)
        ensures
            started is Some <==> username@.len() > 0,
    {
        proof {
            use_type_invariant(self);
        }
        start_passkey_registration(
            &self.webauthn,
            user_id,
            username,
            username,
            exclude_credentials,
        ).ok()
    }

    /// The ceremony library's verdict on a client's answer to a
    /// registration challenge: the verified passkey, or `None` where the
    /// answer is rejected.
    pub fn finish_registration(
        &self,
        answer: &RegisterPublicKeyCredential,
        state: &PasskeyRegistration,
    ) -> (verified: Option<Passkey>)
        ensures
            verified == registration_verdict(self@, *answer, *state),
    {
        finish_passkey_registration(&self.webauthn, answer, state).ok()
    }

    /// Asks the ceremony library for the challenge that starts an
    /// authentication with one of these passkeys. The challenge is drawn
    /// at random; the library never refuses.
    pub fn start_authentication(&self, passkeys: &Vec<Passkey>) -> (started: Option<
        (RequestChallengeResponse, PasskeyAuthentication),
    >)
        ensures
            started is Some,
    {
        proof {
            use_type_invariant(self);
        }
        start_passkey_authentication(&self.webauthn, passkeys).ok()
    }

    /// The ceremony library's verdict on a client's answer to an
    /// authentication challenge: what it reports of the authentication,
    /// or `None` where the answer is rejected.
    pub fn finish_authentication(
        &self,
        answer: &PublicKeyCredential,
        state: &PasskeyAuthentication,
    ) -> (verified: Option<AuthenticationResult>)
        ensures
            verified == authentication_verdict(self@, *answer, *state),
    {
        finish_passkey_authentication(&self.webauthn, answer, state).ok()
    }
}

} // verus!
