//! Where a client may be sent after logging in.

use crate::error::AppError;
use vstd::prelude::*;
use vstd::string::StrSliceExecFns;
use webauthn_rs::prelude::Url;

verus! {

/// A parsed URL of the `url` crate. Opaque here.
#[verifier::external_type_specification]
#[verifier::external_body]
pub struct ExUrl(url::Url);

/// The URL that `Url::parse` reads from a piece of text, or nothing where
/// it refuses the text.
pub uninterp spec fn parsed_url(text: Seq<char>) -> Option<Url>;

/// Whether `Url::origin` gives two URLs the same origin: the same scheme,
/// host and port. A URL whose origin is opaque has the origin of no URL.
pub uninterp spec fn same_origin(a: Url, b: Url) -> bool;

/// Calls `Url::parse`. The result is a function of the text alone, named
/// [`parsed_url`].
#[verifier::external_body]
fn parse_url(text: &str) -> (parsed: Option<Url>)
    ensures
        parsed == parsed_url(text@),
{
    Url::parse(text).ok()
}

/// Calls `Url::origin` on both URLs and compares the two origins. The
/// result is a function of the two URLs alone, named [`same_origin`].
#[verifier::external_body]
fn origins_match(a: &Url, b: &Url) -> (same: bool)
    ensures
        same == same_origin(*a, *b),
{
    a.origin() == b.origin()
}

/// Whether one of the allowed URLs has the origin of `url`.
pub open spec fn origin_allowed(allowed_origins: Seq<Url>, url: Url) -> bool {
    exists|i: int| 0 <= i < allowed_origins.len() && same_origin(#[trigger] allowed_origins[i], url)
}

/// Which redirect targets are accepted.
///
/// Text that reads as a URL is accepted where its origin is that of an
/// allowed URL, and refused with `OriginNotAllowed` otherwise. Text that
/// does not read as a URL is accepted where it begins with `/`, a path on
/// this site, and refused with `BadUrl` otherwise. What is accepted is
/// returned as it came.
pub open spec fn accepted_redirect(requested_url: Seq<char>, allowed_origins: Seq<Url>) -> Result<
    Seq<char>,
    AppError,
> {
    match parsed_url(requested_url) {
        Some(url) => if origin_allowed(allowed_origins, url) {
            Ok(requested_url)
        } else {
            Err(AppError::OriginNotAllowed)
        },
        None => if requested_url.len() > 0 && requested_url[0] == '/' {
            Ok(requested_url)
        } else {
            Err(AppError::BadUrl)
        },
    }
}

/// Decides on a redirect target, given how `Url::parse` and the
/// comparison of origins came out for it: `None` where the text is no
/// URL, else whether its origin is an allowed one.
pub fn redirect_verdict(requested_url: String, origin_allowed: Option<bool>) -> (verdict: Result<
    String,
    AppError,
>)
    ensures
        match origin_allowed {
            Some(true) => verdict matches Ok(url) && url@ == requested_url@,
            Some(false) => verdict == Err::<String, AppError>(AppError::OriginNotAllowed),
            None => if requested_url@.len() > 0 && requested_url@[0] == '/' {
                verdict matches Ok(url) && url@ == requested_url@
            } else {
                verdict == Err::<String, AppError>(AppError::BadUrl)
            },
        },
{
    match origin_allowed {
        Some(true) => Ok(requested_url),
        Some(false) => Err(AppError::OriginNotAllowed),
        None => {
            let text = requested_url.as_str();
            if text.unicode_len() > 0 && text.get_char(0) == '/' {
                Ok(requested_url)
            } else {
                Err(AppError::BadUrl)
            }
        },
    }
}

/// The value of a piece of text that was accepted or not.
pub open spec fn verdict_view(verdict: Result<String, AppError>) -> Result<Seq<char>, AppError> {
    match verdict {
        Ok(url) => Ok(url@),
        Err(e) => Err(e),
    }
}

/// Accepts or refuses a redirect target: see [`accepted_redirect`].
pub fn get_redirect_url(requested_url: String, allowed_origins: &[Url]) -> (verdict: Result<
    String,
    AppError,
>)
    ensures
        verdict_view(verdict) == accepted_redirect(requested_url@, allowed_origins@),
{
    let origin_allowed = match parse_url(requested_url.as_str()) {
        Some(url) => {
            let mut found = false;
            let mut i: usize = 0;
            while i < allowed_origins.len() && !found
                invariant
                    i <= allowed_origins.len(),
                    found ==> origin_allowed(allowed_origins@, url),
                    !found ==> forall|j: int| 0 <= j < i ==> !same_origin(allowed_origins@[j], url),
                decreases allowed_origins.len() - i,
            {
                if origins_match(&allowed_origins[i], &url) {
                    found = true;
                }
                i += 1;
            }
            Some(found)
        },
        None => None,
    };
    redirect_verdict(requested_url, origin_allowed)
}

} // verus!
