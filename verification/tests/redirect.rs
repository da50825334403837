use webauthn_rs::prelude::Url;
use webauthn_rs::WebauthnBuilder;
use webauthn_tiny::redirect::{get_redirect_url, redirect_verdict};
use webauthn_tiny::AppError;

#[test]
fn test_get_redirect_url() {
    let origin = Url::parse("https://auth.foo.com").unwrap();
    let webauthn = WebauthnBuilder::new("foo.com", &origin)
        .unwrap()
        .allow_subdomains(true)
        .append_allowed_origin(&Url::parse("https://foo.com").unwrap())
        .append_allowed_origin(&Url::parse("https://bar.foo.com").unwrap())
        .build()
        .unwrap();

    // passes
    [
        "/somepath",
        "https://bar.foo.com",
        "https://auth.foo.com",
        "https://foo.com",
    ]
    .iter()
    .for_each(|&url| {
        assert_eq!(
            url,
            get_redirect_url(url.to_string(), webauthn.get_allowed_origins()).unwrap(),
            "url not accepted by get_redirect_url: {}",
            url
        );
    });

    // fails
    ["https://fo.com", "https://foo.bar.com"]
        .iter()
        .for_each(|&url| {
            assert!(
                get_redirect_url(url.to_string(), webauthn.get_allowed_origins()).is_err(),
                "url accepted by get_redirect_url: {}",
                url
            );
        });
}

#[test]
fn redirect_errors_tell_url_from_path() {
    let allowed = vec![Url::parse("https://foo.com").unwrap()];
    assert_eq!(
        get_redirect_url("https://fo.com/x".to_string(), &allowed),
        Err(AppError::OriginNotAllowed)
    );
    assert_eq!(
        get_redirect_url("somepath".to_string(), &allowed),
        Err(AppError::BadUrl)
    );
    assert_eq!(get_redirect_url(String::new(), &allowed), Err(AppError::BadUrl));
    assert_eq!(
        get_redirect_url("/credentials".to_string(), &[]),
        Ok("/credentials".to_string())
    );
    assert_eq!(
        get_redirect_url("https://foo.com/deep/path?q=1".to_string(), &allowed),
        Ok("https://foo.com/deep/path?q=1".to_string())
    );
}

#[test]
fn redirect_compares_scheme_host_and_port() {
    let allowed = vec![Url::parse("https://foo.com").unwrap()];
    assert_eq!(
        get_redirect_url("http://foo.com".to_string(), &allowed),
        Err(AppError::OriginNotAllowed)
    );
    assert_eq!(
        get_redirect_url("https://foo.com:8443".to_string(), &allowed),
        Err(AppError::OriginNotAllowed)
    );
    assert_eq!(
        get_redirect_url("https://foo.com:443/".to_string(), &allowed),
        Ok("https://foo.com:443/".to_string())
    );
}

#[test]
fn opaque_origins_match_nothing() {
    let allowed = vec![Url::parse("file:///tmp/foo").unwrap()];
    assert_eq!(
        get_redirect_url("file:///tmp/foo".to_string(), &allowed),
        Err(AppError::OriginNotAllowed)
    );
}

#[test]
fn redirect_verdict_for_each_outcome() {
    assert_eq!(redirect_verdict("a".to_string(), Some(true)), Ok("a".to_string()));
    assert_eq!(
        redirect_verdict("a".to_string(), Some(false)),
        Err(AppError::OriginNotAllowed)
    );
    assert_eq!(redirect_verdict("/a".to_string(), None), Ok("/a".to_string()));
    assert_eq!(redirect_verdict("a/".to_string(), None), Err(AppError::BadUrl));
}
