use wolog::guestbook::{is_banned, sign, signed_providers, GuestbookError, Signing};
use wolog::login::{identity_of, Claims, LoginError};
use wolog::session::{
    reconcile, GuestbookRateLimit, Identities, Identity, OAuthRateLimit, SecurePersist,
};
use wolog::webmention::{
    check_report, judge, post_path, Address, Fetched, Rejection, Verdict, ACCEPTED_TEXT,
};

fn identity(sub: &str) -> Identity {
    Identity { sub: sub.to_string(), email: format!("{sub}@example.org"), name: sub.to_uppercase() }
}

fn persist(list: &[(&str, &str)]) -> SecurePersist {
    SecurePersist { identities: list.iter().map(|(p, s)| (p.to_string(), s.to_string())).collect() }
}

#[test]
fn identities_are_remembered_and_cleared() {
    let mut p = SecurePersist::new();
    assert_eq!(p.subject("github"), None);
    p.remember("github", "alice");
    p.remember("google", "a.lice");
    p.remember("github", "alice2");
    assert_eq!(p, persist(&[("github", "alice2"), ("google", "a.lice")]));
    assert_eq!(p.subject("google"), Some(&"a.lice".to_string()));
    assert_eq!(p.clear(), 2);
    assert_eq!(p, SecurePersist::new());
    assert_eq!(p.clear(), 0);
}

#[test]
fn unknown_identities_leave_the_cookie() {
    let mut p = persist(&[("github", "alice"), ("google", "a.lice"), ("gitlab", "al")]);
    let answers = vec![
        ("github".to_string(), Some(identity("alice"))),
        ("google".to_string(), None),
        ("gitlab".to_string(), Some(identity("al"))),
    ];
    let (known, changed) = reconcile(&mut p, answers);
    assert!(changed);
    assert_eq!(
        known,
        Identities(vec![("github".to_string(), identity("alice")), ("gitlab".to_string(), identity("al"))])
    );
    assert_eq!(p, persist(&[("github", "alice"), ("gitlab", "al")]));
    assert_eq!(known.get("gitlab"), Some(&identity("al")));
    assert_eq!(known.get("google"), None);
}

#[test]
fn known_identities_leave_the_cookie_as_it_is() {
    let mut p = persist(&[("github", "alice")]);
    let (known, changed) = reconcile(&mut p, vec![("github".to_string(), Some(identity("alice")))]);
    assert!(!changed);
    assert_eq!(known.0.len(), 1);
    assert_eq!(p, persist(&[("github", "alice")]));
    let mut empty = SecurePersist::new();
    let (none, changed) = reconcile(&mut empty, Vec::new());
    assert!(!changed);
    assert!(none.0.is_empty());
}

#[test]
fn rate_limits() {
    assert_eq!(OAuthRateLimit::per_minute(false), 2);
    assert_eq!(OAuthRateLimit::per_minute(true), 100);
    assert_eq!(GuestbookRateLimit::per_minute(false), 5);
    assert_eq!(GuestbookRateLimit::per_minute(true), 100);
}

fn bans() -> Vec<(String, Vec<String>)> {
    vec![
        ("github".to_string(), vec!["mallory".to_string(), "eve".to_string()]),
        ("google".to_string(), Vec::new()),
        ("github".to_string(), vec!["alice".to_string()]),
    ]
}

#[test]
fn banned_subjects_are_those_listed_for_their_provider() {
    assert!(is_banned(&bans(), "github", "eve"));
    assert!(!is_banned(&bans(), "github", "alice"));
    assert!(!is_banned(&bans(), "google", "eve"));
    assert!(!is_banned(&bans(), "gitlab", "eve"));
}

#[test]
fn signing_needs_an_identity_and_no_ban() {
    let ids = Identities(vec![
        ("github".to_string(), identity("eve")),
        ("google".to_string(), identity("eve")),
    ]);
    assert_eq!(sign(&ids, &bans(), "gitlab", true), Err(GuestbookError::NoIdentity));
    assert_eq!(sign(&ids, &bans(), "gitlab", false), Err(GuestbookError::NoIdentity));
    assert_eq!(sign(&ids, &bans(), "github", true), Err(GuestbookError::YouAreBanned));
    assert_eq!(
        sign(&ids, &bans(), "github", false),
        Ok(Signing::Unsign("github".to_string(), "eve".to_string()))
    );
    assert_eq!(
        sign(&ids, &bans(), "google", true),
        Ok(Signing::Sign("google".to_string(), "eve".to_string()))
    );
}

#[test]
fn guestbook_errors_are_answered() {
    assert_eq!((GuestbookError::DbError.status(), GuestbookError::DbError.message()), (500, "Database error"));
    assert_eq!(
        (GuestbookError::YouAreBanned.status(), GuestbookError::YouAreBanned.message()),
        (500, "Database error")
    );
    assert_eq!(
        (GuestbookError::NoIdentity.status(), GuestbookError::NoIdentity.message()),
        (401, "You aren't logged in with that identity")
    );
    assert_eq!((GuestbookError::NotFound.status(), GuestbookError::NotFound.message()), (401, "Not found"));
}

#[test]
fn providers_that_have_signed() {
    let answers = vec![("a".to_string(), true), ("b".to_string(), false), ("c".to_string(), true)];
    assert_eq!(signed_providers(&answers), vec!["a", "c"]);
    assert!(signed_providers(&Vec::new()).is_empty());
}

fn claims(email: Option<&str>, verified: Option<bool>, en: Option<&str>, plain: Option<&str>) -> Claims {
    Claims {
        subject: "sub".to_string(),
        email: email.map(|s| s.to_string()),
        email_verified: verified,
        name_en: en.map(|s| s.to_string()),
        name_plain: plain.map(|s| s.to_string()),
    }
}

#[test]
fn claims_need_a_verified_email_and_a_name() {
    assert_eq!(
        identity_of(claims(Some("a@b"), Some(true), Some("Ann"), Some("Anna"))),
        Ok(Identity { sub: "sub".to_string(), email: "a@b".to_string(), name: "Ann".to_string() })
    );
    assert_eq!(
        identity_of(claims(Some("a@b"), Some(true), None, Some("Anna"))),
        Ok(Identity { sub: "sub".to_string(), email: "a@b".to_string(), name: "Anna".to_string() })
    );
    assert_eq!(identity_of(claims(None, Some(true), Some("Ann"), None)), Err(LoginError::NoVerifiedEmail));
    assert_eq!(identity_of(claims(Some("a@b"), Some(false), Some("Ann"), None)), Err(LoginError::NoVerifiedEmail));
    assert_eq!(identity_of(claims(Some("a@b"), None, Some("Ann"), None)), Err(LoginError::NoVerifiedEmail));
    assert_eq!(identity_of(claims(Some("a@b"), Some(true), None, None)), Err(LoginError::NoName));
    assert_eq!(identity_of(claims(None, None, None, None)), Err(LoginError::NoVerifiedEmail));
}

#[test]
fn login_errors_are_answered() {
    let table = [
        (LoginError::DbError, 500, "Database error"),
        (LoginError::NoProviderConfigured, 500, "Provider not configured"),
        (LoginError::NoOAuthState, 400, "Missing oauth state"),
        (LoginError::BadOAuthState, 400, "Invalid oauth state"),
        (LoginError::BadExchangeCode, 401, "Bad exchange code"),
        (LoginError::FailedAuthToken, 500, "Couldn't get auth token"),
        (LoginError::BadAuthToken, 401, "Couldn't get auth token"),
        (LoginError::NoVerifiedEmail, 401, "A verified email is required"),
        (LoginError::NoName, 401, "A user name is required"),
    ];
    for (error, status, message) in table {
        assert_eq!(error.status(), status);
        assert_eq!(error.message(), message);
    }
}

fn address(absolute: bool, host: Option<&str>, path: &str) -> Option<Address> {
    Some(Address { absolute, host: host.map(|h| h.to_string()), path: path.to_string() })
}

#[test]
fn path_of_a_mentioned_post() {
    assert_eq!(post_path("/post/notes/a"), Some("notes/a".to_string()));
    assert_eq!(post_path("/post/notes/a.md/"), Some("notes/a".to_string()));
    assert_eq!(post_path("/post/a.md.md//"), Some("a".to_string()));
    assert_eq!(post_path("/post/"), None);
    assert_eq!(post_path("/post"), None);
    assert_eq!(post_path("/"), None);
    assert_eq!(post_path("/post//"), None);
    assert_eq!(post_path("/post/x"), Some("x".to_string()));
    assert_eq!(post_path("/other/x"), Some("/x".to_string()));
}

#[test]
fn reports_are_checked_in_order() {
    let own = Some("wolo.dev".to_string());
    let good_source = address(true, Some("else.where"), "/page");
    let good_target = address(true, Some("wolo.dev"), "/post/notes/a.md");
    assert_eq!(check_report(&good_source, &good_target, &own), Ok("notes/a".to_string()));
    assert_eq!(check_report(&None, &None, &own), Err(Rejection::BadSource));
    assert_eq!(check_report(&address(false, None, "x"), &None, &own), Err(Rejection::RelativeSource));
    assert_eq!(check_report(&good_source, &None, &own), Err(Rejection::BadTarget));
    assert_eq!(check_report(&good_source, &address(false, None, "x"), &own), Err(Rejection::RelativeTarget));
    assert_eq!(
        check_report(&good_source, &address(true, Some("other.dev"), "/post/a"), &own),
        Err(Rejection::ForeignTarget)
    );
    assert_eq!(
        check_report(&good_source, &address(true, None, "/post/a"), &own),
        Err(Rejection::ForeignTarget)
    );
    assert_eq!(check_report(&good_source, &address(true, None, "/post/a"), &None), Ok("a".to_string()));
    assert_eq!(
        check_report(&good_source, &address(true, Some("wolo.dev"), "/"), &own),
        Err(Rejection::NotAPost)
    );
}

#[test]
fn the_mentioning_page_is_judged() {
    let target = "https://wolo.dev/post/a";
    assert_eq!(judge(target, &Fetched::Unreachable), Verdict::Reject(Rejection::Unreachable));
    assert_eq!(judge(target, &Fetched::Page(404, Some(target.to_string()))), Verdict::Remove(Rejection::Gone));
    assert_eq!(judge(target, &Fetched::Page(410, None)), Verdict::Remove(Rejection::Gone));
    assert_eq!(judge(target, &Fetched::Page(200, None)), Verdict::Reject(Rejection::NotText));
    assert_eq!(
        judge(target, &Fetched::Page(200, Some("see <a href=\"https://wolo.dev/post/a\">this</a>".to_string()))),
        Verdict::Store
    );
    assert_eq!(
        judge(target, &Fetched::Page(500, Some("https://wolo.dev/post/a".to_string()))),
        Verdict::Store
    );
    assert_eq!(
        judge(target, &Fetched::Page(200, Some("nothing here".to_string()))),
        Verdict::Remove(Rejection::NoMention)
    );
}

#[test]
fn rejections_are_answered() {
    assert_eq!(Rejection::StoreFailed.status(), 500);
    assert_eq!(Rejection::StoreFailed.message(), "Database error");
    let table = [
        (Rejection::BadSource, "Bad source URL"),
        (Rejection::RelativeSource, "Source URL should be absolute"),
        (Rejection::BadTarget, "Bad target URL"),
        (Rejection::RelativeTarget, "Target URL should be absolute"),
        (Rejection::ForeignTarget, "Target URL should be one of our pages"),
        (Rejection::NotAPost, "You can only mention posts"),
        (Rejection::Unreachable, "Couldn't fetch the mentioning page"),
        (Rejection::NotText, "The mentioning page doesn't seem to be UTF-8?"),
    ];
    for (rejection, message) in table {
        assert_eq!(rejection.status(), 400);
        assert_eq!(rejection.message(), message);
    }
    assert!(Rejection::Gone.message().starts_with("The mentioning page is missing?"));
    assert!(Rejection::NoMention.message().starts_with("The page doesn't mention us"));
    assert_eq!(ACCEPTED_TEXT, "Looks OK! The webmention should be registered now.");
}
