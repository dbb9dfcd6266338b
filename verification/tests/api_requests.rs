use kemono_tools::api::{
    posts_parse_failure,
    already_signed_in, build_headers, failure_message, login_status, login_url,
    merge_detail_attachments, post_url, posts_url, session_from_set_cookie, Attachment, FileInfo,
    LoginStatus, Post,
};

fn pairs(hs: &[kemono_tools::api::RequestHeader]) -> Vec<(String, String)> {
    hs.iter().map(|h| (h.name.clone(), h.value.clone())).collect()
}

fn p(a: &str, b: &str) -> (String, String) {
    (a.to_string(), b.to_string())
}

#[test]
fn api_addresses() {
    assert_eq!(login_url("https://kemono.cr/api"), "https://kemono.cr/api/v1/authentication/login");
    assert_eq!(posts_url("https://kemono.cr/api", "fantia", "73695"), "https://kemono.cr/api/v1/fantia/user/73695/posts");
    assert_eq!(post_url("https://kemono.cr/api", "fantia", "73695", "983680"), "https://kemono.cr/api/v1/fantia/user/73695/post/983680");
}

#[test]
fn api_headers_carry_the_session() {
    assert_eq!(pairs(&build_headers("")), vec![p("accept", "text/css")]);
    assert_eq!(pairs(&build_headers("abc")), vec![p("accept", "text/css"), p("cookie", "session=abc")]);
    assert_eq!(pairs(&build_headers("bad\nvalue")), vec![p("accept", "text/css")]);
    assert_eq!(pairs(&build_headers("tab\tok")), vec![p("accept", "text/css"), p("cookie", "session=tab\tok")]);
    assert_eq!(pairs(&build_headers("ü")), vec![p("accept", "text/css"), p("cookie", "session=ü")]);
    assert_eq!(pairs(&build_headers("del\u{7f}")), vec![p("accept", "text/css")]);
}

#[test]
fn session_cookie_is_found() {
    let v = |x: &str| Some(x.to_string());
    assert_eq!(session_from_set_cookie(&v("session=abc; Path=/; HttpOnly")), "abc");
    assert_eq!(session_from_set_cookie(&v("Path=/;  session=xyz ; Secure")), "xyz");
    assert_eq!(session_from_set_cookie(&v("a=1; session=first; session=second")), "first");
    assert_eq!(session_from_set_cookie(&v("Session=no; other=1")), "");
    assert_eq!(session_from_set_cookie(&v("session=")), "");
    assert_eq!(session_from_set_cookie(&v("")), "");
    assert_eq!(session_from_set_cookie(&None), "");
}

#[test]
fn login_answers() {
    assert!(matches!(login_status(200), LoginStatus::Accepted));
    assert!(matches!(login_status(204), LoginStatus::Accepted));
    assert!(matches!(login_status(409), LoginStatus::AlreadySignedIn));
    assert!(matches!(login_status(401), LoginStatus::Refused));
    assert!(matches!(login_status(302), LoginStatus::Refused));
    assert!(matches!(login_status(500), LoginStatus::Refused));
    let r = already_signed_in("me");
    assert_eq!(r.id, 0);
    assert_eq!(r.username, "me");
    assert_eq!(failure_message("Login failed", "401 Unauthorized", "no"), "Login failed (401 Unauthorized): no");
}

fn att(name: &str) -> Attachment {
    Attachment { server: None, name: name.to_string(), path: format!("/x/{}", name), extension: None }
}

fn post(atts: Vec<Attachment>) -> Post {
    Post {
        id: "1".into(),
        user: "u".into(),
        service: "fantia".into(),
        title: "t".into(),
        substring: None,
        published: Some("2024".into()),
        file: Some(FileInfo { name: "m".into(), path: "/m".into(), server: None }),
        attachments: atts,
    }
}

#[test]
fn detail_attachments_fill_an_empty_list() {
    let merged = merge_detail_attachments(post(vec![]), vec![att("a"), att("b")]);
    assert_eq!(merged.attachments, vec![att("a"), att("b")]);
    let kept = merge_detail_attachments(post(vec![att("own")]), vec![att("a")]);
    assert_eq!(kept.attachments, vec![att("own")]);
    let none = merge_detail_attachments(post(vec![]), vec![]);
    assert!(none.attachments.is_empty());
    assert_eq!(none.published.as_deref(), Some("2024"));
}

#[test]
fn unreadable_post_lists_quote_their_start() {
    assert_eq!(posts_parse_failure("oops"), "Failed to parse posts response: oops");
    let long = "x".repeat(700);
    assert_eq!(posts_parse_failure(&long), format!("Failed to parse posts response: {}", "x".repeat(500)));
    let wide = format!("{}한", "y".repeat(497));
    assert_eq!(posts_parse_failure(&wide), format!("Failed to parse posts response: {}한", "y".repeat(497)));
}
