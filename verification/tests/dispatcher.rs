use static_serve::auth::{AuthDecision, Credentials};
use static_serve::config::{AuthConfig, ServerConfig};
use static_serve::dispatch::{
    answer_request, dispatch, file_vanished, finish_listing, index_path, listing_unavailable,
    not_found_or_fallback, respond, Outcome, TreeFacts,
};
use static_serve::path::{classify, locate, Probe, ResolvedTarget, TargetKind};
use static_serve::response::{
    header_value_ok, origin_to_allow, set_header, shape, Body, Header, HeaderName, MediaType,
    Response,
};

const NOTHING: TreeFacts = TreeFacts { dir_has_index: false, root_has_index: false };

fn config() -> ServerConfig {
    ServerConfig::new("/srv".to_string())
}

fn target(path: &str, probe: Probe) -> ResolvedTarget {
    classify(locate("/srv", path), probe)
}

fn creds(user: &str, password: &str) -> Option<Credentials> {
    Some(Credentials { username: user.to_string(), password: Some(password.to_string()) })
}

fn response(outcome: Outcome) -> Response {
    match outcome {
        Outcome::Respond(r) => r,
        Outcome::Listing { dir } => panic!("a listing of {} where a response was expected", dir),
    }
}

fn empty_404() -> Response {
    Response { status: 404, headers: vec![], body: Body::Empty, close_connection: false }
}

fn file(path: &str, media: MediaType) -> Response {
    Response {
        status: 200,
        headers: vec![],
        body: Body::File { path: path.to_string(), media },
        close_connection: false,
    }
}

#[test]
fn traversal_is_not_found_whatever_the_gates_say() {
    let mut c = config();
    for show_dotfiles in [false, true] {
        for with_auth in [false, true] {
            c.show_dotfiles = show_dotfiles;
            c.auth = if with_auth { Some(AuthConfig::new("user".to_string(), "pass")) } else { None };
            for probe in [Probe::File, Probe::Directory, Probe::Neither, Probe::Failed] {
                let t = target("/../etc/passwd", probe);
                assert_eq!(response(respond(&c, &t, &None, NOTHING)), empty_404());
                assert_eq!(response(respond(&c, &t, &creds("user", "pass"), NOTHING)), empty_404());
            }
        }
    }
}

#[test]
fn encoded_traversal_is_not_found_too() {
    let t = target("/a/%2e%2e/%2e%2e/x", Probe::File);
    assert_eq!(t.kind, TargetKind::Missing);
    assert_eq!(response(respond(&config(), &t, &None, NOTHING)), empty_404());
}

#[test]
fn a_file_is_served_as_it_is() {
    let t = target("/a/b.txt", Probe::File);
    assert_eq!(
        response(respond(&config(), &t, &None, NOTHING)),
        file("/srv/a/b.txt", MediaType::Inferred)
    );
}

#[test]
fn a_directory_with_index_serves_the_index_as_html() {
    let t = target("/docs", Probe::Directory);
    let facts = TreeFacts { dir_has_index: true, root_has_index: false };
    let expected = file("/srv/docs/index.html", MediaType::HtmlUtf8);
    assert_eq!(response(respond(&config(), &t, &None, facts)), expected);
    let mut c = config();
    c.show_index = false;
    assert_eq!(response(respond(&c, &t, &None, facts)), expected);
}

#[test]
fn a_directory_without_index_is_listed() {
    let t = target("/docs", Probe::Directory);
    assert_eq!(
        respond(&config(), &t, &None, NOTHING),
        Outcome::Listing { dir: "/srv/docs".to_string() }
    );
}

#[test]
fn with_listings_off_a_directory_without_index_is_not_found() {
    let mut c = config();
    c.show_index = false;
    let t = target("/docs", Probe::Directory);
    assert_eq!(response(respond(&c, &t, &None, NOTHING)), empty_404());
}

#[test]
fn the_same_request_gets_the_same_answer() {
    let mut c = config();
    c.auth = Some(AuthConfig::new("user".to_string(), "pass"));
    c.no_cache = true;
    for path in ["/a", "/.b", "/../c", "/d/"] {
        for probe in [Probe::File, Probe::Directory, Probe::Neither] {
            let first = respond(&c, &target(path, probe), &creds("user", "pass"), NOTHING);
            let second = respond(&c, &target(path, probe), &creds("user", "pass"), NOTHING);
            assert_eq!(first, second);
        }
    }
}

#[test]
fn hidden_dotfiles_are_forbidden() {
    let t = target("/.secret", Probe::File);
    let r = response(respond(&config(), &t, &None, NOTHING));
    assert_eq!(r.status, 403);
    assert!(r.headers.is_empty());
    assert_eq!(r.body, Body::Empty);
    assert!(r.close_connection);
    let d = target("/.git/config", Probe::Directory);
    assert_eq!(response(respond(&config(), &d, &None, NOTHING)).status, 403);
}

#[test]
fn shown_dotfiles_are_served_like_anything_else() {
    let mut c = config();
    c.show_dotfiles = true;
    let t = target("/.secret", Probe::File);
    assert_eq!(
        response(respond(&c, &t, &None, NOTHING)),
        file("/srv/.secret", MediaType::Inferred)
    );
    let d = target("/.well-known", Probe::Directory);
    assert_eq!(
        respond(&c, &d, &None, NOTHING),
        Outcome::Listing { dir: "/srv/.well-known".to_string() }
    );
}

#[test]
fn the_dotfile_gate_comes_before_the_authentication_gate() {
    let mut c = config();
    c.auth = Some(AuthConfig::new("user".to_string(), "pass"));
    let t = target("/.secret", Probe::File);
    assert_eq!(response(respond(&c, &t, &None, NOTHING)).status, 403);
    assert_eq!(response(respond(&c, &t, &creds("user", "pass"), NOTHING)).status, 403);
}

#[test]
fn authentication_succeeds_with_the_right_credentials() {
    let mut c = config();
    c.auth = Some(AuthConfig::new("user".to_string(), "pass"));
    let t = target("/a.txt", Probe::File);
    assert_eq!(
        response(respond(&c, &t, &creds("user", "pass"), NOTHING)),
        file("/srv/a.txt", MediaType::Inferred)
    );
}

#[test]
fn authentication_fails_with_401_and_a_challenge() {
    let mut c = config();
    c.auth = Some(AuthConfig::new("user".to_string(), "pass"));
    let t = target("/a.txt", Probe::File);
    for supplied in [creds("user", "wrong"), None] {
        let r = response(respond(&c, &t, &supplied, NOTHING));
        assert_eq!(r.status, 401);
        assert_eq!(
            r.headers,
            vec![Header {
                name: HeaderName::WwwAuthenticate,
                value: "Basic realm=\"Incorrect username or password\"".to_string(),
            }]
        );
        assert_eq!(r.body, Body::Empty);
        assert!(!r.close_connection);
    }
    let d = target("/docs", Probe::Directory);
    assert_eq!(response(respond(&c, &d, &None, NOTHING)).status, 401);
}

#[test]
fn single_page_mode_answers_missing_paths_with_the_root_index() {
    let mut c = config();
    c.spa_mode = true;
    let facts = TreeFacts { dir_has_index: false, root_has_index: true };
    let t = target("/no/such/path", Probe::Neither);
    assert_eq!(
        response(respond(&c, &t, &None, facts)),
        file("/srv/index.html", MediaType::Inferred)
    );
    assert_eq!(not_found_or_fallback(&c, true), file("/srv/index.html", MediaType::Inferred));
}

#[test]
fn the_single_page_fallback_asks_for_credentials() {
    let mut c = config();
    c.spa_mode = true;
    c.auth = Some(AuthConfig::new("user".to_string(), "pass"));
    let facts = TreeFacts { dir_has_index: false, root_has_index: true };
    let t = target("/no/such/path", Probe::Neither);
    assert_eq!(
        response(respond(&c, &t, &creds("user", "pass"), facts)),
        file("/srv/index.html", MediaType::Inferred)
    );
    for supplied in [creds("user", "wrong"), None] {
        let r = response(respond(&c, &t, &supplied, facts));
        assert_eq!(r.status, 401);
        assert_eq!(r.body, Body::Empty);
        assert_eq!(
            r.headers,
            vec![Header {
                name: HeaderName::WwwAuthenticate,
                value: "Basic realm=\"Incorrect username or password\"".to_string(),
            }]
        );
    }
    let refused = target("/../x", Probe::Neither);
    assert_eq!(response(respond(&c, &refused, &None, facts)).status, 401);
    assert_eq!(response(respond(&c, &refused, &creds("user", "pass"), facts)).status, 200);
}

#[test]
fn without_a_page_to_fall_back_on_missing_paths_need_no_credentials() {
    let mut c = config();
    c.spa_mode = true;
    c.auth = Some(AuthConfig::new("user".to_string(), "pass"));
    let t = target("/no/such/path", Probe::Neither);
    assert_eq!(response(respond(&c, &t, &None, NOTHING)), empty_404());
    assert_eq!(response(respond(&c, &t, &creds("user", "wrong"), NOTHING)), empty_404());
}

#[test]
fn a_denied_request_never_gets_a_file() {
    let mut c = config();
    c.auth = Some(AuthConfig::new("user".to_string(), "pass"));
    for spa_mode in [false, true] {
        for show_dotfiles in [false, true] {
            c.spa_mode = spa_mode;
            c.show_dotfiles = show_dotfiles;
            for root_has_index in [false, true] {
                for dir_has_index in [false, true] {
                    let facts = TreeFacts { dir_has_index, root_has_index };
                    for path in ["/a", "/.b", "/../c"] {
                        for probe in [Probe::File, Probe::Directory, Probe::Neither] {
                            let r = response(respond(&c, &target(path, probe), &None, facts));
                            assert_eq!(r.body, Body::Empty);
                            assert!(r.status == 401 || r.status == 403 || r.status == 404);
                        }
                    }
                }
            }
        }
    }
}

#[test]
fn a_request_is_answered_from_its_raw_path() {
    let c = config();
    assert_eq!(
        response(answer_request(&c, "/a%20b.txt", &None, Probe::File, NOTHING)),
        file("/srv/a b.txt", MediaType::Inferred)
    );
    assert_eq!(
        answer_request(&c, "/docs/", &None, Probe::Directory, NOTHING),
        Outcome::Listing { dir: "/srv/docs".to_string() }
    );
    assert_eq!(response(answer_request(&c, "/%2e%2e/x", &None, Probe::File, NOTHING)), empty_404());
    assert_eq!(response(answer_request(&c, "/%ff", &None, Probe::File, NOTHING)), empty_404());
    assert_eq!(response(answer_request(&c, "/.env", &None, Probe::File, NOTHING)).status, 403);
}

#[test]
fn a_file_that_vanished_is_answered_like_a_missing_one() {
    let mut c = config();
    assert_eq!(file_vanished(&c, "/srv/a.txt", true), empty_404());
    c.spa_mode = true;
    assert_eq!(file_vanished(&c, "/srv/a.txt", true), file("/srv/index.html", MediaType::Inferred));
    assert_eq!(file_vanished(&c, "/srv/a.txt", false), empty_404());
    assert_eq!(file_vanished(&c, "/srv/index.html", true), empty_404());
    assert_eq!(
        file_vanished(&c, "/srv/docs/index.html", true),
        file("/srv/index.html", MediaType::Inferred)
    );
}

#[test]
fn without_single_page_mode_missing_paths_are_not_found() {
    let facts = TreeFacts { dir_has_index: false, root_has_index: true };
    let t = target("/no/such/path", Probe::Neither);
    assert_eq!(response(respond(&config(), &t, &None, facts)), empty_404());
    let mut c = config();
    c.spa_mode = true;
    assert_eq!(response(respond(&c, &t, &None, NOTHING)), empty_404());
    assert_eq!(not_found_or_fallback(&c, false), empty_404());
}

#[test]
fn no_cache_marks_every_response() {
    let mut c = config();
    c.no_cache = true;
    c.auth = Some(AuthConfig::new("user".to_string(), "pass"));
    let no_store = Header { name: HeaderName::CacheControl, value: "no-store".to_string() };
    let cases = [
        (target("/missing", Probe::Neither), 404),
        (target("/../x", Probe::File), 404),
        (target("/.secret", Probe::File), 403),
        (target("/a.txt", Probe::File), 401),
    ];
    for (t, status) in cases {
        let r = response(respond(&c, &t, &None, NOTHING));
        assert_eq!(r.status, status);
        assert!(r.headers.contains(&no_store));
    }
    let ok = response(respond(&c, &target("/a.txt", Probe::File), &creds("user", "pass"), NOTHING));
    assert_eq!(ok.status, 200);
    assert_eq!(ok.headers, vec![no_store.clone()]);
    assert!(finish_listing(&c, None).headers.contains(&no_store));
    assert!(listing_unavailable(&c).headers.contains(&no_store));
}

#[test]
fn cors_marks_every_response_with_the_configured_origin() {
    let mut c = config();
    c.cors_enabled = true;
    c.cors_origin = Some("https://example.com".to_string());
    let allow = Header {
        name: HeaderName::AccessControlAllowOrigin,
        value: "https://example.com".to_string(),
    };
    for (path, probe) in [("/missing", Probe::Neither), ("/.x", Probe::File), ("/a", Probe::File)] {
        let r = response(respond(&c, &target(path, probe), &None, NOTHING));
        assert_eq!(r.headers, vec![allow.clone()]);
    }
    c.cors_origin = None;
    let r = response(respond(&c, &target("/a", Probe::File), &None, NOTHING));
    assert_eq!(
        r.headers,
        vec![Header { name: HeaderName::AccessControlAllowOrigin, value: "*".to_string() }]
    );
    c.no_cache = true;
    let r = response(respond(&c, &target("/a", Probe::File), &None, NOTHING));
    assert_eq!(
        r.headers,
        vec![
            Header { name: HeaderName::CacheControl, value: "no-store".to_string() },
            Header { name: HeaderName::AccessControlAllowOrigin, value: "*".to_string() },
        ]
    );
}

#[test]
fn an_origin_that_cannot_be_a_header_value_allows_any_origin() {
    let mut c = config();
    c.cors_enabled = true;
    c.cors_origin = Some("bad\norigin".to_string());
    assert_eq!(origin_to_allow(&c), "*");
    c.cors_origin = Some("https://ok.example".to_string());
    assert_eq!(origin_to_allow(&c), "https://ok.example");
    assert!(header_value_ok("tab\tand space"));
    assert!(header_value_ok("ünïcode"));
    assert!(header_value_ok(""));
    assert!(!header_value_ok("del\u{7f}"));
    assert!(!header_value_ok("nul\u{0}"));
}

#[test]
fn setting_a_header_replaces_it() {
    let headers = vec![
        Header { name: HeaderName::CacheControl, value: "max-age=60".to_string() },
        Header { name: HeaderName::ContentType, value: "text/plain".to_string() },
        Header { name: HeaderName::CacheControl, value: "public".to_string() },
    ];
    assert_eq!(
        set_header(headers, HeaderName::CacheControl, "no-store".to_string()),
        vec![
            Header { name: HeaderName::ContentType, value: "text/plain".to_string() },
            Header { name: HeaderName::CacheControl, value: "no-store".to_string() },
        ]
    );
}

#[test]
fn shaping_leaves_status_and_body_alone() {
    let mut c = config();
    c.no_cache = true;
    let shaped = shape(&c, Response::page("<p>hi</p>".to_string()));
    assert_eq!(shaped.status, 200);
    assert_eq!(shaped.body, Body::Text("<p>hi</p>".to_string()));
    assert_eq!(
        shaped.headers,
        vec![
            Header { name: HeaderName::ContentType, value: "text/html; charset=utf-8".to_string() },
            Header { name: HeaderName::CacheControl, value: "no-store".to_string() },
        ]
    );
    assert_eq!(shape(&config(), Response::forbidden()), Response::forbidden());
}

#[test]
fn a_rendered_listing_is_sent_as_html() {
    let r = finish_listing(&config(), Some("<html></html>".to_string()));
    assert_eq!(r.status, 200);
    assert_eq!(r.body, Body::Text("<html></html>".to_string()));
    assert_eq!(
        r.headers,
        vec![Header { name: HeaderName::ContentType, value: "text/html; charset=utf-8".to_string() }]
    );
}

#[test]
fn a_listing_that_failed_to_render_degrades_to_a_fixed_text() {
    let r = finish_listing(&config(), None);
    assert_eq!(r.status, 200);
    assert_eq!(r.body, Body::Text("TEMPLATE RENDER ERROR".to_string()));
}

#[test]
fn a_directory_that_cannot_be_enumerated_is_not_found() {
    assert_eq!(listing_unavailable(&config()), empty_404());
}

#[test]
fn the_dispatcher_takes_the_verdict_as_given() {
    let t = target("/a.txt", Probe::File);
    assert_eq!(response(dispatch(&config(), &t, AuthDecision::Deny, NOTHING)).status, 401);
    assert_eq!(response(dispatch(&config(), &t, AuthDecision::Allow, NOTHING)).status, 200);
    let m = target("/gone", Probe::Neither);
    assert_eq!(response(dispatch(&config(), &m, AuthDecision::Deny, NOTHING)).status, 404);
}

#[test]
fn header_names_on_the_wire() {
    assert_eq!(HeaderName::CacheControl.as_str(), "Cache-Control");
    assert_eq!(HeaderName::AccessControlAllowOrigin.as_str(), "Access-Control-Allow-Origin");
    assert_eq!(HeaderName::WwwAuthenticate.as_str(), "WWW-Authenticate");
    assert_eq!(HeaderName::ContentType.as_str(), "Content-Type");
    assert_eq!(index_path("/srv/docs"), "/srv/docs/index.html");
}
