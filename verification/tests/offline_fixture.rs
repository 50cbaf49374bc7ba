use ferridriver::offline_fixture::{
    cookie_host_from_origin, fixture_page_for_path, fixture_response, map_https_example_or_google,
    request_path, resolve_url_expectation, rewrite_saved_storage_aliases,
    substitute_public_navigation_url, trim_url, url_contains_accepts_substitution, FixturePage,
    SavedStorageState, EXAMPLE_DOMAIN_HTML, GOOGLE_MIRROR_HTML,
};

const BASE: &str = "http://127.0.0.1:40123";

#[test]
fn documented_harness_urls_are_rewritten() {
    assert_eq!(substitute_public_navigation_url("https://example.org", BASE), "http://127.0.0.1:40123/");
    assert_eq!(substitute_public_navigation_url("https://example.org/", BASE), "http://127.0.0.1:40123/");
    assert_eq!(
        substitute_public_navigation_url("https://www.google.com", BASE),
        "http://127.0.0.1:40123/google"
    );
    assert_eq!(
        substitute_public_navigation_url(" \"https://example.org\" ", BASE),
        "http://127.0.0.1:40123/"
    );
    assert_eq!(
        substitute_public_navigation_url("'https://www.google.com'\n", BASE),
        "http://127.0.0.1:40123/google"
    );
}

#[test]
fn other_urls_are_returned_unchanged() {
    assert_eq!(substitute_public_navigation_url("https://example.com", BASE), "https://example.com");
    assert_eq!(
        substitute_public_navigation_url("  https://rust-lang.org  ", BASE),
        "  https://rust-lang.org  "
    );
    assert_eq!(
        substitute_public_navigation_url("https://example.org/path", BASE),
        "https://example.org/path"
    );
    assert_eq!(
        substitute_public_navigation_url("https://www.google.com/", BASE),
        "https://www.google.com/"
    );
}

#[test]
fn harness_targets_of_exact_urls() {
    assert_eq!(map_https_example_or_google("https://example.org", BASE).as_deref(), Some("http://127.0.0.1:40123/"));
    assert_eq!(
        map_https_example_or_google("https://www.google.com/", BASE).as_deref(),
        Some("http://127.0.0.1:40123/google")
    );
    assert_eq!(map_https_example_or_google(" https://example.org", BASE), None);
    assert_eq!(map_https_example_or_google("http://example.org", BASE), None);
}

#[test]
fn url_expectations_resolve_to_harness() {
    assert_eq!(resolve_url_expectation("\"https://www.google.com/\"", BASE), "http://127.0.0.1:40123/google");
    assert_eq!(resolve_url_expectation("https://example.org", BASE), "http://127.0.0.1:40123/");
    assert_eq!(resolve_url_expectation(" https://other.test ", BASE), " https://other.test ");
}

#[test]
fn trim_url_strips_quotes_and_unicode_space() {
    assert_eq!(trim_url("  \"'https://example.org'\"\t\n"), "https://example.org");
    assert_eq!(trim_url("\u{3000}https://a.test\u{a0}"), "https://a.test");
    assert_eq!(trim_url("\"\""), "");
    assert_eq!(trim_url("a \" b"), "a \" b");
}

#[test]
fn url_contains_tolerates_loopback_shim() {
    assert!(url_contains_accepts_substitution("example.org", "http://127.0.0.1:40123/", Some(BASE)));
    assert!(!url_contains_accepts_substitution("example.org", "http://127.0.0.1:40123/", None));
    assert!(!url_contains_accepts_substitution("example.org", "https://other.test/", Some(BASE)));
    assert!(!url_contains_accepts_substitution("google", "http://127.0.0.1:40123/google", Some(BASE)));
    let redirected = substitute_public_navigation_url("https://example.org", BASE);
    assert!(url_contains_accepts_substitution("https://example.org/", &redirected, Some(BASE)));
}

#[test]
fn cookie_host_strips_scheme_path_and_port() {
    assert_eq!(cookie_host_from_origin(BASE), "127.0.0.1");
    assert_eq!(cookie_host_from_origin("https://example.org/a/b"), "example.org");
    assert_eq!(cookie_host_from_origin("localhost:8080"), "localhost");
    assert_eq!(cookie_host_from_origin("ftp://host:21/x"), "ftp");
    assert_eq!(cookie_host_from_origin(""), "");
}

#[test]
fn saved_storage_points_at_loopback() {
    let mut state = SavedStorageState {
        origins: vec![
            Some("https://example.org".to_string()),
            Some("https://other.test".to_string()),
            None,
            Some("https://example.org/".to_string()),
        ],
        cookie_domains: vec![Some("example.org".to_string()), Some(".example.org".to_string()), None],
    };
    rewrite_saved_storage_aliases(&mut state, BASE);
    assert_eq!(
        state.origins,
        vec![
            Some(BASE.to_string()),
            Some("https://other.test".to_string()),
            None,
            Some("https://example.org/".to_string()),
        ]
    );
    assert_eq!(
        state.cookie_domains,
        vec![Some("127.0.0.1".to_string()), Some(".example.org".to_string()), None]
    );
    let before = (state.origins.clone(), state.cookie_domains.clone());
    rewrite_saved_storage_aliases(&mut state, BASE);
    assert_eq!((state.origins.clone(), state.cookie_domains.clone()), before);
}

#[test]
fn request_paths_follow_the_request_line() {
    assert_eq!(request_path("GET /google HTTP/1.1\r\nHost: x\r\n\r\n"), "/google");
    assert_eq!(request_path("GET /?q=1 HTTP/1.1\r\n"), "/");
    assert_eq!(request_path("GET ?q=1 HTTP/1.1"), "");
    assert_eq!(request_path("GET"), "/");
    assert_eq!(request_path(""), "/");
    assert_eq!(request_path("  GET\t /a/b   HTTP/1.1"), "/a/b");
    assert_eq!(request_path("\nGET /x HTTP/1.1"), "/");
}

#[test]
fn paths_route_to_pages() {
    assert_eq!(fixture_page_for_path("/google"), FixturePage::GoogleMirror);
    assert_eq!(fixture_page_for_path("/google/"), FixturePage::GoogleMirror);
    assert_eq!(fixture_page_for_path("/"), FixturePage::ExampleDomain);
    assert_eq!(fixture_page_for_path(""), FixturePage::ExampleDomain);
    assert_eq!(fixture_page_for_path("/nope"), FixturePage::NotFound);
}

fn response_for(page_status: &str, ctype: &str, body: &str) -> Vec<u8> {
    format!(
        "HTTP/1.1 {page_status}\r\nContent-Length: {}\r\nContent-Type: {ctype}\r\nConnection: close\r\n\r\n{body}",
        body.len()
    )
    .into_bytes()
}

#[test]
fn responses_serve_the_mirrors() {
    assert_eq!(
        fixture_response(b"GET /google HTTP/1.1\r\n\r\n"),
        response_for("200 OK", "text/html; charset=utf-8", GOOGLE_MIRROR_HTML)
    );
    assert_eq!(
        fixture_response(b"GET / HTTP/1.1\r\n\r\n"),
        response_for("200 OK", "text/html; charset=utf-8", EXAMPLE_DOMAIN_HTML)
    );
    assert_eq!(
        fixture_response(b"GET /missing HTTP/1.1\r\n\r\n"),
        b"HTTP/1.1 404 Not Found\r\nContent-Length: 11\r\nContent-Type: text/plain\r\nConnection: close\r\n\r\nfixture 404".to_vec()
    );
    // Bytes that are not UTF-8 read as an empty request, which asks for `/`.
    assert_eq!(
        fixture_response(&[0x47, 0xff, 0xfe, 0x20, 0x2f, 0x6e]),
        response_for("200 OK", "text/html; charset=utf-8", EXAMPLE_DOMAIN_HTML)
    );
}

#[test]
fn mirror_pages_carry_the_asserted_titles() {
    assert!(EXAMPLE_DOMAIN_HTML.contains("<title>Example Domain</title>"));
    assert!(GOOGLE_MIRROR_HTML.contains("<title>Google Search</title>"));
    assert_eq!(FixturePage::NotFound.status(), "404 Not Found");
    assert_eq!(FixturePage::GoogleMirror.content_type(), "text/html; charset=utf-8");
    assert_eq!(FixturePage::NotFound.body(), "fixture 404");
}

#[test]
fn google_target_extends_example_target() {
    let google = substitute_public_navigation_url("https://www.google.com", BASE);
    let example = substitute_public_navigation_url("https://example.org", BASE);
    assert_eq!(google, format!("{example}google"));
}
