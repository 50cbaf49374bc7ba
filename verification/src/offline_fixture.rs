//! Offline-safe stand-ins for the canonical public harness URLs
//! (`https://example.org`, `https://www.google.com`).
//!
//! Real network access to those hosts is flaky in CI and air-gapped
//! development, so steps that navigate to those exact URLs are redirected to
//! loopback HTTP pages that mirror the title and DOM that the feature files
//! assert on. This module holds the URL rules, the storage-state rewrite and
//! the request-to-response logic of the loopback server; the listener itself
//! runs outside the library and hands it the base URL it bound.

use vstd::prelude::*;
use vstd::utf8::{decode_utf8, encode_utf8, valid_utf8};
use vstd::utf8::encode_utf8_decode_utf8;
use crate::text::{
    before_first, contains, decimal, decimal_string, first_index_of, first_space,
    first_space_index, has_infix, has_prefix, lemma_first_index_of, lemma_first_space_index,
    lemma_prefix_of_concat, opt_text, owned, prefix_before, starts_with, str_eq, trim_matching,
    trim_seq, trim_start_matching, trim_start_seq, lemma_before_first_stops_at_first,
    is_white_space,
};

verus! {

/// The canonical example-domain URL.
pub open spec fn example_url() -> Seq<char> {
    "https://example.org"@
}

/// The canonical example-domain URL with its trailing slash.
pub open spec fn example_url_slash() -> Seq<char> {
    "https://example.org/"@
}

/// The canonical search-engine URL.
pub open spec fn google_url() -> Seq<char> {
    "https://www.google.com"@
}

/// The canonical search-engine URL with its trailing slash.
pub open spec fn google_url_slash() -> Seq<char> {
    "https://www.google.com/"@
}

/// Where an exact harness URL points on the loopback server at `base`:
/// `base/` for the example domain, `base/google` for the search engine,
/// nothing for any other URL.
pub open spec fn harness_target(url: Seq<char>, base: Seq<char>) -> Option<Seq<char>> {
    if url == example_url() || url == example_url_slash() {
        Some(base + "/"@)
    } else if url == google_url() || url == google_url_slash() {
        Some(base + "/google"@)
    } else {
        None
    }
}

/// A URL as a feature file may quote it, without surrounding quotes and
/// white space.
pub open spec fn bare_url(url: Seq<char>) -> Seq<char> {
    trim_seq(url, true)
}

/// The public navigation rule: the three documented harness URLs,
/// `https://example.org`, `https://example.org/` and
/// `https://www.google.com` (quoted or padded or not), go to the loopback
/// server; any other URL is returned unchanged.
pub open spec fn substituted(url: Seq<char>, base: Seq<char>) -> Seq<char> {
    let t = bare_url(url);
    if t == example_url() || t == example_url_slash() || t == google_url() {
        harness_target(t, base).unwrap()
    } else {
        url
    }
}

/// What a URL expectation resolves to: its harness target when it names a
/// harness URL, else the expectation as written.
pub open spec fn resolved_expectation(expected: Seq<char>, base: Seq<char>) -> Seq<char> {
    match harness_target(bare_url(expected), base) {
        Some(t) => t,
        None => expected,
    }
}

/// Whether a `the URL should contain` expectation accepts `actual` because of
/// the loopback shim: the expectation names the example domain and `actual`
/// is on the loopback server.
pub open spec fn accepts_substitution(
    expected: Seq<char>,
    actual: Seq<char>,
    base: Option<Seq<char>>,
) -> bool {
    has_infix(expected, "example.org"@) && match base {
        Some(b) => has_prefix(actual, b),
        None => false,
    }
}

/// An origin without its `http://` or `https://` scheme.
pub open spec fn without_scheme(origin: Seq<char>) -> Seq<char> {
    if has_prefix(origin, "http://"@) {
        origin.subrange("http://"@.len() as int, origin.len() as int)
    } else if has_prefix(origin, "https://"@) {
        origin.subrange("https://"@.len() as int, origin.len() as int)
    } else {
        origin
    }
}

/// The cookie host of an origin: the origin without scheme, path and port.
pub open spec fn cookie_host(origin: Seq<char>) -> Seq<char> {
    before_first(before_first(without_scheme(origin), '/'), ':')
}

fn is_example_url(url: &str) -> (r: bool)
    ensures
        r == (url@ == example_url() || url@ == example_url_slash()),
{
    str_eq(url, "https://example.org") || str_eq(url, "https://example.org/")
}

/// Where an exact harness URL points on the loopback server at `base`.
pub fn map_https_example_or_google(url: &str, base: &str) -> (r: Option<String>)
    ensures
        opt_text(r) == harness_target(url@, base@),
{
    if is_example_url(url) {
        let mut t = owned(base);
        t.append("/");
        Some(t)
    } else if str_eq(url, "https://www.google.com") || str_eq(url, "https://www.google.com/") {
        let mut t = owned(base);
        t.append("/google");
        Some(t)
    } else {
        None
    }
}

/// A quoted or padded URL without its surrounding quotes and white space.
pub fn trim_url(url: &str) -> (r: &str)
    ensures
        r@ == bare_url(url@),
{
    trim_matching(url, true)
}

/// For steps that bypass the navigation step: rewrites
/// `https://example.org`, `https://example.org/` and `https://www.google.com`
/// to the loopback harness at `base`; any other URL is returned unchanged.
pub fn substitute_public_navigation_url(url: &str, base: &str) -> (r: String)
    ensures
        r@ == substituted(url@, base@),
{
    let t = trim_url(url);
    if is_example_url(t) || str_eq(t, "https://www.google.com") {
        match map_https_example_or_google(t, base) {
            Some(target) => target,
            None => owned(url),
        }
    } else {
        owned(url)
    }
}

/// The URL that an expectation stands for once harness URLs are redirected.
pub fn resolve_url_expectation(expected: &str, base: &str) -> (r: String)
    ensures
        r@ == resolved_expectation(expected@, base@),
{
    let trimmed = trim_url(expected);
    match map_https_example_or_google(trimmed, base) {
        Some(target) => target,
        None => owned(expected),
    }
}

/// `Then the URL should contain "example.org"` tolerates the loopback shim:
/// true when the expectation names the example domain and `actual` starts
/// with the loopback base, when the server has started (`base` is set).
pub fn url_contains_accepts_substitution(expected: &str, actual: &str, base: Option<&str>) -> (r:
    bool)
    ensures
        r == accepts_substitution(
            expected@,
            actual@,
            match base {
                Some(b) => Some(b@),
                None => None,
            },
        ),
{
    if contains(expected, "example.org") {
        match base {
            Some(b) => starts_with(actual, b),
            None => false,
        }
    } else {
        false
    }
}

/// The cookie host of an origin: `http://127.0.0.1:8000/x` gives `127.0.0.1`.
pub fn cookie_host_from_origin(origin: &str) -> (r: String)
    ensures
        r@ == cookie_host(origin@),
{
    let rest = if starts_with(origin, "http://") {
        origin.substring_char("http://".unicode_len(), origin.unicode_len())
    } else if starts_with(origin, "https://") {
        origin.substring_char("https://".unicode_len(), origin.unicode_len())
    } else {
        origin
    };
    owned(prefix_before(prefix_before(rest, '/'), ':'))
}


/// A saved browser storage state, as the fields that the alias rewrite reads
/// and writes: the `origin` of each entry of `origins` and the `domain` of
/// each entry of `cookies`, each `None` where the field is absent or not a
/// string.
#[derive(Debug)]
pub struct SavedStorageState {
    pub origins: Vec<Option<String>>,
    pub cookie_domains: Vec<Option<String>>,
}

/// An origin of saved storage after the rewrite.
pub open spec fn rewritten_origin(origin: Option<Seq<char>>, base: Seq<char>) -> Option<Seq<char>> {
    if origin == Some(example_url()) {
        Some(base)
    } else {
        origin
    }
}

/// A cookie domain of saved storage after the rewrite.
pub open spec fn rewritten_domain(domain: Option<Seq<char>>, base: Seq<char>) -> Option<Seq<char>> {
    if domain == Some("example.org"@) {
        Some(cookie_host(base))
    } else {
        domain
    }
}

fn text_is(o: &Option<String>, lit: &str) -> (r: bool)
    ensures
        r == (opt_text(*o) == Some(lit@)),
{
    match o {
        Some(s) => str_eq(s.as_str(), lit),
        None => false,
    }
}

/// Points saved storage that was recorded against the example domain at the
/// loopback harness at `base`: origins `https://example.org` become `base`,
/// cookie domains `example.org` become the host of `base`; every other entry
/// is left as it is.
pub fn rewrite_saved_storage_aliases(state: &mut SavedStorageState, base: &str)
    ensures
        final(state).origins@.len() == old(state).origins@.len(),
        final(state).cookie_domains@.len() == old(state).cookie_domains@.len(),
        forall|i: int|
            0 <= i < old(state).origins@.len() ==> opt_text(#[trigger] final(state).origins@[i])
                == rewritten_origin(opt_text(old(state).origins@[i]), base@),
        forall|i: int|
            0 <= i < old(state).cookie_domains@.len() ==> opt_text(
                #[trigger] final(state).cookie_domains@[i],
            ) == rewritten_domain(opt_text(old(state).cookie_domains@[i]), base@),
{
    let host = cookie_host_from_origin(base);
    let ghost old_origins = state.origins@;
    let ghost old_domains = state.cookie_domains@;
    let n = state.origins.len();
    let mut i: usize = 0;
    while i < n
        invariant
            n == old_origins.len(),
            state.origins@.len() == n,
            state.cookie_domains@ == old_domains,
            i <= n,
            forall|k: int|
                0 <= k < i ==> opt_text(#[trigger] state.origins@[k]) == rewritten_origin(
                    opt_text(old_origins[k]),
                    base@,
                ),
            forall|k: int| i <= k < n ==> #[trigger] state.origins@[k] == old_origins[k],
        decreases n - i,
    {
        if text_is(&state.origins[i], "https://example.org") {
            state.origins.set(i, Some(owned(base)));
        }
        i += 1;
    }
    let m = state.cookie_domains.len();
    let mut j: usize = 0;
    while j < m
        invariant
            m == old_domains.len(),
            state.cookie_domains@.len() == m,
            state.origins@.len() == n,
            n == old_origins.len(),
            forall|k: int|
                0 <= k < n ==> opt_text(#[trigger] state.origins@[k]) == rewritten_origin(
                    opt_text(old_origins[k]),
                    base@,
                ),
            host@ == cookie_host(base@),
            j <= m,
            forall|k: int|
                0 <= k < j ==> opt_text(#[trigger] state.cookie_domains@[k]) == rewritten_domain(
                    opt_text(old_domains[k]),
                    base@,
                ),
            forall|k: int| j <= k < m ==> #[trigger] state.cookie_domains@[k] == old_domains[k],
        decreases m - j,
    {
        if text_is(&state.cookie_domains[j], "example.org") {
            state.cookie_domains.set(j, Some(owned(host.as_str())));
        }
        j += 1;
    }
}


/// The example-domain page: title "Example Domain", a heading and two
/// paragraphs, so that assertions written against the real site hold.
pub const EXAMPLE_DOMAIN_HTML: &'static str = r#"<!DOCTYPE html><html lang="en"><head><meta charset="utf-8"/><title>Example Domain</title></head><body><div><h1>Example Domain</h1><p>This domain is for use in illustrative examples in documents without prior coordination or asking for permission.</p><p><a href="/">Learn more</a></p></div></body></html>"#;

/// The search-engine mirror: a title that contains "Google", with a heading,
/// a paragraph and a body for visibility checks.
pub const GOOGLE_MIRROR_HTML: &'static str = r#"<!DOCTYPE html><html><head><meta charset="utf-8"/><title>Google Search</title></head><body><h1>Google</h1><p>Harness mirror for offline scenarios.</p></body></html>"#;

/// The pages that the loopback server serves.
#[derive(Clone, Copy, Debug, PartialEq, Eq, Structural)]
pub enum FixturePage {
    ExampleDomain,
    GoogleMirror,
    NotFound,
}

/// The page served for a request path.
pub open spec fn page_for_path(path: Seq<char>) -> FixturePage {
    if path == "/google"@ || path == "/google/"@ {
        FixturePage::GoogleMirror
    } else if path == "/"@ || path.len() == 0 {
        FixturePage::ExampleDomain
    } else {
        FixturePage::NotFound
    }
}

/// The HTTP status line text of a page.
pub open spec fn status_of(page: FixturePage) -> Seq<char> {
    match page {
        FixturePage::NotFound => "404 Not Found"@,
        _ => "200 OK"@,
    }
}

/// The content type of a page.
pub open spec fn content_type_of(page: FixturePage) -> Seq<char> {
    match page {
        FixturePage::NotFound => "text/plain"@,
        _ => "text/html; charset=utf-8"@,
    }
}

/// The body of a page.
pub open spec fn body_of(page: FixturePage) -> Seq<char> {
    match page {
        FixturePage::ExampleDomain => EXAMPLE_DOMAIN_HTML@,
        FixturePage::GoogleMirror => GOOGLE_MIRROR_HTML@,
        FixturePage::NotFound => "fixture 404"@,
    }
}

/// The length in bytes of the UTF-8 encoding of `s`.
pub open spec fn byte_len(s: Seq<char>) -> usize {
    encode_utf8(s).len() as usize
}

/// The full HTTP/1.1 response for a page: status line, content length,
/// content type, `Connection: close`, a blank line and the body.
pub open spec fn response_text(page: FixturePage) -> Seq<char> {
    "HTTP/1.1 "@ + status_of(page) + "\r\nContent-Length: "@ + decimal(
        byte_len(body_of(page)) as nat,
    ) + "\r\nContent-Type: "@ + content_type_of(page) + "\r\nConnection: close\r\n\r\n"@
        + body_of(page)
}

/// The text of a request: its bytes decoded as UTF-8, or nothing when they
/// are not valid UTF-8.
pub open spec fn request_text(bytes: Seq<u8>) -> Seq<char> {
    if valid_utf8(bytes) {
        decode_utf8(bytes)
    } else {
        Seq::empty()
    }
}

/// The first line of `text` as `str::lines` yields it: up to the first
/// `\n`, without the `\r` of a `\r\n`.
pub open spec fn first_line(text: Seq<char>) -> Seq<char> {
    let l = before_first(text, '\n');
    if l.len() < text.len() && l.len() > 0 && l.last() == '\r' {
        l.drop_last()
    } else {
        l
    }
}

/// The second white-space separated word of `line`, if it has one.
pub open spec fn second_word(line: Seq<char>) -> Option<Seq<char>> {
    let t1 = trim_start_seq(line, false);
    let t2 = trim_start_seq(t1.subrange(first_space_index(t1), t1.len() as int), false);
    if t2.len() == 0 {
        None
    } else {
        Some(t2.subrange(0, first_space_index(t2)))
    }
}

/// The path a request asks for: the target of its request line without
/// the query, or `/` when the line names no target.
pub open spec fn request_path_of(text: Seq<char>) -> Seq<char> {
    match second_word(first_line(text)) {
        Some(w) => before_first(w, '?'),
        None => "/"@,
    }
}

/// Calls `core::str::from_utf8`, which accepts exactly the valid UTF-8
/// byte strings and then yields a `str` made of those bytes.
#[verifier::external_body]
fn utf8_text(bytes: &[u8]) -> (r: Option<&str>)
    ensures
        r is Some <==> valid_utf8(bytes@),
        r matches Some(s) ==> encode_utf8(s@) == bytes@,
{
    core::str::from_utf8(bytes).ok()
}

fn first_line_exec(text: &str) -> (r: &str)
    ensures
        r@ == first_line(text@),
{
    let l = prefix_before(text, '\n');
    let n = l.unicode_len();
    if n < text.unicode_len() && n > 0 && l.get_char(n - 1) == '\r' {
        l.substring_char(0, n - 1)
    } else {
        l
    }
}

fn second_word_exec(line: &str) -> (r: Option<&str>)
    ensures
        match r {
            Some(w) => second_word(line@) == Some(w@),
            None => second_word(line@) is None,
        },
{
    let t1 = trim_start_matching(line, false);
    proof {
        lemma_first_space_index(t1@);
    }
    let rest = t1.substring_char(first_space(t1), t1.unicode_len());
    let t2 = trim_start_matching(rest, false);
    proof {
        lemma_first_space_index(t2@);
    }
    if t2.unicode_len() == 0 {
        None
    } else {
        Some(t2.substring_char(0, first_space(t2)))
    }
}

/// The path that a request's text asks for.
pub fn request_path(text: &str) -> (r: &str)
    ensures
        r@ == request_path_of(text@),
{
    match second_word_exec(first_line_exec(text)) {
        Some(w) => prefix_before(w, '?'),
        None => "/",
    }
}

/// The page served for a request path: the search-engine mirror for
/// `/google` and `/google/`, the example domain for `/` and the empty path,
/// the not-found page for anything else.
pub fn fixture_page_for_path(path: &str) -> (r: FixturePage)
    ensures
        r == page_for_path(path@),
{
    if str_eq(path, "/google") || str_eq(path, "/google/") {
        FixturePage::GoogleMirror
    } else if str_eq(path, "/") || path.unicode_len() == 0 {
        FixturePage::ExampleDomain
    } else {
        FixturePage::NotFound
    }
}

impl FixturePage {
    /// The HTTP status of the page.
    pub fn status(&self) -> (r: &'static str)
        ensures
            r@ == status_of(*self),
    {
        match self {
            FixturePage::NotFound => "404 Not Found",
            _ => "200 OK",
        }
    }

    /// The content type of the page.
    pub fn content_type(&self) -> (r: &'static str)
        ensures
            r@ == content_type_of(*self),
    {
        match self {
            FixturePage::NotFound => "text/plain",
            _ => "text/html; charset=utf-8",
        }
    }

    /// The body of the page.
    pub fn body(&self) -> (r: &'static str)
        ensures
            r@ == body_of(*self),
    {
        match self {
            FixturePage::ExampleDomain => EXAMPLE_DOMAIN_HTML,
            FixturePage::GoogleMirror => GOOGLE_MIRROR_HTML,
            FixturePage::NotFound => "fixture 404",
        }
    }

    /// The full HTTP response that serves the page.
    pub fn response(&self) -> (r: String)
        ensures
            r@ == response_text(*self),
    {
        let body = self.body();
        let mut s = owned("HTTP/1.1 ");
        s.append(self.status());
        s.append("\r\nContent-Length: ");
        s.append(decimal_string(body.len() as u64).as_str());
        s.append("\r\nContent-Type: ");
        s.append(self.content_type());
        s.append("\r\nConnection: close\r\n\r\n");
        s.append(body);
        s
    }
}

/// The bytes the loopback server answers to the bytes of a request: the
/// page for the request's path, as a complete HTTP/1.1 response.
pub fn fixture_response(request: &[u8]) -> (r: Vec<u8>)
    ensures
        r@ == encode_utf8(response_text(page_for_path(request_path_of(request_text(request@))))),
{
    let text = match utf8_text(request) {
        Some(t) => {
            proof {
                encode_utf8_decode_utf8(t@);
            }
            t
        },
        None => "",
    };
    proof {
        reveal_strlit("");
    }
    let page = fixture_page_for_path(request_path(text));
    let resp = page.response();
    resp.as_str().as_bytes_vec()
}


/// A harness URL passed to the public navigation rule lands on the loopback
/// server, on the path whose page mirrors the public site: the example
/// domain on `/`, the search engine on `/google`.
pub proof fn lemma_harness_urls_serve_their_mirror(url: Seq<char>, base: Seq<char>)
    ensures
        bare_url(url) == example_url() || bare_url(url) == example_url_slash() ==> (substituted(
            url,
            base,
        ) == base + "/"@ && page_for_path("/"@) == FixturePage::ExampleDomain),
        bare_url(url) == google_url() ==> (substituted(url, base) == base + "/google"@
            && page_for_path("/google"@) == FixturePage::GoogleMirror),
{
    reveal_strlit("/");
    reveal_strlit("/google");
    reveal_strlit("/google/");
    reveal_strlit("https://example.org");
    reveal_strlit("https://example.org/");
    reveal_strlit("https://www.google.com");
    reveal_strlit("https://www.google.com/");
    assert(google_url().len() != example_url().len());
    assert(google_url()[8] != example_url_slash()[8]);
}

/// An expectation that the URL contains the example domain still holds
/// after a navigation to the example domain was redirected to the loopback
/// server at `base`.
pub proof fn lemma_shim_accepts_redirected_example(
    expected: Seq<char>,
    url: Seq<char>,
    base: Seq<char>,
)
    requires
        has_infix(expected, "example.org"@),
        bare_url(url) == example_url() || bare_url(url) == example_url_slash(),
    ensures
        accepts_substitution(expected, substituted(url, base), Some(base)),
{
    lemma_prefix_of_concat(base, "/"@);
}

proof fn lemma_before_first_absent(s: Seq<char>, c: char)
    requires
        forall|k: int| 0 <= k < s.len() ==> s[k] != c,
    ensures
        before_first(s, c) == s,
{
    lemma_first_index_of(s, c);
    if first_index_of(s, c) < s.len() {
        assert(s[first_index_of(s, c)] == c);
    }
    assert(s.subrange(0, s.len() as int) =~= s);
}

proof fn lemma_before_first_split(a: Seq<char>, c: char, b: Seq<char>)
    requires
        forall|k: int| 0 <= k < a.len() ==> a[k] != c,
    ensures
        before_first(a + seq![c] + b, c) == a,
{
    let s = a + seq![c] + b;
    lemma_first_index_of(s, c);
    let f = first_index_of(s, c);
    assert(s[a.len() as int] == c);
    if f < a.len() {
        assert(s[f] == a[f]);
    }
    assert(s.subrange(0, a.len() as int) =~= a);
}

/// The cookie host of a loopback base `http://HOST:PORT` is `HOST`, so the
/// rewritten cookies match the host the redirected pages are served from.
pub proof fn lemma_cookie_host_of_base(host: Seq<char>, port: Seq<char>)
    requires
        forall|k: int| 0 <= k < host.len() ==> host[k] != '/' && host[k] != ':',
        forall|k: int| 0 <= k < port.len() ==> port[k] != '/',
    ensures
        cookie_host("http://"@ + host + ":"@ + port) == host,
{
    let origin = "http://"@ + host + ":"@ + port;
    let rest = host + ":"@ + port;
    assert(origin =~= "http://"@ + rest);
    lemma_prefix_of_concat("http://"@, rest);
    assert(origin.subrange("http://"@.len() as int, origin.len() as int) =~= rest);
    reveal_strlit(":");
    assert forall|k: int| 0 <= k < rest.len() implies rest[k] != '/' by {
        if k < host.len() {
            assert(rest[k] == host[k]);
        } else if k == host.len() {
            assert(rest[k] == ':');
        } else {
            assert(rest[k] == port[k - host.len() - 1]);
        }
    }
    lemma_before_first_absent(rest, '/');
    assert(rest =~= host + seq![':'] + port);
    lemma_before_first_split(host, ':', port);
}

/// Rewriting saved storage a second time changes nothing, as long as the
/// loopback base is not itself the example domain.
pub proof fn lemma_rewrite_twice_is_once(
    origin: Option<Seq<char>>,
    domain: Option<Seq<char>>,
    base: Seq<char>,
)
    requires
        base != example_url(),
        cookie_host(base) != "example.org"@,
    ensures
        rewritten_origin(rewritten_origin(origin, base), base) == rewritten_origin(origin, base),
        rewritten_domain(rewritten_domain(domain, base), base) == rewritten_domain(domain, base),
        rewritten_origin(origin, base) != Some(example_url()),
        rewritten_domain(domain, base) != Some("example.org"@),
{
}


/// The search-engine target is the example-domain target followed by
/// `google`, for every loopback base.
pub proof fn lemma_google_target_extends_example(base: Seq<char>)
    ensures
        substituted(google_url(), base) == substituted(example_url(), base) + "google"@,
{
    reveal_strlit("https://example.org");
    reveal_strlit("https://example.org/");
    reveal_strlit("https://www.google.com");
    reveal_strlit("https://www.google.com/");
    reveal_strlit("/");
    reveal_strlit("/google");
    reveal_strlit("google");
    lemma_bare_literal(google_url());
    lemma_bare_literal(example_url());
    assert(google_url().len() != example_url().len());
    assert(google_url()[8] != example_url_slash()[8]);
    assert("/"@ + "google"@ =~= "/google"@);
    assert(base + "/google"@ =~= base + "/"@ + "google"@);
}

/// A URL that neither starts nor ends with a quote or white space is its
/// own bare form.
proof fn lemma_bare_literal(url: Seq<char>)
    requires
        url.len() > 0,
        !crate::text::is_trimmed(url[0], true),
        !crate::text::is_trimmed(url.last(), true),
    ensures
        bare_url(url) == url,
{
    assert(trim_start_seq(url, true) == url);
}


proof fn lemma_harness_literals_distinct()
    ensures
        "https://example.org"@ != "https://example.org/"@,
        "https://example.org"@ != "https://www.google.com"@,
        "https://example.org"@ != "https://www.google.com/"@,
        "https://example.org/"@ != "https://www.google.com"@,
        "https://example.org/"@ != "https://www.google.com/"@,
        "https://www.google.com"@ != "https://www.google.com/"@,
{
    reveal_strlit("https://example.org");
    reveal_strlit("https://example.org/");
    reveal_strlit("https://www.google.com");
    reveal_strlit("https://www.google.com/");
    assert("https://example.org"@.len() != "https://example.org/"@.len());
    assert("https://example.org"@.len() != "https://www.google.com"@.len());
    assert("https://example.org"@.len() != "https://www.google.com/"@.len());
    assert("https://example.org/"@[8] != "https://www.google.com"@[8]);
    assert("https://example.org/"@.len() != "https://www.google.com/"@.len());
    assert("https://www.google.com"@.len() != "https://www.google.com/"@.len());
}

/// The public navigation rule redirects exactly the three documented
/// harness URLs (quoted or padded or not): the example domain to `base/`,
/// the search engine to `base/google`; every other URL comes back exactly as
/// it was given, query, padding and all.
pub proof fn lemma_navigation_redirects_only_documented_urls(url: Seq<char>, base: Seq<char>)
    ensures
        trim_seq(url, true) == "https://example.org"@ || trim_seq(url, true)
            == "https://example.org/"@ ==> substituted(url, base) == base + "/"@,
        trim_seq(url, true) == "https://www.google.com"@ ==> substituted(url, base) == base
            + "/google"@,
        trim_seq(url, true) != "https://example.org"@ && trim_seq(url, true)
            != "https://example.org/"@ && trim_seq(url, true) != "https://www.google.com"@
            ==> substituted(url, base) == url,
{
    lemma_harness_literals_distinct();
}

/// An expectation naming a harness URL (quoted or padded or not, with or
/// without its trailing slash) resolves to that URL's loopback target:
/// `base/` for the example domain, `base/google` for the search engine; any
/// other expectation stays as it was written.
pub proof fn lemma_expectations_resolve_to_loopback_targets(expected: Seq<char>, base: Seq<char>)
    ensures
        trim_seq(expected, true) == "https://example.org"@ || trim_seq(expected, true)
            == "https://example.org/"@ ==> resolved_expectation(expected, base) == base + "/"@,
        trim_seq(expected, true) == "https://www.google.com"@ || trim_seq(expected, true)
            == "https://www.google.com/"@ ==> resolved_expectation(expected, base) == base
            + "/google"@,
        trim_seq(expected, true) != "https://example.org"@ && trim_seq(expected, true)
            != "https://example.org/"@ && trim_seq(expected, true) != "https://www.google.com"@
            && trim_seq(expected, true) != "https://www.google.com/"@ ==> resolved_expectation(
            expected,
            base,
        ) == expected,
{
    lemma_harness_literals_distinct();
}


/// The loopback shim accepts a URL check exactly when the expectation names
/// the example domain, the server has started, and the actual URL is on it.
pub proof fn lemma_shim_acceptance(expected: Seq<char>, actual: Seq<char>, base: Seq<char>)
    ensures
        !accepts_substitution(expected, actual, None),
        has_infix(expected, "example.org"@) && has_prefix(actual, base) ==> accepts_substitution(
            expected,
            actual,
            Some(base),
        ),
        !has_infix(expected, "example.org"@) ==> !accepts_substitution(
            expected,
            actual,
            Some(base),
        ),
        !has_prefix(actual, base) ==> !accepts_substitution(expected, actual, Some(base)),
{
}

/// The cookie host is the origin after its `http://` or `https://` scheme,
/// cut at the first `/` or `:`: a prefix of that rest with no `/` or `:`,
/// which is all of the rest or is followed by a `/` or a `:`.
pub proof fn lemma_cookie_host_cuts_at_path_or_port(origin: Seq<char>)
    ensures
        has_prefix(origin, "http://"@) ==> without_scheme(origin) == origin.subrange(
            "http://"@.len() as int,
            origin.len() as int,
        ),
        !has_prefix(origin, "http://"@) && has_prefix(origin, "https://"@) ==> without_scheme(
            origin,
        ) == origin.subrange("https://"@.len() as int, origin.len() as int),
        !has_prefix(origin, "http://"@) && !has_prefix(origin, "https://"@) ==> without_scheme(
            origin,
        ) == origin,
        has_prefix(without_scheme(origin), cookie_host(origin)),
        forall|k: int|
            0 <= k < cookie_host(origin).len() ==> #[trigger] cookie_host(origin)[k] != '/'
                && cookie_host(origin)[k] != ':',
        cookie_host(origin).len() == without_scheme(origin).len() || without_scheme(origin)[
            cookie_host(origin).len() as int] == '/' || without_scheme(origin)[cookie_host(
            origin,
        ).len() as int] == ':',
{
    let r = without_scheme(origin);
    let a = before_first(r, '/');
    let h = before_first(a, ':');
    lemma_before_first_stops_at_first(r, '/');
    lemma_before_first_stops_at_first(a, ':');
    assert forall|k: int| 0 <= k < h.len() implies #[trigger] h[k] != '/' && h[k] != ':' by {
        assert(h[k] == a[k]);
    }
    assert(r.subrange(0, h.len() as int) =~= h);
    if h.len() < a.len() {
        assert(r[h.len() as int] == a[h.len() as int]);
    }
}

/// Saved storage is rewritten entry by entry: only the origin
/// `https://example.org` becomes the loopback base, only the cookie domain
/// `example.org` becomes the loopback host; every other value stays.
pub proof fn lemma_rewrite_touches_only_example_entries(
    origin: Option<Seq<char>>,
    domain: Option<Seq<char>>,
    base: Seq<char>,
)
    ensures
        origin == Some("https://example.org"@) ==> rewritten_origin(origin, base) == Some(base),
        origin != Some("https://example.org"@) ==> rewritten_origin(origin, base) == origin,
        domain == Some("example.org"@) ==> rewritten_domain(domain, base) == Some(
            cookie_host(base),
        ),
        domain != Some("example.org"@) ==> rewritten_domain(domain, base) == domain,
{
}

/// The loopback server serves the search-engine mirror for `/google` and
/// `/google/`, the example domain for `/` and the empty path, and its
/// not-found page for every other path.
pub proof fn lemma_paths_route_to_mirrors(path: Seq<char>)
    ensures
        path == "/google"@ || path == "/google/"@ ==> page_for_path(path)
            == FixturePage::GoogleMirror,
        path == "/"@ || path.len() == 0 ==> page_for_path(path) == FixturePage::ExampleDomain,
        path != "/google"@ && path != "/google/"@ && path != "/"@ && path.len() != 0
            ==> page_for_path(path) == FixturePage::NotFound,
{
    reveal_strlit("/");
    reveal_strlit("/google");
    reveal_strlit("/google/");
    assert("/"@.len() != "/google"@.len());
    assert("/"@.len() != "/google/"@.len());
}

proof fn lemma_first_space_after_word(a: Seq<char>, rest: Seq<char>)
    requires
        forall|k: int| 0 <= k < a.len() ==> !is_white_space(#[trigger] a[k]),
        rest.len() == 0 || is_white_space(rest[0]),
    ensures
        first_space_index(a + rest) == a.len(),
    decreases a.len(),
{
    if a.len() > 0 {
        assert((a + rest)[0] == a[0]);
        assert((a + rest).drop_first() =~= a.drop_first() + rest);
        assert forall|k: int| 0 <= k < a.drop_first().len() implies !is_white_space(
            #[trigger] a.drop_first()[k],
        ) by {
            assert(a.drop_first()[k] == a[k + 1]);
        }
        lemma_first_space_after_word(a.drop_first(), rest);
    } else {
        assert(a + rest =~= rest);
        if rest.len() > 0 {
            assert(rest[0] == (a + rest)[0]);
        }
    }
}

/// A request whose first line is `METHOD TARGET VERSION` (three words
/// separated by single spaces, ended by CRLF) asks for its target without
/// the query, whatever follows the line.
pub proof fn lemma_request_line_names_the_path(
    method: Seq<char>,
    target: Seq<char>,
    version: Seq<char>,
    rest: Seq<char>,
)
    requires
        method.len() > 0,
        target.len() > 0,
        forall|k: int| 0 <= k < method.len() ==> !is_white_space(#[trigger] method[k]),
        forall|k: int| 0 <= k < target.len() ==> !is_white_space(#[trigger] target[k]),
        forall|k: int| 0 <= k < version.len() ==> !is_white_space(#[trigger] version[k]),
    ensures
        request_path_of(
            method + seq![' '] + target + seq![' '] + version + seq!['\r', '\n'] + rest,
        ) == before_first(target, '?'),
{
    let line = method + seq![' '] + target + seq![' '] + version;
    let text = line + seq!['\r', '\n'] + rest;
    assert(method + seq![' '] + target + seq![' '] + version + seq!['\r', '\n'] + rest =~= text);
    let with_cr = line + seq!['\r'];
    assert(text =~= with_cr + seq!['\n'] + rest);
    assert forall|k: int| 0 <= k < with_cr.len() implies with_cr[k] != '\n' by {
        if k < method.len() {
            assert(with_cr[k] == method[k]);
        } else if k < method.len() + 1 + target.len() && k > method.len() {
            assert(with_cr[k] == target[k - method.len() - 1]);
        } else if k > method.len() + 1 + target.len() && k < line.len() {
            assert(with_cr[k] == version[k - method.len() - 2 - target.len()]);
        }
    }
    lemma_before_first_split(with_cr, '\n', rest);
    assert(with_cr.drop_last() =~= line);
    assert(first_line(text) == line);
    assert(line[0] == method[0]);
    assert(trim_start_seq(line, false) == line);
    lemma_first_space_after_word(method, seq![' '] + target + seq![' '] + version);
    assert(line =~= method + (seq![' '] + target + seq![' '] + version));
    let after = line.subrange(method.len() as int, line.len() as int);
    let t2src = target + seq![' '] + version;
    assert(after =~= seq![' '] + t2src);
    assert(after.drop_first() =~= t2src);
    assert(t2src[0] == target[0]);
    assert(trim_start_seq(t2src, false) == t2src);
    assert(trim_start_seq(after, false) == t2src);
    lemma_first_space_after_word(target, seq![' '] + version);
    assert(t2src =~= target + (seq![' '] + version));
    assert(t2src.subrange(0, target.len() as int) =~= target);
}

/// A request whose first line is a single word names no target and asks for
/// `/`.
pub proof fn lemma_request_without_target_asks_for_root(word: Seq<char>, rest: Seq<char>)
    requires
        forall|k: int| 0 <= k < word.len() ==> !is_white_space(#[trigger] word[k]),
    ensures
        request_path_of(word + seq!['\r', '\n'] + rest) == "/"@,
{
    let text = word + seq!['\r', '\n'] + rest;
    let with_cr = word + seq!['\r'];
    assert(text =~= with_cr + seq!['\n'] + rest);
    assert forall|k: int| 0 <= k < with_cr.len() implies with_cr[k] != '\n' by {
        if k < word.len() {
            assert(with_cr[k] == word[k]);
        }
    }
    lemma_before_first_split(with_cr, '\n', rest);
    assert(with_cr.drop_last() =~= word);
    if word.len() > 0 {
        assert(first_line(text) == word);
        assert(trim_start_seq(word, false) == word);
        lemma_first_space_after_word(word, Seq::<char>::empty());
        assert(word + Seq::<char>::empty() =~= word);
        assert(word.subrange(word.len() as int, word.len() as int) =~= Seq::<char>::empty());
    } else {
        assert(first_line(text) == Seq::<char>::empty());
        assert(trim_start_seq(Seq::<char>::empty(), false) =~= Seq::<char>::empty());
    }
}


/// The text of a request is the text its bytes encode when they are valid
/// UTF-8, and empty otherwise.
pub proof fn lemma_request_text_encodes_the_bytes(bytes: Seq<u8>)
    ensures
        valid_utf8(bytes) ==> encode_utf8(request_text(bytes)) == bytes,
        !valid_utf8(bytes) ==> request_text(bytes).len() == 0,
{
    if valid_utf8(bytes) {
        vstd::utf8::decode_utf8_encode_utf8(bytes);
    }
}

} // verus!
