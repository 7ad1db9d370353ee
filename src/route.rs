//! Classification of inbound request paths: the serving mode and the capsule
//! URL that a path designates, and the small decisions around a request.
use vstd::prelude::*;
use crate::configuration::Configuration;
use crate::pattern::{glob_matches, matches_pattern};
use crate::text::{
    append, append_str, before_boundary, before_boundary_exec, chars_of, has_prefix, slice, split,
    split_exec, starts_with, string_of, trim, trim_exec, trim_start, trim_start_exec, Boundary,
};

verus! {

#[verifier::external_type_specification]
#[verifier::external_body]
pub struct ExUrl(url::Url);

#[verifier::external_type_specification]
#[verifier::external_body]
pub struct ExParseError(url::ParseError);

/// Whether `url::Url::parse` accepts the text `s`.
pub uninterp spec fn url_parses(s: Seq<char>) -> bool;

/// Relies on `url::Url::parse`: it succeeds or fails on the text alone.
#[verifier::external_body]
fn parse_url(s: &str) -> (r: Result<url::Url, url::ParseError>)
    ensures
        r is Ok == url_parses(s@),
{
    url::Url::parse(s)
}

/// The way a request is served, chosen by the prefix of its path.
#[derive(Clone, Copy, Debug, PartialEq, Eq, Structural)]
pub enum RouteMode {
    /// A document of the root capsule.
    Direct,
    /// A capsule named in the path, under `/proxy`.
    Proxy,
    /// The same as `Proxy`, under `/x`.
    ProxyShort,
    /// The capsule's text as it is, under `/raw`.
    Raw,
    /// The rendered document without a stylesheet, under `/nocss`.
    NoCss,
}

/// The mode of `path`: its first matching prefix among `/proxy`, `/x`,
/// `/raw` and `/nocss`, in that order, else direct.
pub open spec fn mode_of(path: Seq<char>) -> RouteMode {
    if starts_with(path, "/proxy"@) {
        RouteMode::Proxy
    } else if starts_with(path, "/x"@) {
        RouteMode::ProxyShort
    } else if starts_with(path, "/raw"@) {
        RouteMode::Raw
    } else if starts_with(path, "/nocss"@) {
        RouteMode::NoCss
    } else {
        RouteMode::Direct
    }
}

/// The path prefix that selects `m` (empty for direct serving).
pub open spec fn prefix_of(m: RouteMode) -> Seq<char> {
    match m {
        RouteMode::Direct => Seq::empty(),
        RouteMode::Proxy => "/proxy"@,
        RouteMode::ProxyShort => "/x"@,
        RouteMode::Raw => "/raw"@,
        RouteMode::NoCss => "/nocss"@,
    }
}

/// `path` without its leading `prefix`, and without the one `/` after it
/// where there is one. Only the leading occurrence is removed.
pub open spec fn strip_route(path: Seq<char>, prefix: Seq<char>) -> Seq<char> {
    if starts_with(path, prefix + "/"@) {
        path.subrange(prefix.len() + 1 as int, path.len() as int)
    } else {
        path.subrange(prefix.len() as int, path.len() as int)
    }
}

/// `/` where a trailing-slash retry is asked for, else nothing.
pub open spec fn retry_slash(fallback: bool) -> Seq<char> {
    if fallback {
        "/"@
    } else {
        Seq::empty()
    }
}

/// The capsule URL that `path` designates: under a proxy prefix, the rest of
/// the path behind the `gemini://` scheme; otherwise the path under `root`.
pub open spec fn route_target(path: Seq<char>, fallback: bool, root: Seq<char>) -> Seq<char> {
    let m = mode_of(path);
    if m == RouteMode::Direct {
        root + path + retry_slash(fallback)
    } else {
        "gemini://"@ + strip_route(path, prefix_of(m)) + retry_slash(fallback)
    }
}

/// `c` with the flags that mode `m` turns on: proxying for every mode but
/// direct, and raw or stylesheet-free serving for those modes.
pub open spec fn configured(c: Configuration, m: RouteMode) -> Configuration {
    Configuration {
        is_proxy: c.is_proxy || m != RouteMode::Direct,
        is_raw: c.is_raw || m == RouteMode::Raw,
        is_no_css: c.is_no_css || m == RouteMode::NoCss,
    }
}

/// Raw and stylesheet-free serving always come with proxying: a configuration
/// where this holds keeps it after the flags of any path's mode are turned on.
pub proof fn lemma_modes_keep_proxy(c: Configuration, path: Seq<char>)
    requires
        c.is_raw || c.is_no_css ==> c.is_proxy,
    ensures
        configured(c, mode_of(path)).is_raw || configured(c, mode_of(path)).is_no_css
            ==> configured(c, mode_of(path)).is_proxy,
{
}

/// The mode that the prefix of `path` selects.
pub fn route_mode(path: &str) -> (r: RouteMode)
    ensures
        r == mode_of(path@),
{
    let p = chars_of(path);
    if has_prefix(&p, &chars_of("/proxy")) {
        RouteMode::Proxy
    } else if has_prefix(&p, &chars_of("/x")) {
        RouteMode::ProxyShort
    } else if has_prefix(&p, &chars_of("/raw")) {
        RouteMode::Raw
    } else if has_prefix(&p, &chars_of("/nocss")) {
        RouteMode::NoCss
    } else {
        RouteMode::Direct
    }
}

fn route_prefix(m: RouteMode) -> (r: Vec<char>)
    ensures
        r@ == prefix_of(m),
{
    match m {
        RouteMode::Direct => Vec::new(),
        RouteMode::Proxy => chars_of("/proxy"),
        RouteMode::ProxyShort => chars_of("/x"),
        RouteMode::Raw => chars_of("/raw"),
        RouteMode::NoCss => chars_of("/nocss"),
    }
}

/// The capsule URL, as text, that `path` designates (see `route_target`).
pub fn target_of(path: &str, fallback: bool, root: &str) -> (r: String)
    ensures
        r@ == route_target(path@, fallback, root@),
{
    let m = route_mode(path);
    let p = chars_of(path);
    let mut out: Vec<char> = Vec::new();
    if m == RouteMode::Direct {
        append_str(&mut out, root);
        append(&mut out, &p);
    } else {
        let prefix = route_prefix(m);
        append_str(&mut out, "gemini://");
        let mut with_slash = prefix.clone();
        with_slash.push('/');
        proof {
            lemma_route_prefix_fits(path@, m);
        }
        let rest = if has_prefix(&p, &with_slash) {
            slice(&p, with_slash.len(), p.len())
        } else {
            slice(&p, prefix.len(), p.len())
        };
        assert(with_slash@ == prefix_of(m) + "/"@) by {
            assert(with_slash@ =~= prefix@ + seq!['/']);
            reveal_strlit("/");
            assert("/"@ =~= seq!['/']);
        }
        append(&mut out, &rest);
    }
    if fallback {
        append_str(&mut out, "/");
    }
    string_of(&out)
}

/// A path that selects a proxy mode is at least as long as its prefix.
proof fn lemma_route_prefix_fits(path: Seq<char>, m: RouteMode)
    requires
        m == mode_of(path),
    ensures
        prefix_of(m).len() <= path.len(),
{
}

/// The URL that `path` designates, and the flags of its mode turned on in
/// `configuration`; the error of the URL parser where the text is no URL.
pub fn from_path(
    path: &str,
    fallback: bool,
    root: &str,
    configuration: &mut Configuration,
) -> (r: Result<url::Url, url::ParseError>)
    ensures
        *final(configuration) == configured(*old(configuration), mode_of(path@)),
        r is Ok == url_parses(route_target(path@, fallback, root@)),
{
    let m = route_mode(path);
    if m != RouteMode::Direct {
        configuration.set_proxy(true);
    }
    if m == RouteMode::Raw {
        configuration.set_raw(true);
    }
    if m == RouteMode::NoCss {
        configuration.set_no_css(true);
    }
    let target = target_of(path, fallback, root);
    parse_url(target.as_str())
}

/// `s` up to its first whitespace character.
pub open spec fn until_space(s: Seq<char>) -> Seq<char> {
    before_boundary(s, Boundary::Whitespace)
}

/// The first whitespace-separated word of `s`, or `/` where it has none.
pub open spec fn first_word(s: Seq<char>) -> Seq<char> {
    let w = until_space(trim_start(s));
    if w.len() == 0 {
        "/"@
    } else {
        w
    }
}

/// What an HTTP/0.9 request line asks for: the trimmed line is `GET ` and a
/// path (its first word), or a bare path starting with `/`; anything else is
/// refused with a message that quotes the trimmed line.
pub open spec fn requested(line: Seq<char>) -> Result<Seq<char>, Seq<char>> {
    let t = trim(line);
    if starts_with(t, "GET "@) {
        Ok(first_word(t.subrange("GET "@.len() as int, t.len() as int)))
    } else if starts_with(t, "/"@) {
        Ok(t)
    } else {
        Err("invalid HTTP/0.9 request: "@ + t)
    }
}

/// The path that an HTTP/0.9 request line asks for (see `requested`).
pub fn parse_request(line: &str) -> (r: Result<String, String>)
    ensures
        match r {
            Ok(p) => requested(line@) == Ok::<Seq<char>, Seq<char>>(p@),
            Err(e) => requested(line@) == Err::<Seq<char>, Seq<char>>(e@),
        },
{
    let t = trim_exec(&chars_of(line));
    let get = chars_of("GET ");
    if has_prefix(&t, &get) {
        let rest = slice(&t, get.len(), t.len());
        let w = before_boundary_exec(&trim_start_exec(&rest), Boundary::Whitespace);
        if w.len() == 0 {
            Ok(string_of(&chars_of("/")))
        } else {
            Ok(string_of(&w))
        }
    } else if has_prefix(&t, &chars_of("/")) {
        Ok(string_of(&t))
    } else {
        let mut m = chars_of("invalid HTTP/0.9 request: ");
        append(&mut m, &t);
        Err(string_of(&m))
    }
}

/// Where a redirect with `meta` leads from a document on `host`: a path is
/// taken on the same host, anything else as it is.
pub open spec fn redirect_of(meta: Seq<char>, host: Seq<char>) -> Seq<char> {
    if starts_with(meta, "/"@) {
        "gemini://"@ + host + meta
    } else {
        meta
    }
}

/// The URL, as text, that a redirect with `meta` leads to (see `redirect_of`).
pub fn redirect_target(meta: &str, host: &str) -> (r: String)
    ensures
        r@ == redirect_of(meta@, host@),
{
    let m = chars_of(meta);
    if has_prefix(&m, &chars_of("/")) {
        let mut out = chars_of("gemini://");
        append_str(&mut out, host);
        append(&mut out, &m);
        string_of(&out)
    } else {
        string_of(&m)
    }
}

/// The bare proxy prefixes, with or without a final `/`, that lead to the
/// page explaining the proxy instead of to a capsule.
pub open spec fn is_proxy_info(path: Seq<char>) -> bool {
    path == "/proxy"@ || path == "/proxy/"@ || path == "/x"@ || path == "/x/"@ || path == "/raw"@
        || path == "/raw/"@ || path == "/nocss"@ || path == "/nocss/"@
}

fn is_literal(p: &Vec<char>, lit: &str) -> (r: bool)
    ensures
        r == (p@ == lit@),
{
    crate::text::same_chars(p, &chars_of(lit))
}

/// Whether `path` is a bare proxy prefix (see `is_proxy_info`).
pub fn is_proxy_info_path(path: &str) -> (r: bool)
    ensures
        r == is_proxy_info(path@),
{
    let p = chars_of(path);
    is_literal(&p, "/proxy") || is_literal(&p, "/proxy/") || is_literal(&p, "/x") || is_literal(&p, "/x/")
        || is_literal(&p, "/raw") || is_literal(&p, "/raw/") || is_literal(&p, "/nocss") || is_literal(&p, "/nocss/")
}

/// `path` without one trailing `/`, where it has one.
pub open spec fn without_trailing_slash(path: Seq<char>) -> Seq<char> {
    if path.len() > 0 && path.last() == '/' {
        path.drop_last()
    } else {
        path
    }
}

/// Some pattern of `routes` matches `path`, or `path` without one trailing `/`.
pub open spec fn plain_text_routed(routes: Seq<String>, path: Seq<char>) -> bool {
    exists|i: int|
        0 <= i < routes.len() && (glob_matches(#[trigger] routes[i]@, path) || glob_matches(
            routes[i]@,
            without_trailing_slash(path),
        ))
}

/// Whether the response for `path` is passed through as plain text (see
/// `plain_text_routed`).
pub fn is_plain_text_route(routes: &Vec<String>, path: &str) -> (r: bool)
    ensures
        r == plain_text_routed(routes@, path@),
{
    let p = chars_of(path);
    let trimmed = if p.len() > 0 && p[p.len() - 1] == '/' {
        slice(&p, 0, p.len() - 1)
    } else {
        p.clone()
    };
    assert(trimmed@ =~= without_trailing_slash(path@));
    let shorter = string_of(&trimmed);
    let mut i: usize = 0;
    while i < routes.len()
        invariant
            i <= routes.len(),
            shorter@ == without_trailing_slash(path@),
            forall|j: int| 0 <= j < i ==> !(glob_matches(#[trigger] routes@[j]@, path@) || glob_matches(
                routes@[j]@,
                without_trailing_slash(path@),
            )),
        decreases routes.len() - i,
    {
        if matches_pattern(routes[i].as_str(), path) || matches_pattern(routes[i].as_str(), shorter.as_str()) {
            return true;
        }
        i = i + 1;
    }
    false
}

/// The items of a comma-separated list, in order (see `split`).
pub fn split_commas(s: &str) -> (r: Vec<String>)
    ensures
        r.len() == split(s@, ',').len(),
        forall|i: int| 0 <= i < r.len() ==> #[trigger] r@[i]@ == split(s@, ',')[i],
{
    let parts = split_exec(&chars_of(s), ',');
    let mut out: Vec<String> = Vec::new();
    let mut i: usize = 0;
    while i < parts.len()
        invariant
            i <= parts.len(),
            out.len() == i,
            parts.len() == split(s@, ',').len(),
            forall|j: int| 0 <= j < parts.len() ==> #[trigger] parts@[j]@ == split(s@, ',')[j],
            forall|j: int| 0 <= j < i ==> #[trigger] out@[j]@ == split(s@, ',')[j],
        decreases parts.len() - i,
    {
        out.push(string_of(&parts[i]));
        i = i + 1;
    }
    out
}

/// The path of a request with its query: `?` and the query follow where there
/// is a query, or where the request ended in a bare `?`.
pub open spec fn with_query(path: Seq<char>, query: Seq<char>, bare_question: bool) -> Seq<char> {
    if query.len() > 0 || bare_question {
        path + "?"@ + query
    } else {
        path
    }
}

/// The path of a request with its query (see `with_query`).
pub fn request_path(path: &str, query: &str, bare_question: bool) -> (r: String)
    ensures
        r@ == with_query(path@, query@, bare_question),
{
    let mut out = chars_of(path);
    let q = chars_of(query);
    if q.len() > 0 || bare_question {
        append_str(&mut out, "?");
        append(&mut out, &q);
    }
    string_of(&out)
}

/// The kind of response a fetched document gets.
#[derive(Clone, Copy, Debug, PartialEq, Eq, Structural)]
pub enum Delivery {
    /// The image bytes as they came.
    Image,
    /// The capsule's text as it came, with its own type.
    Raw,
    /// The rendered document without styles.
    Unstyled,
    /// The capsule's text as plain text.
    PlainText,
    /// The rendered document in a styled page.
    Page,
}

/// The kind of response, in this order: an image where the meta names one and
/// bytes came; raw text on raw requests; an unstyled page on stylesheet-free
/// requests; plain text on plain-text routes; else a styled page.
pub open spec fn delivery_of(meta: Seq<char>, has_bytes: bool, c: Configuration, plain_text: bool) -> Delivery {
    if starts_with(meta, "image/"@) && has_bytes {
        Delivery::Image
    } else if c.is_raw {
        Delivery::Raw
    } else if c.is_no_css {
        Delivery::Unstyled
    } else if plain_text {
        Delivery::PlainText
    } else {
        Delivery::Page
    }
}

/// The kind of response for a document with `meta` (see `delivery_of`).
pub fn delivery(meta: &str, has_bytes: bool, configuration: &Configuration, plain_text: bool) -> (r: Delivery)
    ensures
        r == delivery_of(meta@, has_bytes, *configuration, plain_text),
{
    if has_prefix(&chars_of(meta), &chars_of("image/")) && has_bytes {
        Delivery::Image
    } else if configuration.is_raw {
        Delivery::Raw
    } else if configuration.is_no_css {
        Delivery::Unstyled
    } else if plain_text {
        Delivery::PlainText
    } else {
        Delivery::Page
    }
}

/// Which fetch of a request a response answers.
#[derive(Clone, Copy, Debug, PartialEq, Eq, Structural)]
pub enum FetchStage {
    /// The fetch of the URL that the path designates.
    Primary,
    /// The retry with a trailing slash, after an empty primary response.
    Fallback,
    /// The fetch of the URL that a redirect named.
    Redirected,
}

/// What to do once a response has come.
#[derive(Debug, PartialEq, Eq)]
pub enum FetchAction {
    /// Fetch the path again, with a trailing slash.
    RetryWithSlash,
    /// Fetch this URL, once.
    FollowRedirect(String),
    /// Render what came.
    Render,
}

/// The action after a response at `stage`: a redirect is followed once,
/// unless the response already answers a redirect; an empty primary response
/// is retried with a trailing slash; anything else is rendered.
pub fn next_fetch(stage: FetchStage, redirect: bool, empty: bool, meta: &str, host: &str) -> (r: FetchAction)
    ensures
        redirect && stage != FetchStage::Redirected ==> (r matches FetchAction::FollowRedirect(u) && u@ == redirect_of(meta@, host@)),
        !(redirect && stage != FetchStage::Redirected) && empty && stage == FetchStage::Primary ==> r == FetchAction::RetryWithSlash,
        !(redirect && stage != FetchStage::Redirected) && !(empty && stage == FetchStage::Primary) ==> r == FetchAction::Render,
{
    if redirect && stage != FetchStage::Redirected {
        FetchAction::FollowRedirect(redirect_target(meta, host))
    } else if empty && stage == FetchStage::Primary {
        FetchAction::RetryWithSlash
    } else {
        FetchAction::Render
    }
}

} // verus!
