//! Resolution of link targets against the document's URL, and their rewriting
//! so that capsule links are served through the gateway.
use vstd::prelude::*;
use crate::configuration::Configuration;
use crate::environment::Environment;
use crate::text::{
    append, append_str, before_boundary, before_boundary_exec, chars_of, ends_with, Boundary, has_prefix, has_suffix, listed, listed_exec,
    occurs_at, occurs_at_exec, occurs_in, replace_all, replace_all_exec, slice, starts_with,
    string_of,
};

verus! {

/// The URL of a document, as the plain values that link resolution reads.
/// `Location::new` takes them from a parsed URL; the contracts speak of the
/// fields alone, so a location built by hand is read as it stands.
pub struct Location {
    /// The whole URL, as text.
    pub text: String,
    /// The host of the URL, where it has one.
    pub host: Option<String>,
    /// The path of the URL.
    pub path: String,
}

/// Relies on `url::Url::as_str`: the URL as text.
#[verifier::external_body]
fn url_text(u: &url::Url) -> (r: String) {
    u.as_str().to_string()
}

/// Relies on `url::Url::host_str`: the URL's host as text, where it has one.
#[verifier::external_body]
fn url_host(u: &url::Url) -> (r: Option<String>) {
    u.host_str().map(|h| h.to_string())
}

/// Relies on `url::Url::path`: the URL's path as text.
#[verifier::external_body]
fn url_path(u: &url::Url) -> (r: String) {
    u.path().to_string()
}

/// What `url::Url::parse` of `base` and then `Url::join` of `href` give, as
/// text; None where either fails.
pub uninterp spec fn url_joined(base: Seq<char>, href: Seq<char>) -> Option<Seq<char>>;

/// Relies on `url::Url::parse` and `url::Url::join`: `href` resolved against
/// the URL `base`, as text; the result depends on the two texts alone.
#[verifier::external_body]
fn join_url(base: &str, href: &str) -> (r: Option<String>)
    ensures
        opt_view(r) == url_joined(base@, href@),
{
    url::Url::parse(base).and_then(|b| b.join(href)).ok().map(|u| u.to_string())
}

impl Location {
    /// The location of `url`: its text, host and path, as the URL crate gives
    /// them. No contract ties these to `url`, which is opaque here.
    pub fn new(url: &url::Url) -> (r: Location) {
        let text = url_text(url);
        let host = url_host(url);
        let path = url_path(url);
        Location { text, host, path }
    }
}

/// The characters of an optional string.
pub open spec fn opt_view(o: Option<String>) -> Option<Seq<char>> {
    match o {
        Some(s) => Some(s@),
        None => None,
    }
}

/// A target written relative to the document: `./...` or `../...`.
pub open spec fn is_dot_relative(t: Seq<char>) -> bool {
    starts_with(t, "./"@) || starts_with(t, "../"@)
}

/// A target with a scheme other than `gemini`: `https://...`, `mailto:...`.
pub open spec fn is_surface(h: Seq<char>) -> bool {
    (occurs_in(h, "://"@) && !starts_with(h, "gemini://"@)) || (!occurs_in(h, "://"@) && h.contains(':'))
}

/// `href` on `host`, as a Gemini URL.
pub open spec fn host_href(host: Seq<char>, href: Seq<char>) -> Seq<char> {
    "gemini://"@ + host + (if starts_with(href, "/"@) { Seq::empty() } else { "/"@ }) + href
}

/// A bare path `href` under the document's `path` on `host`, with each `//`
/// collapsed to `/`.
pub open spec fn bare_joined(host: Seq<char>, path: Seq<char>, href: Seq<char>) -> Seq<char> {
    "gemini://"@ + replace_all(
        host + "/"@ + path + (if ends_with(path, "/"@) { Seq::empty() } else { "/"@ }) + href,
        "//"@,
        "/"@,
    )
}

/// The absolute Gemini URL of a target that is not a surface link.
pub open spec fn canonical(h: Seq<char>, host: Seq<char>, path: Seq<char>) -> Seq<char> {
    if starts_with(h, "gemini://"@) {
        h
    } else if starts_with(h, "/"@) {
        host_href(host, h)
    } else {
        bare_joined(host, path, h)
    }
}

/// `s` up to its first `/`.
pub open spec fn before_slash(s: Seq<char>) -> Seq<char> {
    before_boundary(s, Boundary::Slash)
}

/// `h` with its `gemini://` scheme taken off.
pub open spec fn after_scheme(h: Seq<char>) -> Seq<char> {
    h.subrange("gemini://"@.len() as int, h.len() as int)
}

/// A Gemini URL `h` as the gateway serves it: where proxying is on and the
/// request is proxied or the link leaves `host`, under `/proxy/` (or `/nocss/`);
/// where it stays on `host` of a direct request, as a path from the root.
pub open spec fn proxied(h: Seq<char>, host: Seq<char>, proxy_on: bool, c: Configuration) -> Seq<char> {
    let rest = after_scheme(h);
    if !proxy_on {
        h
    } else if c.is_proxy || c.is_no_css || before_slash(rest) != host {
        "/"@ + (if c.is_no_css { "nocss"@ } else { "proxy"@ }) + "/"@ + rest
    } else {
        rest.subrange(host.len() as int, rest.len() as int)
    }
}

/// An href without a scheme, served from the gateway's own root.
pub open spec fn is_relative_form(h: Seq<char>) -> bool {
    starts_with(h, "/"@) || !occurs_in(h, "://"@)
}

/// A relative href whose Gemini URL is listed in `exact` becomes that URL.
pub open spec fn kept_exact(h: Seq<char>, host: Seq<char>, exact: Seq<String>) -> Seq<char> {
    if is_relative_form(h) && listed(exact, host_href(host, h)) {
        host_href(host, h)
    } else {
        h
    }
}

/// A relative href on a host listed in `domains` becomes its Gemini URL.
pub open spec fn kept_domain(h: Seq<char>, host: Seq<char>, domains: Seq<String>) -> Seq<char> {
    if is_relative_form(h) && listed(domains, host) {
        host_href(host, h)
    } else {
        h
    }
}

/// The href that link target `t` gets in a document on `host` at `path`:
/// surface links unchanged; others made absolute, proxied, then kept as Gemini
/// URLs where the exact and then the domain list say so. None where a
/// capsule link meets a document without a host.
pub open spec fn resolved(
    t: Seq<char>,
    host: Option<Seq<char>>,
    path: Seq<char>,
    env: Environment,
    c: Configuration,
) -> Option<Seq<char>> {
    if is_surface(t) {
        Some(t)
    } else {
        match host {
            None => None,
            Some(hs) => Some(
                kept_domain(
                    kept_exact(
                        proxied(canonical(t, hs, path), hs, env.proxy_by_default, c),
                        hs,
                        env.keep_gemini_exact@,
                    ),
                    hs,
                    env.keep_gemini_domain@,
                ),
            ),
        }
    }
}

/// `a` is a prefix of `a + b`.
proof fn lemma_prefix_of_concat(a: Seq<char>, b: Seq<char>)
    ensures
        starts_with(a + b, a),
{
    assert((a + b).subrange(0, a.len() as int) =~= a);
}

/// Whether `p` occurs anywhere in `s`.
pub fn occurs_in_exec(s: &Vec<char>, p: &Vec<char>) -> (r: bool)
    ensures
        r == occurs_in(s@, p@),
{
    if p.len() > s.len() {
        return false;
    }
    let mut i: usize = 0;
    while i <= s.len() - p.len()
        invariant
            p.len() <= s.len(),
            i <= s.len() - p.len() + 1,
            forall|j: int| 0 <= j < i ==> !occurs_at(s@, p@, j),
        decreases s.len() - p.len() + 1 - i,
    {
        if occurs_at_exec(s, p, i) {
            return true;
        }
        if i == s.len() - p.len() {
            assert forall|j: int| !occurs_at(s@, p@, j) by {
                if j < i {
                }
            }
            return false;
        }
        i = i + 1;
    }
    assert forall|j: int| !occurs_at(s@, p@, j) by {
        if j < i {
        }
    }
    false
}

fn contains_char(s: &Vec<char>, c: char) -> (r: bool)
    ensures
        r == s@.contains(c),
{
    let mut i: usize = 0;
    while i < s.len()
        invariant
            i <= s.len(),
            forall|j: int| 0 <= j < i ==> s@[j] != c,
        decreases s.len() - i,
    {
        if s[i] == c {
            return true;
        }
        i = i + 1;
    }
    false
}

fn surface_exec(h: &Vec<char>) -> (r: bool)
    ensures
        r == is_surface(h@),
{
    let has_sep = occurs_in_exec(h, &chars_of("://"));
    if has_sep {
        !has_prefix(h, &chars_of("gemini://"))
    } else {
        contains_char(h, ':')
    }
}

fn host_href_exec(host: &Vec<char>, href: &Vec<char>) -> (r: Vec<char>)
    ensures
        r@ == host_href(host@, href@),
{
    let mut out = chars_of("gemini://");
    append(&mut out, host);
    if !has_prefix(href, &chars_of("/")) {
        append_str(&mut out, "/");
    }
    append(&mut out, href);
    assert(out@ =~= host_href(host@, href@));
    out
}

/// The Gemini URL of `href` on the document's host; None where the document
/// has no host.
pub fn link_from_host_href(base: &Location, href: &str) -> (r: Option<String>)
    ensures
        opt_view(r) == match opt_view(base.host) {
            Some(h) => Some(host_href(h, href@)),
            None => None,
        },
{
    match &base.host {
        Some(h) => {
            let v = host_href_exec(&chars_of(h.as_str()), &chars_of(href));
            Some(string_of(&v))
        },
        None => None,
    }
}

fn canonical_exec(h: &Vec<char>, host: &Vec<char>, path: &Vec<char>) -> (r: Vec<char>)
    ensures
        r@ == canonical(h@, host@, path@),
{
    if has_prefix(h, &chars_of("gemini://")) {
        h.clone()
    } else if has_prefix(h, &chars_of("/")) {
        host_href_exec(host, h)
    } else {
        let mut joined = host.clone();
        append_str(&mut joined, "/");
        append(&mut joined, path);
        if !has_suffix(path, &chars_of("/")) {
            append_str(&mut joined, "/");
        }
        append(&mut joined, h);
        let collapsed = replace_all_exec(&joined, &chars_of("//"), &chars_of("/"));
        let mut out = chars_of("gemini://");
        append(&mut out, &collapsed);
        out
    }
}

/// `before_slash(s)` is a prefix of `s`.
proof fn lemma_before_slash_prefix(s: Seq<char>)
    ensures
        starts_with(s, before_slash(s)),
    decreases s.len(),
{
    if s.len() > 0 && s[0] != '/' {
        lemma_before_slash_prefix(s.drop_first());
        let b = before_slash(s.drop_first());
        assert(before_slash(s) == seq![s[0]] + b);
        assert(s.subrange(0, b.len() + 1 as int) =~= seq![s[0]] + s.drop_first().subrange(0, b.len() as int));
    } else {
        assert(s.subrange(0, 0) =~= Seq::<char>::empty());
    }
}

fn proxied_exec(h: &Vec<char>, host: &Vec<char>, proxy_on: bool, c: &Configuration) -> (r: Vec<char>)
    requires
        starts_with(h@, "gemini://"@),
    ensures
        r@ == proxied(h@, host@, proxy_on, *c),
{
    if !proxy_on {
        return h.clone();
    }
    let scheme = chars_of("gemini://");
    let rest = slice(h, scheme.len(), h.len());
    let first = before_boundary_exec(&rest, Boundary::Slash);
    if c.is_proxy || c.is_no_css || !crate::text::same_chars(&first, host) {
        let mut out = chars_of("/");
        if c.is_no_css {
            append_str(&mut out, "nocss");
        } else {
            append_str(&mut out, "proxy");
        }
        append_str(&mut out, "/");
        append(&mut out, &rest);
        out
    } else {
        proof {
            lemma_before_slash_prefix(rest@);
        }
        slice(&rest, host.len(), rest.len())
    }
}

fn relative_form_exec(h: &Vec<char>) -> (r: bool)
    ensures
        r == is_relative_form(h@),
{
    has_prefix(h, &chars_of("/")) || !occurs_in_exec(h, &chars_of("://"))
}

fn kept_exact_exec(h: Vec<char>, host: &Vec<char>, exact: &Vec<String>) -> (r: Vec<char>)
    ensures
        r@ == kept_exact(h@, host@, exact@),
{
    if relative_form_exec(&h) {
        let full = host_href_exec(host, &h);
        if listed_exec(exact, &full) {
            return full;
        }
    }
    h
}

fn kept_domain_exec(h: Vec<char>, host: &Vec<char>, domains: &Vec<String>) -> (r: Vec<char>)
    ensures
        r@ == kept_domain(h@, host@, domains@),
{
    if relative_form_exec(&h) && listed_exec(domains, host) {
        host_href_exec(host, &h)
    } else {
        h
    }
}

/// The href of link target `t` in the document at `base` (see `resolved`).
pub fn rewrite_link(
    target: &str,
    base: &Location,
    env: &Environment,
    configuration: &Configuration,
) -> (r: Option<String>)
    ensures
        opt_view(r) == resolved(target@, opt_view(base.host), base.path@, *env, *configuration),
{
    let t = chars_of(target);
    if surface_exec(&t) {
        return Some(string_of(&t));
    }
    let host = match &base.host {
        Some(h) => chars_of(h.as_str()),
        None => {
            return None;
        },
    };
    let path = chars_of(base.path.as_str());
    let c = canonical_exec(&t, &host, &path);
    proof {
        if !starts_with(t@, "gemini://"@) {
            if starts_with(t@, "/"@) {
                lemma_prefix_of_concat("gemini://"@, host@ + t@);
                assert(host_href(host@, t@) =~= "gemini://"@ + (host@ + t@));
            } else {
                lemma_prefix_of_concat("gemini://"@, replace_all(
                    host@ + "/"@ + path@ + (if ends_with(path@, "/"@) { Seq::empty() } else { "/"@ }) + t@, "//"@, "/"@));
            }
        }
    }
    let p = proxied_exec(&c, &host, env.proxy_by_default, configuration);
    let e = kept_exact_exec(p, &host, &env.keep_gemini_exact);
    let d = kept_domain_exec(e, &host, &env.keep_gemini_domain);
    Some(string_of(&d))
}

/// The href of link target `to` in the document at `base`: a target of the
/// form `./...` or `../...` is first joined to the document's URL (and kept as
/// it is where that fails), then the result is resolved (see `resolved`).
pub open spec fn link_href(to: Seq<char>, base: Location, env: Environment, c: Configuration) -> Option<Seq<char>> {
    let start = if is_dot_relative(to) {
        match url_joined(base.text@, to) {
            Some(j) => j,
            None => to,
        }
    } else {
        to
    };
    resolved(start, opt_view(base.host), base.path@, env, c)
}

/// The href of link target `to` in the document at `base` (see `link_href`).
pub fn resolve_link(
    to: &str,
    base: &Location,
    env: &Environment,
    configuration: &Configuration,
) -> (r: Option<String>)
    ensures
        opt_view(r) == link_href(to@, *base, *env, *configuration),
{
    let t = chars_of(to);
    if has_prefix(&t, &chars_of("./")) || has_prefix(&t, &chars_of("../")) {
        match join_url(base.text.as_str(), to) {
            Some(joined) => rewrite_link(joined.as_str(), base, env, configuration),
            None => rewrite_link(to, base, env, configuration),
        }
    } else {
        rewrite_link(to, base, env, configuration)
    }
}

/// A text without `:` holds no `://`.
proof fn lemma_no_colon_no_scheme(t: Seq<char>)
    requires
        !t.contains(':'),
    ensures
        !occurs_in(t, "://"@),
{
    reveal_strlit("://");
    if occurs_in(t, "://"@) {
        let i = choose|i: int| occurs_at(t, "://"@, i);
        assert(t.subrange(i, i + 3)[0] == ':');
        assert(t[i] == ':');
    }
}

/// A text that starts with `/` does not start with `gemini://`.
proof fn lemma_slash_not_scheme(t: Seq<char>)
    requires
        starts_with(t, "/"@),
    ensures
        !starts_with(t, "gemini://"@),
{
    reveal_strlit("/");
    reveal_strlit("gemini://");
    assert(t.subrange(0, 1)[0] == '/');
}

/// A Gemini URL is no relative href.
proof fn lemma_gemini_url_not_relative(u: Seq<char>)
    ensures
        !is_relative_form("gemini://"@ + u),
{
    reveal_strlit("/");
    reveal_strlit("gemini://");
    reveal_strlit("://");
    let h = "gemini://"@ + u;
    assert(h.subrange(6, 9) =~= "://"@);
    assert(occurs_at(h, "://"@, 6));
    if starts_with(h, "/"@) {
        assert(h.subrange(0, 1)[0] == '/');
    }
}

/// The host part of `host` followed by a path is `host` itself.
proof fn lemma_before_slash_of_host(host: Seq<char>, t: Seq<char>)
    requires
        !host.contains('/'),
        starts_with(t, "/"@),
    ensures
        before_slash(host + t) == host,
    decreases host.len(),
{
    reveal_strlit("/");
    if host.len() == 0 {
        assert(t.subrange(0, 1)[0] == '/');
        assert(host + t =~= t);
    } else {
        assert(host[0] != '/');
        if host.drop_first().contains('/') {
            let i = choose|i: int| 0 <= i < host.drop_first().len() && host.drop_first()[i] == '/';
            assert(host[i + 1] == '/');
        }
        lemma_before_slash_of_host(host.drop_first(), t);
        assert((host + t).drop_first() =~= host.drop_first() + t);
        assert(seq![host[0]] + host.drop_first() =~= host);
    }
}

/// A surface link keeps its target, whatever the document, the settings and
/// the serving flags.
pub proof fn lemma_surface_link_unchanged(
    t: Seq<char>,
    host: Option<Seq<char>>,
    path: Seq<char>,
    env: Environment,
    c: Configuration,
)
    requires
        is_surface(t),
    ensures
        resolved(t, host, path, env, c) == Some(t),
{
}

/// On a direct request with proxying on, a link to a path on the document's
/// own host is served as that same path from the gateway's root, unless an
/// override list keeps it as a Gemini URL.
pub proof fn lemma_same_host_path_served_locally(
    t: Seq<char>,
    host: Seq<char>,
    path: Seq<char>,
    env: Environment,
    c: Configuration,
)
    requires
        starts_with(t, "/"@),
        !t.contains(':'),
        !host.contains('/'),
        env.proxy_by_default,
        !c.is_proxy,
        !c.is_no_css,
        !listed(env.keep_gemini_exact@, host_href(host, t)),
        !listed(env.keep_gemini_domain@, host),
    ensures
        resolved(t, Some(host), path, env, c) == Some(t),
{
    lemma_no_colon_no_scheme(t);
    lemma_slash_not_scheme(t);
    let h = host_href(host, t);
    assert(h =~= "gemini://"@ + (host + t));
    assert(after_scheme(h) =~= host + t);
    lemma_before_slash_of_host(host, t);
    assert((host + t).subrange(host.len() as int, (host + t).len() as int) =~= t);
}

/// With proxying on, a link to a Gemini URL whose host is not the document's
/// is served under `/proxy/` (under `/nocss/` on stylesheet-free requests),
/// unless an override list keeps it.
pub proof fn lemma_other_host_proxied(
    rest: Seq<char>,
    host: Seq<char>,
    path: Seq<char>,
    env: Environment,
    c: Configuration,
)
    requires
        before_slash(rest) != host,
        env.proxy_by_default,
        !listed(
            env.keep_gemini_exact@,
            host_href(host, "/"@ + (if c.is_no_css { "nocss"@ } else { "proxy"@ }) + "/"@ + rest),
        ),
        !listed(env.keep_gemini_domain@, host),
    ensures
        resolved("gemini://"@ + rest, Some(host), path, env, c) == Some(
            "/"@ + (if c.is_no_css { "nocss"@ } else { "proxy"@ }) + "/"@ + rest,
        ),
{
    let t = "gemini://"@ + rest;
    reveal_strlit("gemini://");
    reveal_strlit("://");
    reveal_strlit("/");
    assert(t.subrange(6, 9) =~= "://"@);
    assert(occurs_at(t, "://"@, 6));
    lemma_prefix_of_concat("gemini://"@, rest);
    assert(after_scheme(t) =~= rest);
    let out = "/"@ + (if c.is_no_css { "nocss"@ } else { "proxy"@ }) + "/"@ + rest;
    assert(out.subrange(0, 1) =~= "/"@);
}

/// A relative link whose Gemini URL is listed among the exact overrides is
/// given as that Gemini URL, where it would otherwise be served locally.
pub proof fn lemma_exact_override_kept(
    t: Seq<char>,
    host: Seq<char>,
    path: Seq<char>,
    env: Environment,
    c: Configuration,
)
    requires
        starts_with(t, "/"@),
        !t.contains(':'),
        !host.contains('/'),
        env.proxy_by_default,
        !c.is_proxy,
        !c.is_no_css,
        listed(env.keep_gemini_exact@, host_href(host, t)),
    ensures
        resolved(t, Some(host), path, env, c) == Some(host_href(host, t)),
{
    lemma_no_colon_no_scheme(t);
    lemma_slash_not_scheme(t);
    let h = host_href(host, t);
    assert(h =~= "gemini://"@ + (host + t));
    assert(after_scheme(h) =~= host + t);
    lemma_before_slash_of_host(host, t);
    assert((host + t).subrange(host.len() as int, (host + t).len() as int) =~= t);
    lemma_gemini_url_not_relative(host + t);
}

} // verus!
