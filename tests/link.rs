use september::configuration::Configuration;
use september::environment::Environment;
use september::link::{link_from_host_href, resolve_link, rewrite_link, Location};

fn settings() -> Environment {
    Environment {
        root: "gemini://fuwn.me".to_string(),
        css_external: None,
        primary_colour: None,
        favicon_external: None,
        mathjax: true,
        head: None,
        header: None,
        plain_text_route: None,
        condense_links: vec![],
        condense_links_at_headings: vec![],
        proxy_by_default: true,
        keep_gemini_exact: vec![],
        keep_gemini_domain: vec![],
        embed_images: None,
        http09: false,
        http09_port: 90,
    }
}

fn base(u: &str) -> Location {
    Location::new(&url::Url::parse(u).unwrap())
}

#[test]
fn location_reads_host_and_path() {
    let b = base("gemini://example.org/a/b");
    assert_eq!(b.host.as_deref(), Some("example.org"));
    assert_eq!(b.path, "/a/b");
}

#[test]
fn same_host_absolute_path_served_locally() {
    let b = base("gemini://example.org/a/");
    let r = rewrite_link("/b", &b, &settings(), &Configuration::new());
    assert_eq!(r.as_deref(), Some("/b"));
}

#[test]
fn other_host_is_proxied() {
    let b = base("gemini://example.org/a/");
    let r = rewrite_link("gemini://other.org/c", &b, &settings(), &Configuration::new());
    assert_eq!(r.as_deref(), Some("/proxy/other.org/c"));
}

#[test]
fn surface_link_unchanged() {
    let b = base("gemini://example.org/a/");
    let mut c = Configuration::new();
    assert_eq!(rewrite_link("https://example.com", &b, &settings(), &c).as_deref(), Some("https://example.com"));
    c.set_proxy(true);
    c.set_no_css(true);
    let mut e = settings();
    e.proxy_by_default = false;
    assert_eq!(rewrite_link("https://example.com", &b, &e, &c).as_deref(), Some("https://example.com"));
    assert_eq!(rewrite_link("mailto:me@example.com", &b, &e, &c).as_deref(), Some("mailto:me@example.com"));
}

#[test]
fn exact_override_forces_gemini_url() {
    let b = base("gemini://example.org/a/");
    let mut e = settings();
    e.keep_gemini_exact = vec!["gemini://example.org/special".to_string()];
    assert_eq!(rewrite_link("/special", &b, &e, &Configuration::new()).as_deref(), Some("gemini://example.org/special"));
    assert_eq!(rewrite_link("/other", &b, &e, &Configuration::new()).as_deref(), Some("/other"));
}

#[test]
fn domain_override_forces_gemini_url() {
    let b = base("gemini://example.org/a/");
    let mut e = settings();
    e.keep_gemini_domain = vec!["example.org".to_string()];
    assert_eq!(rewrite_link("/b", &b, &e, &Configuration::new()).as_deref(), Some("gemini://example.org/b"));
}

#[test]
fn proxied_request_keeps_same_host_under_proxy() {
    let b = base("gemini://example.org/a/");
    let mut c = Configuration::new();
    c.set_proxy(true);
    assert_eq!(rewrite_link("/b", &b, &settings(), &c).as_deref(), Some("/proxy/example.org/b"));
    c.set_no_css(true);
    assert_eq!(rewrite_link("/b", &b, &settings(), &c).as_deref(), Some("/nocss/example.org/b"));
}

#[test]
fn proxying_off_leaves_gemini_url() {
    let b = base("gemini://example.org/a/");
    let mut e = settings();
    e.proxy_by_default = false;
    assert_eq!(rewrite_link("/b", &b, &e, &Configuration::new()).as_deref(), Some("gemini://example.org/b"));
}

#[test]
fn bare_path_joins_document_path() {
    let b = base("gemini://example.org/a/");
    assert_eq!(rewrite_link("c.gmi", &b, &settings(), &Configuration::new()).as_deref(), Some("/a/c.gmi"));
    let d = base("gemini://example.org/a/doc");
    let mut e = settings();
    e.proxy_by_default = false;
    assert_eq!(rewrite_link("c.gmi", &d, &e, &Configuration::new()).as_deref(), Some("gemini://example.org/a/doc/c.gmi"));
}

#[test]
fn dot_relative_is_joined() {
    let b = base("gemini://example.org/a/b/doc.gmi");
    let r = resolve_link("../c.gmi", &b, &settings(), &Configuration::new());
    assert_eq!(r.as_deref(), Some("/a/c.gmi"));
    let s = resolve_link("./d.gmi", &b, &settings(), &Configuration::new());
    assert_eq!(s.as_deref(), Some("/a/b/d.gmi"));
}

#[test]
fn missing_host_gives_none() {
    let b = Location { text: "gemini:/nohost".to_string(), host: None, path: "/nohost".to_string() };
    assert_eq!(rewrite_link("/b", &b, &settings(), &Configuration::new()), None);
    assert_eq!(link_from_host_href(&b, "/b"), None);
    assert_eq!(rewrite_link("https://x.org", &b, &settings(), &Configuration::new()).as_deref(), Some("https://x.org"));
}

#[test]
fn host_href_forms() {
    let b = base("gemini://example.org/");
    assert_eq!(link_from_host_href(&b, "/x").as_deref(), Some("gemini://example.org/x"));
    assert_eq!(link_from_host_href(&b, "x").as_deref(), Some("gemini://example.org/x"));
}

#[test]
fn location_keeps_url_text() {
    let b = base("gemini://example.org/a/b");
    assert_eq!(b.text, "gemini://example.org/a/b");
}

#[test]
fn failed_join_keeps_target() {
    let b = Location { text: "not a url".to_string(), host: Some("example.org".to_string()), path: "/a/".to_string() };
    let r = resolve_link("./c.gmi", &b, &settings(), &Configuration::new());
    assert_eq!(r.as_deref(), Some("/a/./c.gmi"));
}
