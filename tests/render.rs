use september::configuration::Configuration;
use september::environment::Environment;
use september::link::Location;
use september::render::{from_gemini, from_gemtext, image_embedding, render_resolved, strip_paragraph, ImageEmbedding, Node};

fn settings() -> Environment {
    Environment {
        root: "gemini://fuwn.me".to_string(),
        css_external: None,
        primary_colour: None,
        favicon_external: None,
        mathjax: true,
        head: None,
        header: None,
        plain_text_route: None,
        condense_links: vec![],
        condense_links_at_headings: vec![],
        proxy_by_default: true,
        keep_gemini_exact: vec![],
        keep_gemini_domain: vec![],
        embed_images: None,
        http09: false,
        http09_port: 90,
    }
}

fn base() -> Location {
    Location::new(&url::Url::parse("gemini://example.org/a/").unwrap())
}

fn link(to: &str, text: Option<&str>) -> Node {
    Node::Link { to: to.to_string(), text: text.map(|t| t.to_string()) }
}

fn heading(level: usize, text: &str) -> Node {
    Node::Heading { level, text: text.to_string() }
}

const SEP: &str = " <span class=\"gemini-fragment\">|</span> ";
const ARROW: &str = "<span class=\"gemini-fragment\">=&#62; </span>";

#[test]
fn first_level_one_heading_is_title() {
    let doc = vec![heading(2, "Intro"), heading(1, "Hello"), heading(1, "Later")];
    let (title, body) = from_gemini(&doc, &base(), &settings(), &Configuration::new()).unwrap();
    assert_eq!(title, "Hello");
    assert_eq!(body, "<h2>Intro</h2><h1>Hello</h1><h1>Later</h1>");
}

#[test]
fn no_heading_no_title() {
    let doc = vec![Node::Text("plain".to_string())];
    let (title, body) = from_gemini(&doc, &base(), &settings(), &Configuration::new()).unwrap();
    assert_eq!(title, "");
    assert_eq!(body, "<p>plain</p>");
}

#[test]
fn condense_all_pair_shares_paragraph() {
    let mut e = settings();
    e.condense_links = vec!["*".to_string()];
    let doc = vec![link("/one", Some("One")), link("/two", Some("Two"))];
    let (_, body) = from_gemini(&doc, &base(), &e, &Configuration::new()).unwrap();
    assert_eq!(body, format!("<p><a href=\"/one\">One</a>{SEP}<a href=\"/two\">Two</a></p>"));
    assert_eq!(body.matches("<p>").count(), 1);
}

#[test]
fn condense_by_document_path() {
    let mut e = settings();
    e.condense_links = vec!["/a/".to_string()];
    let doc = vec![link("/one", None), link("/two", None)];
    let (_, body) = from_gemini(&doc, &base(), &e, &Configuration::new()).unwrap();
    assert_eq!(body, format!("<p><a href=\"/one\">/one</a>{SEP}<a href=\"/two\">/two</a></p>"));
}

#[test]
fn trap_condenses_until_other_heading() {
    let doc = vec![
        link("/one", Some("One")),
        link("/two", Some("Two")),
        heading(2, "Other"),
        link("/three", Some("Three")),
        link("/four", Some("Four")),
    ];
    let (_, body) = from_gemini(&doc, &base(), &settings(), &Configuration::new()).unwrap();
    assert_eq!(
        body,
        format!(
            "<p>{ARROW}<a href=\"/one\">One</a>{SEP}<a href=\"/two\">Two</a></p><h2>Other</h2>\
             <p>{ARROW}<a href=\"/three\">Three</a></p><p>{ARROW}<a href=\"/four\">Four</a></p>"
        )
    );
}

#[test]
fn trigger_heading_reactivates_trap() {
    let mut e = settings();
    e.condense_links_at_headings = vec!["## Links".to_string()];
    let doc = vec![heading(2, "Other"), heading(2, "Links"), link("/a", Some("A")), link("/b", Some("B"))];
    let (_, body) = from_gemini(&doc, &base(), &e, &Configuration::new()).unwrap();
    assert_eq!(
        body,
        format!("<h2>Other</h2><h2>Links</h2><p>{ARROW}<a href=\"/a\">A</a>{SEP}<a href=\"/b\">B</a></p>")
    );
}

#[test]
fn block_nodes() {
    let doc = vec![
        heading(4, "Deep"),
        Node::List(vec!["one".to_string(), "two".to_string()]),
        Node::Blockquote("quoted".to_string()),
        Node::PreformattedText { alt_text: None, text: "code\n".to_string() },
        Node::Whitespace,
    ];
    let (_, body) = from_gemini(&doc, &base(), &settings(), &Configuration::new()).unwrap();
    assert_eq!(body, "<p>Deep</p><ul><li>one</li>\n<li>two</li></ul><blockquote>quoted</blockquote><pre>code</pre>");
}

#[test]
fn markdown_is_rendered_inline() {
    let doc = vec![Node::Text("*em* & <b>".to_string())];
    let (_, body) = from_gemini(&doc, &base(), &settings(), &Configuration::new()).unwrap();
    assert!(body.starts_with("<p><em>em</em> &amp; "));
    assert!(!body.contains("<b>"));
}

#[test]
fn paragraph_tags_are_stripped() {
    assert_eq!(strip_paragraph("<p>Hi <em>there</em></p>\n"), "Hi <em>there</em>");
    assert_eq!(strip_paragraph("<p>a</p>\n<p>b</p>"), "a\nb");
}

#[test]
fn embedded_image_with_link() {
    let mut e = settings();
    e.embed_images = Some("1".to_string());
    assert_eq!(image_embedding(&e), ImageEmbedding::LinkAndImage);
    let doc = vec![link("/pic.png", Some("Pic"))];
    let (_, body) = from_gemini(&doc, &base(), &e, &Configuration::new()).unwrap();
    assert_eq!(
        body,
        "<p><a href=\"/pic.png\">Pic</a> <i>Embedded below</i></p>\n<p><img src=\"/pic.png\" alt=\"Pic\" /></p>\n"
    );
}

#[test]
fn embedded_image_alone() {
    let mut e = settings();
    e.embed_images = Some("yes".to_string());
    assert_eq!(image_embedding(&e), ImageEmbedding::ImageOnly);
    let doc = vec![link("/pic.jpeg", None), link("/.png", None)];
    let (_, body) = from_gemini(&doc, &base(), &e, &Configuration::new()).unwrap();
    assert_eq!(
        body,
        format!("<p><img src=\"/pic.jpeg\" alt=\"/pic.jpeg\" /></p>\n<p>{ARROW}<a href=\"/.png\">/.png</a></p>")
    );
}

#[test]
fn no_host_no_render() {
    let b = Location { text: "gemini:/x".to_string(), host: None, path: "/x".to_string() };
    assert!(from_gemini(&vec![link("/y", None)], &b, &settings(), &Configuration::new()).is_none());
    assert!(from_gemini(&vec![Node::Text("t".to_string())], &b, &settings(), &Configuration::new()).is_some());
}

#[test]
fn resolved_hrefs_are_used() {
    let doc = vec![Node::Text("x".to_string()), link("ignored", Some("L"))];
    let hrefs = vec![String::new(), "/given".to_string()];
    let (_, body) = render_resolved(&doc, &hrefs, &settings(), true);
    assert_eq!(body, "<p>x</p><p><a href=\"/given\">L</a></p>");
}

#[test]
fn gemtext_is_parsed_and_rendered() {
    let (title, body) =
        from_gemtext("# Hello\n=> /b Bee\n", &base(), &settings(), &Configuration::new()).unwrap();
    assert_eq!(title, "Hello");
    assert!(body.starts_with("<h1>Hello</h1>"));
    assert!(body.contains(&format!("<p>{ARROW}<a href=\"/b\">Bee</a></p>")));
}

#[test]
fn surface_link_rendered_unchanged_in_every_mode() {
    let doc = vec![link("https://example.com", None)];
    let mut e = settings();
    e.keep_gemini_domain = vec!["example.org".to_string()];
    e.embed_images = Some("1".to_string());
    for (proxy, no_css, by_default) in [(false, false, true), (true, false, true), (true, true, false)] {
        let mut c = Configuration::new();
        c.set_proxy(proxy);
        c.set_no_css(no_css);
        e.proxy_by_default = by_default;
        let (_, body) = from_gemini(&doc, &base(), &e, &c).unwrap();
        assert!(body.contains("href=\"https://example.com\""));
        assert!(!body.contains("href=\"/proxy/") && !body.contains("href=\"/nocss/") && !body.contains("href=\"gemini://"));
    }
}

#[test]
fn labels_trimmed_of_unicode_space() {
    let doc = vec![link("/x", Some("\u{3000}Label\u{a0}"))];
    let (_, body) = from_gemini(&doc, &base(), &settings(), &Configuration::new()).unwrap();
    assert!(body.contains("<a href=\"/x\">Label</a>"));
}
