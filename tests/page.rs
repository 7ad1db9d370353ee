use september::environment::Environment;
use september::page::{page_content, page_head, page_opening};

fn settings() -> Environment {
    Environment {
        root: "gemini://fuwn.me".to_string(),
        css_external: None,
        primary_colour: None,
        favicon_external: None,
        mathjax: false,
        head: None,
        header: Some("Hi".to_string()),
        plain_text_route: None,
        condense_links: vec![],
        condense_links_at_headings: vec![],
        proxy_by_default: true,
        keep_gemini_exact: vec![],
        keep_gemini_domain: vec![],
        embed_images: None,
        http09: false,
        http09_port: 90,
    }
}

const START: &str = "<!DOCTYPE html><html><head><meta name=\"viewport\" content=\"width=device-width, initial-scale=1.0\">";

#[test]
fn opening_with_language() {
    assert_eq!(
        page_opening("en"),
        "<!DOCTYPE html><html lang=\"en\"><head><meta name=\"viewport\" content=\"width=device-width, initial-scale=1.0\">"
    );
    assert_eq!(page_opening(""), START);
}

#[test]
fn head_with_default_style_and_header() {
    let head = page_head(&settings(), "", "T", "/page");
    assert_eq!(
        head,
        format!(
            "{START}<link rel=\"stylesheet\" href=\"https://latex.vercel.app/style.css\">\
             <style>:root {{ --primary: var(--base0D); }}</style><title>T</title></head><body>\
             <big><blockquote>Hi</blockquote></big>"
        )
    );
}

#[test]
fn head_with_external_styles_without_header_on_proxy() {
    let mut e = settings();
    e.css_external = Some("a.css,,b.css".to_string());
    e.favicon_external = Some("f.ico".to_string());
    e.head = Some("<meta x>".to_string());
    let head = page_head(&e, "", "T", "/proxy/x.org");
    assert_eq!(
        head,
        format!(
            "{START}<link rel=\"stylesheet\" type=\"text/css\" href=\"a.css\">\
             <link rel=\"stylesheet\" type=\"text/css\" href=\"b.css\">\
             <link rel=\"icon\" type=\"image/x-icon\" href=\"f.ico\"><meta x><title>T</title></head><body>"
        )
    );
}

#[test]
fn content_sections() {
    assert_eq!(page_content(true, None, "", "", "<p>b</p>"), "<p>b</p>");
    assert_eq!(
        page_content(true, Some(true), "gemini://x.org/", "", "B"),
        "<blockquote>This page permanently redirects to <a href=\"gemini://x.org/\">gemini://x.org/</a>.</blockquote>B"
    );
    assert_eq!(page_content(false, None, "", "Not found", "B"), "<p>Not found</p>");
}
