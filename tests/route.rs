use september::configuration::Configuration;
use september::route::{
    from_path, is_plain_text_route, is_proxy_info_path, parse_request, redirect_target,
    delivery, next_fetch, request_path, route_mode, split_commas, target_of, Delivery, FetchAction,
    FetchStage, RouteMode,
};

#[test]
fn proxy_path_targets_capsule() {
    let mut c = Configuration::new();
    let url = from_path("/proxy/example.org/page", false, "gemini://fuwn.me", &mut c).unwrap();
    assert_eq!(url.as_str(), "gemini://example.org/page");
    assert!(c.is_proxy());
    assert!(!c.is_raw());
    assert!(!c.is_no_css());
    assert_eq!(route_mode("/proxy/example.org/page"), RouteMode::Proxy);
}

#[test]
fn nocss_path_targets_capsule_with_proxy() {
    let mut c = Configuration::new();
    let url = from_path("/nocss/example.org/page", false, "gemini://fuwn.me", &mut c).unwrap();
    assert_eq!(url.as_str(), "gemini://example.org/page");
    assert!(c.is_proxy());
    assert!(c.is_no_css());
    assert!(!c.is_raw());
    assert_eq!(route_mode("/nocss/example.org/page"), RouteMode::NoCss);
}

#[test]
fn raw_and_short_prefixes() {
    let mut c = Configuration::new();
    from_path("/raw/example.org/", false, "gemini://fuwn.me", &mut c).unwrap();
    assert!(c.is_proxy() && c.is_raw() && !c.is_no_css());
    let mut d = Configuration::new();
    let url = from_path("/x/example.org/a", false, "gemini://fuwn.me", &mut d).unwrap();
    assert_eq!(url.as_str(), "gemini://example.org/a");
    assert!(d.is_proxy() && !d.is_raw());
    assert_eq!(route_mode("/x/example.org/a"), RouteMode::ProxyShort);
}

#[test]
fn direct_path_uses_root() {
    let mut c = Configuration::new();
    let url = from_path("/uptime", false, "gemini://fuwn.me", &mut c).unwrap();
    assert_eq!(url.as_str(), "gemini://fuwn.me/uptime");
    assert_eq!(c, Configuration::new());
    assert_eq!(route_mode("/uptime"), RouteMode::Direct);
}

#[test]
fn fallback_appends_slash() {
    assert_eq!(target_of("/proxy/example.org/dir", true, "gemini://r"), "gemini://example.org/dir/");
    assert_eq!(target_of("/dir", true, "gemini://r"), "gemini://r/dir/");
}

#[test]
fn prefix_is_stripped_only_at_start() {
    assert_eq!(target_of("/proxy/a.org/proxy/b", false, "gemini://r"), "gemini://a.org/proxy/b");
}

#[test]
fn query_is_kept_in_target() {
    assert_eq!(target_of("/search?q=x", false, "gemini://r"), "gemini://r/search?q=x");
}

#[test]
fn unparsable_target_is_an_error() {
    let mut c = Configuration::new();
    assert!(from_path("/page", false, "not a url", &mut c).is_err());
}

#[test]
fn configuration_setters() {
    let mut c = Configuration::new();
    c.set_raw(true);
    assert!(c.is_raw() && !c.is_proxy());
    c.set_proxy(true);
    c.set_no_css(true);
    assert!(c.is_proxy() && c.is_no_css());
    c.set_raw(false);
    assert!(!c.is_raw());
}

#[test]
fn request_line_with_get() {
    assert_eq!(parse_request("GET /foo HTTP/0.9\r\n").unwrap(), "/foo");
    assert_eq!(parse_request("GET \r\n").unwrap_err(), "invalid HTTP/0.9 request: GET");
}

#[test]
fn request_line_bare_path() {
    assert_eq!(parse_request("  /bar\n").unwrap(), "/bar");
}

#[test]
fn request_line_refused() {
    assert_eq!(parse_request("HEAD / HTTP/1.0").unwrap_err(), "invalid HTTP/0.9 request: HEAD / HTTP/1.0");
}

#[test]
fn redirect_targets() {
    assert_eq!(redirect_target("/moved", "example.org"), "gemini://example.org/moved");
    assert_eq!(redirect_target("gemini://other.org/", "example.org"), "gemini://other.org/");
}

#[test]
fn proxy_info_paths() {
    assert!(is_proxy_info_path("/proxy"));
    assert!(is_proxy_info_path("/nocss/"));
    assert!(!is_proxy_info_path("/proxy/example.org"));
}

#[test]
fn plain_text_routes() {
    let routes = vec!["/raw-notes/*".to_string(), "/feed".to_string()];
    assert!(is_plain_text_route(&routes, "/feed/"));
    assert!(is_plain_text_route(&routes, "/raw-notes/a.txt"));
    assert!(!is_plain_text_route(&routes, "/other"));
}

#[test]
fn comma_lists() {
    assert_eq!(split_commas("a,b,,c"), vec!["a", "b", "", "c"]);
    assert_eq!(split_commas(""), vec![""]);
}

#[test]
fn fetch_follows_one_redirect() {
    assert_eq!(
        next_fetch(FetchStage::Primary, true, true, "/moved", "example.org"),
        FetchAction::FollowRedirect("gemini://example.org/moved".to_string())
    );
    assert_eq!(next_fetch(FetchStage::Redirected, true, true, "/again", "example.org"), FetchAction::Render);
}

#[test]
fn fetch_retries_empty_primary_once() {
    assert_eq!(next_fetch(FetchStage::Primary, false, true, "", "example.org"), FetchAction::RetryWithSlash);
    assert_eq!(next_fetch(FetchStage::Fallback, false, true, "", "example.org"), FetchAction::Render);
    assert_eq!(next_fetch(FetchStage::Primary, false, false, "text/gemini", "example.org"), FetchAction::Render);
}

#[test]
fn request_line_unicode_whitespace() {
    assert_eq!(parse_request("\u{2003}/a").unwrap(), "/a");
    assert_eq!(parse_request("GET /a\u{2003}b").unwrap(), "/a");
    assert_eq!(parse_request("GET\u{a0}\u{3000}").unwrap_err(), "invalid HTTP/0.9 request: GET");
}

#[test]
fn query_suffix() {
    assert_eq!(request_path("/search", "q=x", false), "/search?q=x");
    assert_eq!(request_path("/search", "", true), "/search?");
    assert_eq!(request_path("/search", "", false), "/search");
}

#[test]
fn delivery_kinds() {
    let plain = Configuration::new();
    let mut raw = Configuration::new();
    raw.set_proxy(true);
    raw.set_raw(true);
    let mut bare = Configuration::new();
    bare.set_proxy(true);
    bare.set_no_css(true);
    assert_eq!(delivery("image/png", true, &raw, true), Delivery::Image);
    assert_eq!(delivery("image/png", false, &plain, false), Delivery::Page);
    assert_eq!(delivery("text/gemini", true, &raw, true), Delivery::Raw);
    assert_eq!(delivery("text/gemini", true, &bare, true), Delivery::Unstyled);
    assert_eq!(delivery("text/gemini", true, &plain, true), Delivery::PlainText);
    assert_eq!(delivery("text/gemini", true, &plain, false), Delivery::Page);
}
