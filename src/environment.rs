//! The process-wide settings, read once at startup and passed to every call.
use vstd::prelude::*;

verus! {

/// Settings of the gateway. Lists are given one entry per item.
pub struct Environment {
    /// The capsule that paths outside the proxy prefixes are served from.
    pub root: String,
    pub css_external: Option<String>,
    pub primary_colour: Option<String>,
    pub favicon_external: Option<String>,
    pub mathjax: bool,
    pub head: Option<String>,
    pub header: Option<String>,
    /// Route patterns whose responses are passed through as plain text.
    pub plain_text_route: Option<String>,
    /// Document paths whose links are all condensed; `*` stands for every path.
    pub condense_links: Vec<String>,
    /// Heading lines (as Gemini text, such as `## Links`) after which links
    /// are condensed again.
    pub condense_links_at_headings: Vec<String>,
    /// Whether links to capsules are rewritten to pass through the gateway.
    pub proxy_by_default: bool,
    /// Capsule URLs whose links are kept as Gemini URLs instead of being served.
    pub keep_gemini_exact: Vec<String>,
    /// Capsule hosts whose links are all kept as Gemini URLs.
    pub keep_gemini_domain: Vec<String>,
    /// Image embedding: absent for none, `1` for a link and the image, any
    /// other value for the image alone.
    pub embed_images: Option<String>,
    pub http09: bool,
    pub http09_port: u16,
}

} // verus!
