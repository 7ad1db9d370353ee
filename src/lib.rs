//! A gateway library that turns documents of the Gemini protocol into HTML:
//! request-path classification, wildcard route matching, link resolution and
//! proxy rewriting, the rendering of parsed documents, and the page around them.
pub mod configuration;
pub mod environment;
pub mod link;
pub mod page;
pub mod pattern;
pub mod render;
pub mod route;
pub mod text;
