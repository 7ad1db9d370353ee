//! The serving flags that a request path selects.
use vstd::prelude::*;

verus! {

/// How a request is to be served: through the proxy, as raw text, or without
/// the stylesheet. Raw and stylesheet-free serving always come with proxying.
#[derive(Clone, Copy, Debug, PartialEq, Eq, Structural)]
pub struct Configuration {
    pub is_proxy: bool,
    pub is_raw: bool,
    pub is_no_css: bool,
}

impl Configuration {
    /// A configuration with every flag off: direct serving.
    pub fn new() -> (r: Self)
        ensures
            !r.is_proxy,
            !r.is_raw,
            !r.is_no_css,
    {
        Self { is_proxy: false, is_raw: false, is_no_css: false }
    }

    pub fn is_proxy(&self) -> (r: bool)
        ensures
            r == self.is_proxy,
    {
        self.is_proxy
    }

    pub fn is_raw(&self) -> (r: bool)
        ensures
            r == self.is_raw,
    {
        self.is_raw
    }

    pub fn is_no_css(&self) -> (r: bool)
        ensures
            r == self.is_no_css,
    {
        self.is_no_css
    }

    pub fn set_proxy(&mut self, is_proxy: bool)
        ensures
            *final(self) == (Configuration { is_proxy, ..*old(self) }),
    {
        self.is_proxy = is_proxy;
    }

    pub fn set_raw(&mut self, is_raw: bool)
        ensures
            *final(self) == (Configuration { is_raw, ..*old(self) }),
    {
        self.is_raw = is_raw;
    }

    pub fn set_no_css(&mut self, is_no_css: bool)
        ensures
            *final(self) == (Configuration { is_no_css, ..*old(self) }),
    {
        self.is_no_css = is_no_css;
    }
}

} // verus!
