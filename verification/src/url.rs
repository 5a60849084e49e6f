//! Buttons that open a web link.
use vstd::prelude::*;

verus! {

/// A button that opens `url`.
#[derive(Debug, Clone)]
pub struct UrlButton {
    pub url: String,
}

impl UrlButton {
    /// A button opening `url`.
    pub fn new(url: String) -> (b: Self)
        ensures
            b.url == url,
    {
        Self { url }
    }
}

} // verus!
