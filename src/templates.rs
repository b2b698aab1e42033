//! Pages rendered for the dashboard.

use vstd::prelude::*;

verus! {

/// The HTML of one rendered page.
#[derive(Debug)]
pub struct RenderedTemplate {
    inner: String,
}

impl View for RenderedTemplate {
    type V = Seq<char>;

    closed spec fn view(&self) -> Seq<char> {
        self.inner@
    }
}

impl RenderedTemplate {
    pub fn new(inner: String) -> (r: RenderedTemplate)
        ensures
            r@ == inner@,
    {
        RenderedTemplate { inner }
    }

    pub fn as_str(&self) -> (r: &str)
        ensures
            r@ == self@,
    {
        self.inner.as_str()
    }

    pub fn into_inner(self) -> (r: String)
        ensures
            r@ == self@,
    {
        self.inner
    }
}

} // verus!
