use vstd::prelude::*;

verus! {

/// Configuration of one traversal: an optional depth limit and whether
/// hidden entries are listed. Built once, then copied into every level.
#[derive(Clone, Copy, Debug)]
pub struct Options {
    pub depth: Option<usize>,
    pub show_hidden: bool,
}

/// The default configuration: no depth limit, hidden entries left out.
pub open spec fn default_options() -> Options {
    Options { depth: None, show_hidden: false }
}

/// Builds an `Options` value one setting at a time.
pub struct OptionsBuilder {
    inner: Options,
}

impl View for OptionsBuilder {
    type V = Options;

    closed spec fn view(&self) -> Options {
        self.inner
    }
}

impl OptionsBuilder {
    pub fn new() -> (r: Self)
        ensures
            r@ == default_options(),
    {
        OptionsBuilder { inner: Options { depth: None, show_hidden: false } }
    }

    pub fn build(self) -> (r: Options)
        ensures
            r == self@,
    {
        self.inner
    }

    pub fn with_depth(&mut self, depth: usize)
        ensures
            final(self)@ == (Options { depth: Some(depth), ..old(self)@ }),
    {
        self.inner.depth = Some(depth);
    }

    pub fn show_hidden(&mut self)
        ensures
            final(self)@ == (Options { show_hidden: true, ..old(self)@ }),
    {
        self.inner.show_hidden = true;
    }
}

impl Default for OptionsBuilder {
    fn default() -> (r: Self)
        ensures
            r@ == default_options(),
    {
        Self::new()
    }
}

} // verus!
