use vstd::prelude::*;

verus! {

/// A configuration reader over a byte source; the source is read and its
/// text decoded where I/O and YAML are at hand.
pub struct Parser<R> {
    src: R,
}

impl<R> Parser<R> {
    pub closed spec fn spec_source(&self) -> R {
        self.src
    }

    pub fn new(src: R) -> (r: Parser<R>)
        ensures
            r.spec_source() == src,
    {
        Parser { src }
    }

    /// The source, to be read.
    pub fn source(&mut self) -> (r: &mut R)
        ensures
            *r == old(self).spec_source(),
            final(self).spec_source() == *final(r),
    {
        &mut self.src
    }
}

} // verus!
