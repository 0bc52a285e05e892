//! Measurement caching: a child is measured again only when the
//! constraints differ from those of the last measurement.

use vstd::prelude::*;

use crate::render::layout::{Constraints, Size};

verus! {

/// A child with the size of its last measurement and the constraints it was
/// measured with.
pub struct CachedLayoutRenderable<R> {
    renderable: R,
    size: Option<Size>,
    last_constraints: Option<Constraints>,
}

impl<R> CachedLayoutRenderable<R> {
    /// The wrapped child.
    pub closed spec fn inner(&self) -> R {
        self.renderable
    }

    /// The cached size.
    pub closed spec fn cached_size(&self) -> Option<Size> {
        self.size
    }

    /// The constraints of the cached size.
    pub closed spec fn cached_constraints(&self) -> Option<Constraints> {
        self.last_constraints
    }

    /// Wrap a child with an empty cache.
    pub fn new(renderable: R) -> (r: Self)
        ensures
            r.inner() == renderable,
            r.cached_size() is None,
            r.cached_constraints() is None,
    {
        CachedLayoutRenderable { renderable, size: None, last_constraints: None }
    }

    /// The wrapped child.
    pub fn renderable(&self) -> (r: &R)
        ensures
            *r == self.inner(),
    {
        &self.renderable
    }

    /// The child's size within `constraints`: the cached size when the
    /// constraints equal the last ones, otherwise a fresh measurement, which
    /// is cached with the constraints.
    pub fn measure<F>(&mut self, constraints: Constraints, measure: &F) -> (s: Size) where
        F: Fn(&R, Constraints) -> Size,
        requires
            forall|r: &R, c: Constraints| measure.requires((r, c)),
        ensures
            final(self).inner() == old(self).inner(),
            old(self).cached_constraints() == Some(constraints) ==> {
                &&& s == (match old(self).cached_size() {
                    Some(z) => z,
                    None => Size { width: 0, height: 0 },
                })
                &&& final(self).cached_size() == old(self).cached_size()
                &&& final(self).cached_constraints() == old(self).cached_constraints()
            },
            old(self).cached_constraints() != Some(constraints) ==> {
                &&& measure.ensures((&old(self).inner(), constraints), s)
                &&& final(self).cached_size() == Some(s)
                &&& final(self).cached_constraints() == Some(constraints)
            },
    {
        let same = match self.last_constraints {
            Some(last) => last == constraints,
            None => false,
        };
        if !same {
            let size = measure(&self.renderable, constraints);
            self.size = Some(size);
            self.last_constraints = Some(constraints);
        }
        match self.size {
            Some(size) => size,
            None => Size::zero(),
        }
    }
}

} // verus!
