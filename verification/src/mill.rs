use vstd::prelude::*;

verus! {

/// Three board indices that lie on one straight line.
#[derive(Clone, Copy, Debug, PartialEq, Eq, Hash, Structural)]
pub struct Mill {
    pub first: usize,
    pub second: usize,
    pub third: usize,
}

impl Mill {
    /// Whether `id` is one of the three indices.
    pub open spec fn spec_contains(self, id: usize) -> bool {
        self.first == id || self.second == id || self.third == id
    }

    /// Whether `id` is one of the three indices of this mill.
    pub fn contains(&self, id: usize) -> (found: bool)
        ensures
            found == self.spec_contains(id),
    {
        self.first == id || self.second == id || self.third == id
    }
}

} // verus!
