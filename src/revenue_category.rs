use vstd::prelude::*;

verus! {

/// A named category that sales are reported under.
#[derive(Debug, Clone, PartialEq, Eq)]
pub struct RevenueCategory {
    name: String,
}

impl RevenueCategory {
    /// The category's name.
    pub closed spec fn spec_name(&self) -> Seq<char> {
        self.name@
    }

    pub fn new(name: String) -> (r: RevenueCategory)
        ensures
            r.spec_name() == name@,
    {
        RevenueCategory { name }
    }

    /// The category's name.
    pub fn name(&self) -> (r: &String)
        ensures
            r@ == self.spec_name(),
    {
        &self.name
    }
}

} // verus!
