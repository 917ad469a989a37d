use vstd::prelude::*;
use vstd::string::*;

verus! {

/// A named tax rate. `percent` is a fraction of one in millionths
/// (`77_500` is 7.75%); it is not range-checked.
#[derive(Debug, Clone, PartialEq, Eq, Hash)]
pub struct Tax {
    pub id: i64,
    pub name: String,
    pub percent: i64,
}

impl Tax {
    pub fn new(id: i64, name: String, percent: i64) -> (r: Tax)
        ensures
            r.id == id,
            r.name@ == name@,
            r.percent == percent,
    {
        Tax { id, name, percent }
    }

    /// An equal tax with its own copy of the name.
    pub fn copy(&self) -> (r: Tax)
        ensures
            r == *self,
    {
        Tax { id: self.id, name: self.name.clone(), percent: self.percent }
    }
}

/// An equal list of taxes.
pub fn copy_taxes(taxes: &Vec<Tax>) -> (r: Vec<Tax>)
    ensures
        r@ == taxes@,
{
    let mut out: Vec<Tax> = Vec::new();
    let mut i: usize = 0;
    while i < taxes.len()
        invariant
            0 <= i <= taxes@.len(),
            out@ == taxes@.take(i as int),
        decreases taxes@.len() - i,
    {
        out.push(taxes[i].copy());
        i = i + 1;
        proof {
            assert(out@ =~= taxes@.take(i as int));
        }
    }
    proof {
        assert(taxes@.take(i as int) =~= taxes@);
    }
    out
}

/// The default rate is 7.75%.
impl Default for Tax {
    fn default() -> (r: Tax)
        ensures
            r.id == 1,
            r.name@ == "default"@,
            r.percent == 77_500,
    {
        Tax { id: 1, name: String::from_str("default"), percent: 77_500 }
    }
}

} // verus!
