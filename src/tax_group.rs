use vstd::prelude::*;
use vstd::string::*;

use crate::tax::Tax;

verus! {

/// A named, ordered collection of taxes.
#[derive(Debug, Clone, PartialEq, Eq, Hash)]
pub struct TaxGroup {
    pub id: i64,
    pub name: String,
    pub taxes: Vec<Tax>,
}

/// The rate of the first tax at or after position `i` whose name is `name`.
pub open spec fn rate_from(taxes: Seq<Tax>, name: Seq<char>, i: int) -> Option<i64>
    decreases taxes.len() - i,
{
    if i < 0 || i >= taxes.len() {
        None
    } else if taxes[i].name@ == name {
        Some(taxes[i].percent)
    } else {
        rate_from(taxes, name, i + 1)
    }
}

/// The rate of the first tax in `taxes` named exactly `name`, if any.
pub open spec fn first_rate(taxes: Seq<Tax>, name: Seq<char>) -> Option<i64> {
    rate_from(taxes, name, 0)
}

/// The group a form gives a new entity: "Default", holding the default tax.
pub open spec fn is_default_group(g: TaxGroup) -> bool {
    &&& g.id == 1
    &&& g.name@ == "Default"@
    &&& g.taxes@.len() == 1
    &&& g.taxes@[0].id == 1
    &&& g.taxes@[0].name@ == "default"@
    &&& g.taxes@[0].percent == 77_500
}

impl TaxGroup {
    pub fn new(id: i64, name: String, taxes: Vec<Tax>) -> (r: TaxGroup)
        ensures
            r.id == id,
            r.name@ == name@,
            r.taxes@ == taxes@,
    {
        TaxGroup { id, name, taxes }
    }

    /// The rate of the first tax of this group named `name`, compared
    /// exactly and case-sensitively.
    pub open spec fn spec_tax_percent(&self, name: Seq<char>) -> Option<i64> {
        first_rate(self.taxes@, name)
    }

    /// Returns the rate of the first tax named exactly `tax_name`, or
    /// `None` when no tax of the group has that name.
    pub fn get_tax_percent(&self, tax_name: &str) -> (r: Option<i64>)
        ensures
            r == self.spec_tax_percent(tax_name@),
    {
        let wanted = String::from_str(tax_name);
        let mut i: usize = 0;
        while i < self.taxes.len()
            invariant
                0 <= i <= self.taxes.len(),
                wanted@ == tax_name@,
                rate_from(self.taxes@, tax_name@, 0) == rate_from(self.taxes@, tax_name@, i as int),
            decreases self.taxes.len() - i,
        {
            let tax = &self.taxes[i];
            if tax.name == wanted {
                return Some(tax.percent);
            }
            i = i + 1;
        }
        None
    }
}

impl Default for TaxGroup {
    fn default() -> (r: TaxGroup)
        ensures
            is_default_group(r),
    {
        let mut taxes: Vec<Tax> = Vec::new();
        taxes.push(Tax::default());
        TaxGroup { id: 1, name: String::from_str("Default"), taxes }
    }
}

/// The names of the taxes, separated by commas.
pub open spec fn names_joined(taxes: Seq<Tax>) -> Seq<char>
    decreases taxes.len(),
{
    if taxes.len() == 0 {
        Seq::empty()
    } else if taxes.len() == 1 {
        taxes[0].name@
    } else {
        names_joined(taxes.drop_last()) + seq![','] + taxes.last().name@
    }
}

/// The names of the taxes, separated by commas (`"City Tax,Sales Tax"`).
pub fn taxes_to_string(taxes: &Vec<Tax>) -> (r: String)
    ensures
        r@ == names_joined(taxes@),
{
    let mut out = String::new();
    let mut i: usize = 0;
    while i < taxes.len()
        invariant
            0 <= i <= taxes@.len(),
            out@ == names_joined(taxes@.take(i as int)),
        decreases taxes@.len() - i,
    {
        proof {
            assert(taxes@.take(i + 1).drop_last() =~= taxes@.take(i as int));
            reveal_strlit(",");
        }
        if i > 0 {
            out.append(",");
        }
        out.append(taxes[i].name.as_str());
        i = i + 1;
    }
    proof {
        assert(taxes@.take(i as int) =~= taxes@);
    }
    out
}

} // verus!
