use vstd::prelude::*;
use vstd::string::*;

use crate::tax_group::{is_default_group, TaxGroup};

verus! {

/// A percentage charge added to a receipt as a gratuity. `percent` is a
/// fraction of one in millionths, applied to the receipt's running total.
/// The tax group and `tax_overide` are kept with it but do not enter the
/// receipt's totals.
#[derive(Debug, Clone, PartialEq, Eq, Hash)]
pub struct Gratuity {
    pub id: i64,
    pub name: String,
    pub percent: i64,
    pub tax_group: TaxGroup,
    pub tax_overide: bool,
}

/// The gratuity a new list starts with.
pub open spec fn is_default_gratuity(value: Gratuity) -> bool {
    &&& value.id == 1
    &&& value.name@ == "Banquet"@
    &&& value.percent == 155_000
    &&& is_default_group(value.tax_group)
    &&& !value.tax_overide
}

impl Gratuity {
    pub fn new(id: i64, name: String, percent: i64, tax_group: TaxGroup, tax_overide: bool) -> (r: Gratuity)
        ensures
            r.id == id,
            r.name@ == name@,
            r.percent == percent,
            r.tax_group == tax_group,
            r.tax_overide == tax_overide,
    {
        Gratuity { id, name, percent, tax_group, tax_overide }
    }
}

/// The default rate is 15.5%.
impl Default for Gratuity {
    fn default() -> (r: Gratuity)
        ensures
            is_default_gratuity(r),
    {
        Gratuity {
            id: 1,
            name: String::from_str("Banquet"),
            percent: 155_000,
            tax_group: TaxGroup::default(),
            tax_overide: false,
        }
    }
}

} // verus!
