use vstd::prelude::*;
use vstd::string::*;

use crate::tax_group::{is_default_group, TaxGroup};

verus! {

/// A priced unit of sale. `price` is in millionths of a currency unit.
/// With `tax_overide` set, the item's tax group is not applied.
#[derive(Debug, Clone, PartialEq, Eq, Hash)]
pub struct Item {
    pub id: i64,
    pub name: String,
    pub category: String,
    pub price: i64,
    pub tax_group: TaxGroup,
    pub tax_overide: bool,
}

/// The item a new list starts with.
pub open spec fn is_default_item(value: Item) -> bool {
    &&& value.id == 1
    &&& value.name@ == "Rusty Crab"@
    &&& value.category@ == "Food"@
    &&& value.price == 19_990_000
    &&& is_default_group(value.tax_group)
    &&& !value.tax_overide
}

impl Item {
    /// Builds an item. The category cannot be chosen yet: every new item
    /// is put in the category `"Default"`.
    pub fn new(
        id: i64,
        name: String,
        _category: String,
        price: i64,
        tax_group: TaxGroup,
        tax_overide: bool,
    ) -> (r: Item)
        ensures
            r.id == id,
            r.name@ == name@,
            r.category@ == "Default"@,
            r.price == price,
            r.tax_group == tax_group,
            r.tax_overide == tax_overide,
    {
        Item { id, name, category: String::from_str("Default"), price, tax_group, tax_overide }
    }
}

impl Default for Item {
    fn default() -> (r: Item)
        ensures
            is_default_item(r),
    {
        Item {
            id: 1,
            name: String::from_str("Rusty Crab"),
            category: String::from_str("Food"),
            price: 19_990_000,
            tax_group: TaxGroup::default(),
            tax_overide: false,
        }
    }
}

} // verus!
