//! The form that creates an item.
use vstd::prelude::*;

use crate::calculations::{convert_to_i64, integer_or_zero};
use crate::amount::{amount_or_zero, parse_amount};
use crate::items::Item;
use crate::tax_group::{is_default_group, TaxGroup};
use crate::validator::{self, applied, Input, Numeric};

verus! {

/// What is typed into the item form.
#[derive(Debug, Clone)]
pub struct AddItemForm {
    pub item_id: Input,
    pub item_name: String,
    pub category: String,
    pub price: Input,
    pub tax_group: String,
    pub tax_overide: bool,
}

#[derive(Debug, Clone)]
pub enum Message {
    Submit,
    ItemIdChanged(validator::Message),
    ItemNameChanged(String),
    CategoryChanged(String),
    PriceChanged(validator::Message),
    TaxGroupChanged(String),
    TaxOverideChanged(bool),
}

/// What the form asks of the item list.
pub enum Action {
    AddNewItem(Item),
}

/// The item a submitted form creates: its id and price read from the
/// fields (zero where their text is invalid), in the default tax group.
pub open spec fn submitted_item(form: AddItemForm, item: Item) -> bool {
    &&& item.id == integer_or_zero(form.item_id.value@)
    &&& item.name@ == form.item_name@
    &&& item.category@ == "Default"@
    &&& item.price == amount_or_zero(form.price.value@)
    &&& is_default_group(item.tax_group)
    &&& item.tax_overide == form.tax_overide
}

impl AddItemForm {
    /// An empty form.
    pub fn new() -> (r: AddItemForm)
        ensures
            r.item_id.value@ == Seq::<char>::empty() && r.item_id.is_valid,
            r.item_id.placeholder@ == Seq::<char>::empty(),
            r.item_name@ == Seq::<char>::empty(),
            r.category@ == Seq::<char>::empty(),
            r.price.value@ == Seq::<char>::empty() && r.price.is_valid,
            r.price.placeholder@ == Seq::<char>::empty(),
            r.tax_group@ == Seq::<char>::empty(),
            !r.tax_overide,
    {
        AddItemForm {
            item_id: Input::default(),
            item_name: String::new(),
            category: String::new(),
            price: Input::default(),
            tax_group: String::new(),
            tax_overide: false,
        }
    }

    /// Applies a message to the form. Submitting leaves the form as it is
    /// and asks for the item it describes; every other message edits one
    /// field and asks for nothing.
    pub fn update(state: &mut Self, message: Message) -> (r: Option<Action>)
        ensures
            match message {
                Message::Submit => *final(state) == *old(state) && match r {
                    Some(Action::AddNewItem(item)) => submitted_item(*old(state), item),
                    None => false,
                },
                Message::ItemIdChanged(m) => r is None && *final(state) == (AddItemForm {
                    item_id: final(state).item_id,
                    ..*old(state)
                }) && applied(old(state).item_id, final(state).item_id, m, Numeric::Integer, true),
                Message::ItemNameChanged(name) => r is None && *final(state) == (AddItemForm {
                    item_name: name,
                    ..*old(state)
                }),
                Message::CategoryChanged(category) => r is None && *final(state) == (AddItemForm {
                    category,
                    ..*old(state)
                }),
                Message::PriceChanged(m) => r is None && *final(state) == (AddItemForm {
                    price: final(state).price,
                    ..*old(state)
                }) && applied(old(state).price, final(state).price, m, Numeric::Amount, true),
                Message::TaxGroupChanged(group) => r is None && *final(state) == (AddItemForm {
                    tax_group: group,
                    ..*old(state)
                }),
                Message::TaxOverideChanged(flag) => r is None && *final(state) == (AddItemForm {
                    tax_overide: flag,
                    ..*old(state)
                }),
            },
    {
        match message {
            Message::Submit => {
                let item_id = convert_to_i64(state.item_id.value.as_str());
                let price = match parse_amount(state.price.value.as_str()) {
                    Some(p) => p,
                    None => 0,
                };
                let tax_group = TaxGroup::default();
                let new_item = Item::new(
                    item_id,
                    state.item_name.clone(),
                    state.category.clone(),
                    price,
                    tax_group,
                    state.tax_overide,
                );
                Some(Action::AddNewItem(new_item))
            },
            Message::ItemIdChanged(m) => {
                state.item_id.apply(m, Numeric::Integer, true);
                None
            },
            Message::ItemNameChanged(name) => {
                state.item_name = name;
                None
            },
            Message::CategoryChanged(category) => {
                state.category = category;
                None
            },
            Message::PriceChanged(m) => {
                state.price.apply(m, Numeric::Amount, true);
                None
            },
            Message::TaxGroupChanged(group) => {
                state.tax_group = group;
                None
            },
            Message::TaxOverideChanged(flag) => {
                state.tax_overide = flag;
                None
            },
        }
    }
}

} // verus!
