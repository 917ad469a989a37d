//! The list of items, with rows that can be edited in place.
use std::collections::HashMap;

use vstd::prelude::*;

use crate::amount_laws::lemma_amount_text_round_trip;

use crate::calculations::{amount_text, amount_to_text};
use crate::amount::{amount_value, parse_amount};
use crate::items::{is_default_item, Item};
use crate::listing::{field_is, first_index, position_of, remove_with_id, without_id};

verus! {

broadcast use vstd::std_specs::hash::group_hash_axioms;

/// The items, and the rows being edited, by id.
pub struct ItemView {
    pub items: Vec<Item>,
    pub edit_states: HashMap<i64, ItemEditState>,
}

#[derive(Debug, Clone)]
pub enum Message {
    DeleteItem(i64),
    SaveItem(i64),
    NewItem(Item),
    ToggleEditMode(i64, bool),
    EditField(i64, String, String),
}

/// The text of a row being edited.
#[derive(Debug, Clone)]
pub struct ItemEditState {
    pub name: String,
    pub price: String,
    pub category: String,
    pub tax_overide: bool,
    pub is_editing: bool,
}

/// The edit state opened on `entity`.
pub open spec fn opened_on(es: ItemEditState, entity: Item) -> bool {
    &&& es.name@ == entity.name@
    &&& es.price@ == amount_text(entity.price as int)
    &&& es.category@ == entity.category@
    &&& es.tax_overide == entity.tax_overide
    &&& es.is_editing
}

/// `after` is `before` with the edits of `es` saved: the name, and the
/// price where its text reads as an amount; nothing else changes.
pub open spec fn saved(before: Item, after: Item, es: ItemEditState) -> bool {
    &&& after == (Item { name: after.name, price: after.price, ..before })
    &&& after.name@ == es.name@
    &&& after.price == match amount_value(es.price@) {
        Some(p) => p,
        None => before.price,
    }
}

/// `after` is `before` with `value` put in the field named `field`
/// (`name`, `price`, `category`); another field name changes nothing.
pub open spec fn edited(before: ItemEditState, after: ItemEditState, field: Seq<char>, value: Seq<char>) -> bool {
    if field == "name"@ {
        after == (ItemEditState { name: after.name, ..before }) && after.name@ == value
    } else if field == "price"@ {
        after == (ItemEditState { price: after.price, ..before }) && after.price@ == value
    } else if field == "category"@ {
        after == (ItemEditState { category: after.category, ..before }) && after.category@ == value
    } else {
        after == before
    }
}

/// Opening a row for editing and saving it with no edit keeps the
/// item: the name, the price and every other field come back as they were.
pub proof fn lemma_save_unedited(before: Item, after: Item, es: ItemEditState)
    requires
        opened_on(es, before),
        saved(before, after, es),
    ensures
        after == (Item { name: after.name, ..before }),
        after.name@ == before.name@,
        after.price == before.price,
{
    lemma_amount_text_round_trip(before.price);
}

impl ItemView {
    /// A list holding the default item.
    pub fn new() -> (r: ItemView)
        ensures
            r.items@.len() == 1,
            is_default_item(r.items@[0]),
            r.edit_states@ == Map::<i64, ItemEditState>::empty(),
    {
        let mut items: Vec<Item> = Vec::new();
        items.push(Item::default());
        ItemView { items, edit_states: HashMap::new() }
    }

    /// Applies a message to the list and returns the message to handle
    /// next, if any: saving a row is followed by closing it.
    pub fn update(state: &mut Self, message: Message) -> (r: Option<Message>)
        ensures
            match message {
                Message::DeleteItem(id) => {
                    &&& r is None
                    &&& final(state).items@ == without_id(old(state).items@, id)
                    &&& final(state).edit_states@ == old(state).edit_states@.remove(id)
                },
                Message::SaveItem(id) => {
                    &&& r == Some(Message::ToggleEditMode(id, false))
                    &&& final(state).edit_states@ == old(state).edit_states@
                    &&& match first_index(old(state).items@, id) {
                        Some(k) if old(state).edit_states@.contains_key(id) => {
                            &&& final(state).items@ == old(state).items@.update(k, final(state).items@[k])
                            &&& saved(old(state).items@[k], final(state).items@[k], old(state).edit_states@[id])
                        },
                        _ => final(state).items@ == old(state).items@,
                    }
                },
                Message::NewItem(entity) => {
                    &&& r is None
                    &&& final(state).items@ == old(state).items@.push(entity)
                    &&& final(state).edit_states@ == old(state).edit_states@
                },
                Message::ToggleEditMode(id, editing) => {
                    &&& r is None
                    &&& final(state).items@ == old(state).items@
                    &&& if !editing {
                        final(state).edit_states@ == old(state).edit_states@.remove(id)
                    } else {
                        match first_index(old(state).items@, id) {
                            Some(k) => {
                                &&& final(state).edit_states@ == old(state).edit_states@.insert(id, final(state).edit_states@[id])
                                &&& opened_on(final(state).edit_states@[id], old(state).items@[k])
                            },
                            None => final(state).edit_states@ == old(state).edit_states@,
                        }
                    }
                },
                Message::EditField(id, field, value) => {
                    &&& r is None
                    &&& final(state).items@ == old(state).items@
                    &&& if old(state).edit_states@.contains_key(id) {
                        &&& final(state).edit_states@ == old(state).edit_states@.insert(id, final(state).edit_states@[id])
                        &&& edited(old(state).edit_states@[id], final(state).edit_states@[id], field@, value@)
                    } else {
                        final(state).edit_states@ == old(state).edit_states@
                    }
                },
            },
    {
        match message {
            Message::DeleteItem(id) => {
                remove_with_id(&mut state.items, id);
                state.edit_states.remove(&id);
                None
            },
            Message::SaveItem(id) => {
                match position_of(&state.items, id) {
                    Some(k) => match state.edit_states.get(&id) {
                        Some(es) => {
                            let mut entity = state.items.remove(k);
                            entity.name = es.name.clone();
                            match parse_amount(es.price.as_str()) {
                                Some(p) => {
                                    entity.price = p;
                                },
                                None => {},
                            }
                            state.items.insert(k, entity);
                            proof {
                                assert(state.items@ =~= old(state).items@.update(k as int, state.items@[k as int]));
                            }
                        },
                        None => {},
                    },
                    None => {},
                }
                Some(Message::ToggleEditMode(id, false))
            },
            Message::NewItem(entity) => {
                state.items.push(entity);
                None
            },
            Message::ToggleEditMode(id, editing) => {
                if editing {
                    match position_of(&state.items, id) {
                        Some(k) => {
                            let entity = &state.items[k];
                            let es = ItemEditState {
                                name: entity.name.clone(),
                                price: amount_to_text(entity.price),
                                category: entity.category.clone(),
                                tax_overide: entity.tax_overide,
                                is_editing: true,
                            };
                            state.edit_states.insert(id, es);
                        },
                        None => {},
                    }
                } else {
                    state.edit_states.remove(&id);
                }
                None
            },
            Message::EditField(id, field, value) => {
                match state.edit_states.remove(&id) {
                    Some(es) => {
                        let mut es = es;
                        if field_is(&field, "name") {
                            es.name = value;
                        } else if field_is(&field, "price") {
                            es.price = value;
                        } else if field_is(&field, "category") {
                            es.category = value;
                        }
                        state.edit_states.insert(id, es);
                        proof {
                            assert(state.edit_states@ =~= old(state).edit_states@.insert(id, state.edit_states@[id]));
                        }
                    },
                    None => {},
                }
                None
            },
        }
    }
}

} // verus!
