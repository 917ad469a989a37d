//! The list of taxes, with rows that can be edited in place.
use std::collections::HashMap;

use vstd::prelude::*;

use crate::amount_laws::lemma_amount_text_round_trip;

use crate::calculations::{amount_text, amount_to_text};
use crate::amount::{amount_value, parse_amount};
use crate::listing::{field_is, first_index, position_of, remove_with_id, without_id};
use crate::tax::Tax;

verus! {

broadcast use vstd::std_specs::hash::group_hash_axioms;

/// The taxes, and the rows being edited, by tax id.
pub struct TaxView {
    pub taxes: Vec<Tax>,
    pub edit_states: HashMap<i64, TaxEditState>,
}

#[derive(Debug, Clone)]
pub enum Message {
    DeleteTax(i64),
    SaveTax(i64),
    NewTax(Tax),
    ToggleEditMode(i64, bool),
    EditField(i64, String, String),
}

/// The text of a row being edited.
#[derive(Debug, Clone)]
pub struct TaxEditState {
    pub name: String,
    pub percent: String,
    pub is_editing: bool,
}

/// The edit state opened on `tax`: its name and the text of its rate.
pub open spec fn opened_on(es: TaxEditState, tax: Tax) -> bool {
    &&& es.name@ == tax.name@
    &&& es.percent@ == amount_text(tax.percent as int)
    &&& es.is_editing
}

/// `after` is `before` with the edits of `es` saved: the name, and the
/// rate where its text reads as an amount.
pub open spec fn saved(before: Tax, after: Tax, es: TaxEditState) -> bool {
    &&& after.id == before.id
    &&& after.name@ == es.name@
    &&& after.percent == match amount_value(es.percent@) {
        Some(p) => p,
        None => before.percent,
    }
}

/// `after` is `before` with `value` put in the field named `field`
/// (`name` or `percent`); another field name changes nothing.
pub open spec fn edited(before: TaxEditState, after: TaxEditState, field: Seq<char>, value: Seq<char>) -> bool {
    if field == "name"@ {
        after == (TaxEditState { name: after.name, ..before }) && after.name@ == value
    } else if field == "percent"@ {
        after == (TaxEditState { percent: after.percent, ..before }) && after.percent@ == value
    } else {
        after == before
    }
}

/// Opening a row for editing and saving it with no edit keeps the
/// tax: the name, the percent and every other field come back as they were.
pub proof fn lemma_save_unedited(before: Tax, after: Tax, es: TaxEditState)
    requires
        opened_on(es, before),
        saved(before, after, es),
    ensures
        after.id == before.id,
        after.name@ == before.name@,
        after.percent == before.percent,
{
    lemma_amount_text_round_trip(before.percent);
}

impl TaxView {
    /// An empty list.
    pub fn new() -> (r: TaxView)
        ensures
            r.taxes@.len() == 0,
            r.edit_states@ == Map::<i64, TaxEditState>::empty(),
    {
        TaxView { taxes: Vec::new(), edit_states: HashMap::new() }
    }

    /// Applies a message to the list and returns the message to handle
    /// next, if any: saving a row is followed by closing it.
    pub fn update(state: &mut Self, message: Message) -> (r: Option<Message>)
        ensures
            match message {
                Message::DeleteTax(id) => {
                    &&& r is None
                    &&& final(state).taxes@ == without_id(old(state).taxes@, id)
                    &&& final(state).edit_states@ == old(state).edit_states@.remove(id)
                },
                Message::SaveTax(id) => {
                    &&& r == Some(Message::ToggleEditMode(id, false))
                    &&& final(state).edit_states@ == old(state).edit_states@
                    &&& match first_index(old(state).taxes@, id) {
                        Some(k) if old(state).edit_states@.contains_key(id) => {
                            &&& final(state).taxes@ == old(state).taxes@.update(k, final(state).taxes@[k])
                            &&& saved(old(state).taxes@[k], final(state).taxes@[k], old(state).edit_states@[id])
                        },
                        _ => final(state).taxes@ == old(state).taxes@,
                    }
                },
                Message::NewTax(tax) => {
                    &&& r is None
                    &&& final(state).taxes@ == old(state).taxes@.push(tax)
                    &&& final(state).edit_states@ == old(state).edit_states@
                },
                Message::ToggleEditMode(id, editing) => {
                    &&& r is None
                    &&& final(state).taxes@ == old(state).taxes@
                    &&& if !editing {
                        final(state).edit_states@ == old(state).edit_states@.remove(id)
                    } else {
                        match first_index(old(state).taxes@, id) {
                            Some(k) => {
                                &&& final(state).edit_states@ == old(state).edit_states@.insert(id, final(state).edit_states@[id])
                                &&& opened_on(final(state).edit_states@[id], old(state).taxes@[k])
                            },
                            None => final(state).edit_states@ == old(state).edit_states@,
                        }
                    }
                },
                Message::EditField(id, field, value) => {
                    &&& r is None
                    &&& final(state).taxes@ == old(state).taxes@
                    &&& if old(state).edit_states@.contains_key(id) {
                        &&& final(state).edit_states@ == old(state).edit_states@.insert(id, final(state).edit_states@[id])
                        &&& edited(old(state).edit_states@[id], final(state).edit_states@[id], field@, value@)
                    } else {
                        final(state).edit_states@ == old(state).edit_states@
                    }
                },
            },
    {
        match message {
            Message::DeleteTax(id) => {
                remove_with_id(&mut state.taxes, id);
                state.edit_states.remove(&id);
                None
            },
            Message::SaveTax(id) => {
                match position_of(&state.taxes, id) {
                    Some(k) => match state.edit_states.get(&id) {
                        Some(es) => {
                            let mut tax = state.taxes.remove(k);
                            tax.name = es.name.clone();
                            match parse_amount(es.percent.as_str()) {
                                Some(p) => {
                                    tax.percent = p;
                                },
                                None => {},
                            }
                            state.taxes.insert(k, tax);
                            proof {
                                assert(state.taxes@ =~= old(state).taxes@.update(k as int, state.taxes@[k as int]));
                            }
                        },
                        None => {},
                    },
                    None => {},
                }
                Some(Message::ToggleEditMode(id, false))
            },
            Message::NewTax(tax) => {
                state.taxes.push(tax);
                None
            },
            Message::ToggleEditMode(id, editing) => {
                if editing {
                    match position_of(&state.taxes, id) {
                        Some(k) => {
                            let tax = &state.taxes[k];
                            let es = TaxEditState {
                                name: tax.name.clone(),
                                percent: amount_to_text(tax.percent),
                                is_editing: true,
                            };
                            state.edit_states.insert(id, es);
                        },
                        None => {},
                    }
                } else {
                    state.edit_states.remove(&id);
                }
                None
            },
            Message::EditField(id, field, value) => {
                match state.edit_states.remove(&id) {
                    Some(es) => {
                        let mut es = es;
                        if field_is(&field, "name") {
                            es.name = value;
                        } else if field_is(&field, "percent") {
                            es.percent = value;
                        }
                        state.edit_states.insert(id, es);
                        proof {
                            assert(state.edit_states@ =~= old(state).edit_states@.insert(id, state.edit_states@[id]));
                        }
                    },
                    None => {},
                }
                None
            },
        }
    }
}

} // verus!
