//! The list of tax groups, with rows that can be edited in place.
use std::collections::HashMap;

use vstd::prelude::*;

use crate::listing::{field_is, first_index, position_of, remove_with_id, without_id};
use crate::tax::{copy_taxes, Tax};
use crate::tax_group::{is_default_group, TaxGroup};

verus! {

broadcast use vstd::std_specs::hash::group_hash_axioms;

/// The tax groups, and the rows being edited, by id.
pub struct TaxGroupView {
    pub tax_groups: Vec<TaxGroup>,
    pub edit_states: HashMap<i64, TaxGroupEditState>,
}

#[derive(Debug, Clone)]
pub enum Message {
    DeleteTaxGroup(i64),
    SaveTaxGroup(i64),
    NewTaxGroup(TaxGroup),
    ToggleEditMode(i64, bool),
    EditField(i64, String, String),
    EditTaxes(i64, Vec<Tax>),
    TaxPressed(i64),
}

/// The content of a row being edited.
#[derive(Debug, Clone)]
pub struct TaxGroupEditState {
    pub name: String,
    pub taxes: Vec<Tax>,
    pub is_editing: bool,
}

impl TaxGroupView {
    /// A list holding the default tax group.
    pub fn new() -> (r: TaxGroupView)
        ensures
            r.tax_groups@.len() == 1,
            is_default_group(r.tax_groups@[0]),
            r.edit_states@ == Map::<i64, TaxGroupEditState>::empty(),
    {
        let mut tax_groups: Vec<TaxGroup> = Vec::new();
        tax_groups.push(TaxGroup::default());
        TaxGroupView { tax_groups, edit_states: HashMap::new() }
    }

    /// Applies a message to the list and returns the message to handle
    /// next, if any: saving a row is followed by closing it. Only the name
    /// is edited as text; the taxes are replaced as a whole.
    pub fn update(state: &mut Self, message: Message) -> (r: Option<Message>)
        ensures
            match message {
                Message::DeleteTaxGroup(id) => {
                    &&& r is None
                    &&& final(state).tax_groups@ == without_id(old(state).tax_groups@, id)
                    &&& final(state).edit_states@ == old(state).edit_states@.remove(id)
                },
                Message::SaveTaxGroup(id) => {
                    &&& r == Some(Message::ToggleEditMode(id, false))
                    &&& final(state).edit_states@ == old(state).edit_states@
                    &&& match first_index(old(state).tax_groups@, id) {
                        Some(k) if old(state).edit_states@.contains_key(id) => {
                            &&& final(state).tax_groups@ == old(state).tax_groups@.update(k, final(state).tax_groups@[k])
                            &&& final(state).tax_groups@[k].id == old(state).tax_groups@[k].id
                            &&& final(state).tax_groups@[k].name@ == old(state).edit_states@[id].name@
                            &&& final(state).tax_groups@[k].taxes@ == old(state).edit_states@[id].taxes@
                        },
                        _ => final(state).tax_groups@ == old(state).tax_groups@,
                    }
                },
                Message::NewTaxGroup(group) => {
                    &&& r is None
                    &&& final(state).tax_groups@ == old(state).tax_groups@.push(group)
                    &&& final(state).edit_states@ == old(state).edit_states@
                },
                Message::ToggleEditMode(id, editing) => {
                    &&& r is None
                    &&& final(state).tax_groups@ == old(state).tax_groups@
                    &&& if !editing {
                        final(state).edit_states@ == old(state).edit_states@.remove(id)
                    } else {
                        match first_index(old(state).tax_groups@, id) {
                            Some(k) => {
                                &&& final(state).edit_states@ == old(state).edit_states@.insert(id, final(state).edit_states@[id])
                                &&& final(state).edit_states@[id].name@ == old(state).tax_groups@[k].name@
                                &&& final(state).edit_states@[id].taxes@ == old(state).tax_groups@[k].taxes@
                                &&& final(state).edit_states@[id].is_editing
                            },
                            None => final(state).edit_states@ == old(state).edit_states@,
                        }
                    }
                },
                Message::EditField(id, field, value) => {
                    &&& r is None
                    &&& final(state).tax_groups@ == old(state).tax_groups@
                    &&& if old(state).edit_states@.contains_key(id) && field@ == "name"@ {
                        &&& final(state).edit_states@ == old(state).edit_states@.insert(id, final(state).edit_states@[id])
                        &&& final(state).edit_states@[id] == (TaxGroupEditState {
                            name: final(state).edit_states@[id].name,
                            ..old(state).edit_states@[id]
                        })
                        &&& final(state).edit_states@[id].name@ == value@
                    } else {
                        final(state).edit_states@ == old(state).edit_states@
                    }
                },
                Message::EditTaxes(id, taxes) => {
                    &&& r is None
                    &&& final(state).tax_groups@ == old(state).tax_groups@
                    &&& if old(state).edit_states@.contains_key(id) {
                        final(state).edit_states@ == old(state).edit_states@.insert(id, TaxGroupEditState {
                            taxes,
                            ..old(state).edit_states@[id]
                        })
                    } else {
                        final(state).edit_states@ == old(state).edit_states@
                    }
                },
                Message::TaxPressed(_) => r is None && *final(state) == *old(state),
            },
    {
        match message {
            Message::DeleteTaxGroup(id) => {
                remove_with_id(&mut state.tax_groups, id);
                state.edit_states.remove(&id);
                None
            },
            Message::SaveTaxGroup(id) => {
                match position_of(&state.tax_groups, id) {
                    Some(k) => match state.edit_states.get(&id) {
                        Some(es) => {
                            let mut group = state.tax_groups.remove(k);
                            group.name = es.name.clone();
                            group.taxes = copy_taxes(&es.taxes);
                            state.tax_groups.insert(k, group);
                            proof {
                                assert(state.tax_groups@ =~= old(state).tax_groups@.update(k as int, state.tax_groups@[k as int]));
                            }
                        },
                        None => {},
                    },
                    None => {},
                }
                Some(Message::ToggleEditMode(id, false))
            },
            Message::NewTaxGroup(group) => {
                state.tax_groups.push(group);
                None
            },
            Message::ToggleEditMode(id, editing) => {
                if editing {
                    match position_of(&state.tax_groups, id) {
                        Some(k) => {
                            let group = &state.tax_groups[k];
                            let es = TaxGroupEditState {
                                name: group.name.clone(),
                                taxes: copy_taxes(&group.taxes),
                                is_editing: true,
                            };
                            state.edit_states.insert(id, es);
                        },
                        None => {},
                    }
                } else {
                    state.edit_states.remove(&id);
                }
                None
            },
            Message::EditField(id, field, value) => {
                if field_is(&field, "name") {
                    match state.edit_states.remove(&id) {
                        Some(es) => {
                            let mut es = es;
                            es.name = value;
                            state.edit_states.insert(id, es);
                            proof {
                                assert(state.edit_states@ =~= old(state).edit_states@.insert(id, state.edit_states@[id]));
                            }
                        },
                        None => {},
                    }
                }
                None
            },
            Message::EditTaxes(id, taxes) => {
                match state.edit_states.remove(&id) {
                    Some(es) => {
                        let mut es = es;
                        es.taxes = taxes;
                        state.edit_states.insert(id, es);
                        proof {
                            assert(state.edit_states@ =~= old(state).edit_states@.insert(id, state.edit_states@[id]));
                        }
                    },
                    None => {},
                }
                None
            },
            Message::TaxPressed(_) => None,
        }
    }
}

} // verus!
