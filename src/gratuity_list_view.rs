//! The list of gratuities, with rows that can be edited in place.
use std::collections::HashMap;

use vstd::prelude::*;

use crate::amount_laws::lemma_amount_text_round_trip;

use crate::calculations::{amount_text, amount_to_text};
use crate::amount::{amount_value, parse_amount};
use crate::gratuity::{is_default_gratuity, Gratuity};
use crate::listing::{field_is, first_index, position_of, remove_with_id, without_id};

verus! {

broadcast use vstd::std_specs::hash::group_hash_axioms;

/// The gratuities, and the rows being edited, by id.
pub struct GratuityView {
    pub gratuitys: Vec<Gratuity>,
    pub edit_states: HashMap<i64, GratuityEditState>,
}

#[derive(Debug, Clone)]
pub enum Message {
    DeleteGratuity(i64),
    SaveGratuity(i64),
    NewGratuity(Gratuity),
    ToggleEditMode(i64, bool),
    EditField(i64, String, String),
}

/// The text of a row being edited.
#[derive(Debug, Clone)]
pub struct GratuityEditState {
    pub name: String,
    pub percent: String,
    pub tax_overide: bool,
    pub is_editing: bool,
}

/// The edit state opened on `entity`.
pub open spec fn opened_on(es: GratuityEditState, entity: Gratuity) -> bool {
    &&& es.name@ == entity.name@
    &&& es.percent@ == amount_text(entity.percent as int)
    &&& es.tax_overide == entity.tax_overide
    &&& es.is_editing
}

/// `after` is `before` with the edits of `es` saved: the name, and the
/// percent where its text reads as an amount; nothing else changes.
pub open spec fn saved(before: Gratuity, after: Gratuity, es: GratuityEditState) -> bool {
    &&& after == (Gratuity { name: after.name, percent: after.percent, ..before })
    &&& after.name@ == es.name@
    &&& after.percent == match amount_value(es.percent@) {
        Some(p) => p,
        None => before.percent,
    }
}

/// `after` is `before` with `value` put in the field named `field`
/// (`name`, `percent`); another field name changes nothing.
pub open spec fn edited(before: GratuityEditState, after: GratuityEditState, field: Seq<char>, value: Seq<char>) -> bool {
    if field == "name"@ {
        after == (GratuityEditState { name: after.name, ..before }) && after.name@ == value
    } else if field == "percent"@ {
        after == (GratuityEditState { percent: after.percent, ..before }) && after.percent@ == value
    } else {
        after == before
    }
}

/// Opening a row for editing and saving it with no edit keeps the
/// gratuity: the name, the percent and every other field come back as they were.
pub proof fn lemma_save_unedited(before: Gratuity, after: Gratuity, es: GratuityEditState)
    requires
        opened_on(es, before),
        saved(before, after, es),
    ensures
        after == (Gratuity { name: after.name, ..before }),
        after.name@ == before.name@,
        after.percent == before.percent,
{
    lemma_amount_text_round_trip(before.percent);
}

impl GratuityView {
    /// A list holding the default gratuity.
    pub fn new() -> (r: GratuityView)
        ensures
            r.gratuitys@.len() == 1,
            is_default_gratuity(r.gratuitys@[0]),
            r.edit_states@ == Map::<i64, GratuityEditState>::empty(),
    {
        let mut gratuitys: Vec<Gratuity> = Vec::new();
        gratuitys.push(Gratuity::default());
        GratuityView { gratuitys, edit_states: HashMap::new() }
    }

    /// Applies a message to the list and returns the message to handle
    /// next, if any: saving a row is followed by closing it.
    pub fn update(state: &mut Self, message: Message) -> (r: Option<Message>)
        ensures
            match message {
                Message::DeleteGratuity(id) => {
                    &&& r is None
                    &&& final(state).gratuitys@ == without_id(old(state).gratuitys@, id)
                    &&& final(state).edit_states@ == old(state).edit_states@.remove(id)
                },
                Message::SaveGratuity(id) => {
                    &&& r == Some(Message::ToggleEditMode(id, false))
                    &&& final(state).edit_states@ == old(state).edit_states@
                    &&& match first_index(old(state).gratuitys@, id) {
                        Some(k) if old(state).edit_states@.contains_key(id) => {
                            &&& final(state).gratuitys@ == old(state).gratuitys@.update(k, final(state).gratuitys@[k])
                            &&& saved(old(state).gratuitys@[k], final(state).gratuitys@[k], old(state).edit_states@[id])
                        },
                        _ => final(state).gratuitys@ == old(state).gratuitys@,
                    }
                },
                Message::NewGratuity(entity) => {
                    &&& r is None
                    &&& final(state).gratuitys@ == old(state).gratuitys@.push(entity)
                    &&& final(state).edit_states@ == old(state).edit_states@
                },
                Message::ToggleEditMode(id, editing) => {
                    &&& r is None
                    &&& final(state).gratuitys@ == old(state).gratuitys@
                    &&& if !editing {
                        final(state).edit_states@ == old(state).edit_states@.remove(id)
                    } else {
                        match first_index(old(state).gratuitys@, id) {
                            Some(k) => {
                                &&& final(state).edit_states@ == old(state).edit_states@.insert(id, final(state).edit_states@[id])
                                &&& opened_on(final(state).edit_states@[id], old(state).gratuitys@[k])
                            },
                            None => final(state).edit_states@ == old(state).edit_states@,
                        }
                    }
                },
                Message::EditField(id, field, value) => {
                    &&& r is None
                    &&& final(state).gratuitys@ == old(state).gratuitys@
                    &&& if old(state).edit_states@.contains_key(id) {
                        &&& final(state).edit_states@ == old(state).edit_states@.insert(id, final(state).edit_states@[id])
                        &&& edited(old(state).edit_states@[id], final(state).edit_states@[id], field@, value@)
                    } else {
                        final(state).edit_states@ == old(state).edit_states@
                    }
                },
            },
    {
        match message {
            Message::DeleteGratuity(id) => {
                remove_with_id(&mut state.gratuitys, id);
                state.edit_states.remove(&id);
                None
            },
            Message::SaveGratuity(id) => {
                match position_of(&state.gratuitys, id) {
                    Some(k) => match state.edit_states.get(&id) {
                        Some(es) => {
                            let mut entity = state.gratuitys.remove(k);
                            entity.name = es.name.clone();
                            match parse_amount(es.percent.as_str()) {
                                Some(p) => {
                                    entity.percent = p;
                                },
                                None => {},
                            }
                            state.gratuitys.insert(k, entity);
                            proof {
                                assert(state.gratuitys@ =~= old(state).gratuitys@.update(k as int, state.gratuitys@[k as int]));
                            }
                        },
                        None => {},
                    },
                    None => {},
                }
                Some(Message::ToggleEditMode(id, false))
            },
            Message::NewGratuity(entity) => {
                state.gratuitys.push(entity);
                None
            },
            Message::ToggleEditMode(id, editing) => {
                if editing {
                    match position_of(&state.gratuitys, id) {
                        Some(k) => {
                            let entity = &state.gratuitys[k];
                            let es = GratuityEditState {
                                name: entity.name.clone(),
                                percent: amount_to_text(entity.percent),
                                tax_overide: entity.tax_overide,
                                is_editing: true,
                            };
                            state.edit_states.insert(id, es);
                        },
                        None => {},
                    }
                } else {
                    state.edit_states.remove(&id);
                }
                None
            },
            Message::EditField(id, field, value) => {
                match state.edit_states.remove(&id) {
                    Some(es) => {
                        let mut es = es;
                        if field_is(&field, "name") {
                            es.name = value;
                        } else if field_is(&field, "percent") {
                            es.percent = value;
                        }
                        state.edit_states.insert(id, es);
                        proof {
                            assert(state.edit_states@ =~= old(state).edit_states@.insert(id, state.edit_states@[id]));
                        }
                    },
                    None => {},
                }
                None
            },
        }
    }
}

} // verus!
