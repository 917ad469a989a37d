//! The list of service charges, with rows that can be edited in place.
use std::collections::HashMap;

use vstd::prelude::*;

use crate::amount_laws::lemma_amount_text_round_trip;

use crate::calculations::{amount_text, amount_to_text};
use crate::amount::{amount_value, parse_amount};
use crate::service_charge::{is_default_service_charge, ServiceCharge};
use crate::listing::{field_is, first_index, position_of, remove_with_id, without_id};

verus! {

broadcast use vstd::std_specs::hash::group_hash_axioms;

/// The service charges, and the rows being edited, by id.
pub struct ServiceChargeView {
    pub service_charges: Vec<ServiceCharge>,
    pub edit_states: HashMap<i64, ServiceChargeEditState>,
}

#[derive(Debug, Clone)]
pub enum Message {
    DeleteServiceCharge(i64),
    SaveServiceCharge(i64),
    NewServiceCharge(ServiceCharge),
    ToggleEditMode(i64, bool),
    EditField(i64, String, String),
}

/// The text of a row being edited.
#[derive(Debug, Clone)]
pub struct ServiceChargeEditState {
    pub name: String,
    pub percent: String,
    pub tax_overide: bool,
    pub is_editing: bool,
}

/// The edit state opened on `entity`.
pub open spec fn opened_on(es: ServiceChargeEditState, entity: ServiceCharge) -> bool {
    &&& es.name@ == entity.name@
    &&& es.percent@ == amount_text(entity.percent as int)
    &&& es.tax_overide == entity.tax_overide
    &&& es.is_editing
}

/// `after` is `before` with the edits of `es` saved: the name, and the
/// percent where its text reads as an amount; nothing else changes.
pub open spec fn saved(before: ServiceCharge, after: ServiceCharge, es: ServiceChargeEditState) -> bool {
    &&& after == (ServiceCharge { name: after.name, percent: after.percent, ..before })
    &&& after.name@ == es.name@
    &&& after.percent == match amount_value(es.percent@) {
        Some(p) => p,
        None => before.percent,
    }
}

/// `after` is `before` with `value` put in the field named `field`
/// (`name`, `percent`); another field name changes nothing.
pub open spec fn edited(before: ServiceChargeEditState, after: ServiceChargeEditState, field: Seq<char>, value: Seq<char>) -> bool {
    if field == "name"@ {
        after == (ServiceChargeEditState { name: after.name, ..before }) && after.name@ == value
    } else if field == "percent"@ {
        after == (ServiceChargeEditState { percent: after.percent, ..before }) && after.percent@ == value
    } else {
        after == before
    }
}

/// Opening a row for editing and saving it with no edit keeps the
/// service charge: the name, the percent and every other field come back as they were.
pub proof fn lemma_save_unedited(before: ServiceCharge, after: ServiceCharge, es: ServiceChargeEditState)
    requires
        opened_on(es, before),
        saved(before, after, es),
    ensures
        after == (ServiceCharge { name: after.name, ..before }),
        after.name@ == before.name@,
        after.percent == before.percent,
{
    lemma_amount_text_round_trip(before.percent);
}

impl ServiceChargeView {
    /// A list holding the default service charge.
    pub fn new() -> (r: ServiceChargeView)
        ensures
            r.service_charges@.len() == 1,
            is_default_service_charge(r.service_charges@[0]),
            r.edit_states@ == Map::<i64, ServiceChargeEditState>::empty(),
    {
        let mut service_charges: Vec<ServiceCharge> = Vec::new();
        service_charges.push(ServiceCharge::default());
        ServiceChargeView { service_charges, edit_states: HashMap::new() }
    }

    /// Applies a message to the list and returns the message to handle
    /// next, if any: saving a row is followed by closing it.
    pub fn update(state: &mut Self, message: Message) -> (r: Option<Message>)
        ensures
            match message {
                Message::DeleteServiceCharge(id) => {
                    &&& r is None
                    &&& final(state).service_charges@ == without_id(old(state).service_charges@, id)
                    &&& final(state).edit_states@ == old(state).edit_states@.remove(id)
                },
                Message::SaveServiceCharge(id) => {
                    &&& r == Some(Message::ToggleEditMode(id, false))
                    &&& final(state).edit_states@ == old(state).edit_states@
                    &&& match first_index(old(state).service_charges@, id) {
                        Some(k) if old(state).edit_states@.contains_key(id) => {
                            &&& final(state).service_charges@ == old(state).service_charges@.update(k, final(state).service_charges@[k])
                            &&& saved(old(state).service_charges@[k], final(state).service_charges@[k], old(state).edit_states@[id])
                        },
                        _ => final(state).service_charges@ == old(state).service_charges@,
                    }
                },
                Message::NewServiceCharge(entity) => {
                    &&& r is None
                    &&& final(state).service_charges@ == old(state).service_charges@.push(entity)
                    &&& final(state).edit_states@ == old(state).edit_states@
                },
                Message::ToggleEditMode(id, editing) => {
                    &&& r is None
                    &&& final(state).service_charges@ == old(state).service_charges@
                    &&& if !editing {
                        final(state).edit_states@ == old(state).edit_states@.remove(id)
                    } else {
                        match first_index(old(state).service_charges@, id) {
                            Some(k) => {
                                &&& final(state).edit_states@ == old(state).edit_states@.insert(id, final(state).edit_states@[id])
                                &&& opened_on(final(state).edit_states@[id], old(state).service_charges@[k])
                            },
                            None => final(state).edit_states@ == old(state).edit_states@,
                        }
                    }
                },
                Message::EditField(id, field, value) => {
                    &&& r is None
                    &&& final(state).service_charges@ == old(state).service_charges@
                    &&& if old(state).edit_states@.contains_key(id) {
                        &&& final(state).edit_states@ == old(state).edit_states@.insert(id, final(state).edit_states@[id])
                        &&& edited(old(state).edit_states@[id], final(state).edit_states@[id], field@, value@)
                    } else {
                        final(state).edit_states@ == old(state).edit_states@
                    }
                },
            },
    {
        match message {
            Message::DeleteServiceCharge(id) => {
                remove_with_id(&mut state.service_charges, id);
                state.edit_states.remove(&id);
                None
            },
            Message::SaveServiceCharge(id) => {
                match position_of(&state.service_charges, id) {
                    Some(k) => match state.edit_states.get(&id) {
                        Some(es) => {
                            let mut entity = state.service_charges.remove(k);
                            entity.name = es.name.clone();
                            match parse_amount(es.percent.as_str()) {
                                Some(p) => {
                                    entity.percent = p;
                                },
                                None => {},
                            }
                            state.service_charges.insert(k, entity);
                            proof {
                                assert(state.service_charges@ =~= old(state).service_charges@.update(k as int, state.service_charges@[k as int]));
                            }
                        },
                        None => {},
                    },
                    None => {},
                }
                Some(Message::ToggleEditMode(id, false))
            },
            Message::NewServiceCharge(entity) => {
                state.service_charges.push(entity);
                None
            },
            Message::ToggleEditMode(id, editing) => {
                if editing {
                    match position_of(&state.service_charges, id) {
                        Some(k) => {
                            let entity = &state.service_charges[k];
                            let es = ServiceChargeEditState {
                                name: entity.name.clone(),
                                percent: amount_to_text(entity.percent),
                                tax_overide: entity.tax_overide,
                                is_editing: true,
                            };
                            state.edit_states.insert(id, es);
                        },
                        None => {},
                    }
                } else {
                    state.edit_states.remove(&id);
                }
                None
            },
            Message::EditField(id, field, value) => {
                match state.edit_states.remove(&id) {
                    Some(es) => {
                        let mut es = es;
                        if field_is(&field, "name") {
                            es.name = value;
                        } else if field_is(&field, "percent") {
                            es.percent = value;
                        }
                        state.edit_states.insert(id, es);
                        proof {
                            assert(state.edit_states@ =~= old(state).edit_states@.insert(id, state.edit_states@[id]));
                        }
                    },
                    None => {},
                }
                None
            },
        }
    }
}

} // verus!
