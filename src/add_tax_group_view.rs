//! The form that creates a tax group.
use vstd::prelude::*;

use crate::calculations::{convert_to_i64, integer_or_zero};
use crate::tax::Tax;
use crate::tax_group::TaxGroup;
use crate::validator::{self, applied, Input, Numeric};

verus! {

/// What is typed into the tax group form. The taxes are typed as a JSON
/// list of taxes.
#[derive(Debug, Clone)]
pub struct AddTaxGroupForm {
    pub tax_group_id: Input,
    pub tax_group_name: String,
    pub tax_group_taxes: String,
}

#[derive(Debug, Clone)]
pub enum Message {
    Submit,
    TaxGroupIdChanged(validator::Message),
    TaxGroupNameChanged(String),
    TaxGroupTaxesChanged(String),
}

/// What the form asks of the tax group list.
pub enum Action {
    AddNewTaxGroup(TaxGroup),
}

/// The group a submitted form creates: its id read from the field (zero
/// where it reads as nothing), with the decoded taxes, or with the default
/// tax alone where the taxes text did not decode.
pub open spec fn submitted_group(form: AddTaxGroupForm, decoded: Option<Vec<Tax>>, group: TaxGroup) -> bool {
    &&& group.id == integer_or_zero(form.tax_group_id.value@)
    &&& group.name@ == form.tax_group_name@
    &&& match decoded {
        Some(taxes) => group.taxes@ == taxes@,
        None => {
            &&& group.taxes@.len() == 1
            &&& group.taxes@[0].id == 1
            &&& group.taxes@[0].name@ == "default"@
            &&& group.taxes@[0].percent == 77_500
        },
    }
}

impl AddTaxGroupForm {
    /// An empty form.
    pub fn new() -> (r: AddTaxGroupForm)
        ensures
            r.tax_group_id.value@ == Seq::<char>::empty() && r.tax_group_id.is_valid,
            r.tax_group_id.placeholder@ == Seq::<char>::empty(),
            r.tax_group_name@ == Seq::<char>::empty(),
            r.tax_group_taxes@ == Seq::<char>::empty(),
    {
        AddTaxGroupForm {
            tax_group_id: Input::default(),
            tax_group_name: String::new(),
            tax_group_taxes: String::new(),
        }
    }

    /// Applies a message to the form. `decoded_taxes` is what the taxes
    /// text in play decodes to (`None` where it is no JSON list of taxes):
    /// on `Submit` the text the form holds, on `TaxGroupTaxesChanged` the
    /// new text; other messages ignore it. New taxes text is kept only
    /// where it decodes. The id field is flagged, never cleared.
    pub fn update(state: &mut Self, message: Message, decoded_taxes: Option<Vec<Tax>>) -> (r: Option<Action>)
        ensures
            match message {
                Message::Submit => *final(state) == *old(state) && match r {
                    Some(Action::AddNewTaxGroup(group)) => submitted_group(*old(state), decoded_taxes, group),
                    None => false,
                },
                Message::TaxGroupIdChanged(m) => r is None && *final(state) == (AddTaxGroupForm {
                    tax_group_id: final(state).tax_group_id,
                    ..*old(state)
                }) && applied(old(state).tax_group_id, final(state).tax_group_id, m, Numeric::Integer, false),
                Message::TaxGroupNameChanged(name) => r is None && *final(state) == (AddTaxGroupForm {
                    tax_group_name: name,
                    ..*old(state)
                }),
                Message::TaxGroupTaxesChanged(text) => r is None && if decoded_taxes is Some {
                    *final(state) == (AddTaxGroupForm { tax_group_taxes: text, ..*old(state) })
                } else {
                    *final(state) == *old(state)
                },
            },
    {
        match message {
            Message::Submit => {
                let tax_group_id = convert_to_i64(state.tax_group_id.value.as_str());
                let tax_group_name = state.tax_group_name.clone();
                let group = match decoded_taxes {
                    Some(taxes) => TaxGroup::new(tax_group_id, tax_group_name, taxes),
                    None => {
                        let mut tax_vec: Vec<Tax> = Vec::new();
                        tax_vec.push(Tax::default());
                        TaxGroup::new(tax_group_id, tax_group_name, tax_vec)
                    },
                };
                Some(Action::AddNewTaxGroup(group))
            },
            Message::TaxGroupIdChanged(m) => {
                state.tax_group_id.apply(m, Numeric::Integer, false);
                None
            },
            Message::TaxGroupNameChanged(name) => {
                state.tax_group_name = name;
                None
            },
            Message::TaxGroupTaxesChanged(text) => {
                if decoded_taxes.is_some() {
                    state.tax_group_taxes = text;
                }
                None
            },
        }
    }
}

} // verus!
