//! The form that creates a tax.
use vstd::prelude::*;

use crate::calculations::{convert_to_i64, integer_or_zero};
use crate::amount::{amount_or_zero, parse_amount};
use crate::tax::Tax;
use crate::validator::{self, applied, Input, Numeric};

verus! {

/// What is typed into the tax form.
#[derive(Debug, Clone)]
pub struct AddTaxForm {
    pub tax_id: Input,
    pub tax_name: String,
    pub percent: Input,
}

#[derive(Debug, Clone)]
pub enum Message {
    Submit,
    TaxIdChanged(validator::Message),
    TaxNameChanged(String),
    PercentChanged(validator::Message),
}

/// What the form asks of the tax list.
pub enum Action {
    AddNewTax(Tax),
}

/// The tax a submitted form creates: its id and rate read from the fields,
/// zero where their text is invalid.
pub open spec fn submitted_tax(form: AddTaxForm, tax: Tax) -> bool {
    &&& tax.id == integer_or_zero(form.tax_id.value@)
    &&& tax.name@ == form.tax_name@
    &&& tax.percent == amount_or_zero(form.percent.value@)
}

impl AddTaxForm {
    /// An empty form.
    pub fn new() -> (r: AddTaxForm)
        ensures
            r.tax_id.value@ == Seq::<char>::empty() && r.tax_id.is_valid,
            r.tax_id.placeholder@ == Seq::<char>::empty(),
            r.tax_name@ == Seq::<char>::empty(),
            r.percent.value@ == Seq::<char>::empty() && r.percent.is_valid,
            r.percent.placeholder@ == Seq::<char>::empty(),
    {
        AddTaxForm { tax_id: Input::default(), tax_name: String::new(), percent: Input::default() }
    }

    /// Applies a message to the form. Submitting leaves the form as it is
    /// and asks for the tax it describes; every other message edits one
    /// field and asks for nothing.
    pub fn update(state: &mut Self, message: Message) -> (r: Option<Action>)
        ensures
            match message {
                Message::Submit => *final(state) == *old(state) && match r {
                    Some(Action::AddNewTax(tax)) => submitted_tax(*old(state), tax),
                    None => false,
                },
                Message::TaxIdChanged(m) => r is None && *final(state) == (AddTaxForm {
                    tax_id: final(state).tax_id,
                    ..*old(state)
                }) && applied(old(state).tax_id, final(state).tax_id, m, Numeric::Integer, true),
                Message::TaxNameChanged(name) => r is None && *final(state) == (AddTaxForm {
                    tax_name: name,
                    ..*old(state)
                }),
                Message::PercentChanged(m) => r is None && *final(state) == (AddTaxForm {
                    percent: final(state).percent,
                    ..*old(state)
                }) && applied(old(state).percent, final(state).percent, m, Numeric::Amount, true),
            },
    {
        match message {
            Message::Submit => {
                let tax_id = convert_to_i64(state.tax_id.value.as_str());
                let tax_percent = match parse_amount(state.percent.value.as_str()) {
                    Some(p) => p,
                    None => 0,
                };
                Some(Action::AddNewTax(Tax::new(tax_id, state.tax_name.clone(), tax_percent)))
            },
            Message::TaxIdChanged(m) => {
                state.tax_id.apply(m, Numeric::Integer, true);
                None
            },
            Message::TaxNameChanged(name) => {
                state.tax_name = name;
                None
            },
            Message::PercentChanged(m) => {
                state.percent.apply(m, Numeric::Amount, true);
                None
            },
        }
    }
}

} // verus!
