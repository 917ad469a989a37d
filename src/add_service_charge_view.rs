//! The form that creates a service charge.
use vstd::prelude::*;

use crate::calculations::{convert_to_i64, integer_or_zero};
use crate::amount::{amount_or_zero, parse_amount};
use crate::service_charge::ServiceCharge;
use crate::tax_group::{is_default_group, TaxGroup};
use crate::validator::{self, applied, Input, Numeric};

verus! {

/// What is typed into the service charge form.
#[derive(Debug, Clone)]
pub struct AddServiceChargeForm {
    pub service_charge_id: Input,
    pub service_charge_name: String,
    pub percent: Input,
    pub tax_group: String,
    pub tax_overide: bool,
}

#[derive(Debug, Clone)]
pub enum Message {
    Submit,
    ServiceChargeIdChanged(validator::Message),
    ServiceChargeNameChanged(String),
    PercentChanged(validator::Message),
    TaxGroupChanged(String),
    TaxOverideChanged(bool),
}

/// What the form asks of the service charge list.
pub enum Action {
    AddNewServiceCharge(ServiceCharge),
}

/// The service charge a submitted form creates: its id and percentage read from
/// the fields (zero where their text is invalid), in the default tax group.
pub open spec fn submitted_service_charge(form: AddServiceChargeForm, made: ServiceCharge) -> bool {
    &&& made.id == integer_or_zero(form.service_charge_id.value@)
    &&& made.name@ == form.service_charge_name@
    &&& made.percent == amount_or_zero(form.percent.value@)
    &&& is_default_group(made.tax_group)
    &&& made.tax_overide == form.tax_overide
}

impl AddServiceChargeForm {
    /// An empty form.
    pub fn new() -> (r: AddServiceChargeForm)
        ensures
            r.service_charge_id.value@ == Seq::<char>::empty() && r.service_charge_id.is_valid,
            r.service_charge_id.placeholder@ == Seq::<char>::empty(),
            r.service_charge_name@ == Seq::<char>::empty(),
            r.percent.value@ == Seq::<char>::empty() && r.percent.is_valid,
            r.percent.placeholder@ == Seq::<char>::empty(),
            r.tax_group@ == Seq::<char>::empty(),
            !r.tax_overide,
    {
        AddServiceChargeForm {
            service_charge_id: Input::default(),
            service_charge_name: String::new(),
            percent: Input::default(),
            tax_group: String::new(),
            tax_overide: false,
        }
    }

    /// Applies a message to the form. Submitting leaves the form as it is
    /// and asks for the service charge it describes; every other message edits one
    /// field and asks for nothing.
    pub fn update(state: &mut Self, message: Message) -> (r: Option<Action>)
        ensures
            match message {
                Message::Submit => *final(state) == *old(state) && match r {
                    Some(Action::AddNewServiceCharge(made)) => submitted_service_charge(*old(state), made),
                    None => false,
                },
                Message::ServiceChargeIdChanged(m) => r is None && *final(state) == (AddServiceChargeForm {
                    service_charge_id: final(state).service_charge_id,
                    ..*old(state)
                }) && applied(old(state).service_charge_id, final(state).service_charge_id, m, Numeric::Integer, true),
                Message::ServiceChargeNameChanged(name) => r is None && *final(state) == (AddServiceChargeForm {
                    service_charge_name: name,
                    ..*old(state)
                }),
                Message::PercentChanged(m) => r is None && *final(state) == (AddServiceChargeForm {
                    percent: final(state).percent,
                    ..*old(state)
                }) && applied(old(state).percent, final(state).percent, m, Numeric::Amount, true),
                Message::TaxGroupChanged(group) => r is None && *final(state) == (AddServiceChargeForm {
                    tax_group: group,
                    ..*old(state)
                }),
                Message::TaxOverideChanged(flag) => r is None && *final(state) == (AddServiceChargeForm {
                    tax_overide: flag,
                    ..*old(state)
                }),
            },
    {
        match message {
            Message::Submit => {
                let id = convert_to_i64(state.service_charge_id.value.as_str());
                let percent = match parse_amount(state.percent.value.as_str()) {
                    Some(p) => p,
                    None => 0,
                };
                let tax_group = TaxGroup::default();
                let made = ServiceCharge::new(id, state.service_charge_name.clone(), percent, tax_group, state.tax_overide);
                Some(Action::AddNewServiceCharge(made))
            },
            Message::ServiceChargeIdChanged(m) => {
                state.service_charge_id.apply(m, Numeric::Integer, true);
                None
            },
            Message::ServiceChargeNameChanged(name) => {
                state.service_charge_name = name;
                None
            },
            Message::PercentChanged(m) => {
                state.percent.apply(m, Numeric::Amount, true);
                None
            },
            Message::TaxGroupChanged(group) => {
                state.tax_group = group;
                None
            },
            Message::TaxOverideChanged(flag) => {
                state.tax_overide = flag;
                None
            },
        }
    }
}

} // verus!
