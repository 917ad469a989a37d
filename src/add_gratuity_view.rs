//! The form that creates a gratuity.
use vstd::prelude::*;

use crate::calculations::{convert_to_i64, integer_or_zero};
use crate::amount::{amount_or_zero, parse_amount};
use crate::gratuity::Gratuity;
use crate::tax_group::{is_default_group, TaxGroup};
use crate::validator::{self, applied, Input, Numeric};

verus! {

/// What is typed into the gratuity form.
#[derive(Debug, Clone)]
pub struct AddGratuityForm {
    pub gratuity_id: Input,
    pub gratuity_name: String,
    pub percent: Input,
    pub tax_group: String,
    pub tax_overide: bool,
}

#[derive(Debug, Clone)]
pub enum Message {
    Submit,
    GratuityIdChanged(validator::Message),
    GratuityNameChanged(String),
    PercentChanged(validator::Message),
    TaxGroupChanged(String),
    TaxOverideChanged(bool),
}

/// What the form asks of the gratuity list.
pub enum Action {
    AddNewGratuity(Gratuity),
}

/// The gratuity a submitted form creates: its id and percentage read from
/// the fields (zero where their text is invalid), in the default tax group.
pub open spec fn submitted_gratuity(form: AddGratuityForm, made: Gratuity) -> bool {
    &&& made.id == integer_or_zero(form.gratuity_id.value@)
    &&& made.name@ == form.gratuity_name@
    &&& made.percent == amount_or_zero(form.percent.value@)
    &&& is_default_group(made.tax_group)
    &&& made.tax_overide == form.tax_overide
}

impl AddGratuityForm {
    /// An empty form.
    pub fn new() -> (r: AddGratuityForm)
        ensures
            r.gratuity_id.value@ == Seq::<char>::empty() && r.gratuity_id.is_valid,
            r.gratuity_id.placeholder@ == Seq::<char>::empty(),
            r.gratuity_name@ == Seq::<char>::empty(),
            r.percent.value@ == Seq::<char>::empty() && r.percent.is_valid,
            r.percent.placeholder@ == Seq::<char>::empty(),
            r.tax_group@ == Seq::<char>::empty(),
            !r.tax_overide,
    {
        AddGratuityForm {
            gratuity_id: Input::default(),
            gratuity_name: String::new(),
            percent: Input::default(),
            tax_group: String::new(),
            tax_overide: false,
        }
    }

    /// Applies a message to the form. Submitting leaves the form as it is
    /// and asks for the gratuity it describes; every other message edits one
    /// field and asks for nothing.
    pub fn update(state: &mut Self, message: Message) -> (r: Option<Action>)
        ensures
            match message {
                Message::Submit => *final(state) == *old(state) && match r {
                    Some(Action::AddNewGratuity(made)) => submitted_gratuity(*old(state), made),
                    None => false,
                },
                Message::GratuityIdChanged(m) => r is None && *final(state) == (AddGratuityForm {
                    gratuity_id: final(state).gratuity_id,
                    ..*old(state)
                }) && applied(old(state).gratuity_id, final(state).gratuity_id, m, Numeric::Integer, true),
                Message::GratuityNameChanged(name) => r is None && *final(state) == (AddGratuityForm {
                    gratuity_name: name,
                    ..*old(state)
                }),
                Message::PercentChanged(m) => r is None && *final(state) == (AddGratuityForm {
                    percent: final(state).percent,
                    ..*old(state)
                }) && applied(old(state).percent, final(state).percent, m, Numeric::Amount, true),
                Message::TaxGroupChanged(group) => r is None && *final(state) == (AddGratuityForm {
                    tax_group: group,
                    ..*old(state)
                }),
                Message::TaxOverideChanged(flag) => r is None && *final(state) == (AddGratuityForm {
                    tax_overide: flag,
                    ..*old(state)
                }),
            },
    {
        match message {
            Message::Submit => {
                let id = convert_to_i64(state.gratuity_id.value.as_str());
                let percent = match parse_amount(state.percent.value.as_str()) {
                    Some(p) => p,
                    None => 0,
                };
                let tax_group = TaxGroup::default();
                let made = Gratuity::new(id, state.gratuity_name.clone(), percent, tax_group, state.tax_overide);
                Some(Action::AddNewGratuity(made))
            },
            Message::GratuityIdChanged(m) => {
                state.gratuity_id.apply(m, Numeric::Integer, true);
                None
            },
            Message::GratuityNameChanged(name) => {
                state.gratuity_name = name;
                None
            },
            Message::PercentChanged(m) => {
                state.percent.apply(m, Numeric::Amount, true);
                None
            },
            Message::TaxGroupChanged(group) => {
                state.tax_group = group;
                None
            },
            Message::TaxOverideChanged(flag) => {
                state.tax_overide = flag;
                None
            },
        }
    }
}

} // verus!
