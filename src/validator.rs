//! A text field whose content is checked as it is typed.
use vstd::prelude::*;
use vstd::string::*;

use crate::amount::{amount_value, validate_amount};
use crate::calculations::{i64_value, validate_i64};

verus! {

/// A text field with a validity flag and a placeholder.
#[derive(Debug, Clone)]
pub struct Input {
    pub value: String,
    pub is_valid: bool,
    pub placeholder: String,
}

/// What a field receives: text as it is typed, or text submitted.
#[derive(Debug, Clone)]
pub enum Message {
    RawInput(String),
    RawSubmit(String),
}

/// What a numeric field accepts.
#[derive(Debug, Clone, Copy, PartialEq, Eq, Structural)]
pub enum Numeric {
    /// An integer that fits an `i64`.
    Integer,
    /// An amount: decimal text, with an optional exponent, whose value is
    /// a whole number of millionths that fits an `i64`.
    Amount,
}

/// Whether a field of this kind accepts `text`.
pub open spec fn accepts(kind: Numeric, text: Seq<char>) -> bool {
    match kind {
        Numeric::Integer => i64_value(text) is Some,
        Numeric::Amount => amount_value(text) is Some,
    }
}

/// `after` is `before` once `message` was applied to it. Submitted text is
/// kept and flagged valid or not. Typed text that is not accepted is,
/// where `clear_rejected` holds, cleared, with the placeholder asking for
/// numbers; accepted typed text empties the placeholder.
pub open spec fn applied(before: Input, after: Input, message: Message, kind: Numeric, clear_rejected: bool) -> bool {
    match message {
        Message::RawSubmit(text) => {
            &&& after.value@ == text@
            &&& after.is_valid == accepts(kind, text@)
            &&& after.placeholder@ == before.placeholder@
        },
        Message::RawInput(text) => if !clear_rejected {
            &&& after.value@ == text@
            &&& after.is_valid == accepts(kind, text@)
            &&& after.placeholder@ == before.placeholder@
        } else if accepts(kind, text@) {
            &&& after.value@ == text@
            &&& after.is_valid
            &&& after.placeholder@ == Seq::<char>::empty()
        } else {
            &&& after.value@ == Seq::<char>::empty()
            &&& after.is_valid
            &&& after.placeholder@ == "Numbers Only"@
        },
    }
}

impl Default for Input {
    fn default() -> (r: Input)
        ensures
            r.value@ == Seq::<char>::empty(),
            r.is_valid,
            r.placeholder@ == Seq::<char>::empty(),
    {
        Input { value: String::new(), is_valid: true, placeholder: String::new() }
    }
}

impl Input {
    /// An empty, valid field showing `placeholder`.
    pub fn new(placeholder: &str) -> (r: Input)
        ensures
            r.value@ == Seq::<char>::empty(),
            r.is_valid,
            r.placeholder@ == placeholder@,
    {
        Input { placeholder: String::from_str(placeholder), ..Input::default() }
    }

    /// Applies a message to a numeric field.
    pub fn apply(&mut self, message: Message, kind: Numeric, clear_rejected: bool)
        ensures
            applied(*old(self), *final(self), message, kind, clear_rejected),
    {
        match message {
            Message::RawInput(text) => {
                self.value = text;
                self.is_valid = check(self.value.as_str(), kind);
                if clear_rejected {
                    if !self.is_valid {
                        self.value = String::new();
                        self.is_valid = true;
                        self.placeholder = String::from_str("Numbers Only");
                    } else {
                        self.placeholder = String::new();
                    }
                }
            },
            Message::RawSubmit(text) => {
                self.value = text;
                self.is_valid = check(self.value.as_str(), kind);
            },
        }
    }
}

/// Runs `validator` on `input`.
pub fn validate<F>(input: &str, validator: F) -> (r: bool) where F: FnOnce(&str) -> bool
    requires
        validator.requires((input,)),
    ensures
        validator.ensures((input,), r),
{
    validator(input)
}

/// Whether a field of this kind accepts `text`.
fn check(text: &str, kind: Numeric) -> (r: bool)
    ensures
        r == accepts(kind, text@),
{
    match kind {
        Numeric::Integer => validate(text, validate_i64),
        Numeric::Amount => validate(text, validate_amount),
    }
}

} // verus!
