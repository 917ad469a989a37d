use vstd::prelude::*;
use vstd::string::*;

use crate::calculations::{integer_text, push_integer};

verus! {

/// A count of units on an order line.
#[derive(Debug, Clone, Copy, PartialEq, Eq, Structural, Default)]
pub struct Quantity(pub i32);

impl Quantity {
    /// The count as text (`"3"`), or labelled (`"Quantity: 3"`) in the
    /// alternate form.
    pub fn to_text(&self, alternate: bool) -> (r: String)
        ensures
            r@ == if alternate {
                "Quantity: "@ + integer_text(self.0 as int)
            } else {
                integer_text(self.0 as int)
            },
    {
        let mut out = if alternate {
            String::from_str("Quantity: ")
        } else {
            String::new()
        };
        push_integer(&mut out, self.0 as i64);
        proof {
            if !alternate {
                assert(out@ =~= integer_text(self.0 as int));
            }
        }
        out
    }
}

} // verus!
