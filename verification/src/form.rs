//! Form fields: the label above the input and the note below it.

use vstd::prelude::*;
use crate::text::{chars_of, string_of};

verus! {

/// The label shown above a field: a required field carries ` *`.
pub open spec fn label_text(label: Seq<char>, required: bool) -> Seq<char> {
    if required {
        label + seq![' ', '*']
    } else {
        label
    }
}

/// The text of a field's label.
pub fn field_label(label: &str, required: bool) -> (r: String)
    ensures
        r@ == label_text(label@, required),
{
    let mut v = chars_of(label);
    if required {
        v.push(' ');
        v.push('*');
    }
    proof {
        if required {
            assert(v@ =~= label@ + seq![' ', '*']);
        }
    }
    string_of(v.as_slice())
}

/// The line shown below a field's input.
#[derive(Debug, Clone, PartialEq, Eq)]
pub enum FieldNote {
    /// A validation error, shown in the danger color.
    Error(String),
    /// A help text, shown muted.
    Help(String),
}

/// The line below a field: the error when there is one, else the help
/// text, else nothing.
pub fn field_note(help: Option<String>, error: Option<String>) -> (r: Option<FieldNote>)
    ensures
        r == (match error {
            Some(e) => Some(FieldNote::Error(e)),
            None => match help {
                Some(h) => Some(FieldNote::Help(h)),
                None => None,
            },
        }),
{
    match error {
        Some(e) => Some(FieldNote::Error(e)),
        None => match help {
            Some(h) => Some(FieldNote::Help(h)),
            None => None,
        },
    }
}

} // verus!
