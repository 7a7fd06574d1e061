//! Form submissions, reduced to what the logic reads: a list of input
//! fields in submission order, each with its id, its free-text value and
//! its selected option.

use vstd::prelude::*;
use crate::member::clone_opt_string;

verus! {

/// One input field of a submitted form.
#[derive(Debug)]
pub struct FormField {
    pub id: String,
    /// The free-text value, when the field carries one.
    pub value: Option<String>,
    /// The selected option's value, for select fields.
    pub selected: Option<String>,
}

impl FormField {
    /// A field-for-field copy.
    pub fn dup(&self) -> (r: FormField)
        ensures
            r == *self,
    {
        FormField {
            id: self.id.clone(),
            value: clone_opt_string(&self.value),
            selected: clone_opt_string(&self.selected),
        }
    }
}

/// The free-text value of the last field with this id: nothing when no
/// field has the id, or the field's own (possibly absent) value. Later
/// fields overwrite earlier ones.
pub open spec fn last_value(fields: Seq<FormField>, id: Seq<char>) -> Option<Option<Seq<char>>>
    decreases fields.len(),
{
    if fields.len() == 0 {
        None
    } else if fields.last().id@ == id {
        Some(
            match fields.last().value {
                Some(v) => Some(v@),
                None => None,
            },
        )
    } else {
        last_value(fields.drop_last(), id)
    }
}

/// The selected option of the last field with this id.
pub open spec fn last_selected(fields: Seq<FormField>, id: Seq<char>) -> Option<Option<Seq<char>>>
    decreases fields.len(),
{
    if fields.len() == 0 {
        None
    } else if fields.last().id@ == id {
        Some(
            match fields.last().selected {
                Some(v) => Some(v@),
                None => None,
            },
        )
    } else {
        last_selected(fields.drop_last(), id)
    }
}

/// Field `i` is a required field submitted without a value; the whole
/// submission is malformed and rejected before any side effect.
pub open spec fn missing_required_at(fields: Seq<FormField>, i: int, req1: Seq<char>, req2: Seq<char>) -> bool {
    0 <= i < fields.len() && (fields[i].id@ == req1 || fields[i].id@ == req2) && fields[i].value is None
}

/// Some required field was submitted without a value.
pub open spec fn has_missing_required(fields: Seq<FormField>, req1: Seq<char>, req2: Seq<char>) -> bool {
    exists|i: int| #[trigger] missing_required_at(fields, i, req1, req2)
}

/// The required field ends up present and non-empty.
pub open spec fn required_present(fields: Seq<FormField>, id: Seq<char>) -> bool {
    match last_value(fields, id) {
        Some(Some(x)) => x.len() > 0,
        _ => false,
    }
}

/// An optional profile field ends up as the last submitted value, absent
/// when never submitted (or submitted empty-handed).
pub open spec fn optional_field_matches(lv: Option<Option<Seq<char>>>, f: Option<String>) -> bool {
    match lv {
        None => f is None,
        Some(None) => f is None,
        Some(Some(x)) => f matches Some(s) && s@ == x,
    }
}

/// A required field was missing from a form submission.
#[derive(Debug)]
pub struct MissingFieldError {
    field: String,
}

impl MissingFieldError {
    /// The character view of the missing field's id.
    pub closed spec fn view(self) -> Seq<char> {
        self.field@
    }

    pub(crate) fn new(field: String) -> (r: Self)
        ensures
            r@ == field@,
    {
        MissingFieldError { field }
    }

    /// The missing field's id.
    pub fn field(&self) -> (r: &str)
        ensures
            r@ == self@,
    {
        self.field.as_str()
    }
}

} // verus!
