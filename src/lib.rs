//! Condition evaluation for structured events: a registry of condition kinds,
//! a compiler from flat configuration maps to built conditions, resolution of
//! conditions that refer to one another by name, and the field-predicate
//! language of the `check_fields` kind.
use vstd::prelude::*;

pub mod coerce;
pub mod event;
pub mod maps;
pub mod error;
pub mod static_value;
pub mod check_fields;
pub mod not;
pub mod condition;
pub mod config;
pub mod test_def;

verus! {

/// The kind of input a test definition inserts when none is given.
pub fn default_input_type() -> (r: String)
    ensures
        r@ == "raw"@,
{
    String::from_str("raw")
}

} // verus!
