pub mod error;
pub mod frame;
pub mod growth;
pub mod laws;
pub mod model;
pub mod nesting;
pub mod ser;
pub mod text;
pub mod value;

use crate::error::Error;
use crate::model::formatted;
use crate::value::Value;
use vstd::prelude::*;

verus! {

/// Formats `obj` as a configuration document.
pub fn to_string(obj: &Value) -> (r: Result<String, Error>)
    ensures
        r matches Ok(text) && text@ == formatted(*obj),
{
    ser::to_string(obj)
}

} // verus!
