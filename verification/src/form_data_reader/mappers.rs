//! Typed coercion of text-field values: booleans and `FromStr` primitives,
//! each failure a validation error naming the field.
use vstd::prelude::*;

use crate::form_data_reader::ReadingFromDataError;
use crate::strutil;
use crate::strutil::lower_of;

verus! {

/// Reads `1`, or `true` in any case, as true and `0`, or `false` in any
/// case, as false; any other value is a validation error naming the field.
pub fn to_bool(param_name: &str, value: &str) -> (r: Result<bool, ReadingFromDataError>)
    ensures
        match r {
            Ok(true) => value@ == "1"@ || lower_of(value@) == "true"@,
            Ok(false) => value@ == "0"@ || lower_of(value@) == "false"@,
            Err(e) => {
                &&& !(value@ == "1"@ || lower_of(value@) == "true"@)
                &&& !(value@ == "0"@ || lower_of(value@) == "false"@)
                &&& e matches ReadingFromDataError::ValidationError { field, .. } && field@
                    == param_name@
            },
        },
{
    let lowered = strutil::to_lowercase_string(value);
    if strutil::str_eq(value, "1") || strutil::str_eq(lowered.as_str(), "true") {
        return Ok(true);
    }

    if strutil::str_eq(value, "0") || strutil::str_eq(lowered.as_str(), "false") {
        return Ok(false);
    }

    let err = ReadingFromDataError::ValidationError {
        field: param_name.to_owned(),
        error: "Can not convert value to boolean".to_owned(),
    };

    return Err(err);
}

/// The value parsed by `str::parse`; a failure is a validation error naming
/// the field.
pub fn to_simple_value<T: core::str::FromStr>(param_name: &str, value: &str) -> (r: Result<
    T,
    ReadingFromDataError,
>)
    ensures
        r matches Err(e) ==> (e matches ReadingFromDataError::ValidationError { field, .. }
            && field@ == param_name@),
{
    if let Some(result) = strutil::parse_from_str::<T>(value) {
        return Ok(result);
    }
    let err = ReadingFromDataError::ValidationError {
        field: param_name.to_owned(),
        error: "Can not convert value to simple value".to_owned(),
    };

    return Err(err);
}

} // verus!
