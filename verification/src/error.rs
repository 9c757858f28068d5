use vstd::prelude::*;

verus! {

/// Errors raised while building geometry arrays.
#[derive(Debug)]
pub enum GeoArrowError {
    /// A failure described by a message.
    General(String),
    /// An offset grew past what the offset type can hold.
    Overflow,
}

/// The message of the error returned when a geometry of the wrong kind is pushed.
pub open spec fn incorrect_type_message() -> Seq<char> {
    "Incorrect type"@
}

/// Builds the error returned when a geometry of the wrong kind is pushed.
pub fn incorrect_type_error() -> (e: GeoArrowError)
    ensures
        e matches GeoArrowError::General(m) && m@ == incorrect_type_message(),
{
    GeoArrowError::General("Incorrect type".to_string())
}

/// The outcome of `r` without its value.
pub open spec fn outcome<T>(r: Result<T, GeoArrowError>) -> Result<(), GeoArrowError> {
    match r {
        Ok(_) => Ok(()),
        Err(e) => Err(e),
    }
}

/// Builds a `General` error carrying `message`.
pub fn general_error(message: &str) -> (e: GeoArrowError)
    ensures
        e matches GeoArrowError::General(m) && m@ == message@,
{
    GeoArrowError::General(message.to_string())
}

} // verus!
