use vstd::prelude::*;

verus! {

/// An action parameter read from the query string.
pub struct FromQuery<T>(T) where T: Default;

/// An action parameter read from the request body.
pub struct FromBody<T>(T) where T: Default;

/// An action parameter read from a submitted form.
pub struct FromForm<T>(T) where T: Default;

} // verus!
