//! The ways in which a schedule response is refused.
use vstd::prelude::*;

verus! {

/// Why a response, or a part of it, could not be turned into tables.
#[derive(Clone, Copy, Debug, PartialEq, Eq, Structural)]
pub enum SbbError {
    /// A field that the response must carry is absent, or its parent is not
    /// an object.
    MissingField,
    /// A value that must be an array is something else.
    NotAnArray,
    /// A leg lacks its departure or its arrival timestamp.
    MissingTimestamp,
    /// A timestamp does not read as `YYYY-MM-DDTHH:MM:SS±HHMM`.
    BadTimestamp,
    /// An itinerary has no legs.
    EmptyItinerary,
    /// The origin or the destination of the query is not given.
    MissingArgument,
    /// The number of connections to fetch is not a decimal `i32`.
    InvalidNumber,
}

} // verus!
