//! One leg of an itinerary, and its extraction from a section of the response.
use vstd::prelude::*;
use crate::error::SbbError;
use crate::json::{get_field_as_string, Json};
use crate::time::{parse_timestamp, parsed_timestamp, Duration, TimeOfDay, Timestamp};

verus! {

/// One leg of an itinerary: where and when it leaves, where and when it
/// arrives, from which platform, and how long it takes.
#[derive(Debug)]
pub struct Connection {
    pub departure_name: String,
    pub departure_date: TimeOfDay,
    pub arrival_name: String,
    pub arrival_date: TimeOfDay,
    pub duration: Duration,
    pub platform: String,
}

/// What a leg is made of: departure station, platform, arrival station, and
/// the departure and arrival timestamps.
pub type LegParts = (Seq<char>, Seq<char>, Seq<char>, Timestamp, Timestamp);

impl Connection {
    /// Times of day that are real clock readings.
    pub open spec fn wf(&self) -> bool {
        &&& self.departure_date.hour < 24
        &&& self.departure_date.minute < 60
        &&& self.departure_date.second < 60
        &&& self.arrival_date.hour < 24
        &&& self.arrival_date.minute < 60
        &&& self.arrival_date.second < 60
    }

    /// This leg is the one made of `p`.
    pub open spec fn is_leg(&self, p: LegParts) -> bool {
        &&& self.departure_name@ == p.0
        &&& self.platform@ == p.1
        &&& self.arrival_name@ == p.2
        &&& self.departure_date == p.3.time_of_day()
        &&& self.arrival_date == p.4.time_of_day()
        &&& self.duration.seconds == p.4.instant() - p.3.instant()
    }

    /// The leg between two stations: the times of day are those of the
    /// timestamps, the duration runs from `departure` to `arrival`.
    pub fn from_parts(
        departure_name: String,
        platform: String,
        arrival_name: String,
        departure: &Timestamp,
        arrival: &Timestamp,
    ) -> (r: Connection)
        requires
            departure.wf(),
            arrival.wf(),
        ensures
            r.is_leg((departure_name@, platform@, arrival_name@, *departure, *arrival)),
            r.wf(),
    {
        Connection {
            departure_name,
            departure_date: departure.time(),
            arrival_name,
            arrival_date: arrival.time(),
            duration: arrival.signed_duration_since(departure),
            platform,
        }
    }
}

/// The texts of `arrival`, `departure`, `platform` and `station.name` in the
/// member `subfield` of a section.
pub open spec fn location_of(section: Json, subfield: Seq<char>) -> Result<
    (Seq<char>, Seq<char>, Seq<char>, Seq<char>),
    SbbError,
> {
    match section.field(subfield) {
        None => Err(SbbError::MissingField),
        Some(f) => match (
            f.field("arrival"@),
            f.field("departure"@),
            f.field("platform"@),
            f.field("station"@),
        ) {
            (Some(a), Some(d), Some(p), Some(st)) => match st.field("name"@) {
                Some(n) => Ok((a.text(), d.text(), p.text(), n.text())),
                None => Err(SbbError::MissingField),
            },
            _ => Err(SbbError::MissingField),
        },
    }
}

/// Whether the member `subfield` of a section carries `arrival`,
/// `departure`, `platform` and `station.name`.
pub fn has_location(connection: &Json, subfield: &str) -> (r: bool)
    ensures
        r == (location_of(*connection, subfield@) is Ok),
{
    match connection.get(subfield) {
        None => false,
        Some(f) => match (f.get("arrival"), f.get("departure"), f.get("platform"), f.get("station")) {
            (Some(_), Some(_), Some(_), Some(st)) => match st.get("name") {
                Some(_) => true,
                None => false,
            },
            _ => false,
        },
    }
}

/// Reads the member `subfield` of a section: its arrival and departure
/// timestamps, its platform and its station's name, in that order. Each of
/// them must be there.
pub fn parse_location(connection: &Json, subfield: &str) -> (r: (String, String, String, String))
    requires
        location_of(*connection, subfield@) is Ok,
    ensures
        r.0@ == location_of(*connection, subfield@)->Ok_0.0,
        r.1@ == location_of(*connection, subfield@)->Ok_0.1,
        r.2@ == location_of(*connection, subfield@)->Ok_0.2,
        r.3@ == location_of(*connection, subfield@)->Ok_0.3,
{
    let field = connection.get(subfield).unwrap();
    let arrival = get_field_as_string(field, "arrival");
    let departure = get_field_as_string(field, "departure");
    let platform = get_field_as_string(field, "platform");
    let station = field.get("station").unwrap();
    let station_name = get_field_as_string(station, "name");
    (arrival, departure, platform, station_name)
}

/// Why a section gives no leg, if it does not.
pub open spec fn leg_error(section: Json) -> Option<SbbError> {
    match (location_of(section, "arrival"@), location_of(section, "departure"@)) {
        (Err(e), _) => Some(e),
        (Ok(_), Err(e)) => Some(e),
        (Ok(arr), Ok(dep)) => if arr.0.len() == 0 || dep.1.len() == 0 {
            Some(SbbError::MissingTimestamp)
        } else if parsed_timestamp(arr.0) is None || parsed_timestamp(dep.1) is None {
            Some(SbbError::BadTimestamp)
        } else {
            None
        },
    }
}

/// The leg of a section: the departure station, platform and timestamp come
/// from its `departure` member, the arrival station and timestamp from its
/// `arrival` member.
pub open spec fn leg_of(section: Json) -> LegParts {
    let arr = location_of(section, "arrival"@)->Ok_0;
    let dep = location_of(section, "departure"@)->Ok_0;
    (dep.3, dep.2, arr.3, parsed_timestamp(dep.1)->0, parsed_timestamp(arr.0)->0)
}

/// The leg that one section of an itinerary describes.
pub fn extract_leg(section: &Json) -> (r: Result<Connection, SbbError>)
    ensures
        match leg_error(*section) {
            Some(e) => r is Err && r->Err_0 == e,
            None => r is Ok && r->Ok_0.is_leg(leg_of(*section)) && r->Ok_0.wf(),
        },
{
    if !has_location(section, "arrival") || !has_location(section, "departure") {
        return Err(SbbError::MissingField);
    }
    let (arrival, _, _, station_name_arrival) = parse_location(section, "arrival");
    let (_, departure, platform, station_name_departure) = parse_location(section, "departure");
    if arrival.as_str().is_empty() || departure.as_str().is_empty() {
        return Err(SbbError::MissingTimestamp);
    }
    let arrival_date = parse_timestamp(arrival.as_str())?;
    let departure_date = parse_timestamp(departure.as_str())?;
    Ok(Connection::from_parts(
        station_name_departure,
        platform,
        station_name_arrival,
        &departure_date,
        &arrival_date,
    ))
}

} // verus!
