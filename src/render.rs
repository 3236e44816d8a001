//! Itineraries of a schedule response shaped into tables of text.
use vstd::prelude::*;
use crate::connection::{extract_leg, leg_error, leg_of, Connection, LegParts};
use crate::error::SbbError;
use crate::json::Json;
use crate::time::{whole_minutes, TimeOfDay};
use crate::text::int_text;

verus! {

/// One line of an itinerary's table, one cell per column.
#[derive(Debug)]
pub struct Row {
    pub from: String,
    pub departure: String,
    pub to: String,
    pub arrival: String,
    pub platform: String,
    pub duration: String,
}

/// The table of one itinerary: a title with its overall time range, then one
/// row per leg.
#[derive(Debug)]
pub struct ItineraryTable {
    pub title: String,
    pub rows: Vec<Row>,
}

/// The cells of the row for the leg made of `p`.
pub open spec fn row_shows(r: Row, p: LegParts) -> bool {
    &&& r.from@ == p.0
    &&& r.departure@ == p.3.time_of_day().text()
    &&& r.to@ == p.2
    &&& r.arrival@ == p.4.time_of_day().text()
    &&& r.platform@ == p.1
    &&& r.duration@ == int_text(whole_minutes(p.4.instant() - p.3.instant())) + "min"@
}

impl Row {
    /// The column titles of an itinerary's table.
    pub fn header() -> (r: Row)
        ensures
            r.from@ == "From"@,
            r.departure@ == "Departure"@,
            r.to@ == "To"@,
            r.arrival@ == "Arrival"@,
            r.platform@ == "Platform"@,
            r.duration@ == "Duration"@,
    {
        Row {
            from: String::from_str("From"),
            departure: String::from_str("Departure"),
            to: String::from_str("To"),
            arrival: String::from_str("Arrival"),
            platform: String::from_str("Platform"),
            duration: String::from_str("Duration"),
        }
    }
}

/// The cells of the row for the leg `c`.
pub open spec fn row_matches(r: Row, c: Connection) -> bool {
    &&& r.from@ == c.departure_name@
    &&& r.departure@ == c.departure_date.text()
    &&& r.to@ == c.arrival_name@
    &&& r.arrival@ == c.arrival_date.text()
    &&& r.platform@ == c.platform@
    &&& r.duration@ == int_text(c.duration.minutes()) + "min"@
}

/// `=== start -> end ===`.
pub open spec fn title_text(start: TimeOfDay, end: TimeOfDay) -> Seq<char> {
    "=== "@ + start.text() + " -> "@ + end.text() + " ==="@
}

/// The row of one leg.
pub fn row_of(c: &Connection) -> (r: Row)
    requires
        c.wf(),
    ensures
        row_matches(r, *c),
{
    Row {
        from: c.departure_name.clone(),
        departure: c.departure_date.to_text(),
        to: c.arrival_name.clone(),
        arrival: c.arrival_date.to_text(),
        platform: c.platform.clone(),
        duration: c.duration.minutes_text(),
    }
}

/// The departure time of the first leg and the arrival time of the last.
pub fn get_range(connections: &Vec<Connection>) -> (r: (TimeOfDay, TimeOfDay))
    requires
        connections@.len() > 0,
    ensures
        r.0 == connections@[0].departure_date,
        r.1 == connections@.last().arrival_date,
{
    (connections[0].departure_date, connections[connections.len() - 1].arrival_date)
}

/// The title line of an itinerary running from `start` to `end`.
pub fn range_title(start: &TimeOfDay, end: &TimeOfDay) -> (r: String)
    requires
        start.hour < 100 && start.minute < 100 && start.second < 100,
        end.hour < 100 && end.minute < 100 && end.second < 100,
    ensures
        r@ == title_text(*start, *end),
{
    proof {
        reveal_strlit("=== ");
        reveal_strlit(" -> ");
        reveal_strlit(" ===");
    }
    let mut s = String::from_str("=== ");
    s.append(start.to_text().as_str());
    s.append(" -> ");
    s.append(end.to_text().as_str());
    s.append(" ===");
    s
}

/// `t` is the table of the legs `legs`: the range from the first departure
/// to the last arrival, and one row per leg in order.
pub open spec fn table_for_legs(t: ItineraryTable, legs: Seq<Connection>) -> bool {
    &&& t.title@ == title_text(legs[0].departure_date, legs.last().arrival_date)
    &&& t.rows@.len() == legs.len()
    &&& forall|i: int| 0 <= i < legs.len() ==> row_matches(#[trigger] t.rows@[i], legs[i])
}

/// The table of an itinerary, its legs in the order given; there must be at
/// least one leg.
pub fn print_table(connections: &Vec<Connection>) -> (r: ItineraryTable)
    requires
        connections@.len() > 0,
        forall|i: int| 0 <= i < connections@.len() ==> (#[trigger] connections@[i]).wf(),
    ensures
        table_for_legs(r, connections@),
{
    let (start, end) = get_range(connections);
    let title = range_title(&start, &end);
    let mut rows: Vec<Row> = Vec::new();
    let mut i: usize = 0;
    while i < connections.len()
        invariant
            i <= connections@.len(),
            rows@.len() == i,
            forall|k: int| 0 <= k < connections@.len() ==> (#[trigger] connections@[k]).wf(),
            forall|k: int| 0 <= k < i ==> row_matches(#[trigger] rows@[k], connections@[k]),
        decreases connections@.len() - i,
    {
        let row = row_of(&connections[i]);
        rows.push(row);
        i = i + 1;
    }
    ItineraryTable { title, rows }
}

/// The table of legs made from sections, one leg per section in order, shows
/// each section in its own row and in the same order: the first row starts
/// at the first section's departure station, the last ends at the last
/// section's arrival station.
pub proof fn lemma_table_for_sections(t: ItineraryTable, legs: Seq<Connection>, s: Seq<Json>)
    requires
        s.len() > 0,
        legs.len() == s.len(),
        forall|i: int| 0 <= i < s.len() ==> (#[trigger] legs[i]).is_leg(leg_of(s[i])),
        table_for_legs(t, legs),
    ensures
        table_shows(t, s),
        t.rows@[0].from@ == leg_of(s[0]).0,
        t.rows@.last().to@ == leg_of(s.last()).2,
{
    assert forall|j: int| 0 <= j < s.len() implies row_shows(#[trigger] t.rows@[j], leg_of(s[j])) by {
        assert(legs[j].is_leg(leg_of(s[j])));
        assert(row_matches(t.rows@[j], legs[j]));
    }
    assert(legs[0].is_leg(leg_of(s[0])));
    assert(legs.last().is_leg(leg_of(s.last())));
    assert(row_shows(t.rows@[0], leg_of(s[0])));
    assert(row_shows(t.rows@[s.len() - 1], leg_of(s[s.len() - 1])));
}

/// The sections of an itinerary.
pub open spec fn sections_of(itinerary: Json) -> Result<Seq<Json>, SbbError> {
    match itinerary.field("sections"@) {
        None => Err(SbbError::MissingField),
        Some(Json::Array(a)) => Ok(a@),
        Some(_) => Err(SbbError::NotAnArray),
    }
}

/// Why the first section that gives no leg gives none, if one does not.
pub open spec fn first_leg_error(sections: Seq<Json>) -> Option<SbbError>
    decreases sections.len(),
{
    if sections.len() == 0 {
        None
    } else if leg_error(sections[0]) is Some {
        leg_error(sections[0])
    } else {
        first_leg_error(sections.drop_first())
    }
}

/// The legs of an itinerary, one per section, in the order of its sections.
pub fn legs_of(itinerary: &Json) -> (r: Result<Vec<Connection>, SbbError>)
    ensures
        match sections_of(*itinerary) {
            Err(e) => r is Err && r->Err_0 == e,
            Ok(s) => match first_leg_error(s) {
                Some(e) => r is Err && r->Err_0 == e,
                None => {
                    &&& r is Ok
                    &&& r->Ok_0@.len() == s.len()
                    &&& forall|i: int|
                        0 <= i < s.len() ==> (#[trigger] r->Ok_0@[i]).is_leg(leg_of(s[i]))
                            && r->Ok_0@[i].wf()
                },
            },
        },
{
    let sections = match itinerary.get("sections") {
        Some(v) => match v.as_array() {
            Some(a) => a,
            None => return Err(SbbError::NotAnArray),
        },
        None => return Err(SbbError::MissingField),
    };
    let mut legs: Vec<Connection> = Vec::new();
    let mut i: usize = 0;
    assert(sections@.skip(0) =~= sections@);
    while i < sections.len()
        invariant
            i <= sections@.len(),
            sections_of(*itinerary) == Ok::<Seq<Json>, SbbError>(sections@),
            first_leg_error(sections@) == first_leg_error(sections@.skip(i as int)),
            legs@.len() == i,
            forall|k: int|
                0 <= k < i ==> (#[trigger] legs@[k]).is_leg(leg_of(sections@[k])) && legs@[k].wf(),
        decreases sections@.len() - i,
    {
        assert(sections@.skip(i as int).drop_first() =~= sections@.skip(i as int + 1));
        assert(sections@.skip(i as int)[0] == sections@[i as int]);
        let leg = extract_leg(&sections[i])?;
        legs.push(leg);
        i = i + 1;
    }
    assert(sections@.skip(i as int).len() == 0);
    Ok(legs)
}

/// Why an itinerary gives no table, if it does not.
pub open spec fn itinerary_error(itinerary: Json) -> Option<SbbError> {
    match sections_of(itinerary) {
        Err(e) => Some(e),
        Ok(s) => if first_leg_error(s) is Some {
            first_leg_error(s)
        } else if s.len() == 0 {
            Some(SbbError::EmptyItinerary)
        } else {
            None
        },
    }
}

/// The table for the legs of the sections `s`: the range from the first
/// departure to the last arrival, and one row per section in order.
pub open spec fn table_shows(t: ItineraryTable, s: Seq<Json>) -> bool {
    &&& t.title@ == title_text(leg_of(s[0]).3.time_of_day(), leg_of(s.last()).4.time_of_day())
    &&& t.rows@.len() == s.len()
    &&& forall|j: int| 0 <= j < s.len() ==> row_shows(#[trigger] t.rows@[j], leg_of(s[j]))
}

/// The table of one itinerary of the response.
pub fn itinerary_table(itinerary: &Json) -> (r: Result<ItineraryTable, SbbError>)
    ensures
        match itinerary_error(*itinerary) {
            Some(e) => r is Err && r->Err_0 == e,
            None => r is Ok && table_shows(r->Ok_0, sections_of(*itinerary)->Ok_0),
        },
{
    let legs = legs_of(itinerary)?;
    if legs.len() == 0 {
        return Err(SbbError::EmptyItinerary);
    }
    let table = print_table(&legs);
    proof {
        lemma_table_for_sections(table, legs@, sections_of(*itinerary)->Ok_0);
    }
    Ok(table)
}

/// The itineraries of a response.
pub open spec fn connections_of(response: Json) -> Result<Seq<Json>, SbbError> {
    match response.field("connections"@) {
        None => Err(SbbError::MissingField),
        Some(Json::Array(a)) => Ok(a@),
        Some(_) => Err(SbbError::NotAnArray),
    }
}

/// Why the first itinerary that gives no table gives none, if one does not.
pub open spec fn first_itinerary_error(its: Seq<Json>) -> Option<SbbError>
    decreases its.len(),
{
    if its.len() == 0 {
        None
    } else if itinerary_error(its[0]) is Some {
        itinerary_error(its[0])
    } else {
        first_itinerary_error(its.drop_first())
    }
}

/// Why a response gives no tables, if it does not.
pub open spec fn response_error(response: Json) -> Option<SbbError> {
    match connections_of(response) {
        Err(e) => Some(e),
        Ok(c) => first_itinerary_error(c),
    }
}

/// The tables of every itinerary of a response: one table per itinerary and
/// one row per section, each in the order of the response. Nothing is
/// rendered from a response that lacks its `connections` array.
pub fn render_response(response: &Json) -> (r: Result<Vec<ItineraryTable>, SbbError>)
    ensures
        match response_error(*response) {
            Some(e) => r is Err && r->Err_0 == e,
            None => {
                let c = connections_of(*response)->Ok_0;
                &&& r is Ok
                &&& r->Ok_0@.len() == c.len()
                &&& forall|i: int|
                    0 <= i < c.len() ==> table_shows(
                        #[trigger] r->Ok_0@[i],
                        sections_of(c[i])->Ok_0,
                    )
            },
        },
{
    let its = match response.get("connections") {
        Some(v) => match v.as_array() {
            Some(a) => a,
            None => return Err(SbbError::NotAnArray),
        },
        None => return Err(SbbError::MissingField),
    };
    let mut tables: Vec<ItineraryTable> = Vec::new();
    let mut i: usize = 0;
    assert(its@.skip(0) =~= its@);
    while i < its.len()
        invariant
            i <= its@.len(),
            connections_of(*response) == Ok::<Seq<Json>, SbbError>(its@),
            first_itinerary_error(its@) == first_itinerary_error(its@.skip(i as int)),
            tables@.len() == i,
            forall|k: int|
                0 <= k < i ==> table_shows(#[trigger] tables@[k], sections_of(its@[k])->Ok_0),
        decreases its@.len() - i,
    {
        assert(its@.skip(i as int).drop_first() =~= its@.skip(i as int + 1));
        assert(its@.skip(i as int)[0] == its@[i as int]);
        let table = itinerary_table(&its[i])?;
        tables.push(table);
        i = i + 1;
    }
    assert(its@.skip(i as int).len() == 0);
    Ok(tables)
}

} // verus!
