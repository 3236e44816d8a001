use sbb::connection::{extract_leg, has_location, parse_location};
use sbb::error::SbbError;
use sbb::json::{get_field_as_string, Json};
use sbb::render::{legs_of, print_table, render_response};

fn s(v: &str) -> Json {
    Json::Str(v.to_string())
}

fn obj(members: Vec<(&str, Json)>) -> Json {
    Json::Object(members.into_iter().map(|(k, v)| (k.to_string(), v)).collect())
}

fn stop(name: &str, arrival: Json, departure: Json, platform: Json) -> Json {
    obj(vec![
        ("station", obj(vec![("id", s("8507000")), ("name", s(name))])),
        ("arrival", arrival),
        ("departure", departure),
        ("platform", platform),
    ])
}

fn section(from: &str, dep: &str, platform: &str, to: &str, arr: &str) -> Json {
    obj(vec![
        ("journey", Json::Null),
        ("departure", stop(from, Json::Null, s(dep), s(platform))),
        ("arrival", stop(to, s(arr), Json::Null, Json::Null)),
    ])
}

fn itinerary(sections: Vec<Json>) -> Json {
    obj(vec![("duration", s("00d01:02:00")), ("sections", Json::Array(sections))])
}

fn response(itineraries: Vec<Json>) -> Json {
    obj(vec![("connections", Json::Array(itineraries))])
}

#[test]
fn bern_to_zurich_two_sections() {
    let doc = response(vec![itinerary(vec![
        section("Bern", "2024-05-01T08:02:00+0200", "7", "Olten", "2024-05-01T08:28:00+0200"),
        section("Olten", "2024-05-01T08:33:00+0200", "9", "Zürich HB", "2024-05-01T09:04:00+0200"),
    ])]);
    let tables = render_response(&doc).unwrap();
    assert_eq!(tables.len(), 1);
    let t = &tables[0];
    assert_eq!(t.title, "=== 08:02:00 -> 09:04:00 ===");
    assert_eq!(t.rows.len(), 2);
    assert_eq!(t.rows[0].from, "Bern");
    assert_eq!(t.rows[0].departure, "08:02:00");
    assert_eq!(t.rows[0].to, "Olten");
    assert_eq!(t.rows[0].arrival, "08:28:00");
    assert_eq!(t.rows[0].platform, "7");
    assert_eq!(t.rows[0].duration, "26min");
    assert_eq!(t.rows[1].from, "Olten");
    assert_eq!(t.rows[1].to, "Zürich HB");
    assert_eq!(t.rows[1].duration, "31min");
}

#[test]
fn one_table_per_connection_one_row_per_section() {
    let doc = response(vec![
        itinerary(vec![section("A", "2024-05-01T10:00:00+0200", "1", "B", "2024-05-01T10:30:00+0200")]),
        itinerary(vec![
            section("A", "2024-05-01T11:00:00+0200", "2", "C", "2024-05-01T11:10:00+0200"),
            section("C", "2024-05-01T11:15:00+0200", "", "D", "2024-05-01T11:40:00+0200"),
            section("D", "2024-05-01T11:45:00+0200", "4", "B", "2024-05-01T12:00:00+0200"),
        ]),
    ]);
    let tables = render_response(&doc).unwrap();
    assert_eq!(tables.len(), 2);
    assert_eq!(tables[0].rows.len(), 1);
    assert_eq!(tables[1].rows.len(), 3);
    assert_eq!(tables[1].title, "=== 11:00:00 -> 12:00:00 ===");
    let froms: Vec<&str> = tables[1].rows.iter().map(|r| r.from.as_str()).collect();
    assert_eq!(froms, vec!["A", "C", "D"]);
    assert_eq!(tables[1].rows[1].platform, "");
}

#[test]
fn duration_across_midnight() {
    let doc = response(vec![itinerary(vec![section(
        "Genève",
        "2024-05-01T23:50:00+0200",
        "3",
        "Lausanne",
        "2024-05-02T00:10:00+0200",
    )])]);
    let tables = render_response(&doc).unwrap();
    assert_eq!(tables[0].rows[0].duration, "20min");
    assert_eq!(tables[0].rows[0].departure, "23:50:00");
    assert_eq!(tables[0].rows[0].arrival, "00:10:00");
}

#[test]
fn duration_across_month_end_and_zones() {
    let leg = extract_leg(&section("X", "2024-02-29T23:30:00+0100", "1", "Y", "2024-03-01T00:15:00+0200")).unwrap();
    assert_eq!(leg.duration.seconds, -900);
    assert_eq!(leg.duration.num_minutes(), -15);
}

#[test]
fn duration_truncates_toward_zero() {
    let leg = extract_leg(&section("X", "2024-05-01T08:00:00+0000", "1", "Y", "2024-05-01T08:01:30+0000")).unwrap();
    assert_eq!(leg.duration.num_minutes(), 1);
    assert_eq!(leg.duration.minutes_text(), "1min");
    let back = extract_leg(&section("X", "2024-05-01T08:01:30+0000", "1", "Y", "2024-05-01T08:00:00+0000")).unwrap();
    assert_eq!(back.duration.num_minutes(), -1);
    assert_eq!(back.duration.minutes_text(), "-1min");
}

#[test]
fn missing_connections_is_refused() {
    let doc = obj(vec![("stations", Json::Array(vec![]))]);
    assert_eq!(render_response(&doc).unwrap_err(), SbbError::MissingField);
    let doc = obj(vec![("connections", s("none"))]);
    assert_eq!(render_response(&doc).unwrap_err(), SbbError::NotAnArray);
    assert_eq!(render_response(&Json::Null).unwrap_err(), SbbError::MissingField);
}

#[test]
fn empty_response_gives_no_tables() {
    assert_eq!(render_response(&response(vec![])).unwrap().len(), 0);
}

#[test]
fn empty_itinerary_is_refused() {
    let doc = response(vec![itinerary(vec![])]);
    assert_eq!(render_response(&doc).unwrap_err(), SbbError::EmptyItinerary);
}

#[test]
fn missing_sections_is_refused() {
    assert_eq!(legs_of(&obj(vec![])).unwrap_err(), SbbError::MissingField);
    assert_eq!(legs_of(&obj(vec![("sections", Json::Null)])).unwrap_err(), SbbError::NotAnArray);
}

#[test]
fn missing_timestamp_is_refused() {
    let sec = obj(vec![
        ("departure", stop("A", Json::Null, Json::Null, s("1"))),
        ("arrival", stop("B", s("2024-05-01T10:00:00+0200"), Json::Null, Json::Null)),
    ]);
    assert_eq!(extract_leg(&sec).unwrap_err(), SbbError::MissingTimestamp);
}

#[test]
fn malformed_timestamp_is_refused() {
    let sec = section("A", "2024-05-01 10:00", "1", "B", "2024-05-01T10:30:00+0200");
    assert_eq!(extract_leg(&sec).unwrap_err(), SbbError::BadTimestamp);
}

#[test]
fn missing_station_field_is_refused() {
    let sec = obj(vec![
        ("departure", obj(vec![("arrival", Json::Null), ("departure", s("x")), ("platform", Json::Null)])),
        ("arrival", stop("B", s("2024-05-01T10:00:00+0200"), Json::Null, Json::Null)),
    ]);
    assert_eq!(extract_leg(&sec).unwrap_err(), SbbError::MissingField);
    assert!(!has_location(&sec, "departure"));
    assert!(!has_location(&sec, "nowhere"));
    assert!(has_location(&sec, "arrival"));
}

#[test]
fn location_fields_in_order() {
    let st = stop("Bern", s("2024-05-01T07:58:00+0200"), s("2024-05-01T08:02:00+0200"), s("7"));
    let sec = obj(vec![("departure", st)]);
    let (arr, dep, platform, name) = parse_location(&sec, "departure");
    assert_eq!(arr, "2024-05-01T07:58:00+0200");
    assert_eq!(dep, "2024-05-01T08:02:00+0200");
    assert_eq!(platform, "7");
    assert_eq!(name, "Bern");
}

#[test]
fn field_as_string() {
    let v = obj(vec![("a", s("text")), ("n", Json::Number("12".to_string())), ("z", Json::Null)]);
    assert_eq!(get_field_as_string(&v, "a"), "text");
    assert_eq!(get_field_as_string(&v, "n"), "");
    assert_eq!(get_field_as_string(&v, "z"), "");
}

#[test]
fn column_titles() {
    let h = sbb::render::Row::header();
    let cells = [h.from, h.departure, h.to, h.arrival, h.platform, h.duration];
    assert_eq!(cells, ["From", "Departure", "To", "Arrival", "Platform", "Duration"]);
}

#[test]
fn table_of_legs_in_order() {
    let legs = legs_of(&itinerary(vec![
        section("Bern", "2024-05-01T08:02:00+0200", "7", "Olten", "2024-05-01T08:28:00+0200"),
        section("Olten", "2024-05-01T08:33:00+0200", "9", "Zürich HB", "2024-05-01T09:04:00+0200"),
    ]))
    .unwrap();
    let t = print_table(&legs);
    assert_eq!(t.title, "=== 08:02:00 -> 09:04:00 ===");
    assert_eq!(t.rows.len(), 2);
    assert_eq!(t.rows[0].from, "Bern");
    assert_eq!(t.rows[1].to, "Zürich HB");
}
