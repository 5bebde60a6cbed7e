use coursepilot::decode::{assemble_section, decode_document, decode_search};
use coursepilot::dom::{Elem, Node};
use coursepilot::extract::{extract_availability, extract_schedule};
use coursepilot::models::{Date, HtmlDecodeError, SearchResponse, Status, TimeOfDay, Weekday};
use coursepilot::queries::Queries;

fn text(s: &str) -> Node {
    Node::Text(s.to_string())
}

fn elem(tag: &str, attrs: Vec<(&str, &str)>, children: Vec<Node>) -> Elem {
    Elem {
        tag: tag.to_string(),
        attrs: attrs.into_iter().map(|(k, v)| (k.to_string(), v.to_string())).collect(),
        children,
    }
}

fn td(children: Vec<Node>) -> Node {
    Node::Elem(elem("td", vec![], children))
}

/// A well-formed section row: number, component, class id, availability,
/// schedule, location, instructors, dates, placeholder, links.
fn good_row(schedule_cell: Vec<Node>) -> Elem {
    elem(
        "tr",
        vec![],
        vec![
            td(vec![text("001")]),
            td(vec![text("Lec")]),
            td(vec![text("12345")]),
            td(vec![text("Open"), text("18/20")]),
            td(schedule_cell),
            td(vec![text("Room 101")]),
            td(vec![Node::Elem(elem(
                "a",
                vec![("href", "http://example.org/jane")],
                vec![text(" Jane Doe ")],
            ))]),
            td(vec![text("01/06/25 - 04/22/25")]),
            td(vec![]),
            td(vec![Node::Elem(elem(
                "a",
                vec![("id", "notes-1"), ("data-content", " bring a pencil ")],
                vec![],
            ))]),
        ],
    )
}

#[test]
fn availability_open_with_default_waitlist() {
    let cell = elem("td", vec![], vec![text("Open"), text("18/20")]);
    let a = extract_availability(&cell).unwrap();
    assert_eq!(a.status, Status::Open);
    assert_eq!(a.enrolled, 18);
    assert_eq!(a.capacity, 20);
    assert_eq!(a.waitlisted, 0);
}

#[test]
fn availability_waitlist_with_count() {
    let cell = elem("td", vec![], vec![text("Waitlist"), text("20/20 (3)")]);
    let a = extract_availability(&cell).unwrap();
    assert_eq!(a.status, Status::Waitlisted);
    assert_eq!(a.enrolled, 20);
    assert_eq!(a.capacity, 20);
    assert_eq!(a.waitlisted, 3);
}

#[test]
fn availability_unknown_status_rejected() {
    let cell = elem("td", vec![], vec![text("open"), text("18/20")]);
    assert!(extract_availability(&cell).is_none());
}

#[test]
fn availability_one_fragment_rejected() {
    let cell = elem("td", vec![], vec![text("Open")]);
    assert!(extract_availability(&cell).is_none());
}

#[test]
fn schedule_tbd_is_no_schedule_not_failure() {
    let queries = Queries::new();
    let cell = elem("td", vec![], vec![text("TBD")]);
    let r = extract_schedule(&cell, &queries);
    assert!(matches!(r, Some(None)));
}

#[test]
fn schedule_days_and_times() {
    let queries = Queries::new();
    let cell = elem(
        "td",
        vec![],
        vec![
            Node::Elem(elem("abbr", vec![("title", "Monday - meet")], vec![text("M")])),
            Node::Elem(elem("abbr", vec![("title", "Wednesday - meet")], vec![text("W")])),
            text("10:15 AM - 11:05 AM"),
        ],
    );
    let s = extract_schedule(&cell, &queries).unwrap().unwrap();
    assert_eq!(s.days, vec![Weekday::Mon, Weekday::Wed]);
    assert_eq!(s.begin_time, TimeOfDay { hour: 10, minute: 15 });
    assert_eq!(s.end_time, TimeOfDay { hour: 11, minute: 5 });
}

#[test]
fn schedule_marker_without_label_rejects_cell() {
    let queries = Queries::new();
    let cell = elem(
        "td",
        vec![],
        vec![
            Node::Elem(elem("abbr", vec![], vec![text("M")])),
            text("10:15 AM - 11:05 AM"),
        ],
    );
    assert!(extract_schedule(&cell, &queries).is_none());
}

#[test]
fn section_row_assembles() {
    let queries = Queries::new();
    let row = good_row(vec![text("TBD")]);
    let s = assemble_section(&row, &queries).unwrap();
    assert_eq!(s.number, 1);
    assert_eq!(s.component, "Lec");
    assert_eq!(s.class_id, 12345);
    assert!(s.schedule.is_none());
    assert_eq!(s.location, "Room 101");
    assert_eq!(s.instructors.len(), 1);
    assert_eq!(s.instructors[0].name, "Jane Doe");
    assert_eq!(
        s.instructors[0].webpage.as_deref(),
        Some("http://example.org/jane")
    );
    assert_eq!(s.begin_date, Date { year: 2025, month: 1, day: 6 });
    assert_eq!(s.end_date, Date { year: 2025, month: 4, day: 22 });
    assert_eq!(s.notes.as_deref(), Some("bring a pencil"));
    assert!(s.requisites.is_none());
    assert!(s.restrictions.is_none());
}

#[test]
fn section_without_availability_cell_rejected() {
    let queries = Queries::new();
    let mut row = good_row(vec![text("TBD")]);
    row.children.remove(3);
    assert!(assemble_section(&row, &queries).is_none());
}

fn course_html(units: &str, rows: &str) -> String {
    format!(
        "<html><body><section class=\"course\" id=\"CSC-297\">\
         <h1><small>Intro to Things</small></h1>\
         <span class=\"units\">{}</span>\
         <p>First paragraph.</p><p>Second paragraph.</p>\
         <table><tr><td>head</td></tr><tr><td>head</td></tr>{}</table>\
         </section></body></html>",
        units, rows
    )
}

fn good_row_html() -> &'static str {
    "<tr><td>001</td><td>Lec</td><td>12345</td>\
     <td>Open<br>18/20</td>\
     <td><abbr title=\"Monday - meet\">M</abbr>\
     <abbr title=\"Wednesday - meet\">W</abbr>10:15 AM - 11:05 AM</td>\
     <td>Room 101</td>\
     <td><a href=\"http://example.org/jane\">Jane Doe</a></td>\
     <td>01/06/25 - 04/22/25</td><td></td>\
     <td><a id=\"reqs-1\" data-content=\"CSC 116\"></a></td></tr>"
}

#[test]
fn empty_document_decodes_to_no_courses() {
    let queries = Queries::new();
    let resp = SearchResponse {
        html: "<html><body><p>nothing here</p></body></html>".to_string(),
        json: "{}".to_string(),
    };
    let courses = decode_search(resp, &queries).unwrap();
    assert!(courses.is_empty());
}

#[test]
fn full_document_decodes_one_course_per_block() {
    let queries = Queries::new();
    let one = course_html("Units: 3", good_row_html());
    let two = one.replace("CSC-297", "MA-141");
    let html = format!(
        "<html><body>{}{}</body></html>",
        &one["<html><body>".len()..one.len() - "</body></html>".len()],
        &two["<html><body>".len()..two.len() - "</body></html>".len()]
    );
    let resp = SearchResponse { html, json: "{}".to_string() };
    let courses = decode_search(resp, &queries).unwrap();
    assert_eq!(courses.len(), 2);
    assert_eq!(courses[0].subject, "CSC");
    assert_eq!(courses[0].code, 297);
    assert_eq!(courses[1].subject, "MA");
    assert_eq!(courses[1].code, 141);
    assert_eq!(courses[0].name, "Intro to Things");
    assert_eq!(courses[0].credits, 3);
    assert_eq!(courses[0].description, "First paragraph.\nSecond paragraph.");
    assert_eq!(courses[0].sections.len(), 1);
    let s = &courses[0].sections[0];
    assert_eq!(s.number, 1);
    assert_eq!(s.class_id, 12345);
    assert_eq!(s.availability.status, Status::Open);
    assert_eq!(s.availability.enrolled, 18);
    assert_eq!(s.availability.capacity, 20);
    let sched = s.schedule.as_ref().unwrap();
    assert_eq!(sched.days, vec![Weekday::Mon, Weekday::Wed]);
    assert_eq!(sched.begin_time, TimeOfDay { hour: 10, minute: 15 });
    assert_eq!(sched.end_time, TimeOfDay { hour: 11, minute: 5 });
    assert_eq!(s.begin_date, Date { year: 2025, month: 1, day: 6 });
    assert_eq!(s.end_date, Date { year: 2025, month: 4, day: 22 });
    assert_eq!(s.requisites.as_deref(), Some("CSC 116"));
}

#[test]
fn integer_credits_decode() {
    let queries = Queries::new();
    let resp = SearchResponse {
        html: course_html("Units: 3", good_row_html()),
        json: "{}".to_string(),
    };
    let courses = decode_search(resp, &queries).unwrap();
    assert_eq!(courses[0].credits, 3);
}

#[test]
fn non_integer_credits_fail_whole_course() {
    let queries = Queries::new();
    let resp = SearchResponse {
        html: course_html("Units: 1.0-3.0", good_row_html()),
        json: "{\"k\":1}".to_string(),
    };
    match decode_search(resp, &queries) {
        Err(HtmlDecodeError::MalformedCourse(orig)) => {
            assert!(orig.html.contains("Units: 1.0-3.0"));
            assert_eq!(orig.json, "{\"k\":1}");
        },
        Ok(_) => panic!("a non-integer credits text must fail the decode"),
    }
}

#[test]
fn missing_availability_fails_enclosing_course() {
    let queries = Queries::new();
    let bad_row = "<tr><td>002</td><td>Lab</td><td>54321</td>\
     <td>TBD</td><td>Room 102</td><td></td>\
     <td>01/06/25 - 04/22/25</td><td></td><td></td></tr>";
    let rows = format!("{}{}", good_row_html(), bad_row);
    let resp = SearchResponse {
        html: course_html("Units: 3", &rows),
        json: "{}".to_string(),
    };
    assert!(matches!(
        decode_search(resp, &queries),
        Err(HtmlDecodeError::MalformedCourse(_))
    ));
}

#[test]
fn tbd_schedule_inside_document() {
    let queries = Queries::new();
    let row = "<tr><td>001</td><td>Lec</td><td>12345</td>\
     <td>Open<br>18/20</td><td>TBD</td><td>Room 101</td>\
     <td></td><td>01/06/25 - 04/22/25</td><td></td><td></td></tr>";
    let resp = SearchResponse {
        html: course_html("Units: 3", row),
        json: "{}".to_string(),
    };
    let courses = decode_search(resp, &queries).unwrap();
    assert!(courses[0].sections[0].schedule.is_none());
    assert!(courses[0].sections[0].instructors.is_empty());
}

#[test]
fn decoding_twice_yields_identical_output() {
    let queries = Queries::new();
    let make = || SearchResponse {
        html: course_html("Units: 3", good_row_html()),
        json: "{}".to_string(),
    };
    let first = decode_search(make(), &queries).unwrap();
    let second = decode_search(make(), &queries).unwrap();
    assert_eq!(first, second);
}

#[test]
fn decode_document_on_built_tree() {
    let queries = Queries::new();
    let block = elem(
        "section",
        vec![("class", "course"), ("id", "CSC-111")],
        vec![
            Node::Elem(elem("small", vec![], vec![text("A Course")])),
            Node::Elem(elem("span", vec![("class", "units")], vec![text("Units: 4")])),
            Node::Elem(elem("tr", vec![], vec![])),
            Node::Elem(elem("tr", vec![], vec![])),
            Node::Elem(good_row(vec![text("TBD")])),
        ],
    );
    let doc = vec![Node::Elem(block)];
    let courses = decode_document(&doc, &queries).unwrap();
    assert_eq!(courses.len(), 1);
    assert_eq!(courses[0].subject, "CSC");
    assert_eq!(courses[0].code, 111);
    assert_eq!(courses[0].credits, 4);
    assert_eq!(courses[0].description, "");
    assert_eq!(courses[0].sections.len(), 1);
}
