use coursepilot::models::Status;
use coursepilot::response::{classify_response, ResponseKind};
use coursepilot::text::{parse_u32_str, parse_u8_str, scan_fullness, split_outer, trim_str};

#[test]
fn parse_u32_plain() {
    assert_eq!(parse_u32_str("18"), Some(18));
    assert_eq!(parse_u32_str("0"), Some(0));
    assert_eq!(parse_u32_str("+7"), Some(7));
}

#[test]
fn parse_u32_rejects_bad_text() {
    assert_eq!(parse_u32_str(""), None);
    assert_eq!(parse_u32_str("1.0"), None);
    assert_eq!(parse_u32_str(" 3"), None);
    assert_eq!(parse_u32_str("-3"), None);
    assert_eq!(parse_u32_str("99999999999999999999"), None);
}

#[test]
fn parse_u8_bounds() {
    assert_eq!(parse_u8_str("3"), Some(3));
    assert_eq!(parse_u8_str("255"), Some(255));
    assert_eq!(parse_u8_str("256"), None);
}

#[test]
fn fullness_patterns() {
    assert_eq!(scan_fullness("18/20"), Some((18, 20, 0)));
    assert_eq!(scan_fullness("20/20 (3)"), Some((20, 20, 3)));
    assert_eq!(scan_fullness("20/20(3)"), Some((20, 20, 3)));
    assert_eq!(scan_fullness("20/20 (3"), Some((20, 20, 0)));
    assert_eq!(scan_fullness("full"), None);
    assert_eq!(scan_fullness("x 7/9 y"), Some((7, 9, 0)));
}

#[test]
fn trim_and_split() {
    assert_eq!(trim_str("  a b \t"), "a b");
    assert_eq!(trim_str("   "), "");
    let (head, tail, found) = split_outer("9:00 AM - 11:00 AM", " - ");
    assert!(found);
    assert_eq!(head, "9:00 AM");
    assert_eq!(tail, "11:00 AM");
    let (whole, same, none_found) = split_outer("no separator", " - ");
    assert!(!none_found);
    assert_eq!(whole, "no separator");
    assert_eq!(same, "no separator");
}

#[test]
fn status_labels_exact() {
    assert_eq!(Status::from_label("Open"), Some(Status::Open));
    assert_eq!(Status::from_label("Closed"), Some(Status::Closed));
    assert_eq!(Status::from_label("Waitlist"), Some(Status::Waitlisted));
    assert_eq!(Status::from_label("Reserved"), Some(Status::Reserved));
    assert_eq!(Status::from_label("OPEN"), None);
    assert_eq!(Status::from_label("Waitlisted"), None);
}

#[test]
fn reply_classification() {
    assert_eq!(classify_response(false, "anything"), ResponseKind::Failed);
    assert_eq!(
        classify_response(true, "<p>Error: No Data Returned</p>"),
        ResponseKind::NoCourseFound
    );
    assert_eq!(
        classify_response(true, "<div class=\"text-warning\">oops</div>"),
        ResponseKind::Warning
    );
    assert_eq!(classify_response(true, "{\"html\": \"...\"}"), ResponseKind::Payload);
}
