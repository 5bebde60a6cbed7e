use vstd::prelude::*;

verus! {

use crate::events::{RawEvent, EventV, events_view};
use crate::models::{Date, TimeOfDay, Weekday};

/// The event stream of the markup document's root element: what
/// traversing the parsed tree yields. It depends on the markup text
/// alone.
pub uninterp spec fn events_of(s: Seq<char>) -> Seq<EventV>;

/// Relies on scraper's `Html::parse_document` and ego-tree's traversal:
/// parsing never fails, a parsed document always has a root element, and
/// the traversal of that element depends on the markup text alone. The
/// parser's text buffer (tendril) holds its byte length in 32 bits and
/// panics beyond that; a character is at most four bytes, so text under a
/// quarter of that cap is safe, and longer text is excluded here.
#[verifier::external_body]
pub(crate) fn parse_document_events(html: &str) -> (r: Vec<RawEvent>)
    requires
        html@.len() * 4 <= u32::MAX as int,
    ensures
        events_view(r@) == events_of(html@),
{
    let doc = scraper::Html::parse_document(html);
    doc.root_element().traverse().filter_map(|edge| match edge {
        ego_tree::iter::Edge::Open(n) => match n.value() {
            scraper::Node::Element(e) => Some(RawEvent::Open(
                e.name().to_string(),
                e.attrs().map(|(k, v)| (k.to_string(), v.to_string())).collect(),
            )),
            scraper::Node::Text(t) => Some(RawEvent::Text(t.to_string())),
            _ => None,
        },
        ego_tree::iter::Edge::Close(n) => match n.value() {
            scraper::Node::Element(_) => Some(RawEvent::Close),
            _ => None,
        },
    }).collect()
}

/// The date that chrono's `"%m/%d/%y"` parser reads out of a text, if
/// any. It depends on the text alone.
pub uninterp spec fn date_of(s: Seq<char>) -> Option<Date>;

/// Relies on chrono's `NaiveDate::parse_from_str` with the fixed
/// `"%m/%d/%y"` format: the result depends on the text alone, and a
/// parsed date carries a month in 1..=12 and a day in 1..=31.
#[verifier::external_body]
pub(crate) fn parse_date_mdy(s: &str) -> (r: Option<Date>)
    ensures
        r == date_of(s@),
        r matches Some(d) ==> d.wf(),
{
    match chrono::NaiveDate::parse_from_str(s, "%m/%d/%y") {
        Ok(d) => Some(Date {
            year: chrono::Datelike::year(&d),
            month: chrono::Datelike::month(&d) as u8,
            day: chrono::Datelike::day(&d) as u8,
        }),
        Err(_) => None,
    }
}

/// The time of day that chrono's 12-hour-clock parser reads out of a
/// text, if any. It depends on the text alone.
pub uninterp spec fn time_of(s: Seq<char>) -> Option<TimeOfDay>;

/// Relies on chrono's `NaiveTime::parse_from_str` with the fixed
/// `"%I:%M %p"` format: the result depends on the text alone, and a
/// parsed time carries an hour below 24 and a minute below 60.
#[verifier::external_body]
pub(crate) fn parse_time_12h(s: &str) -> (r: Option<TimeOfDay>)
    ensures
        r == time_of(s@),
        r matches Some(t) ==> t.wf(),
{
    match chrono::NaiveTime::parse_from_str(s, "%I:%M %p") {
        Ok(t) => Some(TimeOfDay {
            hour: chrono::Timelike::hour(&t) as u8,
            minute: chrono::Timelike::minute(&t) as u8,
        }),
        Err(_) => None,
    }
}

/// The weekday that chrono's weekday parser reads out of a text, if any.
/// It depends on the text alone.
pub uninterp spec fn weekday_of(s: Seq<char>) -> Option<Weekday>;

/// Relies on chrono's `Weekday` parser (its `FromStr` impl): the result
/// depends on the text alone.
#[verifier::external_body]
pub(crate) fn parse_weekday_name(s: &str) -> (r: Option<Weekday>)
    ensures
        r == weekday_of(s@),
{
    match s.parse::<chrono::Weekday>() {
        Ok(chrono::Weekday::Mon) => Some(Weekday::Mon),
        Ok(chrono::Weekday::Tue) => Some(Weekday::Tue),
        Ok(chrono::Weekday::Wed) => Some(Weekday::Wed),
        Ok(chrono::Weekday::Thu) => Some(Weekday::Thu),
        Ok(chrono::Weekday::Fri) => Some(Weekday::Fri),
        Ok(chrono::Weekday::Sat) => Some(Weekday::Sat),
        Ok(chrono::Weekday::Sun) => Some(Weekday::Sun),
        Err(_) => None,
    }
}

} // verus!
