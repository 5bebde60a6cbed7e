//! Decoder for a university course-catalog search response: it walks the
//! markup tree of the response and derives typed course, section, schedule
//! and enrollment records from it, all-or-nothing per course.

use vstd::prelude::*;

pub mod models;
pub mod text;
pub mod queries;
pub mod dom;
pub mod events;
pub mod foreign;
pub mod extract;
pub mod decode;
pub mod laws;
pub mod response;

verus! {

use crate::models::{Status, spec_status};

impl Status {
    /// Decodes a status label. Exactly the four labels `"Open"`,
    /// `"Closed"`, `"Waitlist"` and `"Reserved"` are accepted.
    pub fn from_label(s: &str) -> (r: Option<Status>)
        ensures
            r == spec_status(s@),
    {
        let owned = String::from_str(s);
        if owned == String::from_str("Open") {
            Some(Status::Open)
        } else if owned == String::from_str("Closed") {
            Some(Status::Closed)
        } else if owned == String::from_str("Waitlist") {
            Some(Status::Waitlisted)
        } else if owned == String::from_str("Reserved") {
            Some(Status::Reserved)
        } else {
            None
        }
    }
}

} // verus!
