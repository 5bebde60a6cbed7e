use vstd::prelude::*;

verus! {

use crate::text::{spec_contains, contains_sub};

/// What a search reply's body means: a failed request, the known
/// no-courses banner, a warning banner, or a payload worth decoding.
#[derive(Clone, Copy, Debug, PartialEq, Eq, Structural)]
pub enum ResponseKind {
    Failed,
    NoCourseFound,
    Warning,
    Payload,
}

/// How a search reply is classified: an unsuccessful status fails it;
/// then the known error banner means no course was found; then a warning
/// marker means an unknown error; anything else is a payload.
pub open spec fn spec_classify(success: bool, content: Seq<char>) -> ResponseKind {
    if !success {
        ResponseKind::Failed
    } else if spec_contains(content, "Error: No Data Returned"@) {
        ResponseKind::NoCourseFound
    } else if spec_contains(content, "text-warning"@) {
        ResponseKind::Warning
    } else {
        ResponseKind::Payload
    }
}

/// Classifies the body of a search reply by its status and the banners
/// it carries.
pub fn classify_response(success: bool, content: &str) -> (r: ResponseKind)
    ensures
        r == spec_classify(success, content@),
{
    if !success {
        return ResponseKind::Failed;
    }
    proof {
        reveal_strlit("Error: No Data Returned");
        reveal_strlit("text-warning");
    }
    if contains_sub(content, "Error: No Data Returned") {
        ResponseKind::NoCourseFound
    } else if contains_sub(content, "text-warning") {
        ResponseKind::Warning
    } else {
        ResponseKind::Payload
    }
}

} // verus!
