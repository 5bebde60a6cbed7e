use vstd::prelude::*;

verus! {

/// One structural query: an element matches it when its tag is `tag` and,
/// where a class is asked for, its `class` attribute lists that class.
pub struct Query {
    pub tag: String,
    pub class: Option<String>,
}

/// Spec-level image of a `Query`.
pub struct QueryV {
    pub tag: Seq<char>,
    pub class: Option<Seq<char>>,
}

impl Query {
    pub open spec fn deep_view(self) -> QueryV {
        QueryV {
            tag: self.tag@,
            class: match self.class {
                Some(c) => Some(c@),
                None => None,
            },
        }
    }
}

pub open spec fn spec_course_query() -> QueryV {
    QueryV { tag: "section"@, class: Some("course"@) }
}

pub open spec fn spec_title_query() -> QueryV {
    QueryV { tag: "small"@, class: None }
}

pub open spec fn spec_units_query() -> QueryV {
    QueryV { tag: "span"@, class: Some("units"@) }
}

pub open spec fn spec_paragraph_query() -> QueryV {
    QueryV { tag: "p"@, class: None }
}

pub open spec fn spec_section_row_query() -> QueryV {
    QueryV { tag: "tr"@, class: None }
}

pub open spec fn spec_abbreviation_query() -> QueryV {
    QueryV { tag: "abbr"@, class: None }
}

pub open spec fn spec_link_query() -> QueryV {
    QueryV { tag: "a"@, class: None }
}

/// The fixed query set the decoder walks the document with: built once,
/// read-only afterwards, passed by reference into every decode call.
pub struct Queries {
    pub course: Query,
    pub title: Query,
    pub units: Query,
    pub paragraph: Query,
    pub section_row: Query,
    pub abbreviation: Query,
    pub link: Query,
}

impl Queries {
    /// The query set is exactly the fixed one the decoder is specified
    /// over.
    pub open spec fn wf(self) -> bool {
        &&& self.course.deep_view() == spec_course_query()
        &&& self.title.deep_view() == spec_title_query()
        &&& self.units.deep_view() == spec_units_query()
        &&& self.paragraph.deep_view() == spec_paragraph_query()
        &&& self.section_row.deep_view() == spec_section_row_query()
        &&& self.abbreviation.deep_view() == spec_abbreviation_query()
        &&& self.link.deep_view() == spec_link_query()
    }

    /// Builds the query set. Queries never fail; an empty match set is a
    /// valid outcome of running one.
    pub fn new() -> (r: Queries)
        ensures
            r.wf(),
    {
        Queries {
            course: Query {
                tag: String::from_str("section"),
                class: Some(String::from_str("course")),
            },
            title: Query { tag: String::from_str("small"), class: None },
            units: Query { tag: String::from_str("span"), class: Some(String::from_str("units")) },
            paragraph: Query { tag: String::from_str("p"), class: None },
            section_row: Query { tag: String::from_str("tr"), class: None },
            abbreviation: Query { tag: String::from_str("abbr"), class: None },
            link: Query { tag: String::from_str("a"), class: None },
        }
    }
}

} // verus!
