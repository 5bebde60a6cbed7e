use vstd::prelude::*;

verus! {

use crate::dom::{
    Node, Elem, ElemV, NodeV, forest_view, elems_view, sel_nodes, spec_child_elems, spec_texts,
    spec_attr, join_with, element_children, select_elem, select_forest, text_content, get_attr,
    join_strings,
};
use crate::events::{build_forest, events_view, spec_forest};
use crate::extract::{
    spec_availability, spec_schedule, spec_dates, spec_instructors, spec_supp,
    extract_availability, extract_schedule, extract_dates, extract_instructors,
    extract_supplements,
};
use crate::models::{
    Course, CourseV, Section, SectionV, SearchResponse, HtmlDecodeError, courses_view,
    sections_view,
};
use crate::queries::{
    Queries, spec_course_query, spec_title_query, spec_units_query, spec_paragraph_query,
    spec_section_row_query, spec_link_query,
};
use crate::text::{
    spec_parse_u32, spec_parse_u8, spec_trim, spec_before_first, spec_after_last, parse_u32_str,
    parse_u8_str, trim_str, split_outer,
};
use crate::foreign::{events_of, parse_document_events};

/// The whole text below an element, fragments concatenated in order.
pub open spec fn elem_text(e: ElemV) -> Seq<char> {
    join_with(spec_texts(e), Seq::empty())
}

/// What assembling one section row returns: its child elements read in
/// fixed positional order — section number, component, class identifier,
/// availability, schedule, location, instructors, date range, one skipped
/// placeholder, then the links carrying notes, requisites and
/// restrictions. A missing child or a rejected field rejects the row,
/// with no record of which field failed.
pub open spec fn spec_section(row: ElemV) -> Option<SectionV> {
    let kids = spec_child_elems(row);
    if kids.len() < 10 {
        None
    } else {
        match spec_parse_u32(elem_text(kids[0])) {
            None => None,
            Some(number) => match spec_parse_u32(elem_text(kids[2])) {
                None => None,
                Some(class_id) => match spec_availability(kids[3]) {
                    None => None,
                    Some(avail) => match spec_schedule(kids[4]) {
                        None => None,
                        Some(sched) => match spec_dates(kids[7]) {
                            None => None,
                            Some(dates) => {
                                let supp = spec_supp(
                                    sel_nodes(kids[9].children, 0, spec_link_query()),
                                    0,
                                    (None::<Seq<char>>, None::<Seq<char>>, None::<Seq<char>>),
                                );
                                Some(
                                    SectionV {
                                        number,
                                        component: elem_text(kids[1]),
                                        class_id,
                                        availability: avail,
                                        schedule: sched,
                                        location: elem_text(kids[5]),
                                        instructors: spec_instructors(kids[6]),
                                        begin_date: dates.0,
                                        end_date: dates.1,
                                        notes: supp.0,
                                        requisites: supp.1,
                                        restrictions: supp.2,
                                    },
                                )
                            },
                        },
                    },
                },
            },
        }
    }
}

/// Assembles one section from its row.
pub fn assemble_section(row: &Elem, queries: &Queries) -> (r: Option<Section>)
    requires
        queries.wf(),
    ensures
        match r {
            Some(s) => spec_section(row.deep_view()) == Some(s.deep_view()),
            None => spec_section(row.deep_view()) is None,
        },
{
    let kids = element_children(row);
    let ghost kv = elems_view(kids@);
    if kids.len() < 10 {
        return None;
    }
    proof {
        assert forall|k: int| 0 <= k < 10 implies kv[k] == kids@[k].deep_view() by {}
    }
    let number = match parse_u32_str(text_content(&kids[0]).as_str()) {
        Some(n) => n,
        None => {
            return None;
        },
    };
    let component = text_content(&kids[1]);
    let class_id = match parse_u32_str(text_content(&kids[2]).as_str()) {
        Some(n) => n,
        None => {
            return None;
        },
    };
    let availability = match extract_availability(&kids[3]) {
        Some(a) => a,
        None => {
            return None;
        },
    };
    let schedule = match extract_schedule(&kids[4], queries) {
        Some(os) => os,
        None => {
            return None;
        },
    };
    let location = text_content(&kids[5]);
    let instructors = extract_instructors(&kids[6]);
    let dates = match extract_dates(&kids[7]) {
        Some(d) => d,
        None => {
            return None;
        },
    };
    let supp = extract_supplements(&kids[9], queries);
    let s = Section {
        number,
        component,
        class_id,
        availability,
        schedule,
        location,
        instructors,
        begin_date: dates.0,
        end_date: dates.1,
        notes: supp.0,
        requisites: supp.1,
        restrictions: supp.2,
    };
    proof {
        assert(s.deep_view().schedule == spec_schedule(kv[4]).unwrap());
    }
    Some(s)
}

/// The subject and the numeric code a course block's identifier carries:
/// the text before the first `'-'` taken verbatim, the text after the
/// last `'-'` read as a number.
pub open spec fn spec_identity(e: ElemV) -> Option<(Seq<char>, u32)> {
    match spec_attr(e, "id"@) {
        None => None,
        Some(id) => match spec_parse_u32(spec_after_last(id, "-"@)) {
            None => None,
            Some(code) => Some((spec_before_first(id, "-"@), code)),
        },
    }
}

/// The concatenated text of each element, in order.
pub open spec fn para_texts(ps: Seq<ElemV>, i: int) -> Seq<Seq<char>>
    decreases ps.len() - i + 1,
{
    if i < 0 || i >= ps.len() {
        Seq::empty()
    } else {
        seq![elem_text(ps[i])] + para_texts(ps, i + 1)
    }
}

/// The sections of the rows `rows[i..]`, in row order; the first rejected
/// row rejects them all.
pub open spec fn spec_sections(rows: Seq<ElemV>, i: int) -> Option<Seq<SectionV>>
    decreases rows.len() - i + 1,
{
    if i < 0 || i >= rows.len() {
        Some(Seq::empty())
    } else {
        match spec_section(rows[i]) {
            None => None,
            Some(s) => match spec_sections(rows, i + 1) {
                None => None,
                Some(rest) => Some(seq![s] + rest),
            },
        }
    }
}

/// What assembling one course block returns: subject and code from the
/// identifier attribute, the title from the first title element, the
/// credits from the trailing number of the units label, the description
/// from the paragraphs joined by newlines, and the sections from the rows
/// after the two leading header rows. A missing field, a rejected parse
/// or a rejected row rejects the whole block.
pub open spec fn spec_course(block: ElemV) -> Option<CourseV> {
    match spec_identity(block) {
        None => None,
        Some(ident) => {
            let titles = sel_nodes(block.children, 0, spec_title_query());
            if titles.len() == 0 {
                None
            } else {
                let units = sel_nodes(block.children, 0, spec_units_query());
                if units.len() == 0 {
                    None
                } else {
                    match spec_parse_u8(spec_trim(spec_after_last(elem_text(units[0]), ":"@))) {
                        None => None,
                        Some(credits) => {
                            let description = join_with(
                                para_texts(sel_nodes(block.children, 0, spec_paragraph_query()), 0),
                                "\n"@,
                            );
                            match spec_sections(
                                sel_nodes(block.children, 0, spec_section_row_query()),
                                2,
                            ) {
                                None => None,
                                Some(sections) => Some(
                                    CourseV {
                                        subject: ident.0,
                                        code: ident.1,
                                        name: elem_text(titles[0]),
                                        description,
                                        credits,
                                        sections,
                                    },
                                ),
                            }
                        },
                    }
                }
            }
        },
    }
}

/// Assembles one course from its block.
#[verifier::loop_isolation(false)]
#[verifier::rlimit(50)]
pub fn assemble_course(block: &Elem, queries: &Queries) -> (r: Option<Course>)
    requires
        queries.wf(),
    ensures
        match r {
            Some(c) => spec_course(block.deep_view()) == Some(c.deep_view()),
            None => spec_course(block.deep_view()) is None,
        },
{
    let ghost bv = block.deep_view();
    let id = match get_attr(block, "id") {
        Some(v) => v,
        None => {
            return None;
        },
    };
    proof {
        reveal_strlit("-");
    }
    let split = split_outer(id.as_str(), "-");
    let subject = split.0;
    let code = match parse_u32_str(split.1.as_str()) {
        Some(c) => c,
        None => {
            return None;
        },
    };
    let titles = select_elem(block, &queries.title);
    if titles.len() == 0 {
        return None;
    }
    proof {
        assert(elems_view(titles@)[0] == titles@[0].deep_view());
    }
    let name = text_content(&titles[0]);
    let units = select_elem(block, &queries.units);
    if units.len() == 0 {
        return None;
    }
    proof {
        assert(elems_view(units@)[0] == units@[0].deep_view());
        reveal_strlit(":");
    }
    let usplit = split_outer(text_content(&units[0]).as_str(), ":");
    let credits = match parse_u8_str(trim_str(usplit.1.as_str()).as_str()) {
        Some(c) => c,
        None => {
            return None;
        },
    };
    let paragraphs = select_elem(block, &queries.paragraph);
    let ghost pv = elems_view(paragraphs@);
    let mut texts: Vec<String> = Vec::new();
    proof {
        assert(texts.deep_view() + para_texts(pv, 0) =~= para_texts(pv, 0));
    }
    let mut i: usize = 0;
    while i < paragraphs.len()
        invariant
            i <= paragraphs@.len(),
            pv == elems_view(paragraphs@),
            texts.deep_view() + para_texts(pv, i as int) == para_texts(pv, 0),
        decreases paragraphs@.len() - i,
    {
        assert(pv[i as int] == paragraphs@[i as int].deep_view());
        let ghost before = texts.deep_view();
        let t = text_content(&paragraphs[i]);
        texts.push(t);
        proof {
            assert(texts.deep_view() =~= before + seq![elem_text(pv[i as int])]);
            assert((before + seq![elem_text(pv[i as int])]) + para_texts(pv, i + 1) =~= before
                + para_texts(pv, i as int));
        }
        i += 1;
    }
    proof {
        assert(para_texts(pv, paragraphs@.len() as int) =~= Seq::<Seq<char>>::empty());
        assert(texts.deep_view() + Seq::<Seq<char>>::empty() =~= texts.deep_view());
    }
    let description = join_strings(&texts, "\n");
    let rows = select_elem(block, &queries.section_row);
    let ghost rv = elems_view(rows@);
    let mut sections: Vec<Section> = Vec::new();
    proof {
        if spec_sections(rv, 2) is Some {
            assert(sections_view(sections@) + spec_sections(rv, 2).unwrap() =~= spec_sections(
                rv,
                2,
            ).unwrap());
        }
    }
    let mut j: usize = 2;
    while j < rows.len()
        invariant
            2 <= j,
            j <= rows@.len() || j == 2,
            rv == elems_view(rows@),
            queries.wf(),
            match spec_sections(rv, j as int) {
                None => spec_sections(rv, 2) is None,
                Some(rest) => spec_sections(rv, 2) == Some(sections_view(sections@) + rest),
            },
        decreases rows@.len() - j,
    {
        assert(rv[j as int] == rows@[j as int].deep_view());
        match assemble_section(&rows[j], queries) {
            Some(s) => {
                let ghost olds = sections_view(sections@);
                let ghost sv = s.deep_view();
                sections.push(s);
                proof {
                    assert(sections_view(sections@) =~= olds.push(sv));
                    if spec_sections(rv, j + 1) is Some {
                        let rest = spec_sections(rv, j + 1).unwrap();
                        assert(spec_sections(rv, j as int) == Some(seq![sv] + rest));
                        assert(olds + (seq![sv] + rest) =~= (olds.push(sv)) + rest);
                    } else {
                        assert(spec_sections(rv, j as int) is None);
                    }
                }
            },
            None => {
                assert(spec_sections(rv, j as int) is None);
                return None;
            },
        }
        j += 1;
    }
    proof {
        assert(spec_sections(rv, if rows@.len() >= 2 { rows@.len() as int } else { 2 }) == Some(
            Seq::<SectionV>::empty(),
        ));
        assert(sections_view(sections@) + Seq::<SectionV>::empty() =~= sections_view(sections@));
    }
    let c = Course { subject, code, name, description, credits, sections };
    Some(c)
}

/// The courses of the blocks `blocks[i..]`, in document order; the first
/// rejected block rejects them all.
pub open spec fn spec_courses(blocks: Seq<ElemV>, i: int) -> Option<Seq<CourseV>>
    decreases blocks.len() - i + 1,
{
    if i < 0 || i >= blocks.len() {
        Some(Seq::empty())
    } else {
        match spec_course(blocks[i]) {
            None => None,
            Some(c) => match spec_courses(blocks, i + 1) {
                None => None,
                Some(rest) => Some(seq![c] + rest),
            },
        }
    }
}

/// What decoding a whole document returns: one course per course block,
/// in document order; the first rejected block rejects the whole decode;
/// a document without course blocks decodes to the empty list.
pub open spec fn spec_decode(doc: Seq<NodeV>) -> Option<Seq<CourseV>> {
    spec_courses(sel_nodes(doc, 0, spec_course_query()), 0)
}

/// Decodes every course block of a document forest, in document order.
#[verifier::loop_isolation(false)]
#[verifier::rlimit(50)]
pub fn decode_document(doc: &Vec<Node>, queries: &Queries) -> (r: Option<Vec<Course>>)
    requires
        queries.wf(),
    ensures
        match r {
            Some(cs) => spec_decode(forest_view(doc@)) == Some(courses_view(cs@)),
            None => spec_decode(forest_view(doc@)) is None,
        },
{
    let blocks = select_forest(doc, &queries.course);
    let ghost bv = elems_view(blocks@);
    let mut courses: Vec<Course> = Vec::new();
    proof {
        if spec_courses(bv, 0) is Some {
            assert(courses_view(courses@) + spec_courses(bv, 0).unwrap() =~= spec_courses(
                bv,
                0,
            ).unwrap());
        }
    }
    let mut i: usize = 0;
    while i < blocks.len()
        invariant
            i <= blocks@.len(),
            bv == elems_view(blocks@),
            queries.wf(),
            match spec_courses(bv, i as int) {
                None => spec_courses(bv, 0) is None,
                Some(rest) => spec_courses(bv, 0) == Some(courses_view(courses@) + rest),
            },
        decreases blocks@.len() - i,
    {
        assert(bv[i as int] == blocks@[i as int].deep_view());
        match assemble_course(&blocks[i], queries) {
            Some(c) => {
                let ghost oldc = courses_view(courses@);
                let ghost cv = c.deep_view();
                courses.push(c);
                proof {
                    assert(courses_view(courses@) =~= oldc.push(cv));
                    if spec_courses(bv, i + 1) is Some {
                        let rest = spec_courses(bv, i + 1).unwrap();
                        assert(spec_courses(bv, i as int) == Some(seq![cv] + rest));
                        assert(oldc + (seq![cv] + rest) =~= (oldc.push(cv)) + rest);
                    } else {
                        assert(spec_courses(bv, i as int) is None);
                    }
                }
            },
            None => {
                assert(spec_courses(bv, i as int) is None);
                return None;
            },
        }
        i += 1;
    }
    proof {
        assert(spec_courses(bv, blocks@.len() as int) == Some(Seq::<CourseV>::empty()));
        assert(courses_view(courses@) + Seq::<CourseV>::empty() =~= courses_view(courses@));
    }
    Some(courses)
}

/// The document forest a markup text parses to.
pub open spec fn spec_dom(s: Seq<char>) -> Seq<NodeV> {
    spec_forest(events_of(s), 0).0
}

/// Decodes the markup of a course search response into the list of its
/// courses, in document order. A response whose document holds no course
/// block decodes to the empty list; the first course block that cannot
/// be assembled fails the whole decode, and the error carries the whole
/// original response for diagnosis. The markup must stay under the
/// parser's text-buffer cap (see `parse_document_events`); a caller
/// checks the byte length against a quarter of `u32::MAX` before calling.
pub fn decode_search(search_response: SearchResponse, queries: &Queries) -> (r: Result<
    Vec<Course>,
    HtmlDecodeError,
>)
    requires
        queries.wf(),
        search_response.html@.len() * 4 <= u32::MAX as int,
    ensures
        match r {
            Ok(cs) => spec_decode(spec_dom(search_response.html@)) == Some(courses_view(cs@)),
            Err(e) => {
                &&& e == HtmlDecodeError::MalformedCourse(search_response)
                &&& spec_decode(spec_dom(search_response.html@)) is None
            },
        },
{
    let events = parse_document_events(search_response.html.as_str());
    let doc = build_forest(&events);
    match decode_document(&doc, queries) {
        Some(cs) => Ok(cs),
        None => Err(HtmlDecodeError::MalformedCourse(search_response)),
    }
}

} // verus!
