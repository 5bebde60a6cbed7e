use vstd::prelude::*;

verus! {

use crate::dom::{ElemV, NodeV, sel_nodes, spec_texts, spec_child_elems};
use crate::decode::{spec_decode, spec_courses, spec_course, spec_section, spec_sections};
use crate::extract::{spec_availability, spec_schedule};
use crate::models::{CourseV, ScheduleV};
use crate::queries::{spec_course_query, spec_section_row_query};

/// A document without course blocks decodes to the empty course list:
/// zero blocks are not an error.
pub proof fn lemma_decode_empty(doc: Seq<NodeV>)
    requires
        sel_nodes(doc, 0, spec_course_query()).len() == 0,
    ensures
        spec_decode(doc) == Some(Seq::<CourseV>::empty()),
{
}

proof fn lemma_courses_all(blocks: Seq<ElemV>, i: int)
    requires
        0 <= i <= blocks.len(),
        forall|j: int| i <= j < blocks.len() ==> spec_course(#[trigger] blocks[j]) is Some,
    ensures
        spec_courses(blocks, i) is Some,
        spec_courses(blocks, i).unwrap().len() == blocks.len() - i,
        forall|j: int|
            i <= j < blocks.len() ==> spec_courses(blocks, i).unwrap()[j - i] == spec_course(
                #[trigger] blocks[j],
            ).unwrap(),
    decreases blocks.len() - i,
{
    if i < blocks.len() {
        lemma_courses_all(blocks, i + 1);
    }
}

/// A document all of whose course blocks are well formed decodes to
/// exactly one course per block, in document order.
pub proof fn lemma_decode_all_blocks(doc: Seq<NodeV>)
    requires
        forall|i: int|
            0 <= i < sel_nodes(doc, 0, spec_course_query()).len() ==> spec_course(
                #[trigger] sel_nodes(doc, 0, spec_course_query())[i],
            ) is Some,
    ensures
        spec_decode(doc) is Some,
        spec_decode(doc).unwrap().len() == sel_nodes(doc, 0, spec_course_query()).len(),
        forall|i: int|
            0 <= i < sel_nodes(doc, 0, spec_course_query()).len() ==> spec_decode(doc).unwrap()[i]
                == spec_course(#[trigger] sel_nodes(doc, 0, spec_course_query())[i]).unwrap(),
{
    lemma_courses_all(sel_nodes(doc, 0, spec_course_query()), 0);
}

/// A well-formed course carries exactly one section per row after the
/// two header rows, in row order.
pub proof fn lemma_course_sections_in_row_order(block: ElemV)
    requires
        spec_course(block) is Some,
    ensures
        ({
            let rows = sel_nodes(block.children, 0, spec_section_row_query());
            let sections = spec_course(block).unwrap().sections;
            &&& sections.len() == (if rows.len() >= 2 {
                rows.len() - 2
            } else {
                0
            })
            &&& forall|k: int|
                2 <= k < rows.len() ==> sections[k - 2] == spec_section(
                    #[trigger] rows[k],
                ).unwrap()
        }),
{
    let rows = sel_nodes(block.children, 0, spec_section_row_query());
    lemma_sections_all(rows, 2);
}

proof fn lemma_sections_all(rows: Seq<ElemV>, i: int)
    requires
        2 <= i,
        spec_sections(rows, i) is Some,
    ensures
        spec_sections(rows, i).unwrap().len() == (if rows.len() >= i {
            rows.len() - i
        } else {
            0
        }),
        forall|k: int|
            i <= k < rows.len() ==> spec_sections(rows, i).unwrap()[k - i] == spec_section(
                #[trigger] rows[k],
            ).unwrap(),
    decreases rows.len() - i + 1,
{
    if 0 <= i < rows.len() {
        lemma_sections_all(rows, i + 1);
    }
}

/// A schedule cell whose first text fragment is exactly `"TBD"` yields
/// the valid no-schedule outcome: it does not fail.
pub proof fn lemma_tbd_schedule(cell: ElemV)
    requires
        spec_texts(cell).len() > 0,
        spec_texts(cell)[0] == "TBD"@,
    ensures
        spec_schedule(cell) == Some(None::<ScheduleV>),
{
}

/// A row whose availability cell is rejected — or missing with the rest
/// of the row's cells — is rejected as a whole.
pub proof fn lemma_bad_availability_fails_section(row: ElemV)
    requires
        spec_child_elems(row).len() >= 10 ==> spec_availability(
            spec_child_elems(row)[3],
        ) is None,
    ensures
        spec_section(row) is None,
{
}

/// One rejected row after the header rows fails the whole enclosing
/// course, however well formed its other rows are.
pub proof fn lemma_bad_row_fails_course(block: ElemV, k: int)
    requires
        2 <= k < sel_nodes(block.children, 0, spec_section_row_query()).len(),
        spec_section(sel_nodes(block.children, 0, spec_section_row_query())[k]) is None,
    ensures
        spec_course(block) is None,
{
    let rows = sel_nodes(block.children, 0, spec_section_row_query());
    lemma_sections_bad(rows, 2, k);
}

proof fn lemma_sections_bad(rows: Seq<ElemV>, i: int, k: int)
    requires
        0 <= i <= k < rows.len(),
        spec_section(rows[k]) is None,
    ensures
        spec_sections(rows, i) is None,
    decreases k - i,
{
    if i < k {
        lemma_sections_bad(rows, i + 1, k);
    }
}

/// Decoding is a pure function of the response text: two decodes of the
/// same document that both succeed return structurally identical courses.
/// There is no hidden mutable state.
pub proof fn lemma_decode_deterministic(
    doc: Seq<NodeV>,
    cs1: Seq<CourseV>,
    cs2: Seq<CourseV>,
)
    requires
        spec_decode(doc) == Some(cs1),
        spec_decode(doc) == Some(cs2),
    ensures
        cs1 == cs2,
{
}

} // verus!
