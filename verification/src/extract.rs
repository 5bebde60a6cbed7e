use vstd::prelude::*;

verus! {

use crate::dom::{
    Elem, ElemV, spec_attr, spec_texts, spec_child_elems, sel_nodes, elems_view, get_attr,
    collect_texts, text_content, element_children, select_elem, join_with,
};
use crate::models::{
    Availability, Schedule, ScheduleV, Instructor, InstructorV, Weekday, Date, spec_status, Status,
    instructors_view,
};
use crate::queries::{Queries, spec_abbreviation_query, spec_link_query};
use crate::text::{
    spec_trim, spec_before_first, spec_after_last, spec_contains, spec_fullness, match_at,
    trim_str, split_outer, scan_fullness, has_prefix, has_suffix, chars_of,
};
use crate::foreign::{date_of, time_of, weekday_of, parse_date_mdy, parse_time_12h,
    parse_weekday_name};

/// What the availability extractor returns: the cell's first two text
/// fragments read as a status word and a fullness string; fewer than two
/// fragments, an unknown status word, or an unreadable fullness string
/// reject the cell.
pub open spec fn spec_availability(cell: ElemV) -> Option<Availability> {
    let ts = spec_texts(cell);
    if ts.len() < 2 {
        None
    } else {
        match spec_status(ts[0]) {
            None => None,
            Some(st) => match spec_fullness(ts[1]) {
                None => None,
                Some(f) => Some(
                    Availability { status: st, capacity: f.1, enrolled: f.0, waitlisted: f.2 },
                ),
            },
        }
    }
}

/// Derives the availability of a section from its availability cell.
pub fn extract_availability(cell: &Elem) -> (r: Option<Availability>)
    ensures
        r == spec_availability(cell.deep_view()),
{
    let ts = collect_texts(cell);
    if ts.len() < 2 {
        return None;
    }
    assert(ts.deep_view()[0] == ts@[0]@);
    assert(ts.deep_view()[1] == ts@[1]@);
    let st = match Status::from_label(ts[0].as_str()) {
        Some(st) => st,
        None => {
            return None;
        },
    };
    match scan_fullness(ts[1].as_str()) {
        Some(f) => Some(
            Availability { status: st, capacity: f.1, enrolled: f.0, waitlisted: f.2 },
        ),
        None => None,
    }
}

/// The meeting-indicator suffix of a weekday marker's label.
pub open spec fn meet_suffix() -> Seq<char> {
    " - meet"@
}

/// The weekdays the markers name, in order: a marker without a label
/// rejects the cell; one whose label ends with the meeting suffix
/// contributes the day the rest of the label names, and rejects the cell
/// when that is no weekday; any other marker is skipped.
pub open spec fn spec_days(abbrs: Seq<ElemV>, i: int) -> Option<Seq<Weekday>>
    decreases abbrs.len() - i + 1,
{
    if i < 0 || i >= abbrs.len() {
        Some(Seq::empty())
    } else {
        match spec_attr(abbrs[i], "title"@) {
            None => None,
            Some(title) => if title.len() >= meet_suffix().len() && match_at(
                title,
                meet_suffix(),
                title.len() - meet_suffix().len(),
            ) {
                match weekday_of(title.take(title.len() - meet_suffix().len())) {
                    None => None,
                    Some(d) => match spec_days(abbrs, i + 1) {
                        None => None,
                        Some(rest) => Some(seq![d] + rest),
                    },
                }
            } else {
                spec_days(abbrs, i + 1)
            },
        }
    }
}

/// What the schedule extractor returns. A first text fragment of exactly
/// `"TBD"` is the valid no-schedule outcome. Otherwise the last fragment,
/// trimmed, must hold a `" - "`-separated time range whose two sides,
/// trimmed, parse on the 12-hour clock, and the weekday markers must
/// yield at least one day; anything else rejects the cell.
pub open spec fn spec_schedule(cell: ElemV) -> Option<Option<ScheduleV>> {
    let ts = spec_texts(cell);
    if ts.len() > 0 && ts[0] == "TBD"@ {
        Some(None)
    } else if ts.len() == 0 {
        None
    } else {
        let times = spec_trim(ts[ts.len() - 1]);
        if !spec_contains(times, " - "@) {
            None
        } else {
            let b = time_of(spec_trim(spec_before_first(times, " - "@)));
            let e = time_of(spec_trim(spec_after_last(times, " - "@)));
            match (b, e) {
                (Some(bt), Some(et)) => match spec_days(
                    sel_nodes(cell.children, 0, spec_abbreviation_query()),
                    0,
                ) {
                    None => None,
                    Some(days) => if days.len() == 0 {
                        None
                    } else {
                        Some(Some(ScheduleV { days, begin_time: bt, end_time: et }))
                    },
                },
                _ => None,
            }
        }
    }
}

/// Derives the optional schedule of a section from its schedule cell.
/// The outer option signals failure; the inner one a schedule still to
/// be determined.
pub fn extract_schedule(cell: &Elem, queries: &Queries) -> (r: Option<Option<Schedule>>)
    requires
        queries.wf(),
    ensures
        match r {
            Some(os) => spec_schedule(cell.deep_view()) == Some(
                match os {
                    Some(s) => Some(s.deep_view()),
                    None => None::<ScheduleV>,
                },
            ),
            None => spec_schedule(cell.deep_view()) is None,
        },
{
    let ghost cv = cell.deep_view();
    let ts = collect_texts(cell);
    if ts.len() > 0 {
        assert(ts.deep_view()[0] == ts@[0]@);
        if ts[0] == String::from_str("TBD") {
            return Some(None);
        }
    }
    if ts.len() == 0 {
        return None;
    }
    assert(ts.deep_view()[ts@.len() - 1] == ts@[ts@.len() - 1]@);
    proof {
        reveal_strlit(" - ");
    }
    let times = trim_str(ts[ts.len() - 1].as_str());
    let split = split_outer(times.as_str(), " - ");
    if !split.2 {
        return None;
    }
    let begin_text = trim_str(split.0.as_str());
    let end_text = trim_str(split.1.as_str());
    let bt = match parse_time_12h(begin_text.as_str()) {
        Some(t) => t,
        None => {
            return None;
        },
    };
    let et = match parse_time_12h(end_text.as_str()) {
        Some(t) => t,
        None => {
            return None;
        },
    };
    let abbrs = select_elem(cell, &queries.abbreviation);
    let ghost av = elems_view(abbrs@);
    proof {
        assert(av == sel_nodes(cv.children, 0, spec_abbreviation_query()));
    }
    let mut days: Vec<Weekday> = Vec::new();
    proof {
        if spec_days(av, 0) is Some {
            assert(Seq::<Weekday>::empty() + spec_days(av, 0).unwrap() =~= spec_days(
                av,
                0,
            ).unwrap());
        }
    }
    let mut i: usize = 0;
    while i < abbrs.len()
        invariant
            i <= abbrs@.len(),
            av == elems_view(abbrs@),
            cv == cell.deep_view(),
            match spec_days(av, 0) {
                None => spec_schedule(cv) is None,
                Some(ds) => spec_schedule(cv) == (if ds.len() == 0 {
                    None
                } else {
                    Some(Some(ScheduleV { days: ds, begin_time: bt, end_time: et }))
                }),
            },
            match spec_days(av, i as int) {
                None => spec_days(av, 0) is None,
                Some(rest) => spec_days(av, 0) == Some(days@ + rest),
            },
        decreases abbrs@.len() - i,
    {
        assert(av[i as int] == abbrs@[i as int].deep_view());
        let title = match get_attr(&abbrs[i], "title") {
            Some(t) => t,
            None => {
                return None;
            },
        };
        proof {
            reveal_strlit(" - meet");
        }
        if has_suffix(title.as_str(), " - meet") {
            let tc = chars_of(title.as_str());
            let stem = title.as_str().substring_char(0, tc.len() - 7);
            proof {
                assert(meet_suffix().len() == 7);
                assert(stem@ =~= title@.take(title@.len() - meet_suffix().len()));
            }
            match parse_weekday_name(stem) {
                Some(d) => {
                    let ghost olddays = days@;
                    days.push(d);
                    proof {
                        if spec_days(av, i + 1) is Some {
                            let rest = spec_days(av, i + 1).unwrap();
                            assert(spec_days(av, i as int) == Some(seq![d] + rest));
                            assert(olddays + (seq![d] + rest) =~= days@ + rest);
                        } else {
                            assert(spec_days(av, i as int) is None);
                        }
                    }
                },
                None => {
                    assert(spec_days(av, i as int) is None);
                    return None;
                },
            }
        } else {
            assert(spec_days(av, i as int) == spec_days(av, i + 1));
        }
        i += 1;
    }
    proof {
        assert(spec_days(av, abbrs@.len() as int) == Some(Seq::<Weekday>::empty()));
        assert(days@ + Seq::<Weekday>::empty() =~= days@);
    }
    if days.len() == 0 {
        return None;
    }
    Some(Some(Schedule { days, begin_time: bt, end_time: et }))
}

/// What the date-range extractor returns: the cell's whole text must
/// hold a `" - "`-separated pair whose two sides, trimmed, parse with
/// the fixed two-digit-year format; anything else rejects the cell. No
/// range check is made.
pub open spec fn spec_dates(cell: ElemV) -> Option<(Date, Date)> {
    let txt = join_with(spec_texts(cell), Seq::empty());
    if !spec_contains(txt, " - "@) {
        None
    } else {
        match (
            date_of(spec_trim(spec_before_first(txt, " - "@))),
            date_of(spec_trim(spec_after_last(txt, " - "@))),
        ) {
            (Some(b), Some(e)) => Some((b, e)),
            _ => None,
        }
    }
}

/// Derives the begin and end dates of a section from its date cell.
pub fn extract_dates(cell: &Elem) -> (r: Option<(Date, Date)>)
    ensures
        r == spec_dates(cell.deep_view()),
{
    proof {
        reveal_strlit(" - ");
    }
    let txt = text_content(cell);
    let split = split_outer(txt.as_str(), " - ");
    if !split.2 {
        return None;
    }
    let begin_text = trim_str(split.0.as_str());
    let end_text = trim_str(split.1.as_str());
    match parse_date_mdy(begin_text.as_str()) {
        Some(b) => match parse_date_mdy(end_text.as_str()) {
            Some(e) => Some((b, e)),
            None => None,
        },
        None => None,
    }
}

/// The instructors the cell's direct child elements name, in order: the
/// trimmed text is the name, a link target is the webpage. No child is a
/// valid, empty outcome.
pub open spec fn spec_instr_from(cs: Seq<ElemV>, i: int) -> Seq<InstructorV>
    decreases cs.len() - i + 1,
{
    if i < 0 || i >= cs.len() {
        Seq::empty()
    } else {
        seq![
            InstructorV {
                name: spec_trim(join_with(spec_texts(cs[i]), Seq::empty())),
                webpage: spec_attr(cs[i], "href"@),
            },
        ] + spec_instr_from(cs, i + 1)
    }
}

pub open spec fn spec_instructors(cell: ElemV) -> Seq<InstructorV> {
    spec_instr_from(spec_child_elems(cell), 0)
}

/// Derives the instructor list of a section from its instructor cell.
pub fn extract_instructors(cell: &Elem) -> (r: Vec<Instructor>)
    ensures
        instructors_view(r@) == spec_instructors(cell.deep_view()),
{
    let kids = element_children(cell);
    let ghost kv = elems_view(kids@);
    let mut out: Vec<Instructor> = Vec::new();
    let mut i: usize = 0;
    while i < kids.len()
        invariant
            i <= kids@.len(),
            kv == elems_view(kids@),
            instructors_view(out@) + spec_instr_from(kv, i as int) == spec_instr_from(kv, 0),
        decreases kids@.len() - i,
    {
        assert(kv[i as int] == kids@[i as int].deep_view());
        let ghost before = instructors_view(out@);
        let name = trim_str(text_content(&kids[i]).as_str());
        let webpage = get_attr(&kids[i], "href");
        let ghost w = spec_attr(kv[i as int], "href"@);
        proof {
            assert(match webpage {
                Some(v) => w == Some(v@),
                None => w is None,
            });
        }
        out.push(Instructor { name, webpage });
        proof {
            let item = InstructorV {
                name: spec_trim(join_with(spec_texts(kv[i as int]), Seq::empty())),
                webpage: w,
            };
            assert(instructors_view(out@) =~= before + seq![item]);
            assert((before + seq![item]) + spec_instr_from(kv, i + 1) =~= before + (seq![item]
                + spec_instr_from(kv, i + 1)));
        }
        i += 1;
    }
    proof {
        assert(spec_instr_from(kv, kids@.len() as int) =~= Seq::<InstructorV>::empty());
        assert(instructors_view(out@) + Seq::<InstructorV>::empty() =~= instructors_view(out@));
    }
    out
}

/// The notes, requisites and restrictions the link elements carry: a
/// link with both an identifier and a content attribute fills the field
/// its identifier's prefix names with the trimmed content, later links
/// overriding earlier ones; every other link is skipped.
pub open spec fn spec_supp(
    links: Seq<ElemV>,
    i: int,
    acc: (Option<Seq<char>>, Option<Seq<char>>, Option<Seq<char>>),
) -> (Option<Seq<char>>, Option<Seq<char>>, Option<Seq<char>>)
    decreases links.len() - i + 1,
{
    if i < 0 || i >= links.len() {
        acc
    } else {
        let step = match (spec_attr(links[i], "id"@), spec_attr(links[i], "data-content"@)) {
            (Some(idv), Some(c)) => {
                let t = spec_trim(c);
                if match_at(idv, "notes"@, 0) {
                    (Some(t), acc.1, acc.2)
                } else if match_at(idv, "reqs"@, 0) {
                    (acc.0, Some(t), acc.2)
                } else if match_at(idv, "reserve"@, 0) {
                    (acc.0, acc.1, Some(t))
                } else {
                    acc
                }
            },
            _ => acc,
        };
        spec_supp(links, i + 1, step)
    }
}

/// Spec-level image of an optional text.
pub open spec fn opt_view(o: Option<String>) -> Option<Seq<char>> {
    match o {
        Some(s) => Some(s@),
        None => None,
    }
}

/// Derives notes, requisites and restrictions from the links of the
/// miscellaneous cell.
pub fn extract_supplements(cell: &Elem, queries: &Queries) -> (r: (
    Option<String>,
    Option<String>,
    Option<String>,
))
    requires
        queries.wf(),
    ensures
        (opt_view(r.0), opt_view(r.1), opt_view(r.2)) == spec_supp(
            sel_nodes(cell.deep_view().children, 0, spec_link_query()),
            0,
            (None::<Seq<char>>, None::<Seq<char>>, None::<Seq<char>>),
        ),
{
    let links = select_elem(cell, &queries.link);
    let ghost lv = elems_view(links@);
    let mut notes: Option<String> = None;
    let mut requisites: Option<String> = None;
    let mut restrictions: Option<String> = None;
    let mut i: usize = 0;
    while i < links.len()
        invariant
            i <= links@.len(),
            lv == elems_view(links@),
            spec_supp(lv, i as int, (opt_view(notes), opt_view(requisites), opt_view(restrictions)))
                == spec_supp(lv, 0, (None::<Seq<char>>, None::<Seq<char>>, None::<Seq<char>>)),
        decreases links@.len() - i,
    {
        assert(lv[i as int] == links@[i as int].deep_view());
        let id = get_attr(&links[i], "id");
        let content = get_attr(&links[i], "data-content");
        match (id, content) {
            (Some(idv), Some(c)) => {
                let t = trim_str(c.as_str());
                if has_prefix(idv.as_str(), "notes") {
                    notes = Some(t);
                } else if has_prefix(idv.as_str(), "reqs") {
                    requisites = Some(t);
                } else if has_prefix(idv.as_str(), "reserve") {
                    restrictions = Some(t);
                }
            },
            _ => {},
        }
        i += 1;
    }
    (notes, requisites, restrictions)
}

} // verus!
