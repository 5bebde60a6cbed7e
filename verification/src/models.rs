use vstd::prelude::*;

verus! {

/// Enrollment status of a section, taken verbatim from the catalog's
/// status label.
#[derive(Clone, Copy, Debug, PartialEq, Eq, Structural)]
pub enum Status {
    Open,
    Closed,
    Waitlisted,
    Reserved,
}

/// What the status label of an availability cell decodes to:
/// the four labels are matched exactly, anything else is rejected.
pub open spec fn spec_status(s: Seq<char>) -> Option<Status> {
    if s == "Open"@ {
        Some(Status::Open)
    } else if s == "Closed"@ {
        Some(Status::Closed)
    } else if s == "Waitlist"@ {
        Some(Status::Waitlisted)
    } else if s == "Reserved"@ {
        Some(Status::Reserved)
    } else {
        None
    }
}

/// Enrollment numbers of one section.
#[derive(Clone, Copy, Debug, PartialEq, Eq, Structural)]
pub struct Availability {
    pub status: Status,
    pub capacity: u32,
    pub enrolled: u32,
    pub waitlisted: u32,
}

/// A time of day on the 24-hour clock, held as plain numbers.
#[derive(Clone, Copy, Debug, PartialEq, Eq, Structural)]
pub struct TimeOfDay {
    pub hour: u8,
    pub minute: u8,
}

impl TimeOfDay {
    pub open spec fn wf(self) -> bool {
        self.hour < 24 && self.minute < 60
    }
}

/// A day of the week.
#[derive(Clone, Copy, Debug, PartialEq, Eq, Structural)]
pub enum Weekday {
    Mon,
    Tue,
    Wed,
    Thu,
    Fri,
    Sat,
    Sun,
}

/// A calendar date, held as plain year / month / day numbers.
#[derive(Clone, Copy, Debug, PartialEq, Eq, Structural)]
pub struct Date {
    pub year: i32,
    pub month: u8,
    pub day: u8,
}

impl Date {
    /// A date is well formed when its month and day lie in the calendar ranges.
    pub open spec fn wf(self) -> bool {
        1 <= self.month <= 12 && 1 <= self.day <= 31
    }
}

/// The meeting pattern of a section: which weekdays it meets and at what
/// times. A section whose schedule is still to be determined has no
/// `Schedule` at all.
#[derive(Clone, Debug, PartialEq)]
pub struct Schedule {
    pub days: Vec<Weekday>,
    pub begin_time: TimeOfDay,
    pub end_time: TimeOfDay,
}

/// Spec-level image of a `Schedule`.
pub struct ScheduleV {
    pub days: Seq<Weekday>,
    pub begin_time: TimeOfDay,
    pub end_time: TimeOfDay,
}

impl Schedule {
    pub open spec fn deep_view(self) -> ScheduleV {
        ScheduleV { days: self.days@, begin_time: self.begin_time, end_time: self.end_time }
    }
}

/// One person teaching a section.
#[derive(Clone, Debug, PartialEq)]
pub struct Instructor {
    pub name: String,
    pub webpage: Option<String>,
}

/// Spec-level image of an `Instructor`.
pub struct InstructorV {
    pub name: Seq<char>,
    pub webpage: Option<Seq<char>>,
}

impl Instructor {
    pub open spec fn deep_view(self) -> InstructorV {
        InstructorV { name: self.name@, webpage: self.webpage.deep_view() }
    }
}

/// Spec-level image of a list of instructors.
pub open spec fn instructors_view(is: Seq<Instructor>) -> Seq<InstructorV> {
    is.map_values(|i: Instructor| i.deep_view())
}

/// One offering (meeting pattern) of a course.
#[derive(Clone, Debug, PartialEq)]
pub struct Section {
    pub number: u32,
    pub component: String,
    pub class_id: u32,
    pub availability: Availability,
    pub schedule: Option<Schedule>,
    pub location: String,
    pub instructors: Vec<Instructor>,
    pub begin_date: Date,
    pub end_date: Date,
    pub notes: Option<String>,
    pub requisites: Option<String>,
    pub restrictions: Option<String>,
}

/// Spec-level image of a `Section`.
pub struct SectionV {
    pub number: u32,
    pub component: Seq<char>,
    pub class_id: u32,
    pub availability: Availability,
    pub schedule: Option<ScheduleV>,
    pub location: Seq<char>,
    pub instructors: Seq<InstructorV>,
    pub begin_date: Date,
    pub end_date: Date,
    pub notes: Option<Seq<char>>,
    pub requisites: Option<Seq<char>>,
    pub restrictions: Option<Seq<char>>,
}

impl Section {
    pub open spec fn deep_view(self) -> SectionV {
        SectionV {
            number: self.number,
            component: self.component@,
            class_id: self.class_id,
            availability: self.availability,
            schedule: match self.schedule {
                Some(s) => Some(s.deep_view()),
                None => None,
            },
            location: self.location@,
            instructors: instructors_view(self.instructors@),
            begin_date: self.begin_date,
            end_date: self.end_date,
            notes: self.notes.deep_view(),
            requisites: self.requisites.deep_view(),
            restrictions: self.restrictions.deep_view(),
        }
    }
}

/// One course together with all of its sections, in document order.
#[derive(Clone, Debug, PartialEq)]
pub struct Course {
    pub subject: String,
    pub code: u32,
    pub name: String,
    pub description: String,
    pub credits: u8,
    pub sections: Vec<Section>,
}

/// Spec-level image of a list of sections.
pub open spec fn sections_view(ss: Seq<Section>) -> Seq<SectionV> {
    ss.map_values(|s: Section| s.deep_view())
}

/// Spec-level image of a `Course`.
pub struct CourseV {
    pub subject: Seq<char>,
    pub code: u32,
    pub name: Seq<char>,
    pub description: Seq<char>,
    pub credits: u8,
    pub sections: Seq<SectionV>,
}

impl Course {
    pub open spec fn deep_view(self) -> CourseV {
        CourseV {
            subject: self.subject@,
            code: self.code,
            name: self.name@,
            description: self.description@,
            credits: self.credits,
            sections: sections_view(self.sections@),
        }
    }
}

/// Spec-level image of a sequence of courses.
pub open spec fn courses_view(cs: Seq<Course>) -> Seq<CourseV> {
    cs.map_values(|c: Course| c.deep_view())
}

/// One catalog search response: the markup document, plus the auxiliary
/// structured payload as raw text. The decoder reads only the markup; the
/// payload is preserved so that a failed decode can carry the whole
/// response back for diagnosis.
#[derive(Clone, Debug, PartialEq)]
pub struct SearchResponse {
    pub html: String,
    pub json: String,
}

/// A failed decode: some course block could not be assembled. The whole
/// original response is carried for post-hoc diagnosis; no finer location
/// information is kept.
#[derive(Clone, Debug, PartialEq)]
pub enum HtmlDecodeError {
    MalformedCourse(SearchResponse),
}

} // verus!
