//! The markup rendering: headings and hyphen lists in plain text.
use vstd::prelude::*;
use crate::profile::{Education, Experience, PersonalInfo, Project, Resume};

verus! {

/// The texts of a sequence of lines.
pub open spec fn lines_view(s: Seq<String>) -> Seq<Seq<char>> {
    s.map_values(|l: String| l@)
}

/// A labelled line for an optional field, or nothing when the field is
/// absent or empty.
pub open spec fn optional_line(label: Seq<char>, v: Option<String>) -> Seq<Seq<char>> {
    match v {
        Some(t) => if t@.len() > 0 {
            seq![label + t@]
        } else {
            seq![]
        },
        None => seq![],
    }
}

/// A hyphen list item.
pub open spec fn list_item(q: String) -> Seq<char> {
    "- "@ + q@
}

pub open spec fn list_items(s: Seq<String>) -> Seq<Seq<char>> {
    s.map_values(|q: String| list_item(q))
}

/// The name as a level-1 heading, the contact details on two lines, a
/// blank line.
pub open spec fn header_lines(info: PersonalInfo) -> Seq<Seq<char>> {
    seq![
        "# "@ + info.name@ + " "@ + info.surname@,
        info.email@ + " | "@ + info.phone@,
        info.github@ + " | "@ + info.linkedin@,
        seq![],
    ]
}

pub open spec fn summary_lines(s: Seq<String>) -> Seq<Seq<char>> {
    if s.len() == 0 {
        seq![]
    } else {
        seq!["## Summary of Qualifications"@] + list_items(s) + seq![seq![]]
    }
}

/// One position: company as a level-3 heading, position in bold, location
/// and period, industry, one list item per responsibility, a blank line.
pub open spec fn experience_lines(e: Experience) -> Seq<Seq<char>> {
    seq![
        "### "@ + e.company@,
        "**"@ + e.position@ + "**"@,
        e.location@ + " | "@ + e.employment_period@,
        "Industry: "@ + e.industry@,
    ] + list_items(e.key_responsibilities@) + seq![seq![]]
}

pub open spec fn experiences_lines(s: Seq<Experience>) -> Seq<Seq<char>>
    decreases s.len(),
{
    if s.len() == 0 {
        seq![]
    } else {
        experiences_lines(s.drop_last()) + experience_lines(s.last())
    }
}

pub open spec fn project_lines(p: Project) -> Seq<Seq<char>> {
    seq!["### "@ + p.name@] + list_items(p.details@) + seq![seq![]]
}

pub open spec fn projects_lines(s: Seq<Project>) -> Seq<Seq<char>>
    decreases s.len(),
{
    if s.len() == 0 {
        seq![]
    } else {
        projects_lines(s.drop_last()) + project_lines(s.last())
    }
}

/// One entry: institution as a level-3 heading, degree in italics, then
/// course, instructor, completion date, graduation year, location and
/// credential id where given, a blank line.
pub open spec fn education_lines(e: Education) -> Seq<Seq<char>> {
    seq!["### "@ + e.institution@, "*"@ + e.degree@ + "*"@] + optional_line(
        "Course: "@,
        e.course_name,
    ) + optional_line("Instructor: "@, e.instructor) + optional_line(
        "Completed: "@,
        e.completion_date,
    ) + optional_line("Graduated: "@, e.graduation_year) + optional_line(
        "Location: "@,
        e.location,
    ) + optional_line("Credential ID: "@, e.credential_id) + seq![seq![]]
}

pub open spec fn educations_lines(s: Seq<Education>) -> Seq<Seq<char>>
    decreases s.len(),
{
    if s.len() == 0 {
        seq![]
    } else {
        educations_lines(s.drop_last()) + education_lines(s.last())
    }
}

/// All lines of a resume: header, summary when there is one, experience,
/// projects when there are some, skills, education.
pub open spec fn resume_lines(r: Resume) -> Seq<Seq<char>> {
    header_lines(r.personal_information) + summary_lines(r.summary_of_qualifications@) + seq![
        "## Work Experience"@,
    ] + experiences_lines(r.experience_details@) + (if r.projects@.len() == 0 {
        seq![]
    } else {
        seq!["## Projects"@] + projects_lines(r.projects@)
    }) + seq!["## Technical Skills"@] + list_items(r.technical_skills@) + seq![seq![]] + seq![
        "## Education"@,
    ] + educations_lines(r.education_details@)
}

/// The lines as one text, each ended by a newline.
pub open spec fn join_lines(ls: Seq<Seq<char>>) -> Seq<char>
    decreases ls.len(),
{
    if ls.len() == 0 {
        seq![]
    } else {
        join_lines(ls.drop_last()) + ls.last() + "\n"@
    }
}

fn push_line(lines: &mut Vec<String>, l: String)
    ensures
        lines_view(final(lines)@) == lines_view(old(lines)@).push(l@),
{
    lines.push(l);
    assert(lines_view(lines@) =~= lines_view(old(lines)@).push(l@));
}

fn concat3(a: &str, b: &str, c: &str) -> (r: String)
    ensures
        r@ == a@ + b@ + c@,
{
    let mut r = String::from_str(a);
    r.append(b);
    r.append(c);
    r
}

fn concat2(a: &str, b: &str) -> (r: String)
    ensures
        r@ == a@ + b@,
{
    let mut r = String::from_str(a);
    r.append(b);
    r
}

fn add_list_items(lines: &mut Vec<String>, items: &Vec<String>)
    ensures
        lines_view(final(lines)@) == lines_view(old(lines)@) + list_items(items@),
{
    let ghost start = lines_view(lines@);
    let mut i: usize = 0;
    while i < items.len()
        invariant
            i <= items@.len(),
            lines_view(lines@) == start + list_items(items@.take(i as int)),
        decreases items@.len() - i,
    {
        push_line(lines, concat2("- ", items[i].as_str()));
        assert(list_items(items@.take(i + 1)) =~= list_items(items@.take(i as int)).push(
            list_item(items@[i as int]),
        ));
        i = i + 1;
    }
    assert(items@.take(i as int) =~= items@);
}

fn add_optional_line(lines: &mut Vec<String>, label: &str, v: &Option<String>)
    ensures
        lines_view(final(lines)@) == lines_view(old(lines)@) + optional_line(label@, *v),
{
    match v {
        Some(t) => {
            if t.unicode_len() > 0 {
                push_line(lines, concat2(label, t.as_str()));
            }
        },
        None => {},
    }
    assert(lines_view(lines@) =~= lines_view(old(lines)@) + optional_line(label@, *v));
}

fn add_blank(lines: &mut Vec<String>)
    ensures
        lines_view(final(lines)@) == lines_view(old(lines)@).push(seq![]),
{
    push_line(lines, String::new());
}

fn add_experience_lines(lines: &mut Vec<String>, e: &Experience)
    ensures
        lines_view(final(lines)@) == lines_view(old(lines)@) + experience_lines(*e),
{
    push_line(lines, concat2("### ", e.company.as_str()));
    push_line(lines, concat3("**", e.position.as_str(), "**"));
    push_line(lines, concat3(e.location.as_str(), " | ", e.employment_period.as_str()));
    push_line(lines, concat2("Industry: ", e.industry.as_str()));
    add_list_items(lines, &e.key_responsibilities);
    add_blank(lines);
    assert(lines_view(lines@) =~= lines_view(old(lines)@) + experience_lines(*e));
}

fn add_project_lines(lines: &mut Vec<String>, p: &Project)
    ensures
        lines_view(final(lines)@) == lines_view(old(lines)@) + project_lines(*p),
{
    push_line(lines, concat2("### ", p.name.as_str()));
    add_list_items(lines, &p.details);
    add_blank(lines);
    assert(lines_view(lines@) =~= lines_view(old(lines)@) + project_lines(*p));
}

fn add_education_lines(lines: &mut Vec<String>, e: &Education)
    ensures
        lines_view(final(lines)@) == lines_view(old(lines)@) + education_lines(*e),
{
    push_line(lines, concat2("### ", e.institution.as_str()));
    push_line(lines, concat3("*", e.degree.as_str(), "*"));
    add_optional_line(lines, "Course: ", &e.course_name);
    add_optional_line(lines, "Instructor: ", &e.instructor);
    add_optional_line(lines, "Completed: ", &e.completion_date);
    add_optional_line(lines, "Graduated: ", &e.graduation_year);
    add_optional_line(lines, "Location: ", &e.location);
    add_optional_line(lines, "Credential ID: ", &e.credential_id);
    add_blank(lines);
    assert(lines_view(lines@) =~= lines_view(old(lines)@) + education_lines(*e));
}

/// The lines of a resume in markup, in order.
pub fn markup_lines(resume: &Resume) -> (r: Vec<String>)
    ensures
        lines_view(r@) == resume_lines(*resume),
{
    let mut lines: Vec<String> = Vec::new();
    let info = &resume.personal_information;
    let mut title = concat2("# ", info.name.as_str());
    title.append(" ");
    title.append(info.surname.as_str());
    push_line(&mut lines, title);
    push_line(&mut lines, concat3(info.email.as_str(), " | ", info.phone.as_str()));
    push_line(&mut lines, concat3(info.github.as_str(), " | ", info.linkedin.as_str()));
    add_blank(&mut lines);
    assert(lines_view(lines@) =~= header_lines(*info));
    let summary = &resume.summary_of_qualifications;
    if summary.len() > 0 {
        push_line(&mut lines, String::from_str("## Summary of Qualifications"));
        add_list_items(&mut lines, summary);
        add_blank(&mut lines);
    }
    let ghost l1 = lines_view(lines@);
    assert(l1 =~= header_lines(*info) + summary_lines(summary@));
    push_line(&mut lines, String::from_str("## Work Experience"));
    let ghost start = lines_view(lines@);
    let exps = &resume.experience_details;
    let mut i: usize = 0;
    while i < exps.len()
        invariant
            i <= exps@.len(),
            lines_view(lines@) == start + experiences_lines(exps@.take(i as int)),
        decreases exps@.len() - i,
    {
        add_experience_lines(&mut lines, &exps[i]);
        assert(exps@.take(i + 1).drop_last() =~= exps@.take(i as int));
        assert(lines_view(lines@) =~= start + experiences_lines(exps@.take(i + 1)));
        i = i + 1;
    }
    assert(exps@.take(i as int) =~= exps@);
    let ghost l2 = lines_view(lines@);
    let projects = &resume.projects;
    if projects.len() > 0 {
        push_line(&mut lines, String::from_str("## Projects"));
        let ghost pstart = lines_view(lines@);
        let mut j: usize = 0;
        while j < projects.len()
            invariant
                j <= projects@.len(),
                lines_view(lines@) == pstart + projects_lines(projects@.take(j as int)),
            decreases projects@.len() - j,
        {
            add_project_lines(&mut lines, &projects[j]);
            assert(projects@.take(j + 1).drop_last() =~= projects@.take(j as int));
            assert(lines_view(lines@) =~= pstart + projects_lines(projects@.take(j + 1)));
            j = j + 1;
        }
        assert(projects@.take(j as int) =~= projects@);
    }
    let ghost l3 = lines_view(lines@);
    push_line(&mut lines, String::from_str("## Technical Skills"));
    add_list_items(&mut lines, &resume.technical_skills);
    add_blank(&mut lines);
    push_line(&mut lines, String::from_str("## Education"));
    let ghost estart = lines_view(lines@);
    let edu = &resume.education_details;
    let mut k: usize = 0;
    while k < edu.len()
        invariant
            k <= edu@.len(),
            lines_view(lines@) == estart + educations_lines(edu@.take(k as int)),
        decreases edu@.len() - k,
    {
        add_education_lines(&mut lines, &edu[k]);
        assert(edu@.take(k + 1).drop_last() =~= edu@.take(k as int));
        assert(lines_view(lines@) =~= estart + educations_lines(edu@.take(k + 1)));
        k = k + 1;
    }
    assert(edu@.take(k as int) =~= edu@);
    assert(lines_view(lines@) =~= resume_lines(*resume));
    lines
}

/// Joins lines into one text, each line ended by a newline.
pub fn join_markup_lines(lines: &Vec<String>) -> (r: String)
    ensures
        r@ == join_lines(lines_view(lines@)),
{
    let mut out = String::new();
    let mut i: usize = 0;
    while i < lines.len()
        invariant
            i <= lines@.len(),
            out@ == join_lines(lines_view(lines@.take(i as int))),
        decreases lines@.len() - i,
    {
        out.append(lines[i].as_str());
        out.append("\n");
        assert(lines_view(lines@.take(i + 1)).drop_last() =~= lines_view(lines@.take(i as int)));
        i = i + 1;
    }
    assert(lines@.take(i as int) =~= lines@);
    out
}

/// The markup text of a resume.
pub fn render_markup(resume: &Resume) -> (r: String)
    ensures
        r@ == join_lines(resume_lines(*resume)),
{
    let lines = markup_lines(resume);
    join_markup_lines(&lines)
}

// ---- laws ----

/// No line of `s` starts with the character `c`.
pub open spec fn none_starts_with(s: Seq<Seq<char>>, c: char) -> bool {
    forall|i: int| 0 <= i < s.len() && (#[trigger] s[i]).len() > 0 ==> s[i][0] != c
}

proof fn lemma_none_starts_concat(a: Seq<Seq<char>>, b: Seq<Seq<char>>, c: char)
    requires
        none_starts_with(a, c),
        none_starts_with(b, c),
    ensures
        none_starts_with(a + b, c),
{
    assert forall|i: int| 0 <= i < (a + b).len() && (#[trigger] (a + b)[i]).len() > 0 implies (a
        + b)[i][0] != c by {
        if i < a.len() {
            assert((a + b)[i] == a[i]);
        } else {
            assert((a + b)[i] == b[i - a.len()]);
        }
    }
}

proof fn lemma_optional_line_start(label: Seq<char>, v: Option<String>, c: char)
    requires
        label.len() > 0,
        label[0] != c,
    ensures
        none_starts_with(optional_line(label, v), c),
{
    if let Some(t) = v {
        if t@.len() > 0 {
            assert((label + t@)[0] == label[0]);
        }
    }
}

/// An optional field's line is left out exactly when the field is absent
/// or empty; a present value `t` gives the one line `label + t`.
pub proof fn lemma_optional_line(label: Seq<char>, v: Option<String>)
    ensures
        optional_line(label, v).len() == 0 <==> (v is None || v->0@.len() == 0),
        v is Some && v->0@.len() > 0 ==> optional_line(label, v) == seq![label + v->0@],
{
}

/// In an education entry, the only line that can start like the graduation
/// line is that line, and it is there exactly when a graduation year is
/// given and not empty: the entry is the lines before it, the graduation
/// line if any, and the lines after it, none of which starts with `G`.
pub proof fn lemma_graduation_line(e: Education)
    ensures
        education_lines(e) == (seq!["### "@ + e.institution@, "*"@ + e.degree@ + "*"@]
            + optional_line("Course: "@, e.course_name) + optional_line(
            "Instructor: "@,
            e.instructor,
        ) + optional_line("Completed: "@, e.completion_date)) + optional_line(
            "Graduated: "@,
            e.graduation_year,
        ) + (optional_line("Location: "@, e.location) + optional_line(
            "Credential ID: "@,
            e.credential_id,
        ) + seq![seq![]]),
        none_starts_with(
            seq!["### "@ + e.institution@, "*"@ + e.degree@ + "*"@] + optional_line(
                "Course: "@,
                e.course_name,
            ) + optional_line("Instructor: "@, e.instructor) + optional_line(
                "Completed: "@,
                e.completion_date,
            ),
            'G',
        ),
        none_starts_with(
            optional_line("Location: "@, e.location) + optional_line(
                "Credential ID: "@,
                e.credential_id,
            ) + seq![seq![]],
            'G',
        ),
        optional_line("Graduated: "@, e.graduation_year).len() == 0 <==> (e.graduation_year is None
            || e.graduation_year->0@.len() == 0),
        e.graduation_year is Some && e.graduation_year->0@.len() > 0 ==> optional_line(
            "Graduated: "@,
            e.graduation_year,
        ) == seq!["Graduated: "@ + e.graduation_year->0@],
        "Graduated: "@[0] == 'G',
{
    reveal_strlit("### ");
    reveal_strlit("*");
    reveal_strlit("Course: ");
    reveal_strlit("Instructor: ");
    reveal_strlit("Completed: ");
    reveal_strlit("Graduated: ");
    reveal_strlit("Location: ");
    reveal_strlit("Credential ID: ");
    let head = seq!["### "@ + e.institution@, "*"@ + e.degree@ + "*"@];
    assert(("### "@ + e.institution@)[0] == '#');
    assert(("*"@ + e.degree@ + "*"@)[0] == '*');
    assert(none_starts_with(head, 'G'));
    lemma_optional_line_start("Course: "@, e.course_name, 'G');
    lemma_optional_line_start("Instructor: "@, e.instructor, 'G');
    lemma_optional_line_start("Completed: "@, e.completion_date, 'G');
    lemma_optional_line_start("Location: "@, e.location, 'G');
    lemma_optional_line_start("Credential ID: "@, e.credential_id, 'G');
    lemma_none_starts_concat(head, optional_line("Course: "@, e.course_name), 'G');
    lemma_none_starts_concat(
        head + optional_line("Course: "@, e.course_name),
        optional_line("Instructor: "@, e.instructor),
        'G',
    );
    lemma_none_starts_concat(
        head + optional_line("Course: "@, e.course_name) + optional_line(
            "Instructor: "@,
            e.instructor,
        ),
        optional_line("Completed: "@, e.completion_date),
        'G',
    );
    let tail_blank: Seq<Seq<char>> = seq![seq![]];
    assert(none_starts_with(tail_blank, 'G'));
    lemma_none_starts_concat(
        optional_line("Location: "@, e.location),
        optional_line("Credential ID: "@, e.credential_id),
        'G',
    );
    lemma_none_starts_concat(
        optional_line("Location: "@, e.location) + optional_line(
            "Credential ID: "@,
            e.credential_id,
        ),
        tail_blank,
        'G',
    );
    assert(education_lines(e) =~= (head + optional_line("Course: "@, e.course_name)
        + optional_line("Instructor: "@, e.instructor) + optional_line(
        "Completed: "@,
        e.completion_date,
    )) + optional_line("Graduated: "@, e.graduation_year) + (optional_line(
        "Location: "@,
        e.location,
    ) + optional_line("Credential ID: "@, e.credential_id) + tail_blank));
}

} // verus!
