use resume_builder::document::{
    add_education, group_by_institution, render_document, Block, ContactTable, Document, ParaStyle,
    Para, TextRun,
};
use resume_builder::docx_build::style_id;
use resume_builder::markup::{join_markup_lines, markup_lines, render_markup};
use resume_builder::profile::{
    Design, Education, Experience, PageMargins, PersonalInfo, Project, Resume,
};

fn s(t: &str) -> String {
    t.to_string()
}

fn info() -> PersonalInfo {
    PersonalInfo {
        name: s("Ada"),
        surname: s("Lovelace"),
        email: s("ada@example.org"),
        phone: s("555-0100"),
        github: s("github.com/ada"),
        linkedin: s("linkedin.com/in/ada"),
    }
}

fn edu(inst: &str, degree: &str, location: Option<&str>) -> Education {
    Education {
        institution: s(inst),
        degree: s(degree),
        course_name: None,
        instructor: None,
        completion_date: None,
        graduation_year: None,
        location: location.map(s),
        credential_id: None,
    }
}

fn acme() -> Experience {
    Experience {
        company: s("Acme"),
        position: s("Engineer"),
        location: s("Remote"),
        employment_period: s("2020-2022"),
        industry: s("Tech"),
        key_responsibilities: vec![s("Built X"), s("Shipped Y")],
    }
}

fn resume() -> Resume {
    Resume {
        personal_information: info(),
        summary_of_qualifications: vec![s("Analytical")],
        experience_details: vec![acme()],
        projects: vec![],
        technical_skills: vec![s("Rust"), s("Verus")],
        education_details: vec![edu("Cambridge", "BA", Some("UK"))],
    }
}

fn design() -> Design {
    Design {
        page_size: s("a4"),
        margins: PageMargins { top: s("2 cm"), bottom: s("2 cm"), left: s("2 cm"), right: s("2 cm") },
        font: s("Arial"),
        font_size: s("11pt"),
    }
}

fn run(text: &str, bold: Option<bool>, italic: bool) -> TextRun {
    TextRun { text: s(text), bold, italic, size: None }
}

fn para(runs: Vec<TextRun>, style: Option<ParaStyle>) -> Block {
    Block::Para(Para { runs, style, indent_left: None, indent_right: None, centered: false })
}

fn is_separator(b: &Block) -> bool {
    *b == Block::Para(Para {
        runs: vec![TextRun { text: s("_"), bold: None, italic: false, size: Some(1) }],
        style: None,
        indent_left: Some(0),
        indent_right: Some(0),
        centered: true,
    })
}

#[test]
fn document_separators_follow_four_sections() {
    let doc = render_document(&design(), &resume());
    let positions: Vec<usize> =
        doc.blocks.iter().enumerate().filter(|(_, b)| is_separator(b)).map(|(i, _)| i).collect();
    assert_eq!(positions.len(), 4);
    // header: name and table
    assert_eq!(positions[0], 2);
    // summary: title and one item
    assert_eq!(positions[1], 5);
    // experience: title, three lines, two responsibilities, empty paragraph
    assert_eq!(positions[2], 13);
    // skills: title and two items
    assert_eq!(positions[3], 17);
    assert!(!is_separator(doc.blocks.last().unwrap()));
}

#[test]
fn document_header_blocks() {
    let doc = render_document(&design(), &resume());
    assert_eq!(
        doc.blocks[0],
        para(
            vec![TextRun { text: s("Ada Lovelace"), bold: Some(true), italic: false, size: Some(48) }],
            Some(ParaStyle::Heading)
        )
    );
    assert_eq!(
        doc.blocks[1],
        Block::Table(ContactTable {
            cells: [
                [s("ada@example.org"), s("555-0100")],
                [s("github.com/ada"), s("linkedin.com/in/ada")]
            ],
            column_widths: [5000, 5000],
        })
    );
    assert_eq!(doc.page.unwrap().top, 1134);
    assert_eq!(doc.styles.unwrap().heading_size, 44);
}

#[test]
fn document_experience_blocks() {
    let doc = render_document(&design(), &resume());
    assert_eq!(doc.blocks[6], para(vec![run("WORK EXPERIENCE", None, false)], Some(ParaStyle::Heading)));
    assert_eq!(
        doc.blocks[7],
        para(
            vec![run("Acme", Some(true), false), run(" - ", None, false), run("Engineer", Some(false), false)],
            Some(ParaStyle::Subheading)
        )
    );
    assert_eq!(doc.blocks[8], para(vec![run("Remote | 2020-2022", None, false)], Some(ParaStyle::Normal)));
    assert_eq!(doc.blocks[9], para(vec![run("Industry: Tech", None, false)], Some(ParaStyle::Normal)));
    assert_eq!(
        doc.blocks[10],
        Block::Para(Para {
            runs: vec![run(" • ", None, false), run("Built X", None, false)],
            style: Some(ParaStyle::Normal),
            indent_left: Some(720),
            indent_right: None,
            centered: false,
        })
    );
    assert_eq!(doc.blocks[12], para(vec![], None));
}

#[test]
fn education_grouped_by_institution() {
    let entries = vec![
        edu("MIT", "BSc", Some("Cambridge, MA")),
        edu("MIT", "MSc", Some("Boston")),
    ];
    let mut blocks = Vec::new();
    add_education(&mut blocks, &entries);
    let normal = Some(ParaStyle::Normal);
    assert_eq!(
        blocks,
        vec![
            para(vec![run("EDUCATION", None, false)], Some(ParaStyle::Heading)),
            para(vec![run("MIT", Some(true), false)], Some(ParaStyle::Subheading)),
            para(vec![run("Location: Cambridge, MA", None, false)], normal),
            para(vec![run("• ", None, false), run("BSc", None, true)], normal),
            para(vec![run("• ", None, false), run("MSc", None, true)], normal),
            para(vec![], None),
        ]
    );
}

#[test]
fn education_optional_lines_in_document() {
    let mut e = edu("Open University", "Certificate", None);
    e.course_name = Some(s("Logic"));
    e.completion_date = Some(s("2019"));
    e.graduation_year = Some(s("2020"));
    let mut blocks = Vec::new();
    add_education(&mut blocks, &vec![e]);
    let normal = Some(ParaStyle::Normal);
    assert_eq!(blocks.len(), 7);
    assert_eq!(blocks[3], para(vec![run("  Course: Logic", None, false)], normal));
    assert_eq!(blocks[4], para(vec![run("  Completed: 2019", None, false)], normal));
    assert_eq!(blocks[5], para(vec![run("  Graduated: 2020", None, false)], normal));
}

#[test]
fn groups_keep_first_seen_order() {
    let entries = vec![edu("A", "1", None), edu("B", "2", None), edu("A", "3", None)];
    assert_eq!(group_by_institution(&entries), vec![vec![0, 2], vec![1]]);
    assert_eq!(group_by_institution(&vec![]), Vec::<Vec<usize>>::new());
}

#[test]
fn empty_document_sections() {
    let mut r = resume();
    r.summary_of_qualifications = vec![];
    r.experience_details = vec![];
    r.technical_skills = vec![];
    r.education_details = vec![];
    let doc = render_document(&design(), &r);
    assert_eq!(doc.blocks.len(), 10);
    assert!(is_separator(&doc.blocks[4]));
    assert_eq!(Document::new().blocks.len(), 0);
}

#[test]
fn markup_experience_block() {
    let text = render_markup(&resume());
    assert!(text.contains(
        "### Acme\n**Engineer**\nRemote | 2020-2022\nIndustry: Tech\n- Built X\n- Shipped Y\n"
    ));
}

#[test]
fn markup_graduation_line_present_or_absent() {
    let mut r = resume();
    let mut with_year = edu("Uni", "BA", None);
    with_year.graduation_year = Some(s("2020"));
    let without_year = edu("Uni", "MA", None);
    let mut empty_year = edu("Uni", "PhD", None);
    empty_year.graduation_year = Some(s(""));
    r.education_details = vec![with_year];
    let lines = markup_lines(&r);
    assert_eq!(lines.iter().filter(|l| l.starts_with("Graduated:")).count(), 1);
    assert!(lines.contains(&s("Graduated: 2020")));
    r.education_details = vec![without_year, empty_year];
    let lines = markup_lines(&r);
    assert_eq!(lines.iter().filter(|l| l.starts_with("Graduated:")).count(), 0);
}

#[test]
fn markup_whole_text() {
    let mut r = resume();
    let mut e = edu("Uni", "BA", Some("Paris"));
    e.instructor = Some(s("Prof. X"));
    e.credential_id = Some(s("ID-7"));
    e.course_name = Some(s("Maths"));
    e.completion_date = Some(s("2018"));
    r.education_details = vec![e.clone(), e];
    r.projects = vec![Project { name: s("Engine"), details: vec![s("Fast")] }];
    let expected = "# Ada Lovelace\n\
ada@example.org | 555-0100\n\
github.com/ada | linkedin.com/in/ada\n\
\n\
## Summary of Qualifications\n\
- Analytical\n\
\n\
## Work Experience\n\
### Acme\n\
**Engineer**\n\
Remote | 2020-2022\n\
Industry: Tech\n\
- Built X\n\
- Shipped Y\n\
\n\
## Projects\n\
### Engine\n\
- Fast\n\
\n\
## Technical Skills\n\
- Rust\n\
- Verus\n\
\n\
## Education\n\
### Uni\n\
*BA*\n\
Course: Maths\n\
Instructor: Prof. X\n\
Completed: 2018\n\
Location: Paris\n\
Credential ID: ID-7\n\
\n\
### Uni\n\
*BA*\n\
Course: Maths\n\
Instructor: Prof. X\n\
Completed: 2018\n\
Location: Paris\n\
Credential ID: ID-7\n\
\n";
    assert_eq!(render_markup(&r), expected);
}

#[test]
fn markup_omits_empty_summary_and_projects() {
    let mut r = resume();
    r.summary_of_qualifications = vec![];
    r.experience_details = vec![];
    r.education_details = vec![];
    r.technical_skills = vec![];
    let text = render_markup(&r);
    assert!(!text.contains("## Summary"));
    assert!(!text.contains("## Projects"));
    assert!(text.contains("## Work Experience\n## Technical Skills\n\n## Education\n"));
}

#[test]
fn join_lines_ends_each_line() {
    assert_eq!(join_markup_lines(&vec![s("a"), s(""), s("b")]), "a\n\nb\n");
    assert_eq!(join_markup_lines(&vec![]), "");
}

#[test]
fn docx_builds_from_model() {
    let doc = render_document(&design(), &resume());
    let mut buf = std::io::Cursor::new(Vec::new());
    resume_builder::docx_build::to_docx(&doc).build().pack(&mut buf).unwrap();
    let bytes = buf.into_inner();
    assert!(bytes.len() > 4);
    assert_eq!(&bytes[0..2], b"PK");
}

#[test]
fn style_ids() {
    assert_eq!(style_id(ParaStyle::Normal), "Normal");
    assert_eq!(style_id(ParaStyle::Heading), "Heading");
    assert_eq!(style_id(ParaStyle::Subheading), "Subheading");
}

#[test]
fn docx_holds_model() {
    let doc = render_document(&design(), &resume());
    let d = resume_builder::docx_build::to_docx(&doc);
    assert_eq!(d.document.children.len(), doc.blocks.len());
    let margin = &d.document.section_property.page_margin;
    assert_eq!((margin.top, margin.bottom, margin.left, margin.right), (1134, 1134, 1134, 1134));
    let n = d.styles.styles.len();
    assert!(n >= 3);
    let ids: Vec<&str> = d.styles.styles[n - 3..].iter().map(|s| s.style_id.as_str()).collect();
    assert_eq!(ids, vec!["Normal", "Heading", "Subheading"]);
    assert!(d.styles.styles[n - 3].run_property.bold.is_none());
    assert!(d.styles.styles[n - 2].run_property.bold.is_some());
    assert!(d.styles.styles[n - 3].run_property.sz.is_some());
    match &d.document.children[0] {
        docx_rs::DocumentChild::Paragraph(p) => {
            assert_eq!(p.property.style.as_ref().unwrap().val, "Heading");
            match &p.children[0] {
                docx_rs::ParagraphChild::Run(r) => {
                    assert!(r.run_property.bold.is_some());
                    match &r.children[0] {
                        docx_rs::RunChild::Text(t) => assert_eq!(t.text, "Ada Lovelace"),
                        _ => panic!("expected a text child"),
                    }
                }
                _ => panic!("expected a run"),
            }
        }
        _ => panic!("expected a paragraph"),
    }
    assert!(matches!(d.document.children[1], docx_rs::DocumentChild::Table(_)));
}
