//! The word-processor document: page setup, styles and a sequence of
//! blocks built section by section from a resume.
use vstd::prelude::*;
use crate::layout::{PageSetup, StyleSet, base_points_of, page_dimensions_of, page_setup, style_set};
use crate::text::margin_twips;
use crate::profile::{Design, Education, Experience, PersonalInfo, Resume};

verus! {

/// The named paragraph styles a paragraph can refer to.
#[derive(Clone, Copy, Debug, PartialEq, Eq)]
pub enum ParaStyle {
    Normal,
    Heading,
    Subheading,
}

/// A run of text. `bold` is `None` where the paragraph style decides,
/// `Some(false)` where the style's bold is switched off; `size` is in
/// half-points.
#[derive(Clone, Debug, PartialEq, Eq)]
pub struct TextRun {
    pub text: String,
    pub bold: Option<bool>,
    pub italic: bool,
    pub size: Option<u64>,
}

/// What a run holds, as plain values.
pub struct RunView {
    pub text: Seq<char>,
    pub bold: Option<bool>,
    pub italic: bool,
    pub size: Option<u64>,
}

impl View for TextRun {
    type V = RunView;

    open spec fn view(&self) -> RunView {
        RunView { text: self.text@, bold: self.bold, italic: self.italic, size: self.size }
    }
}

/// The views of a sequence of runs.
pub open spec fn runs_view(s: Seq<TextRun>) -> Seq<RunView> {
    s.map_values(|r: TextRun| r@)
}

/// A paragraph: its runs, its style, its left and right indentation in
/// twips, and whether it is centred.
#[derive(Clone, Debug, PartialEq, Eq)]
pub struct Para {
    pub runs: Vec<TextRun>,
    pub style: Option<ParaStyle>,
    pub indent_left: Option<i32>,
    pub indent_right: Option<i32>,
    pub centered: bool,
}

/// What a paragraph holds, as plain values.
pub struct ParaView {
    pub runs: Seq<RunView>,
    pub style: Option<ParaStyle>,
    pub indent_left: Option<i32>,
    pub indent_right: Option<i32>,
    pub centered: bool,
}

impl View for Para {
    type V = ParaView;

    open spec fn view(&self) -> ParaView {
        ParaView {
            runs: runs_view(self.runs@),
            style: self.style,
            indent_left: self.indent_left,
            indent_right: self.indent_right,
            centered: self.centered,
        }
    }
}

/// A table of two rows and two columns, with its column widths in twips.
#[derive(Clone, Debug, PartialEq, Eq)]
pub struct ContactTable {
    pub cells: [[String; 2]; 2],
    pub column_widths: [u32; 2],
}

/// What a contact table holds, as plain values.
pub struct ContactTableView {
    pub cells: Seq<Seq<Seq<char>>>,
    pub column_widths: Seq<u32>,
}

impl View for ContactTable {
    type V = ContactTableView;

    open spec fn view(&self) -> ContactTableView {
        ContactTableView {
            cells: seq![
                seq![self.cells[0][0]@, self.cells[0][1]@],
                seq![self.cells[1][0]@, self.cells[1][1]@],
            ],
            column_widths: seq![self.column_widths[0], self.column_widths[1]],
        }
    }
}

/// One block of the document body.
#[derive(Clone, Debug, PartialEq, Eq)]
pub enum Block {
    Para(Para),
    Table(ContactTable),
}

/// What a block holds, as plain values.
pub enum BlockView {
    Para(ParaView),
    Table(ContactTableView),
}

impl View for Block {
    type V = BlockView;

    open spec fn view(&self) -> BlockView {
        match self {
            Block::Para(p) => BlockView::Para(p@),
            Block::Table(t) => BlockView::Table(t@),
        }
    }
}

/// The views of a sequence of blocks.
pub open spec fn blocks_view(s: Seq<Block>) -> Seq<BlockView> {
    s.map_values(|b: Block| b@)
}

/// A whole document. Page setup and styles are `None` until a design is
/// applied, in which case the format's defaults hold.
#[derive(Clone, Debug, PartialEq, Eq)]
pub struct Document {
    pub page: Option<PageSetup>,
    pub styles: Option<StyleSet>,
    pub blocks: Vec<Block>,
}

// ---- the blocks each section consists of ----

/// A run of plain text.
pub open spec fn run_of(text: Seq<char>) -> RunView {
    RunView { text, bold: None, italic: false, size: None }
}

/// An unindented, left-aligned paragraph.
pub open spec fn para_of(runs: Seq<RunView>, style: Option<ParaStyle>) -> BlockView {
    BlockView::Para(
        ParaView { runs, style, indent_left: None, indent_right: None, centered: false },
    )
}

/// The separator line closing a section: a centred, unindented paragraph
/// holding one underscore of the smallest size.
pub open spec fn separator() -> BlockView {
    BlockView::Para(
        ParaView {
            runs: seq![RunView { text: "_"@, bold: None, italic: false, size: Some(1) }],
            style: None,
            indent_left: Some(0),
            indent_right: Some(0),
            centered: true,
        },
    )
}

pub open spec fn is_separator(b: BlockView) -> bool {
    b == separator()
}

/// No block of `s` is a separator.
pub open spec fn no_separator(s: Seq<BlockView>) -> bool {
    forall|i: int| 0 <= i < s.len() ==> !is_separator(#[trigger] s[i])
}

/// A section title in heading style.
pub open spec fn section_title(title: Seq<char>) -> BlockView {
    para_of(seq![run_of(title)], Some(ParaStyle::Heading))
}

/// The empty paragraph that closes an entry.
pub open spec fn empty_para() -> BlockView {
    para_of(seq![], None)
}

/// A body-text paragraph of a marker and a text.
pub open spec fn bullet(marker: Seq<char>, text: Seq<char>) -> BlockView {
    para_of(seq![run_of(marker), run_of(text)], Some(ParaStyle::Normal))
}

/// A body-text paragraph of one text.
pub open spec fn line(text: Seq<char>) -> BlockView {
    para_of(seq![run_of(text)], Some(ParaStyle::Normal))
}

/// Header: the full name in large bold heading type, then the contact table.
pub open spec fn header_blocks(info: PersonalInfo) -> Seq<BlockView> {
    seq![
        para_of(
            seq![RunView { text: info.name@ + " "@ + info.surname@, bold: Some(true), italic: false, size: Some(48) }],
            Some(ParaStyle::Heading),
        ),
        BlockView::Table(
            ContactTableView {
                cells: seq![seq![info.email@, info.phone@], seq![info.github@, info.linkedin@]],
                column_widths: seq![5000u32, 5000u32],
            },
        ),
    ]
}

pub open spec fn summary_item(q: String) -> BlockView {
    bullet(" • "@, q@)
}

pub open spec fn summary_items(s: Seq<String>) -> Seq<BlockView> {
    s.map_values(|q: String| summary_item(q))
}

pub open spec fn summary_blocks(s: Seq<String>) -> Seq<BlockView> {
    seq![section_title("Summary of Qualifications"@)] + summary_items(s)
}

pub open spec fn skill_item(q: String) -> BlockView {
    bullet("• "@, q@)
}

pub open spec fn skill_items(s: Seq<String>) -> Seq<BlockView> {
    s.map_values(|q: String| skill_item(q))
}

pub open spec fn skills_blocks(s: Seq<String>) -> Seq<BlockView> {
    seq![section_title("TECHNICAL SKILLS"@)] + skill_items(s)
}

/// A responsibility: a bullet indented by half an inch.
pub open spec fn responsibility_item(r: String) -> BlockView {
    BlockView::Para(
        ParaView {
            runs: seq![run_of(" • "@), run_of(r@)],
            style: Some(ParaStyle::Normal),
            indent_left: Some(720),
            indent_right: None,
            centered: false,
        },
    )
}

pub open spec fn responsibility_items(s: Seq<String>) -> Seq<BlockView> {
    s.map_values(|r: String| responsibility_item(r))
}

/// One position: company in bold and position not bold on a subheading,
/// location and period, industry, the responsibilities, an empty paragraph.
pub open spec fn experience_entry(e: Experience) -> Seq<BlockView> {
    seq![
        para_of(
            seq![
                RunView { text: e.company@, bold: Some(true), italic: false, size: None },
                run_of(" - "@),
                RunView { text: e.position@, bold: Some(false), italic: false, size: None },
            ],
            Some(ParaStyle::Subheading),
        ),
        line(e.location@ + " | "@ + e.employment_period@),
        line("Industry: "@ + e.industry@),
    ] + responsibility_items(e.key_responsibilities@) + seq![empty_para()]
}

pub open spec fn experience_entries(s: Seq<Experience>) -> Seq<BlockView>
    decreases s.len(),
{
    if s.len() == 0 {
        seq![]
    } else {
        experience_entries(s.drop_last()) + experience_entry(s.last())
    }
}

pub open spec fn experience_blocks(s: Seq<Experience>) -> Seq<BlockView> {
    seq![section_title("WORK EXPERIENCE"@)] + experience_entries(s)
}

// ---- education, grouped by institution ----

/// The distinct keys of `keys` in the order of their first occurrence.
pub open spec fn first_seen(keys: Seq<Seq<char>>) -> Seq<Seq<char>>
    decreases keys.len(),
{
    if keys.len() == 0 {
        seq![]
    } else {
        let prior = first_seen(keys.drop_last());
        if prior.contains(keys.last()) {
            prior
        } else {
            prior.push(keys.last())
        }
    }
}

/// The positions at which `k` occurs in `keys`, in increasing order.
pub open spec fn positions_of(keys: Seq<Seq<char>>, k: Seq<char>) -> Seq<usize>
    decreases keys.len(),
{
    if keys.len() == 0 {
        seq![]
    } else {
        let prior = positions_of(keys.drop_last(), k);
        if keys.last() == k {
            prior.push((keys.len() - 1) as usize)
        } else {
            prior
        }
    }
}

/// For each distinct key, in order of first occurrence, the positions at
/// which it occurs.
pub open spec fn groups_of(keys: Seq<Seq<char>>) -> Seq<Seq<usize>> {
    first_seen(keys).map_values(|k: Seq<char>| positions_of(keys, k))
}

/// The institution of each entry.
pub open spec fn institutions(edu: Seq<Education>) -> Seq<Seq<char>> {
    edu.map_values(|e: Education| e.institution@)
}

/// A body-text line `label + value` when the field is given.
pub open spec fn optional_line(label: Seq<char>, v: Option<String>) -> Seq<BlockView> {
    match v {
        Some(t) => seq![line(label + t@)],
        None => seq![],
    }
}

/// One degree: the degree in italics after a bullet, then course,
/// completion date and graduation year where given.
pub open spec fn degree_entry(e: Education) -> Seq<BlockView> {
    seq![
        para_of(
            seq![run_of("• "@), RunView { text: e.degree@, bold: None, italic: true, size: None }],
            Some(ParaStyle::Normal),
        ),
    ] + optional_line("  Course: "@, e.course_name) + optional_line(
        "  Completed: "@,
        e.completion_date,
    ) + optional_line("  Graduated: "@, e.graduation_year)
}

pub open spec fn degree_entries(edu: Seq<Education>, members: Seq<usize>) -> Seq<BlockView>
    decreases members.len(),
{
    if members.len() == 0 {
        seq![]
    } else {
        degree_entries(edu, members.drop_last()) + degree_entry(edu[members.last() as int])
    }
}

/// One institution: its name as a bold subheading, the location of its first
/// entry, each of its degrees in input order, an empty paragraph.
pub open spec fn institution_entry(edu: Seq<Education>, members: Seq<usize>) -> Seq<BlockView> {
    let first = edu[members[0] as int];
    seq![
        para_of(
            seq![RunView { text: first.institution@, bold: Some(true), italic: false, size: None }],
            Some(ParaStyle::Subheading),
        ),
    ] + optional_line("Location: "@, first.location) + degree_entries(edu, members) + seq![
        empty_para(),
    ]
}

pub open spec fn institution_entries(edu: Seq<Education>, groups: Seq<Seq<usize>>) -> Seq<
    BlockView,
>
    decreases groups.len(),
{
    if groups.len() == 0 {
        seq![]
    } else {
        institution_entries(edu, groups.drop_last()) + institution_entry(edu, groups.last())
    }
}

pub open spec fn education_blocks(edu: Seq<Education>) -> Seq<BlockView> {
    seq![section_title("EDUCATION"@)] + institution_entries(edu, groups_of(institutions(edu)))
}

/// The blocks of the whole document body: each section but the last is
/// closed by a separator.
pub open spec fn document_blocks(r: Resume) -> Seq<BlockView> {
    header_blocks(r.personal_information) + seq![separator()] + summary_blocks(
        r.summary_of_qualifications@,
    ) + seq![separator()] + experience_blocks(r.experience_details@) + seq![separator()]
        + skills_blocks(r.technical_skills@) + seq![separator()] + education_blocks(
        r.education_details@,
    )
}

/// The positions held by each group.
pub open spec fn groups_view(g: Seq<Vec<usize>>) -> Seq<Seq<usize>> {
    g.map_values(|v: Vec<usize>| v@)
}

proof fn lemma_positions_absent(keys: Seq<Seq<char>>, k: Seq<char>)
    requires
        !first_seen(keys).contains(k),
    ensures
        positions_of(keys, k).len() == 0,
    decreases keys.len(),
{
    if keys.len() > 0 {
        let prior = first_seen(keys.drop_last());
        if prior.contains(keys.last()) {
            lemma_positions_absent(keys.drop_last(), k);
        } else {
            assert(first_seen(keys)[prior.len() as int] == keys.last());
            if prior.contains(k) {
                let m = choose|m: int| 0 <= m < prior.len() && prior[m] == k;
                assert(first_seen(keys)[m] == k);
            }
            lemma_positions_absent(keys.drop_last(), k);
        }
    }
}

/// Groups the entries by institution: one group per institution in order of
/// first occurrence, holding the positions of its entries in input order.
pub fn group_by_institution(edu: &Vec<Education>) -> (r: Vec<Vec<usize>>)
    ensures
        groups_view(r@) == groups_of(institutions(edu@)),
        forall|j: int| 0 <= j < r@.len() ==> #[trigger] r@[j]@.len() > 0,
        forall|j: int, m: int|
            0 <= j < r@.len() && 0 <= m < r@[j]@.len() ==> #[trigger] r@[j]@[m] < edu@.len(),
{
    let ghost keys_all = institutions(edu@);
    let mut keys: Vec<String> = Vec::new();
    let mut groups: Vec<Vec<usize>> = Vec::new();
    let mut i: usize = 0;
    while i < edu.len()
        invariant
            i <= edu@.len(),
            keys_all == institutions(edu@),
            keys@.len() == groups@.len(),
            keys@.map_values(|k: String| k@) == first_seen(keys_all.take(i as int)),
            forall|j: int|
                0 <= j < groups@.len() ==> #[trigger] groups@[j]@ == positions_of(
                    keys_all.take(i as int),
                    keys@[j]@,
                ),
            forall|j: int| 0 <= j < groups@.len() ==> #[trigger] groups@[j]@.len() > 0,
            forall|j: int, m: int|
                0 <= j < groups@.len() && 0 <= m < groups@[j]@.len() ==> #[trigger] groups@[j]@[m]
                    < i,
            forall|a: int, b: int|
                0 <= a < keys@.len() && 0 <= b < keys@.len() && a != b ==> (#[trigger] keys@[a])@
                    != (#[trigger] keys@[b])@,
        decreases edu@.len() - i,
    {
        let inst = &edu[i].institution;
        let ghost pre = keys_all.take(i as int);
        let ghost cur = keys_all.take(i + 1);
        assert(cur.drop_last() =~= pre);
        assert(cur.last() == inst@);
        let mut j: usize = 0;
        let mut found = false;
        while j < keys.len()
            invariant
                j <= keys@.len(),
                !found ==> forall|m: int| 0 <= m < j ==> (#[trigger] keys@[m])@ != inst@,
                found ==> j < keys@.len() && keys@[j as int]@ == inst@,
            ensures
                !found ==> j == keys@.len() && forall|m: int|
                    0 <= m < keys@.len() ==> (#[trigger] keys@[m])@ != inst@,
                found ==> j < keys@.len() && keys@[j as int]@ == inst@,
            decreases keys@.len() - j,
        {
            if keys[j] == *inst {
                found = true;
                break;
            }
            j = j + 1;
        }
        let ghost old_keys = keys@;
        let ghost old_groups = groups@;
        if found {
            assert(old_keys.map_values(|k: String| k@)[j as int] == inst@);
            let mut g = groups.remove(j);
            g.push(i);
            groups.insert(j, g);
            assert forall|m: int| 0 <= m < groups@.len() implies #[trigger] groups@[m]@
                == positions_of(cur, keys@[m]@) by {
                if m != j {
                    assert(groups@[m] == old_groups[m]);
                    assert(keys@[m]@ != inst@);
                } else {
                    assert(groups@[m]@ =~= positions_of(pre, inst@).push(i));
                }
            }
        } else {
            assert(!first_seen(pre).contains(inst@)) by {
                if first_seen(pre).contains(inst@) {
                    let m = choose|m: int|
                        0 <= m < first_seen(pre).len() && first_seen(pre)[m] == inst@;
                    assert(old_keys.map_values(|k: String| k@)[m] == old_keys[m]@);
                    assert(old_keys[m]@ != inst@);
                }
            }
            keys.push(inst.clone());
            let mut g: Vec<usize> = Vec::new();
            g.push(i);
            groups.push(g);
            assert(keys@.map_values(|k: String| k@) =~= old_keys.map_values(|k: String| k@).push(inst@));
            assert(positions_of(pre, inst@).len() == 0) by {
                lemma_positions_absent(pre, inst@);
            }
            assert forall|m: int| 0 <= m < groups@.len() implies #[trigger] groups@[m]@
                == positions_of(cur, keys@[m]@) by {
                if m < old_groups.len() {
                    assert(groups@[m] == old_groups[m]);
                    assert(keys@[m] == old_keys[m]);
                    assert(old_keys.map_values(|k: String| k@)[m] == old_keys[m]@);
                } else {
                    assert(groups@[m]@ =~= positions_of(pre, inst@).push(i));
                }
            }
        }
        i = i + 1;
    }
    assert(keys_all.take(i as int) =~= keys_all);
    let ghost ks = keys@.map_values(|k: String| k@);
    assert(groups_view(groups@) =~= groups_of(keys_all)) by {
        assert forall|m: int| 0 <= m < groups@.len() implies groups_view(groups@)[m]
            == groups_of(keys_all)[m] by {
            assert(ks[m] == keys@[m]@);
        }
    }
    groups
}

// ---- building the blocks ----

fn text_of(s: &str) -> (r: String)
    ensures
        r@ == s@,
{
    String::from_str(s)
}

fn joined(a: &str, b: &str) -> (r: String)
    ensures
        r@ == a@ + b@,
{
    let mut r = String::from_str(a);
    r.append(b);
    r
}

fn run(text: String, bold: Option<bool>, italic: bool) -> (r: TextRun)
    ensures
        r@ == (RunView { text: text@, bold, italic, size: None }),
{
    TextRun { text, bold, italic, size: None }
}

fn para(runs: Vec<TextRun>, style: Option<ParaStyle>) -> (r: Block)
    ensures
        r@ == para_of(runs_view(runs@), style),
{
    Block::Para(Para { runs, style, indent_left: None, indent_right: None, centered: false })
}

fn one_run(a: TextRun) -> (r: Vec<TextRun>)
    ensures
        runs_view(r@) == seq![a@],
{
    let mut r = Vec::new();
    r.push(a);
    assert(runs_view(r@) =~= seq![a@]);
    r
}

fn two_runs(a: TextRun, b: TextRun) -> (r: Vec<TextRun>)
    ensures
        runs_view(r@) == seq![a@, b@],
{
    let mut r = Vec::new();
    r.push(a);
    r.push(b);
    assert(runs_view(r@) =~= seq![a@, b@]);
    r
}

fn bullet_block(marker: &str, text: &String) -> (r: Block)
    ensures
        r@ == bullet(marker@, text@),
{
    para(two_runs(run(text_of(marker), None, false), run(text.clone(), None, false)), Some(ParaStyle::Normal))
}

fn line_block(text: String) -> (r: Block)
    ensures
        r@ == line(text@),
{
    para(one_run(run(text, None, false)), Some(ParaStyle::Normal))
}

fn push_block(blocks: &mut Vec<Block>, b: Block)
    ensures
        blocks_view(final(blocks)@) == blocks_view(old(blocks)@).push(b@),
{
    blocks.push(b);
    assert(blocks_view(blocks@) =~= blocks_view(old(blocks)@).push(b@));
}

/// Appends a section title in heading style.
pub fn add_section_title(blocks: &mut Vec<Block>, title: &str)
    ensures
        blocks_view(final(blocks)@) == blocks_view(old(blocks)@).push(section_title(title@)),
{
    push_block(blocks, para(one_run(run(text_of(title), None, false)), Some(ParaStyle::Heading)));
}

/// Appends the separator line that closes a section.
pub fn add_horizontal_line(blocks: &mut Vec<Block>)
    ensures
        blocks_view(final(blocks)@) == blocks_view(old(blocks)@).push(separator()),
{
    let r = TextRun { text: text_of("_"), bold: None, italic: false, size: Some(1) };
    let b = Block::Para(
        Para {
            runs: one_run(r),
            style: None,
            indent_left: Some(0),
            indent_right: Some(0),
            centered: true,
        },
    );
    push_block(blocks, b);
}

/// Appends the header: the full name, the contact table and a separator.
pub fn add_header(blocks: &mut Vec<Block>, info: &PersonalInfo)
    ensures
        blocks_view(final(blocks)@) == blocks_view(old(blocks)@) + header_blocks(*info) + seq![
            separator(),
        ],
{
    let mut name = info.name.clone();
    name.append(" ");
    name.append(info.surname.as_str());
    let name_run = TextRun { text: name, bold: Some(true), italic: false, size: Some(48) };
    push_block(blocks, para(one_run(name_run), Some(ParaStyle::Heading)));
    let table = ContactTable {
        cells: [[info.email.clone(), info.phone.clone()], [info.github.clone(), info.linkedin.clone()]],
        column_widths: [5000, 5000],
    };
    let ghost before = blocks_view(blocks@);
    push_block(blocks, Block::Table(table));
    assert(before.push(Block::Table(table)@) == blocks_view(old(blocks)@) + header_blocks(*info)) by {
        assert(Block::Table(table)@ == header_blocks(*info)[1]) by {
            assert(table@.cells =~= seq![seq![info.email@, info.phone@], seq![info.github@, info.linkedin@]]);
            assert(table@.column_widths =~= seq![5000u32, 5000u32]);
        }
        assert(before.push(Block::Table(table)@) =~= blocks_view(old(blocks)@) + header_blocks(*info));
    }
    add_horizontal_line(blocks);
}

/// Appends the summary of qualifications: a title, one bullet per item,
/// and a separator.
pub fn add_summary(blocks: &mut Vec<Block>, summary: &Vec<String>)
    ensures
        blocks_view(final(blocks)@) == blocks_view(old(blocks)@) + summary_blocks(summary@) + seq![
            separator(),
        ],
{
    add_section_title(blocks, "Summary of Qualifications");
    let ghost start = blocks_view(blocks@);
    let mut i: usize = 0;
    while i < summary.len()
        invariant
            i <= summary@.len(),
            blocks_view(blocks@) == start + summary_items(summary@.take(i as int)),
        decreases summary@.len() - i,
    {
        push_block(blocks, bullet_block(" • ", &summary[i]));
        assert(summary_items(summary@.take(i + 1)) =~= summary_items(summary@.take(i as int)).push(
            summary_item(summary@[i as int]),
        ));
        i = i + 1;
    }
    assert(summary@.take(i as int) =~= summary@);
    assert(start + summary_items(summary@) =~= blocks_view(old(blocks)@) + summary_blocks(summary@));
    add_horizontal_line(blocks);
}

/// Appends the technical skills: a title, one bullet per skill, and a
/// separator.
pub fn add_skills(blocks: &mut Vec<Block>, skills: &Vec<String>)
    ensures
        blocks_view(final(blocks)@) == blocks_view(old(blocks)@) + skills_blocks(skills@) + seq![
            separator(),
        ],
{
    add_section_title(blocks, "TECHNICAL SKILLS");
    let ghost start = blocks_view(blocks@);
    let mut i: usize = 0;
    while i < skills.len()
        invariant
            i <= skills@.len(),
            blocks_view(blocks@) == start + skill_items(skills@.take(i as int)),
        decreases skills@.len() - i,
    {
        push_block(blocks, bullet_block("• ", &skills[i]));
        assert(skill_items(skills@.take(i + 1)) =~= skill_items(skills@.take(i as int)).push(
            skill_item(skills@[i as int]),
        ));
        i = i + 1;
    }
    assert(skills@.take(i as int) =~= skills@);
    assert(start + skill_items(skills@) =~= blocks_view(old(blocks)@) + skills_blocks(skills@));
    add_horizontal_line(blocks);
}

/// Appends the blocks of one position.
fn add_experience_entry(blocks: &mut Vec<Block>, e: &Experience)
    ensures
        blocks_view(final(blocks)@) == blocks_view(old(blocks)@) + experience_entry(*e),
{
    let mut runs: Vec<TextRun> = Vec::new();
    runs.push(run(e.company.clone(), Some(true), false));
    runs.push(run(text_of(" - "), None, false));
    runs.push(run(e.position.clone(), Some(false), false));
    assert(runs_view(runs@) =~= experience_entry(*e)[0]->Para_0.runs);
    push_block(blocks, para(runs, Some(ParaStyle::Subheading)));
    let mut details = e.location.clone();
    details.append(" | ");
    details.append(e.employment_period.as_str());
    push_block(blocks, line_block(details));
    push_block(blocks, line_block(joined("Industry: ", e.industry.as_str())));
    let ghost start = blocks_view(blocks@);
    let resp = &e.key_responsibilities;
    let mut i: usize = 0;
    while i < resp.len()
        invariant
            i <= resp@.len(),
            blocks_view(blocks@) == start + responsibility_items(resp@.take(i as int)),
        decreases resp@.len() - i,
    {
        let b = Block::Para(
            Para {
                runs: two_runs(run(text_of(" • "), None, false), run(resp[i].clone(), None, false)),
                style: Some(ParaStyle::Normal),
                indent_left: Some(720),
                indent_right: None,
                centered: false,
            },
        );
        push_block(blocks, b);
        assert(responsibility_items(resp@.take(i + 1)) =~= responsibility_items(
            resp@.take(i as int),
        ).push(responsibility_item(resp@[i as int])));
        i = i + 1;
    }
    assert(resp@.take(i as int) =~= resp@);
    push_block(blocks, para(Vec::new(), None));
    assert(runs_view(Seq::<TextRun>::empty()) =~= seq![]);
    assert(blocks_view(blocks@) =~= blocks_view(old(blocks)@) + experience_entry(*e));
}

/// Appends the work experience: a title, each position in input order, and
/// a separator.
pub fn add_experience(blocks: &mut Vec<Block>, experiences: &Vec<Experience>)
    ensures
        blocks_view(final(blocks)@) == blocks_view(old(blocks)@) + experience_blocks(experiences@)
            + seq![separator()],
{
    add_section_title(blocks, "WORK EXPERIENCE");
    let ghost start = blocks_view(blocks@);
    let mut i: usize = 0;
    while i < experiences.len()
        invariant
            i <= experiences@.len(),
            blocks_view(blocks@) == start + experience_entries(experiences@.take(i as int)),
        decreases experiences@.len() - i,
    {
        add_experience_entry(blocks, &experiences[i]);
        assert(experiences@.take(i + 1).drop_last() =~= experiences@.take(i as int));
        assert(blocks_view(blocks@) =~= start + experience_entries(experiences@.take(i + 1)));
        i = i + 1;
    }
    assert(experiences@.take(i as int) =~= experiences@);
    assert(start + experience_entries(experiences@) =~= blocks_view(old(blocks)@)
        + experience_blocks(experiences@));
    add_horizontal_line(blocks);
}

fn add_optional_line(blocks: &mut Vec<Block>, label: &str, v: &Option<String>)
    ensures
        blocks_view(final(blocks)@) == blocks_view(old(blocks)@) + optional_line(label@, *v),
{
    match v {
        Some(t) => {
            push_block(blocks, line_block(joined(label, t.as_str())));
        },
        None => {},
    }
    assert(blocks_view(blocks@) =~= blocks_view(old(blocks)@) + optional_line(label@, *v));
}

/// Appends the blocks of one degree.
fn add_degree_entry(blocks: &mut Vec<Block>, e: &Education)
    ensures
        blocks_view(final(blocks)@) == blocks_view(old(blocks)@) + degree_entry(*e),
{
    let runs = two_runs(run(text_of("• "), None, false), run(e.degree.clone(), None, true));
    push_block(blocks, para(runs, Some(ParaStyle::Normal)));
    add_optional_line(blocks, "  Course: ", &e.course_name);
    add_optional_line(blocks, "  Completed: ", &e.completion_date);
    add_optional_line(blocks, "  Graduated: ", &e.graduation_year);
    assert(blocks_view(blocks@) =~= blocks_view(old(blocks)@) + degree_entry(*e));
}

/// Appends the blocks of one institution, whose entries stand at the
/// positions `members` of `education`.
fn add_institution_entry(blocks: &mut Vec<Block>, education: &Vec<Education>, members: &Vec<usize>)
    requires
        members@.len() > 0,
        forall|m: int| 0 <= m < members@.len() ==> #[trigger] members@[m] < education@.len(),
    ensures
        blocks_view(final(blocks)@) == blocks_view(old(blocks)@) + institution_entry(
            education@,
            members@,
        ),
{
    let first = &education[members[0]];
    push_block(blocks, para(one_run(run(first.institution.clone(), Some(true), false)), Some(ParaStyle::Subheading)));
    add_optional_line(blocks, "Location: ", &first.location);
    let ghost start = blocks_view(blocks@);
    let mut i: usize = 0;
    while i < members.len()
        invariant
            i <= members@.len(),
            forall|m: int| 0 <= m < members@.len() ==> #[trigger] members@[m] < education@.len(),
            blocks_view(blocks@) == start + degree_entries(education@, members@.take(i as int)),
        decreases members@.len() - i,
    {
        add_degree_entry(blocks, &education[members[i]]);
        assert(members@.take(i + 1).drop_last() =~= members@.take(i as int));
        assert(blocks_view(blocks@) =~= start + degree_entries(education@, members@.take(i + 1)));
        i = i + 1;
    }
    assert(members@.take(i as int) =~= members@);
    push_block(blocks, para(Vec::new(), None));
    assert(runs_view(Seq::<TextRun>::empty()) =~= seq![]);
    assert(blocks_view(blocks@) =~= blocks_view(old(blocks)@) + institution_entry(education@, members@));
}

/// Appends the education section: a title, then one entry per institution
/// in order of first occurrence, each listing its degrees in input order.
/// No separator follows: it is the last section.
pub fn add_education(blocks: &mut Vec<Block>, education: &Vec<Education>)
    ensures
        blocks_view(final(blocks)@) == blocks_view(old(blocks)@) + education_blocks(education@),
{
    add_section_title(blocks, "EDUCATION");
    let groups = group_by_institution(education);
    let ghost gs = groups_of(institutions(education@));
    let ghost start = blocks_view(blocks@);
    let mut i: usize = 0;
    while i < groups.len()
        invariant
            i <= groups@.len(),
            groups_view(groups@) == gs,
            forall|j: int| 0 <= j < groups@.len() ==> #[trigger] groups@[j]@.len() > 0,
            forall|j: int, m: int|
                0 <= j < groups@.len() && 0 <= m < groups@[j]@.len() ==> #[trigger] groups@[j]@[m]
                    < education@.len(),
            blocks_view(blocks@) == start + institution_entries(education@, gs.take(i as int)),
        decreases groups@.len() - i,
    {
        assert(groups_view(groups@)[i as int] == groups@[i as int]@);
        assert forall|m: int| 0 <= m < groups@[i as int]@.len() implies #[trigger] groups@[i as int]@[m]
            < education@.len() by {
            assert(groups@[i as int]@[m] < education@.len());
        }
        add_institution_entry(blocks, education, &groups[i]);
        assert(gs.take(i + 1).drop_last() =~= gs.take(i as int));
        assert(blocks_view(blocks@) =~= start + institution_entries(education@, gs.take(i + 1)));
        i = i + 1;
    }
    assert(gs.take(i as int) =~= gs);
}

impl Document {
    /// A document with the format's default page and styles and no blocks.
    pub fn new() -> (r: Document)
        ensures
            r.page is None,
            r.styles is None,
            r.blocks@.len() == 0,
    {
        Document { page: None, styles: None, blocks: Vec::new() }
    }
}

/// Sets the page geometry and the paragraph styles from a design block.
pub fn apply_design(doc: &mut Document, design: &Design)
    ensures
        final(doc).page == Some(page_setup_of(design)),
        final(doc).styles matches Some(st) && styles_match(st, design),
        final(doc).blocks == old(doc).blocks,
{
    doc.page = Some(page_setup(design));
    doc.styles = Some(style_set(design));
}

/// The page geometry that a design gives.
pub open spec fn page_setup_of(design: &Design) -> PageSetup {
    let (width, height) = page_dimensions_of(design.page_size@);
    PageSetup {
        width,
        height,
        top: margin_twips(design.margins.top@) as i32,
        bottom: margin_twips(design.margins.bottom@) as i32,
        left: margin_twips(design.margins.left@) as i32,
        right: margin_twips(design.margins.right@) as i32,
    }
}

/// `st` holds the design's font, with body text at twice the base point
/// size in half-points, headings at four times and subheadings at three.
pub open spec fn styles_match(st: StyleSet, design: &Design) -> bool {
    &&& st.font@ == design.font@
    &&& st.normal_size == 2 * base_points_of(design.font_size@)
    &&& st.heading_size == 4 * base_points_of(design.font_size@)
    &&& st.subheading_size == 3 * base_points_of(design.font_size@)
}

/// Builds the whole document of a resume under a design: page setup and
/// styles, then header, summary, experience, skills and education.
pub fn render_document(design: &Design, resume: &Resume) -> (r: Document)
    ensures
        r.page == Some(page_setup_of(design)),
        r.styles matches Some(st) && styles_match(st, design),
        blocks_view(r.blocks@) == document_blocks(*resume),
{
    let mut doc = Document::new();
    apply_design(&mut doc, design);
    let mut blocks: Vec<Block> = Vec::new();
    add_header(&mut blocks, &resume.personal_information);
    add_summary(&mut blocks, &resume.summary_of_qualifications);
    add_experience(&mut blocks, &resume.experience_details);
    add_skills(&mut blocks, &resume.technical_skills);
    add_education(&mut blocks, &resume.education_details);
    assert(blocks_view(Seq::<Block>::empty()) =~= seq![]);
    assert(blocks_view(blocks@) =~= document_blocks(*resume));
    doc.blocks = blocks;
    doc
}

// ---- laws ----

proof fn lemma_no_separator_concat(a: Seq<BlockView>, b: Seq<BlockView>)
    requires
        no_separator(a),
        no_separator(b),
    ensures
        no_separator(a + b),
{
    assert forall|i: int| 0 <= i < (a + b).len() implies !is_separator(#[trigger] (a + b)[i]) by {
        if i < a.len() {
            assert((a + b)[i] == a[i]);
        } else {
            assert((a + b)[i] == b[i - a.len()]);
        }
    }
}

proof fn lemma_no_separator_degrees(edu: Seq<Education>, members: Seq<usize>)
    ensures
        no_separator(degree_entries(edu, members)),
    decreases members.len(),
{
    if members.len() > 0 {
        lemma_no_separator_degrees(edu, members.drop_last());
        let e = edu[members.last() as int];
        lemma_no_separator_concat(
            seq![degree_entry(e)[0]],
            optional_line("  Course: "@, e.course_name),
        );
        lemma_no_separator_concat(
            seq![degree_entry(e)[0]] + optional_line("  Course: "@, e.course_name),
            optional_line("  Completed: "@, e.completion_date),
        );
        lemma_no_separator_concat(
            seq![degree_entry(e)[0]] + optional_line("  Course: "@, e.course_name) + optional_line(
                "  Completed: "@,
                e.completion_date,
            ),
            optional_line("  Graduated: "@, e.graduation_year),
        );
        assert(degree_entry(e) =~= seq![degree_entry(e)[0]] + optional_line("  Course: "@, e.course_name)
            + optional_line("  Completed: "@, e.completion_date) + optional_line(
            "  Graduated: "@,
            e.graduation_year,
        ));
        lemma_no_separator_concat(degree_entries(edu, members.drop_last()), degree_entry(e));
    }
}

proof fn lemma_no_separator_institutions(edu: Seq<Education>, groups: Seq<Seq<usize>>)
    ensures
        no_separator(institution_entries(edu, groups)),
    decreases groups.len(),
{
    if groups.len() > 0 {
        lemma_no_separator_institutions(edu, groups.drop_last());
        let members = groups.last();
        let first = edu[members[0] as int];
        let head = seq![institution_entry(edu, members)[0]];
        lemma_no_separator_degrees(edu, members);
        lemma_no_separator_concat(head, optional_line("Location: "@, first.location));
        lemma_no_separator_concat(
            head + optional_line("Location: "@, first.location),
            degree_entries(edu, members),
        );
        lemma_no_separator_concat(
            head + optional_line("Location: "@, first.location) + degree_entries(edu, members),
            seq![empty_para()],
        );
        assert(institution_entry(edu, members) =~= head + optional_line("Location: "@, first.location)
            + degree_entries(edu, members) + seq![empty_para()]);
        lemma_no_separator_concat(
            institution_entries(edu, groups.drop_last()),
            institution_entry(edu, members),
        );
    }
}

proof fn lemma_no_separator_experiences(s: Seq<Experience>)
    ensures
        no_separator(experience_entries(s)),
    decreases s.len(),
{
    if s.len() > 0 {
        lemma_no_separator_experiences(s.drop_last());
        lemma_no_separator_concat(experience_entries(s.drop_last()), experience_entry(s.last()));
    }
}

/// The document consists of its sections in order, where a separator line
/// follows each of header, summary, experience and skills, and none follows
/// education; no section holds a separator of its own, so each of those
/// four is followed by exactly one.
pub proof fn lemma_section_separators(r: Resume)
    ensures
        document_blocks(r) == header_blocks(r.personal_information) + seq![separator()]
            + summary_blocks(r.summary_of_qualifications@) + seq![separator()]
            + experience_blocks(r.experience_details@) + seq![separator()] + skills_blocks(
            r.technical_skills@,
        ) + seq![separator()] + education_blocks(r.education_details@),
        no_separator(header_blocks(r.personal_information)),
        no_separator(summary_blocks(r.summary_of_qualifications@)),
        no_separator(experience_blocks(r.experience_details@)),
        no_separator(skills_blocks(r.technical_skills@)),
        no_separator(education_blocks(r.education_details@)),
{
    reveal_strlit("_");
    lemma_no_separator_experiences(r.experience_details@);
    lemma_no_separator_concat(
        seq![section_title("WORK EXPERIENCE"@)],
        experience_entries(r.experience_details@),
    );
    let edu = r.education_details@;
    lemma_no_separator_institutions(edu, groups_of(institutions(edu)));
    lemma_no_separator_concat(
        seq![section_title("EDUCATION"@)],
        institution_entries(edu, groups_of(institutions(edu))),
    );
    let sm = r.summary_of_qualifications@;
    assert forall|i: int| 0 <= i < summary_blocks(sm).len() implies !is_separator(
        #[trigger] summary_blocks(sm)[i],
    ) by {
        if i > 0 {
            assert(summary_blocks(sm)[i] == summary_item(sm[i - 1]));
        }
    }
    let sk = r.technical_skills@;
    assert forall|i: int| 0 <= i < skills_blocks(sk).len() implies !is_separator(
        #[trigger] skills_blocks(sk)[i],
    ) by {
        if i > 0 {
            assert(skills_blocks(sk)[i] == skill_item(sk[i - 1]));
        }
    }
}

/// Two entries at the same institution form one group: the institution
/// once, the location of the first entry only, then both degrees in input
/// order.
pub proof fn lemma_education_grouping(edu: Seq<Education>)
    requires
        edu.len() == 2,
        edu[0].institution@ == edu[1].institution@,
    ensures
        education_blocks(edu) == seq![
            section_title("EDUCATION"@),
            para_of(
                seq![RunView { text: edu[0].institution@, bold: Some(true), italic: false, size: None }],
                Some(ParaStyle::Subheading),
            ),
        ] + optional_line("Location: "@, edu[0].location) + degree_entry(edu[0]) + degree_entry(
            edu[1],
        ) + seq![empty_para()],
{
    let keys = institutions(edu);
    let a = edu[0].institution@;
    assert(keys =~= seq![a, a]);
    assert(keys.drop_last() =~= seq![a]);
    assert(keys.drop_last().drop_last() =~= Seq::<Seq<char>>::empty());
    assert(keys.drop_last().last() == a);
    assert(first_seen(keys.drop_last().drop_last()) == Seq::<Seq<char>>::empty());
    assert(positions_of(keys.drop_last().drop_last(), a) == Seq::<usize>::empty());
    assert(first_seen(keys.drop_last()) =~= seq![a]);
    assert(first_seen(keys.drop_last()).contains(a)) by {
        assert(first_seen(keys.drop_last())[0] == a);
    }
    assert(first_seen(keys) =~= seq![a]);
    assert(positions_of(keys.drop_last(), a) =~= seq![0usize]);
    assert(positions_of(keys, a) =~= seq![0usize, 1usize]);
    let gs = groups_of(keys);
    assert(gs =~= seq![seq![0usize, 1usize]]);
    let m = seq![0usize, 1usize];
    assert(m.drop_last() =~= seq![0usize]);
    assert(m.drop_last().drop_last() =~= Seq::<usize>::empty());
    assert(m.drop_last().last() == 0usize);
    assert(degree_entries(edu, m.drop_last().drop_last()) == Seq::<BlockView>::empty());
    assert(degree_entries(edu, m.drop_last()) =~= degree_entry(edu[0]));
    assert(degree_entries(edu, m) =~= degree_entry(edu[0]) + degree_entry(edu[1]));
    assert(gs.drop_last() =~= Seq::<Seq<usize>>::empty());
    assert(gs.last() == m);
    assert(institution_entries(edu, gs.drop_last()) == Seq::<BlockView>::empty());
    assert(institution_entries(edu, gs) =~= institution_entry(edu, m));
    assert(education_blocks(edu) =~= seq![
        section_title("EDUCATION"@),
        para_of(
            seq![RunView { text: edu[0].institution@, bold: Some(true), italic: false, size: None }],
            Some(ParaStyle::Subheading),
        ),
    ] + optional_line("Location: "@, edu[0].location) + degree_entry(edu[0]) + degree_entry(edu[1])
        + seq![empty_para()]);
}

proof fn lemma_positions_of(keys: Seq<Seq<char>>, k: Seq<char>)
    requires
        keys.len() <= usize::MAX,
    ensures
        forall|m: int|
            0 <= m < positions_of(keys, k).len() ==> (#[trigger] positions_of(keys, k)[m]) < keys.len()
                && keys[positions_of(keys, k)[m] as int] == k,
        forall|m1: int, m2: int|
            0 <= m1 < m2 < positions_of(keys, k).len() ==> (#[trigger] positions_of(keys, k)[m1])
                < (#[trigger] positions_of(keys, k)[m2]),
        forall|i: int|
            0 <= i < keys.len() && #[trigger] keys[i] == k ==> positions_of(keys, k).contains(
                i as usize,
            ),
    decreases keys.len(),
{
    if keys.len() > 0 {
        let pre = keys.drop_last();
        lemma_positions_of(pre, k);
        let pp = positions_of(pre, k);
        let n = (keys.len() - 1) as usize;
        if keys.last() == k {
            assert(positions_of(keys, k) == pp.push(n));
            assert(positions_of(keys, k)[pp.len() as int] == n);
        } else {
            assert(positions_of(keys, k) == pp);
        }
        assert forall|i: int| 0 <= i < keys.len() && #[trigger] keys[i] == k implies positions_of(
            keys,
            k,
        ).contains(i as usize) by {
            if i < keys.len() - 1 {
                assert(pre[i] == keys[i]);
                let m = choose|m: int| 0 <= m < pp.len() && pp[m] == i as usize;
                assert(positions_of(keys, k)[m] == i as usize);
            } else {
                assert(positions_of(keys, k)[pp.len() as int] == n);
            }
        }
    }
}

proof fn lemma_first_seen(keys: Seq<Seq<char>>)
    ensures
        forall|i: int| 0 <= i < keys.len() ==> first_seen(keys).contains(#[trigger] keys[i]),
        forall|j: int| 0 <= j < first_seen(keys).len() ==> keys.contains(#[trigger] first_seen(keys)[j]),
        forall|a: int, b: int|
            0 <= a < b < first_seen(keys).len() ==> (#[trigger] first_seen(keys)[a]) != (
            #[trigger] first_seen(keys)[b]),
    decreases keys.len(),
{
    if keys.len() > 0 {
        let pre = keys.drop_last();
        lemma_first_seen(pre);
        let fp = first_seen(pre);
        let fs = first_seen(keys);
        assert forall|i: int| 0 <= i < keys.len() implies fs.contains(#[trigger] keys[i]) by {
            if i < keys.len() - 1 {
                assert(pre[i] == keys[i]);
                let m = choose|m: int| 0 <= m < fp.len() && fp[m] == keys[i];
                assert(fs[m] == keys[i]);
            } else if !fp.contains(keys.last()) {
                assert(fs[fp.len() as int] == keys.last());
            }
        }
        assert forall|j: int| 0 <= j < fs.len() implies keys.contains(#[trigger] fs[j]) by {
            if j < fp.len() {
                assert(fs[j] == fp[j]);
                let i = choose|i: int| 0 <= i < pre.len() && pre[i] == fp[j];
                assert(keys[i] == pre[i]);
            } else {
                assert(keys[keys.len() - 1] == keys.last());
            }
        }
        assert forall|a: int, b: int| 0 <= a < b < fs.len() implies (#[trigger] fs[a]) != (
        #[trigger] fs[b]) by {
            if b >= fp.len() {
                assert(fs[a] == fp[a]);
            } else {
                assert(fs[a] == fp[a] && fs[b] == fp[b]);
            }
        }
    }
}

proof fn lemma_groups_cover(edu: Seq<Education>)
    requires
        edu.len() <= usize::MAX,
    ensures
        groups_of(institutions(edu)).len() == first_seen(institutions(edu)).len(),
        forall|i: int|
            #![trigger edu[i]]
            0 <= i < edu.len() ==> first_seen(institutions(edu)).contains(edu[i].institution@),
        forall|j: int|
            0 <= j < groups_of(institutions(edu)).len() ==> (#[trigger] groups_of(
                institutions(edu),
            )[j]).len() > 0 && groups_of(institutions(edu))[j][0] < edu.len() && edu[groups_of(
                institutions(edu),
            )[j][0] as int].institution@ == first_seen(institutions(edu))[j],
{
    let keys = institutions(edu);
    let fs = first_seen(keys);
    let gs = groups_of(keys);
    lemma_first_seen(keys);
    assert forall|j: int| 0 <= j < gs.len() implies gs[j] == positions_of(keys, fs[j])
        && gs[j].len() > 0 && keys[gs[j][0] as int] == fs[j] by {
        lemma_positions_of(keys, fs[j]);
        let i = choose|i: int| 0 <= i < keys.len() && keys[i] == fs[j];
        assert(positions_of(keys, fs[j]).contains(i as usize));
    }
    assert forall|i: int| #![trigger edu[i]] 0 <= i < edu.len() implies fs.contains(
        edu[i].institution@,
    ) by {
        assert(keys[i] == edu[i].institution@);
    }
    assert forall|j: int| 0 <= j < gs.len() implies (#[trigger] gs[j]).len() > 0 && gs[j][0]
        < edu.len() && edu[gs[j][0] as int].institution@ == fs[j] by {
        lemma_positions_of(keys, fs[j]);
        assert(keys[gs[j][0] as int] == edu[gs[j][0] as int].institution@);
    }
}

proof fn lemma_groups_members(edu: Seq<Education>)
    requires
        edu.len() <= usize::MAX,
    ensures
        forall|j: int|
            0 <= j < groups_of(institutions(edu)).len() ==> (#[trigger] groups_of(
                institutions(edu),
            )[j]).len() > 0,
        forall|j: int, m: int|
            0 <= j < groups_of(institutions(edu)).len() && 0 <= m < groups_of(
                institutions(edu),
            )[j].len() ==> #[trigger] groups_of(institutions(edu))[j][m] < edu.len() && edu[groups_of(
                institutions(edu),
            )[j][m] as int].institution@ == edu[groups_of(institutions(edu))[j][0] as int].institution@,
{
    let keys = institutions(edu);
    let fs = first_seen(keys);
    let gs = groups_of(keys);
    lemma_first_seen(keys);
    assert forall|j: int| 0 <= j < gs.len() implies gs[j] == positions_of(keys, fs[j])
        && gs[j].len() > 0 && keys[gs[j][0] as int] == fs[j] by {
        lemma_positions_of(keys, fs[j]);
        let i = choose|i: int| 0 <= i < keys.len() && keys[i] == fs[j];
        assert(positions_of(keys, fs[j]).contains(i as usize));
    }
    assert forall|j: int, m: int| 0 <= j < gs.len() && 0 <= m < gs[j].len() implies #[trigger] gs[j][m]
        < edu.len() && edu[gs[j][m] as int].institution@ == edu[gs[j][0] as int].institution@ by {
        lemma_positions_of(keys, fs[j]);
        assert(keys[gs[j][m] as int] == edu[gs[j][m] as int].institution@);
        assert(keys[gs[j][0] as int] == edu[gs[j][0] as int].institution@);
    }
}

proof fn lemma_groups_order(edu: Seq<Education>)
    requires
        edu.len() <= usize::MAX,
    ensures
        forall|j: int, m1: int, m2: int|
            0 <= j < groups_of(institutions(edu)).len() && 0 <= m1 < m2 < groups_of(
                institutions(edu),
            )[j].len() ==> #[trigger] groups_of(institutions(edu))[j][m1] < #[trigger] groups_of(
                institutions(edu),
            )[j][m2],
        forall|j: int, i: int|
            #![trigger groups_of(institutions(edu))[j], edu[i]]
            0 <= j < groups_of(institutions(edu)).len() && 0 <= i < edu.len() && edu[i].institution@
                == edu[groups_of(institutions(edu))[j][0] as int].institution@ ==> (groups_of(
                institutions(edu),
            )[j]).contains(i as usize)
                && groups_of(institutions(edu))[j][0] <= i,
{
    let keys = institutions(edu);
    let fs = first_seen(keys);
    let gs = groups_of(keys);
    lemma_first_seen(keys);
    assert forall|j: int| 0 <= j < gs.len() implies gs[j] == positions_of(keys, fs[j])
        && gs[j].len() > 0 && keys[gs[j][0] as int] == fs[j] by {
        lemma_positions_of(keys, fs[j]);
        let i = choose|i: int| 0 <= i < keys.len() && keys[i] == fs[j];
        assert(positions_of(keys, fs[j]).contains(i as usize));
    }
    assert forall|j: int, m1: int, m2: int| 0 <= j < gs.len() && 0 <= m1 < m2 < gs[j].len() implies #[trigger] gs[j][m1]
        < #[trigger] gs[j][m2] by {
        lemma_positions_of(keys, fs[j]);
    }
    assert forall|j: int, i: int|
        #![trigger gs[j], edu[i]]
        0 <= j < gs.len() && 0 <= i < edu.len() && edu[i].institution@
        == edu[gs[j][0] as int].institution@ implies (gs[j]).contains(i as usize)
        && gs[j][0] <= i by {
        lemma_positions_of(keys, fs[j]);
        assert(keys[i] == edu[i].institution@);
        assert(keys[gs[j][0] as int] == edu[gs[j][0] as int].institution@);
        let m = choose|m: int| 0 <= m < gs[j].len() && gs[j][m] == i as usize;
        if m > 0 {
            assert(gs[j][0] < gs[j][m]);
        }
    }
}

proof fn lemma_groups_distinct(edu: Seq<Education>)
    requires
        edu.len() <= usize::MAX,
    ensures
        forall|a: int, b: int|
            0 <= a < b < groups_of(institutions(edu)).len() ==> edu[(#[trigger] groups_of(
                institutions(edu),
            )[a])[0] as int].institution@ != edu[(#[trigger] groups_of(
                institutions(edu),
            )[b])[0] as int].institution@,
{
    let keys = institutions(edu);
    let fs = first_seen(keys);
    let gs = groups_of(keys);
    lemma_first_seen(keys);
    assert forall|j: int| 0 <= j < gs.len() implies gs[j] == positions_of(keys, fs[j])
        && gs[j].len() > 0 && keys[gs[j][0] as int] == fs[j] by {
        lemma_positions_of(keys, fs[j]);
        let i = choose|i: int| 0 <= i < keys.len() && keys[i] == fs[j];
        assert(positions_of(keys, fs[j]).contains(i as usize));
    }
    assert forall|a: int, b: int| 0 <= a < b < gs.len() implies edu[(#[trigger] gs[a])[0] as int].institution@
        != edu[(#[trigger] gs[b])[0] as int].institution@ by {
        lemma_positions_of(keys, fs[a]);
        lemma_positions_of(keys, fs[b]);
        assert(gs[a] == positions_of(keys, fs[a]) && gs[a].len() > 0);
        assert(gs[b] == positions_of(keys, fs[b]) && gs[b].len() > 0);
        assert(keys[gs[a][0] as int] == fs[a]);
        assert(keys[gs[b][0] as int] == fs[b]);
        assert(keys[gs[a][0] as int] == edu[gs[a][0] as int].institution@);
        assert(keys[gs[b][0] as int] == edu[gs[b][0] as int].institution@);
    }
}

/// Education entries form one group per distinct institution: every
/// entry's institution is among the groups' institutions, and no two groups
/// share one. A group holds the positions of all
/// entries at its institution in input order, so its first member, whose
/// location the section shows, is the first entry at that institution.
pub proof fn lemma_education_groups(edu: Seq<Education>)
    requires
        edu.len() <= usize::MAX,
    ensures
        groups_of(institutions(edu)).len() == first_seen(institutions(edu)).len(),
        forall|i: int|
            #![trigger edu[i]]
            0 <= i < edu.len() ==> first_seen(institutions(edu)).contains(edu[i].institution@),
        forall|j: int|
            0 <= j < groups_of(institutions(edu)).len() ==> (#[trigger] groups_of(
                institutions(edu),
            )[j]).len() > 0 && groups_of(institutions(edu))[j][0] < edu.len() && edu[groups_of(
                institutions(edu),
            )[j][0] as int].institution@ == first_seen(institutions(edu))[j],
        forall|j: int|
            0 <= j < groups_of(institutions(edu)).len() ==> (#[trigger] groups_of(
                institutions(edu),
            )[j]).len() > 0,
        forall|j: int, m: int|
            0 <= j < groups_of(institutions(edu)).len() && 0 <= m < groups_of(
                institutions(edu),
            )[j].len() ==> #[trigger] groups_of(institutions(edu))[j][m] < edu.len() && edu[groups_of(
                institutions(edu),
            )[j][m] as int].institution@ == edu[groups_of(institutions(edu))[j][0] as int].institution@,
        forall|j: int, m1: int, m2: int|
            0 <= j < groups_of(institutions(edu)).len() && 0 <= m1 < m2 < groups_of(
                institutions(edu),
            )[j].len() ==> #[trigger] groups_of(institutions(edu))[j][m1] < #[trigger] groups_of(
                institutions(edu),
            )[j][m2],
        forall|j: int, i: int|
            #![trigger groups_of(institutions(edu))[j], edu[i]]
            0 <= j < groups_of(institutions(edu)).len() && 0 <= i < edu.len() && edu[i].institution@
                == edu[groups_of(institutions(edu))[j][0] as int].institution@ ==> (groups_of(
                institutions(edu),
            )[j]).contains(i as usize)
                && groups_of(institutions(edu))[j][0] <= i,
        forall|a: int, b: int|
            0 <= a < b < groups_of(institutions(edu)).len() ==> edu[(#[trigger] groups_of(
                institutions(edu),
            )[a])[0] as int].institution@ != edu[(#[trigger] groups_of(
                institutions(edu),
            )[b])[0] as int].institution@,
{
    lemma_groups_cover(edu);
    lemma_groups_members(edu);
    lemma_groups_order(edu);
    lemma_groups_distinct(edu);
}

/// On the document path a degree is its italic degree paragraph followed
/// by the course, completion and graduation lines in that order; each of
/// those is left out exactly when its field is absent and is otherwise the
/// one body-text line of the label and the value.
pub proof fn lemma_degree_lines(e: Education)
    ensures
        degree_entry(e) == seq![degree_entry(e)[0]] + optional_line("  Course: "@, e.course_name)
            + optional_line("  Completed: "@, e.completion_date) + optional_line(
            "  Graduated: "@,
            e.graduation_year,
        ),
        forall|label: Seq<char>, v: Option<String>|
            (#[trigger] optional_line(label, v)).len() == 0 <==> v is None,
        forall|label: Seq<char>, v: Option<String>|
            v is Some ==> #[trigger] optional_line(label, v) == seq![line(label + v->0@)],
{
    assert(degree_entry(e) =~= seq![degree_entry(e)[0]] + optional_line("  Course: "@, e.course_name)
        + optional_line("  Completed: "@, e.completion_date) + optional_line(
        "  Graduated: "@,
        e.graduation_year,
    ));
}

} // verus!
