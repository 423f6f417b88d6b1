//! Builds a docx-rs document from the document model. What a docx-rs value
//! holds is described by the `Written*` types below, and the builder
//! wrappers state how each call changes it.
use vstd::prelude::*;
use crate::document::{Block, BlockView, ContactTable, ContactTableView, Document, ParaStyle, ParaView, RunView, TextRun, blocks_view, runs_view};
use crate::layout::{PageSetup, StyleSet};

verus! {

#[verifier::external_type_specification]
#[verifier::external_body]
pub struct ExDocx(docx_rs::Docx);

#[verifier::external_type_specification]
#[verifier::external_body]
pub struct ExDocxParagraph(docx_rs::Paragraph);

#[verifier::external_type_specification]
#[verifier::external_body]
pub struct ExRun(docx_rs::Run);

#[verifier::external_type_specification]
#[verifier::external_body]
pub struct ExRunFonts(docx_rs::RunFonts);

#[verifier::external_type_specification]
#[verifier::external_body]
pub struct ExStyle(docx_rs::Style);

#[verifier::external_type_specification]
#[verifier::external_body]
pub struct ExPageMargin(docx_rs::PageMargin);

#[verifier::external_type_specification]
#[verifier::external_body]
pub struct ExTable(docx_rs::Table);

#[verifier::external_type_specification]
#[verifier::external_body]
pub struct ExTableRow(docx_rs::TableRow);

#[verifier::external_type_specification]
#[verifier::external_body]
pub struct ExTableCell(docx_rs::TableCell);

/// A run as docx-rs holds it: its text children, bold, italic, size.
pub struct WrittenRun {
    pub texts: Seq<Seq<char>>,
    pub bold: Option<bool>,
    pub italic: bool,
    pub size: Option<usize>,
}

/// A paragraph as docx-rs holds it.
pub struct WrittenPara {
    pub runs: Seq<WrittenRun>,
    pub style: Option<Seq<char>>,
    pub indent_left: Option<i32>,
    pub indent_right: Option<i32>,
    pub centered: bool,
}

/// A table as docx-rs holds it: rows of cells of paragraphs, and the grid.
pub struct WrittenTable {
    pub rows: Seq<Seq<Seq<WrittenPara>>>,
    pub grid: Seq<usize>,
}

/// A block of the document body as docx-rs holds it.
pub enum WrittenBlock {
    Para(WrittenPara),
    Table(WrittenTable),
}

/// A style as docx-rs holds it; `fonts` are the ASCII and other Latin fonts.
pub struct WrittenStyle {
    pub id: Seq<char>,
    pub name: Seq<char>,
    pub based_on: Option<Seq<char>>,
    pub fonts: Option<(Option<Seq<char>>, Option<Seq<char>>)>,
    pub size: Option<usize>,
    pub bold: Option<bool>,
}

/// What docx-rs's XML escaping makes of a text.
pub uninterp spec fn xml_escaped(s: Seq<char>) -> Seq<char>;

pub uninterp spec fn written_run(r: docx_rs::Run) -> WrittenRun;

pub uninterp spec fn written_para(p: docx_rs::Paragraph) -> WrittenPara;

pub uninterp spec fn written_cell(c: docx_rs::TableCell) -> Seq<WrittenPara>;

pub uninterp spec fn written_row(r: docx_rs::TableRow) -> Seq<Seq<WrittenPara>>;

pub uninterp spec fn written_table(t: docx_rs::Table) -> WrittenTable;

pub uninterp spec fn written_fonts(f: docx_rs::RunFonts) -> (Option<Seq<char>>, Option<Seq<char>>);

pub uninterp spec fn written_style(s: docx_rs::Style) -> WrittenStyle;

/// Top, bottom, left and right margin.
pub uninterp spec fn written_margin(m: docx_rs::PageMargin) -> (i32, i32, i32, i32);

pub uninterp spec fn docx_body(d: docx_rs::Docx) -> Seq<WrittenBlock>;

pub uninterp spec fn docx_styles(d: docx_rs::Docx) -> Seq<WrittenStyle>;

/// Page width and height.
pub uninterp spec fn docx_page_dims(d: docx_rs::Docx) -> (u32, u32);

pub uninterp spec fn docx_margins(d: docx_rs::Docx) -> (i32, i32, i32, i32);

/// `s` without its newlines.
pub open spec fn strip_newlines(s: Seq<char>) -> Seq<char> {
    s.filter(|c: char| c != '\n')
}

/// The text child that `Run::add_text` makes of `t`.
pub open spec fn text_child(t: Seq<char>) -> Seq<char> {
    xml_escaped(strip_newlines(t))
}

/// The style id a paragraph style is known by.
pub open spec fn style_id_of(s: ParaStyle) -> Seq<char> {
    match s {
        ParaStyle::Normal => "Normal"@,
        ParaStyle::Heading => "Heading"@,
        ParaStyle::Subheading => "Subheading"@,
    }
}

pub open spec fn run_written(r: RunView) -> WrittenRun {
    WrittenRun {
        texts: seq![text_child(r.text)],
        bold: r.bold,
        italic: r.italic,
        size: match r.size {
            Some(z) => Some(z as usize),
            None => None,
        },
    }
}

pub open spec fn runs_written(s: Seq<RunView>) -> Seq<WrittenRun> {
    s.map_values(|r: RunView| run_written(r))
}

pub open spec fn para_written(p: ParaView) -> WrittenPara {
    WrittenPara {
        runs: runs_written(p.runs),
        style: match p.style {
            Some(st) => Some(xml_escaped(style_id_of(st))),
            None => None,
        },
        indent_left: p.indent_left,
        indent_right: p.indent_right,
        centered: p.centered,
    }
}

/// A table cell holding one paragraph of one plain run.
pub open spec fn cell_written(t: Seq<char>) -> Seq<WrittenPara> {
    seq![
        WrittenPara {
            runs: seq![WrittenRun { texts: seq![text_child(t)], bold: None, italic: false, size: None }],
            style: None,
            indent_left: None,
            indent_right: None,
            centered: false,
        },
    ]
}

pub open spec fn table_written(t: ContactTableView) -> WrittenTable {
    WrittenTable {
        rows: seq![
            seq![cell_written(t.cells[0][0]), cell_written(t.cells[0][1])],
            seq![cell_written(t.cells[1][0]), cell_written(t.cells[1][1])],
        ],
        grid: seq![t.column_widths[0] as usize, t.column_widths[1] as usize],
    }
}

pub open spec fn block_written(b: BlockView) -> WrittenBlock {
    match b {
        BlockView::Para(p) => WrittenBlock::Para(para_written(p)),
        BlockView::Table(t) => WrittenBlock::Table(table_written(t)),
    }
}

pub open spec fn body_written(s: Seq<BlockView>) -> Seq<WrittenBlock> {
    s.map_values(|b: BlockView| block_written(b))
}

/// A paragraph style with the given id and name, based on Normal, in the
/// given font for ASCII and other Latin text.
pub open spec fn style_written(id: Seq<char>, font: Seq<char>, size: u64, bold: bool) -> WrittenStyle {
    WrittenStyle {
        id: xml_escaped(id),
        name: xml_escaped(id),
        based_on: Some(xml_escaped("Normal"@)),
        fonts: Some((Some(xml_escaped(font)), Some(xml_escaped(font)))),
        size: Some(size as usize),
        bold: if bold { Some(true) } else { None },
    }
}

/// Relies on docx_rs::Run::new: a run with no children and no properties.
#[verifier::external_body]
fn run_new() -> (r: docx_rs::Run)
    ensures
        written_run(r) == (WrittenRun { texts: seq![], bold: None, italic: false, size: None }),
{
    docx_rs::Run::new()
}

/// Relies on docx_rs::Run::add_text: appends a text child holding the
/// escaped text with its newlines removed.
#[verifier::external_body]
fn run_add_text(r: docx_rs::Run, text: &str) -> (o: docx_rs::Run)
    ensures
        written_run(o) == (WrittenRun { texts: written_run(r).texts.push(text_child(text@)), ..written_run(r) }),
{
    r.add_text(text)
}

/// Relies on docx_rs::Run::size: sets the size in half-points.
#[verifier::external_body]
fn run_size(r: docx_rs::Run, size: usize) -> (o: docx_rs::Run)
    ensures
        written_run(o) == (WrittenRun { size: Some(size), ..written_run(r) }),
{
    r.size(size)
}

/// Relies on docx_rs::Run::bold.
#[verifier::external_body]
fn run_bold(r: docx_rs::Run) -> (o: docx_rs::Run)
    ensures
        written_run(o) == (WrittenRun { bold: Some(true), ..written_run(r) }),
{
    r.bold()
}

/// Relies on docx_rs::Run::disable_bold.
#[verifier::external_body]
fn run_disable_bold(r: docx_rs::Run) -> (o: docx_rs::Run)
    ensures
        written_run(o) == (WrittenRun { bold: Some(false), ..written_run(r) }),
{
    r.disable_bold()
}

/// Relies on docx_rs::Run::italic.
#[verifier::external_body]
fn run_italic(r: docx_rs::Run) -> (o: docx_rs::Run)
    ensures
        written_run(o) == (WrittenRun { italic: true, ..written_run(r) }),
{
    r.italic()
}

/// Relies on docx_rs::Paragraph::new: no runs and default properties.
#[verifier::external_body]
fn paragraph_new() -> (p: docx_rs::Paragraph)
    ensures
        written_para(p) == (WrittenPara {
            runs: seq![],
            style: None,
            indent_left: None,
            indent_right: None,
            centered: false,
        }),
{
    docx_rs::Paragraph::new()
}

/// Relies on docx_rs::Paragraph::add_run: appends the run.
#[verifier::external_body]
fn paragraph_add_run(p: docx_rs::Paragraph, r: docx_rs::Run) -> (o: docx_rs::Paragraph)
    ensures
        written_para(o) == (WrittenPara { runs: written_para(p).runs.push(written_run(r)), ..written_para(p) }),
{
    p.add_run(r)
}

/// Relies on docx_rs::Paragraph::style: refers the paragraph to a style id,
/// escaped.
#[verifier::external_body]
fn paragraph_style(p: docx_rs::Paragraph, id: &str) -> (o: docx_rs::Paragraph)
    ensures
        written_para(o) == (WrittenPara { style: Some(xml_escaped(id@)), ..written_para(p) }),
{
    p.style(id)
}

/// Relies on docx_rs::Paragraph::align, with centred alignment.
#[verifier::external_body]
fn paragraph_center(p: docx_rs::Paragraph) -> (o: docx_rs::Paragraph)
    ensures
        written_para(o) == (WrittenPara { centered: true, ..written_para(p) }),
{
    p.align(docx_rs::AlignmentType::Center)
}

/// Relies on docx_rs::Paragraph::indent: sets left and right (end)
/// indentation in twips, no special indentation.
#[verifier::external_body]
fn paragraph_indent(p: docx_rs::Paragraph, left: Option<i32>, right: Option<i32>) -> (o: docx_rs::Paragraph)
    ensures
        written_para(o) == (WrittenPara { indent_left: left, indent_right: right, ..written_para(p) }),
{
    p.indent(left, None, right, None)
}

/// Relies on docx_rs::TableCell::new: no paragraphs.
#[verifier::external_body]
fn cell_new() -> (c: docx_rs::TableCell)
    ensures
        written_cell(c) == Seq::<WrittenPara>::empty(),
{
    docx_rs::TableCell::new()
}

/// Relies on docx_rs::TableCell::add_paragraph: appends the paragraph.
#[verifier::external_body]
fn cell_add_paragraph(c: docx_rs::TableCell, p: docx_rs::Paragraph) -> (o: docx_rs::TableCell)
    ensures
        written_cell(o) == written_cell(c).push(written_para(p)),
{
    c.add_paragraph(p)
}

/// Relies on docx_rs::TableRow::new: a row of the given cells.
#[verifier::external_body]
fn row_new(cells: Vec<docx_rs::TableCell>) -> (r: docx_rs::TableRow)
    ensures
        written_row(r) == cells@.map_values(|c: docx_rs::TableCell| written_cell(c)),
{
    docx_rs::TableRow::new(cells)
}

/// Relies on docx_rs::Table::new: a table of the given rows, with an empty
/// grid.
#[verifier::external_body]
fn table_new(rows: Vec<docx_rs::TableRow>) -> (t: docx_rs::Table)
    ensures
        written_table(t) == (WrittenTable {
            rows: rows@.map_values(|r: docx_rs::TableRow| written_row(r)),
            grid: seq![],
        }),
{
    docx_rs::Table::new(rows)
}

/// Relies on docx_rs::Table::set_grid: the column widths in twips.
#[verifier::external_body]
fn table_set_grid(t: docx_rs::Table, grid: Vec<usize>) -> (o: docx_rs::Table)
    ensures
        written_table(o) == (WrittenTable { grid: grid@, ..written_table(t) }),
{
    t.set_grid(grid)
}

/// Relies on docx_rs::RunFonts::new: no fonts set.
#[verifier::external_body]
fn fonts_new() -> (f: docx_rs::RunFonts)
    ensures
        written_fonts(f) == (None::<Seq<char>>, None::<Seq<char>>),
{
    docx_rs::RunFonts::new()
}

/// Relies on docx_rs::RunFonts::ascii: the font for ASCII text, escaped.
#[verifier::external_body]
fn fonts_ascii(f: docx_rs::RunFonts, font: &str) -> (o: docx_rs::RunFonts)
    ensures
        written_fonts(o) == (Some(xml_escaped(font@)), written_fonts(f).1),
{
    f.ascii(font)
}

/// Relies on docx_rs::RunFonts::hi_ansi: the font for other Latin text,
/// escaped.
#[verifier::external_body]
fn fonts_hi_ansi(f: docx_rs::RunFonts, font: &str) -> (o: docx_rs::RunFonts)
    ensures
        written_fonts(o) == (written_fonts(f).0, Some(xml_escaped(font@))),
{
    f.hi_ansi(font)
}

/// Relies on docx_rs::Style::new: a paragraph style with the given id,
/// escaped; no base style and no run properties.
#[verifier::external_body]
fn style_new(id: &str) -> (s: docx_rs::Style)
    ensures
        written_style(s).id == xml_escaped(id@),
        written_style(s).based_on is None,
        written_style(s).fonts is None,
        written_style(s).size is None,
        written_style(s).bold is None,
{
    docx_rs::Style::new(id, docx_rs::StyleType::Paragraph)
}

/// Relies on docx_rs::Style::name: sets the name, escaped.
#[verifier::external_body]
fn style_name(s: docx_rs::Style, name: &str) -> (o: docx_rs::Style)
    ensures
        written_style(o) == (WrittenStyle { name: xml_escaped(name@), ..written_style(s) }),
{
    s.name(name)
}

/// Relies on docx_rs::Style::based_on: sets the base style id, escaped.
#[verifier::external_body]
fn style_based_on(s: docx_rs::Style, base: &str) -> (o: docx_rs::Style)
    ensures
        written_style(o) == (WrittenStyle { based_on: Some(xml_escaped(base@)), ..written_style(s) }),
{
    s.based_on(base)
}

/// Relies on docx_rs::Style::fonts: sets the fonts.
#[verifier::external_body]
fn style_fonts(s: docx_rs::Style, f: docx_rs::RunFonts) -> (o: docx_rs::Style)
    ensures
        written_style(o) == (WrittenStyle { fonts: Some(written_fonts(f)), ..written_style(s) }),
{
    s.fonts(f)
}

/// Relies on docx_rs::Style::size: the size in half-points.
#[verifier::external_body]
fn style_size(s: docx_rs::Style, size: usize) -> (o: docx_rs::Style)
    ensures
        written_style(o) == (WrittenStyle { size: Some(size), ..written_style(s) }),
{
    s.size(size)
}

/// Relies on docx_rs::Style::bold.
#[verifier::external_body]
fn style_bold(s: docx_rs::Style) -> (o: docx_rs::Style)
    ensures
        written_style(o) == (WrittenStyle { bold: Some(true), ..written_style(s) }),
{
    s.bold()
}

/// Relies on docx_rs::PageMargin::new: the format's default margins.
#[verifier::external_body]
fn margin_new() -> docx_rs::PageMargin {
    docx_rs::PageMargin::new()
}

/// Relies on docx_rs::PageMargin::top.
#[verifier::external_body]
fn margin_top(m: docx_rs::PageMargin, v: i32) -> (o: docx_rs::PageMargin)
    ensures
        written_margin(o) == (v, written_margin(m).1, written_margin(m).2, written_margin(m).3),
{
    m.top(v)
}

/// Relies on docx_rs::PageMargin::bottom.
#[verifier::external_body]
fn margin_bottom(m: docx_rs::PageMargin, v: i32) -> (o: docx_rs::PageMargin)
    ensures
        written_margin(o) == (written_margin(m).0, v, written_margin(m).2, written_margin(m).3),
{
    m.bottom(v)
}

/// Relies on docx_rs::PageMargin::left.
#[verifier::external_body]
fn margin_left(m: docx_rs::PageMargin, v: i32) -> (o: docx_rs::PageMargin)
    ensures
        written_margin(o) == (written_margin(m).0, written_margin(m).1, v, written_margin(m).3),
{
    m.left(v)
}

/// Relies on docx_rs::PageMargin::right.
#[verifier::external_body]
fn margin_right(m: docx_rs::PageMargin, v: i32) -> (o: docx_rs::PageMargin)
    ensures
        written_margin(o) == (written_margin(m).0, written_margin(m).1, written_margin(m).2, v),
{
    m.right(v)
}

/// Relies on docx_rs::Docx::new: an empty body and default settings.
#[verifier::external_body]
fn docx_new() -> (d: docx_rs::Docx)
    ensures
        docx_body(d) == Seq::<WrittenBlock>::empty(),
{
    docx_rs::Docx::new()
}

/// Relies on docx_rs::Docx::page_size: width and height in twips.
#[verifier::external_body]
fn docx_page_size(d: docx_rs::Docx, w: u32, h: u32) -> (o: docx_rs::Docx)
    ensures
        docx_page_dims(o) == (w, h),
        docx_margins(o) == docx_margins(d),
        docx_styles(o) == docx_styles(d),
        docx_body(o) == docx_body(d),
{
    d.page_size(w, h)
}

/// Relies on docx_rs::Docx::page_margin: replaces the page margins.
#[verifier::external_body]
fn docx_page_margin(d: docx_rs::Docx, m: docx_rs::PageMargin) -> (o: docx_rs::Docx)
    ensures
        docx_margins(o) == written_margin(m),
        docx_page_dims(o) == docx_page_dims(d),
        docx_styles(o) == docx_styles(d),
        docx_body(o) == docx_body(d),
{
    d.page_margin(m)
}

/// Relies on docx_rs::Docx::add_style: appends the style to the styles.
#[verifier::external_body]
fn docx_add_style(d: docx_rs::Docx, s: docx_rs::Style) -> (o: docx_rs::Docx)
    ensures
        docx_styles(o) == docx_styles(d).push(written_style(s)),
        docx_page_dims(o) == docx_page_dims(d),
        docx_margins(o) == docx_margins(d),
        docx_body(o) == docx_body(d),
{
    d.add_style(s)
}

/// Relies on docx_rs::Docx::add_paragraph: appends a paragraph to the body.
#[verifier::external_body]
fn docx_add_paragraph(d: docx_rs::Docx, p: docx_rs::Paragraph) -> (o: docx_rs::Docx)
    ensures
        docx_body(o) == docx_body(d).push(WrittenBlock::Para(written_para(p))),
        docx_page_dims(o) == docx_page_dims(d),
        docx_margins(o) == docx_margins(d),
        docx_styles(o) == docx_styles(d),
{
    d.add_paragraph(p)
}

/// Relies on docx_rs::Docx::add_table: appends a table to the body.
#[verifier::external_body]
fn docx_add_table(d: docx_rs::Docx, t: docx_rs::Table) -> (o: docx_rs::Docx)
    ensures
        docx_body(o) == docx_body(d).push(WrittenBlock::Table(written_table(t))),
        docx_page_dims(o) == docx_page_dims(d),
        docx_margins(o) == docx_margins(d),
        docx_styles(o) == docx_styles(d),
{
    d.add_table(t)
}

/// The style id that a paragraph style is known by in the document.
pub fn style_id(s: ParaStyle) -> (r: &'static str)
    ensures
        r@ == style_id_of(s),
{
    match s {
        ParaStyle::Normal => "Normal",
        ParaStyle::Heading => "Heading",
        ParaStyle::Subheading => "Subheading",
    }
}

fn build_run(r: &TextRun) -> (o: docx_rs::Run)
    ensures
        written_run(o) == run_written(r@),
{
    let mut run = run_add_text(run_new(), r.text.as_str());
    assert(written_run(run).texts =~= seq![text_child(r.text@)]);
    if let Some(size) = r.size {
        run = run_size(run, size as usize);
    }
    match r.bold {
        Some(true) => {
            run = run_bold(run);
        },
        Some(false) => {
            run = run_disable_bold(run);
        },
        None => {},
    }
    if r.italic {
        run = run_italic(run);
    }
    run
}

fn build_paragraph(p: &crate::document::Para) -> (o: docx_rs::Paragraph)
    ensures
        written_para(o) == para_written(p@),
{
    let mut para = paragraph_new();
    let mut i: usize = 0;
    assert(runs_written(runs_view(p.runs@.take(0))) =~= seq![]);
    while i < p.runs.len()
        invariant
            i <= p.runs@.len(),
            written_para(para) == (WrittenPara {
                runs: runs_written(runs_view(p.runs@.take(i as int))),
                style: None,
                indent_left: None,
                indent_right: None,
                centered: false,
            }),
        decreases p.runs@.len() - i,
    {
        para = paragraph_add_run(para, build_run(&p.runs[i]));
        assert(runs_written(runs_view(p.runs@.take(i + 1))) =~= runs_written(
            runs_view(p.runs@.take(i as int)),
        ).push(run_written(p.runs@[i as int]@)));
        i = i + 1;
    }
    assert(p.runs@.take(i as int) =~= p.runs@);
    if let Some(s) = p.style {
        para = paragraph_style(para, style_id(s));
    }
    if p.centered {
        para = paragraph_center(para);
    }
    if p.indent_left.is_some() || p.indent_right.is_some() {
        para = paragraph_indent(para, p.indent_left, p.indent_right);
    }
    para
}

fn text_cell(text: &String) -> (c: docx_rs::TableCell)
    ensures
        written_cell(c) == cell_written(text@),
{
    let run = run_add_text(run_new(), text.as_str());
    assert(written_run(run).texts =~= seq![text_child(text@)]);
    let para = paragraph_add_run(paragraph_new(), run);
    assert(written_para(para).runs =~= seq![written_run(run)]);
    let c = cell_add_paragraph(cell_new(), para);
    assert(written_cell(c) =~= cell_written(text@));
    c
}

fn table_row(a: &String, b: &String) -> (r: docx_rs::TableRow)
    ensures
        written_row(r) == seq![cell_written(a@), cell_written(b@)],
{
    let mut cells: Vec<docx_rs::TableCell> = Vec::new();
    cells.push(text_cell(a));
    cells.push(text_cell(b));
    let r = row_new(cells);
    assert(written_row(r) =~= seq![cell_written(a@), cell_written(b@)]);
    r
}

fn build_table(t: &ContactTable) -> (o: docx_rs::Table)
    ensures
        written_table(o) == table_written(t@),
{
    let mut rows: Vec<docx_rs::TableRow> = Vec::new();
    rows.push(table_row(&t.cells[0][0], &t.cells[0][1]));
    rows.push(table_row(&t.cells[1][0], &t.cells[1][1]));
    let mut grid: Vec<usize> = Vec::new();
    grid.push(t.column_widths[0] as usize);
    grid.push(t.column_widths[1] as usize);
    let o = table_set_grid(table_new(rows), grid);
    assert(written_table(o).rows =~= table_written(t@).rows);
    assert(written_table(o).grid =~= table_written(t@).grid);
    o
}

fn build_style(id: &str, font: &str, size: u64, bold: bool) -> (o: docx_rs::Style)
    ensures
        written_style(o) == style_written(id@, font@, size, bold),
{
    let fonts = fonts_hi_ansi(fonts_ascii(fonts_new(), font), font);
    let mut s = style_new(id);
    s = style_name(s, id);
    s = style_based_on(s, "Normal");
    s = style_fonts(s, fonts);
    s = style_size(s, size as usize);
    if bold {
        s = style_bold(s);
    }
    s
}

fn apply_page(d: docx_rs::Docx, page: &PageSetup) -> (o: docx_rs::Docx)
    ensures
        docx_page_dims(o) == (page.width, page.height),
        docx_margins(o) == (page.top, page.bottom, page.left, page.right),
        docx_styles(o) == docx_styles(d),
        docx_body(o) == docx_body(d),
{
    let d = docx_page_size(d, page.width, page.height);
    let m = margin_right(
        margin_left(margin_bottom(margin_top(margin_new(), page.top), page.bottom), page.left),
        page.right,
    );
    docx_page_margin(d, m)
}

/// The three styles a style set defines: body text, headings, subheadings.
pub open spec fn styles_written(st: StyleSet) -> Seq<WrittenStyle> {
    seq![
        style_written("Normal"@, st.font@, st.normal_size, false),
        style_written("Heading"@, st.font@, st.heading_size, true),
        style_written("Subheading"@, st.font@, st.subheading_size, true),
    ]
}

fn apply_styles(d: docx_rs::Docx, st: &StyleSet) -> (o: docx_rs::Docx)
    ensures
        docx_styles(o) == docx_styles(d) + styles_written(*st),
        docx_page_dims(o) == docx_page_dims(d),
        docx_margins(o) == docx_margins(d),
        docx_body(o) == docx_body(d),
{
    let font = st.font.as_str();
    let d1 = docx_add_style(d, build_style("Normal", font, st.normal_size, false));
    let d2 = docx_add_style(d1, build_style("Heading", font, st.heading_size, true));
    let o = docx_add_style(d2, build_style("Subheading", font, st.subheading_size, true));
    assert(docx_styles(o) =~= docx_styles(d) + styles_written(*st));
    o
}

/// The docx-rs document of a document model: its page size and margins when
/// set, its three styles added after the format's own when set, then a body
/// of each block in order.
pub fn to_docx(doc: &Document) -> (r: docx_rs::Docx)
    ensures
        docx_body(r) == body_written(blocks_view(doc.blocks@)),
        doc.page is Some ==> docx_page_dims(r) == (doc.page->0.width, doc.page->0.height),
        doc.page is Some ==> docx_margins(r) == (
            doc.page->0.top,
            doc.page->0.bottom,
            doc.page->0.left,
            doc.page->0.right,
        ),
        doc.styles is Some ==> docx_styles(r).len() >= 3 && docx_styles(r).subrange(
            docx_styles(r).len() - 3,
            docx_styles(r).len() as int,
        ) == styles_written(doc.styles->0),
{
    let mut d = docx_new();
    let ghost initial_styles = docx_styles(d);
    if let Some(page) = &doc.page {
        d = apply_page(d, page);
    }
    let ghost dims = docx_page_dims(d);
    let ghost margins = docx_margins(d);
    if let Some(st) = &doc.styles {
        d = apply_styles(d, st);
        let ghost n = docx_styles(d).len();
        assert(docx_styles(d).subrange(n - 3, n as int) =~= styles_written(*st));
    }
    let ghost styles = docx_styles(d);
    let mut i: usize = 0;
    while i < doc.blocks.len()
        invariant
            i <= doc.blocks@.len(),
            docx_body(d) == body_written(blocks_view(doc.blocks@.take(i as int))),
            docx_page_dims(d) == dims,
            docx_margins(d) == margins,
            docx_styles(d) == styles,
        decreases doc.blocks@.len() - i,
    {
        match &doc.blocks[i] {
            Block::Para(p) => {
                d = docx_add_paragraph(d, build_paragraph(p));
            },
            Block::Table(t) => {
                d = docx_add_table(d, build_table(t));
            },
        }
        assert(body_written(blocks_view(doc.blocks@.take(i + 1))) =~= body_written(
            blocks_view(doc.blocks@.take(i as int)),
        ).push(block_written(doc.blocks@[i as int]@)));
        i = i + 1;
    }
    assert(doc.blocks@.take(i as int) =~= doc.blocks@);
    d
}

} // verus!
