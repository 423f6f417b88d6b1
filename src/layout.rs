//! Page geometry and paragraph styles derived from a design block.
use vstd::prelude::*;
use crate::text::{all_digits, digits_value, is_digit, unsigned_body, trim_end_all, u32_of, parse_margin, margin_twips, trimmed_len, parse_u32_prefix, str_eq};
use crate::profile::Design;

verus! {

/// Base font size in points when the design's size cannot be read.
pub const DEFAULT_FONT_POINTS: u32 = 11;

/// Page size keyword that selects US letter paper; any other gives A4.
pub open spec fn is_letter(page_size: Seq<char>) -> bool {
    page_size == "letterpaper"@
}

/// Page width and height in twips for a page size keyword.
pub open spec fn page_dimensions_of(page_size: Seq<char>) -> (u32, u32) {
    if is_letter(page_size) {
        (12240, 15840)
    } else {
        (11906, 16838)
    }
}

/// The base font size in points: the size string without every trailing
/// `"pt"`, read as a `u32`, or 11 when that fails.
pub open spec fn base_points_of(font_size: Seq<char>) -> u32 {
    match u32_of(trim_end_all(font_size, "pt"@)) {
        Some(v) => v,
        None => DEFAULT_FONT_POINTS,
    }
}

/// Paper size and margins, all in twips.
#[derive(Clone, Copy, Debug, PartialEq, Eq)]
pub struct PageSetup {
    pub width: u32,
    pub height: u32,
    pub top: i32,
    pub bottom: i32,
    pub left: i32,
    pub right: i32,
}

/// The three named paragraph styles, sizes in half-points. Body text is
/// plain; headings and subheadings are bold.
#[derive(Clone, Debug, PartialEq, Eq)]
pub struct StyleSet {
    pub font: String,
    pub normal_size: u64,
    pub heading_size: u64,
    pub subheading_size: u64,
}

/// Page width and height for a page size keyword.
pub fn page_dimensions(page_size: &str) -> (r: (u32, u32))
    ensures
        r == page_dimensions_of(page_size@),
{
    if str_eq(page_size, "letterpaper") {
        (12240, 15840)
    } else {
        (11906, 16838)
    }
}

/// Page geometry of a design: its paper size and its four margins.
pub fn page_setup(design: &Design) -> (r: PageSetup)
    ensures
        (r.width, r.height) == page_dimensions_of(design.page_size@),
        r.top == margin_twips(design.margins.top@),
        r.bottom == margin_twips(design.margins.bottom@),
        r.left == margin_twips(design.margins.left@),
        r.right == margin_twips(design.margins.right@),
{
    let (width, height) = page_dimensions(design.page_size.as_str());
    PageSetup {
        width,
        height,
        top: parse_margin(design.margins.top.as_str()),
        bottom: parse_margin(design.margins.bottom.as_str()),
        left: parse_margin(design.margins.left.as_str()),
        right: parse_margin(design.margins.right.as_str()),
    }
}

/// The base font size in points of a size string such as `"11pt"`.
pub fn base_font_points(font_size: &str) -> (r: u32)
    ensures
        r == base_points_of(font_size@),
{
    let n = trimmed_len(font_size, "pt");
    match parse_u32_prefix(font_size, n) {
        Some(v) => v,
        None => DEFAULT_FONT_POINTS,
    }
}

/// The styles of a design: body text at the base size, headings at twice
/// and subheadings at one and a half times that size, in half-points.
pub fn style_set(design: &Design) -> (r: StyleSet)
    ensures
        r.font@ == design.font@,
        r.normal_size == 2 * base_points_of(design.font_size@),
        r.heading_size == 4 * base_points_of(design.font_size@),
        r.subheading_size == 3 * base_points_of(design.font_size@),
{
    let points = base_font_points(design.font_size.as_str()) as u64;
    StyleSet {
        font: design.font.clone(),
        normal_size: 2 * points,
        heading_size: 4 * points,
        subheading_size: 3 * points,
    }
}

/// A whole number `n` of points written as digits and followed by `"pt"`
/// gives a base size of `n` when it fits in 32 bits; any size string that
/// does not read so gives 11. Body, heading and subheading sizes are then
/// `2n`, `4n` and `3n` half-points (see `style_set`).
pub proof fn lemma_base_points(d: Seq<char>)
    requires
        d.len() > 0,
        all_digits(d),
    ensures
        digits_value(d) <= u32::MAX ==> base_points_of(d + "pt"@) == digits_value(d),
        digits_value(d) > u32::MAX ==> base_points_of(d + "pt"@) == DEFAULT_FONT_POINTS,
{
    reveal_strlit("pt");
    let s = d + "pt"@;
    assert(s.subrange(s.len() - 2, s.len() as int) =~= "pt"@);
    assert(s.subrange(0, s.len() - 2) =~= d);
    assert(is_digit(d.last()));
    if d.len() >= 2 && d.subrange(d.len() - 2, d.len() as int) == "pt"@ {
        assert(d.subrange(d.len() - 2, d.len() as int).last() == d.last());
    }
    assert(trim_end_all(d, "pt"@) == d);
    assert(is_digit(d[0]));
    assert(unsigned_body(d) == d);
}

} // verus!
