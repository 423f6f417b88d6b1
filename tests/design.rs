use resume_builder::layout::{base_font_points, page_dimensions, page_setup, style_set, PageSetup};
use resume_builder::profile::{Design, PageMargins};
use resume_builder::text::{parse_margin, str_eq, trimmed_len, parse_u32_prefix};

fn design(page: &str, margin: &str, size: &str) -> Design {
    Design {
        page_size: page.to_string(),
        margins: PageMargins {
            top: margin.to_string(),
            bottom: margin.to_string(),
            left: "1 cm".to_string(),
            right: "3 cm".to_string(),
        },
        font: "Garamond".to_string(),
        font_size: size.to_string(),
    }
}

#[test]
fn margin_two_cm() {
    assert_eq!(parse_margin("2 cm"), 1134);
    assert_eq!(parse_margin("2 cm"), parse_margin("2 cm"));
}

#[test]
fn margin_is_linear_in_whole_centimetres() {
    assert_eq!(parse_margin("1 cm"), 567);
    assert_eq!(parse_margin("3 cm"), 3 * 567);
    assert_eq!(parse_margin("10 cm"), 5670);
}

#[test]
fn margin_fractions_round_toward_zero() {
    assert_eq!(parse_margin("2.5 cm"), 1417);
    assert_eq!(parse_margin("2.54 cm"), 1440);
    assert_eq!(parse_margin(".5 cm"), 283);
    assert_eq!(parse_margin("1. cm"), 567);
    assert_eq!(parse_margin("-1.5 cm"), -850);
    assert_eq!(parse_margin("+1 cm"), 567);
}

#[test]
fn margin_unreadable_gives_two_cm() {
    assert_eq!(parse_margin("wide"), 1134);
    assert_eq!(parse_margin(""), 1134);
    assert_eq!(parse_margin(" cm"), 1134);
    assert_eq!(parse_margin(". cm"), 1134);
    assert_eq!(parse_margin("1.2.3 cm"), 1134);
    assert_eq!(parse_margin("2 in"), 1134);
}

#[test]
fn margin_repeated_suffix_is_removed() {
    assert_eq!(parse_margin("1 cm cm"), 567);
    assert_eq!(parse_margin("4"), 2268);
}

#[test]
fn margin_saturates() {
    assert_eq!(parse_margin("99999999999999999999 cm"), i32::MAX);
    assert_eq!(parse_margin("-99999999999999999999 cm"), i32::MIN);
}

#[test]
fn font_points_parse() {
    assert_eq!(base_font_points("12pt"), 12);
    assert_eq!(base_font_points("12"), 12);
    assert_eq!(base_font_points("10ptpt"), 10);
    assert_eq!(base_font_points("+9pt"), 9);
}

#[test]
fn font_points_default() {
    assert_eq!(base_font_points("large"), 11);
    assert_eq!(base_font_points("pt"), 11);
    assert_eq!(base_font_points("-3pt"), 11);
    assert_eq!(base_font_points("4294967296pt"), 11);
    assert_eq!(base_font_points("4294967295pt"), 4294967295);
}

#[test]
fn style_sizes_follow_base() {
    let st = style_set(&design("a4", "2 cm", "12pt"));
    assert_eq!(st.font, "Garamond");
    assert_eq!(st.normal_size, 24);
    assert_eq!(st.heading_size, 48);
    assert_eq!(st.subheading_size, 36);
}

#[test]
fn style_sizes_default_to_eleven() {
    let st = style_set(&design("a4", "2 cm", "big"));
    assert_eq!(st.normal_size, 22);
    assert_eq!(st.heading_size, 44);
    assert_eq!(st.subheading_size, 33);
}

#[test]
fn page_sizes() {
    assert_eq!(page_dimensions("letterpaper"), (12240, 15840));
    assert_eq!(page_dimensions("a4paper"), (11906, 16838));
    assert_eq!(page_dimensions("letter"), (11906, 16838));
}

#[test]
fn page_setup_of_design() {
    let p = page_setup(&design("letterpaper", "2.5 cm", "11pt"));
    assert_eq!(
        p,
        PageSetup { width: 12240, height: 15840, top: 1417, bottom: 1417, left: 567, right: 1701 }
    );
}

#[test]
fn text_helpers() {
    assert!(str_eq("abc", "abc"));
    assert!(!str_eq("abc", "abd"));
    assert!(!str_eq("ab", "abc"));
    assert_eq!(trimmed_len("5ptptpt", "pt"), 1);
    assert_eq!(trimmed_len("5", ""), 1);
    assert_eq!(parse_u32_prefix("123xyz", 3), Some(123));
    assert_eq!(parse_u32_prefix("1a3", 3), None);
    assert_eq!(parse_u32_prefix("+", 1), None);
}
