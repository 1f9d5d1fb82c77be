use html_layout::colorscheme::{Color, ColorScheme, DefaultColorSchemes};
use html_layout::style::{is_invisible_tag, layout_style, FontStyle, FontWeight, TagStyle};

fn scheme() -> ColorScheme {
    DefaultColorSchemes::Standard.value()
}

fn plain() -> TagStyle {
    TagStyle {
        visible: true,
        font_weight: FontWeight::Normal,
        underline: false,
        color_override: None,
        size_scale: None,
    }
}

#[test]
fn heading_scale_table() {
    let s = scheme();
    assert_eq!(layout_style("h1", &s).size_scale, Some(32));
    assert_eq!(layout_style("h2", &s).size_scale, Some(24));
    assert_eq!(layout_style("h3", &s).size_scale, Some(19));
    assert_eq!(layout_style("h4", &s).size_scale, Some(16));
    assert_eq!(layout_style("h5", &s).size_scale, Some(13));
    assert_eq!(layout_style("h6", &s).size_scale, Some(11));
}

#[test]
fn heading_out_of_range_falls_back_to_level_one() {
    let s = scheme();
    assert_eq!(layout_style("h7", &s).size_scale, Some(32));
    assert_eq!(layout_style("h0", &s).size_scale, Some(32));
    assert_eq!(layout_style("h9", &s).size_scale, Some(32));
}

#[test]
fn heading_without_digit_falls_back_to_level_one() {
    let s = scheme();
    assert_eq!(layout_style("hX", &s).size_scale, Some(32));
    assert_eq!(layout_style("h", &s).size_scale, Some(32));
    assert_eq!(layout_style("html", &s).size_scale, Some(32));
    assert_eq!(layout_style("h\u{663}", &s).size_scale, Some(32));
}

#[test]
fn heading_reads_one_digit_only() {
    let s = scheme();
    assert_eq!(layout_style("h10", &s).size_scale, Some(32));
    assert_eq!(layout_style("h2x", &s).size_scale, Some(24));
}

#[test]
fn headings_are_bold() {
    let style = layout_style("h3", &scheme());
    assert_eq!(
        style,
        TagStyle { font_weight: FontWeight::Bold, size_scale: Some(19), ..plain() }
    );
    assert_eq!(style.font_style(), FontStyle { bold: true, underline: false });
    assert_eq!(style.text_color(&scheme()), Color::rgb(0, 0, 0));
}

#[test]
fn links_are_underlined_in_the_link_colour() {
    let s = DefaultColorSchemes::Catppuccin.value();
    let style = layout_style("a", &s);
    assert_eq!(
        style,
        TagStyle { underline: true, color_override: Some(Color::rgb(245, 224, 220)), ..plain() }
    );
    assert_eq!(style.font_style(), FontStyle { bold: false, underline: true });
    assert_eq!(style.text_color(&s), Color::rgb(245, 224, 220));
}

#[test]
fn other_tags_are_plain() {
    let s = scheme();
    for tag in ["p", "div", "span", "", "body", "A", "H1", "ah1"] {
        assert_eq!(layout_style(tag, &s), plain(), "{}", tag);
    }
    assert_eq!(plain().text_color(&s), s.text);
    assert_eq!(plain().font_style(), FontStyle { bold: false, underline: false });
}

#[test]
fn invisible_tags_come_first() {
    let s = scheme();
    for tag in ["style", "script", "head", "title", "meta", "link", "img", "br"] {
        assert!(is_invisible_tag(tag), "{}", tag);
        assert_eq!(layout_style(tag, &s), TagStyle { visible: false, ..plain() }, "{}", tag);
    }
    for tag in ["p", "a", "h1", "header", "", "Style", "brr"] {
        assert!(!is_invisible_tag(tag), "{}", tag);
        assert!(layout_style(tag, &s).visible, "{}", tag);
    }
}

#[test]
fn sizes_are_scaled() {
    let s = scheme();
    assert_eq!(layout_style("p", &s).font_size(1), 16);
    assert_eq!(layout_style("p", &s).font_size(2), 32);
    assert_eq!(layout_style("h1", &s).font_size(1), 32);
    assert_eq!(layout_style("h1", &s).font_size(3), 96);
    assert_eq!(layout_style("h6", &s).font_size(2), 22);
    assert_eq!(layout_style("a", &s).font_size(0), 0);
    assert_eq!(layout_style("h1", &s).font_size(u32::MAX), 32 * (u32::MAX as u64));
}
