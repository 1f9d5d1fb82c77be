use html_layout::colorscheme::DefaultColorSchemes;
use html_layout::context::{RendererContext, Viewport};
use html_layout::style::FontStyle;

fn fresh(scaling_factor: u32) -> RendererContext {
    RendererContext::new(scaling_factor, DefaultColorSchemes::Standard.value())
}

#[test]
fn a_new_context_is_at_rest() {
    let context = fresh(2);
    assert_eq!(context.scaling_factor(), 2);
    assert_eq!(context.viewport(), (0, 0));
    assert_eq!(context.indices(), (0, 0));
    assert!(context.hit_map().is_empty());
    assert_eq!(context.color_scheme(), DefaultColorSchemes::Standard.value());
    assert_eq!(context.active_style(), FontStyle { bold: false, underline: false });
    assert_eq!(context.cached_image("http://example.com/a.png"), None);
}

#[test]
fn scrolling_moves_by_twelve_pixels_a_step() {
    let mut context = fresh(1);
    context.scroll(0, -3);
    assert_eq!(context.viewport(), (0, -36));
    context.scroll(2, 1);
    assert_eq!(context.viewport(), (24, -24));
    context.scroll(-5, 0);
    assert_eq!(context.viewport(), (-36, -24));
}

#[test]
fn scrolling_stops_at_the_top() {
    let mut context = fresh(1);
    context.scroll(0, 5);
    assert_eq!(context.viewport(), (0, 0));
    context.scroll(0, -1);
    context.scroll(0, 4);
    assert_eq!(context.viewport(), (0, 0));
}

#[test]
fn vertical_offset_is_never_above_zero() {
    let mut context = fresh(1);
    let wheel = [(1, 3), (0, -2), (-4, 1), (2, 7), (0, -9), (3, 9), (0, 1), (-1, -1)];
    let mut dx = 0;
    for (x, y) in wheel {
        context.scroll(x, y);
        dx += 12 * x;
        assert!(context.viewport().1 <= 0);
        assert_eq!(context.viewport().0, dx);
    }
    assert_eq!(context.viewport(), (12, -12));
}

#[test]
fn horizontal_offset_is_free() {
    let mut context = fresh(1);
    context.scroll(1000, 0);
    assert_eq!(context.viewport(), (12000, 0));
    context.scroll(-3000, 0);
    assert_eq!(context.viewport(), (-24000, 0));
}

#[test]
fn scrolling_reaches_the_ends_of_the_range() {
    let mut viewport = Viewport::new();
    viewport.scroll(i32::MAX / 12, i32::MIN / 12);
    assert_eq!((viewport.dx(), viewport.dy()), (2147483640, -2147483640));
    viewport.scroll(0, i32::MAX);
    assert_eq!((viewport.dx(), viewport.dy()), (2147483640, 0));
}

#[test]
fn scaling_factor_can_change() {
    let mut context = fresh(1);
    context.scroll(1, -1);
    context.set_scaling_factor(3);
    assert_eq!(context.scaling_factor(), 3);
    assert_eq!(context.viewport(), (12, -12));
}

#[test]
fn a_click_without_regions_hits_nothing() {
    assert_eq!(fresh(1).click(200, 200), None);
}

#[test]
fn scrolling_out_of_range_is_told_beforehand() {
    let mut viewport = Viewport::new();
    assert!(viewport.can_scroll(0, 0));
    assert!(viewport.can_scroll(178956970, -178956970));
    assert!(!viewport.can_scroll(178956971, 0));
    assert!(!viewport.can_scroll(-178956971, 0));
    assert!(!viewport.can_scroll(0, -178956971));
    // Upwards there is no end: the offset stops at the top.
    assert!(viewport.can_scroll(0, i32::MAX));
    viewport.scroll(178956970, -178956970);
    assert!(!viewport.can_scroll(1, 0));
    assert!(!viewport.can_scroll(0, -1));
    assert!(viewport.can_scroll(-1, 1));

    let mut context = fresh(1);
    assert!(context.can_scroll(3, -3));
    assert!(!context.can_scroll(i32::MAX, 0));
    context.scroll(3, -3);
    assert_eq!(context.viewport(), (36, -36));
}
