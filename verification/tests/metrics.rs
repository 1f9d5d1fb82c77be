use html_layout::metrics::{rescale_width, wrap_width};

#[test]
fn wrap_width_is_twice_the_window() {
    assert_eq!(wrap_width(800, 1), 1600);
    assert_eq!(wrap_width(800, 2), 3200);
    assert_eq!(wrap_width(0, 5), 0);
    assert_eq!(wrap_width(u32::MAX, u32::MAX), 2 * (u32::MAX as u128) * (u32::MAX as u128));
}

#[test]
fn widths_are_rescaled_to_the_font_size() {
    assert_eq!(rescale_width(100, 50, 16), 32);
    assert_eq!(rescale_width(100, 57, 16), 29);
    assert_eq!(rescale_width(57, 57, 16), 16);
    assert_eq!(rescale_width(24, 16, 32), 48);
    assert_eq!(rescale_width(1, 3, 1), 1);
    assert_eq!(rescale_width(3, 3, 1), 1);
    assert_eq!(rescale_width(4, 3, 1), 2);
}

#[test]
fn rescaling_nothing_gives_nothing() {
    assert_eq!(rescale_width(0, 50, 16), 0);
    assert_eq!(rescale_width(100, 50, 0), 0);
    assert_eq!(rescale_width(0, 0, 16), 0);
    assert_eq!(rescale_width(10, 0, 0), 0);
}

#[test]
fn rescaling_stops_at_the_largest_width() {
    assert_eq!(rescale_width(10, 0, 16), u32::MAX);
    assert_eq!(rescale_width(u32::MAX, 1, 2), u32::MAX);
    assert_eq!(rescale_width(u32::MAX, 1, u64::MAX), u32::MAX);
    assert_eq!(rescale_width(u32::MAX, 1, 1), u32::MAX);
    assert_eq!(rescale_width(u32::MAX - 1, 1, 1), u32::MAX - 1);
}
