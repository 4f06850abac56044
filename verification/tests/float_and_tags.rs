use pinnacle_core::geometry::Size;
use pinnacle_core::output::OutputState;
use pinnacle_core::tag::{LayoutKind, Tag};
use pinnacle_core::window::{
    assign_initial_tags, fullscreen_or_maximized_from_primitive,
    fullscreen_or_maximized_to_primitive, should_float, FullscreenOrMaximized, SizeHints,
    WindowHints, WmWindowType,
};

fn tag(id: u32, name: &str, active: bool) -> Tag {
    Tag { id, name: name.to_string(), active, layout: LayoutKind::MasterStack }
}

fn plain_hints() -> WindowHints {
    WindowHints { window_type: None, size_hints: None, is_popup: false }
}

#[test]
fn fixed_size_window_floats() {
    let hints = WindowHints {
        window_type: None,
        size_hints: Some(SizeHints {
            min_size: Some(Size { w: 300, h: 200 }),
            max_size: Some(Size { w: 300, h: 500 }),
        }),
        is_popup: false,
    };
    assert!(should_float(&hints));
}

#[test]
fn resizable_plain_window_does_not_float() {
    let hints = WindowHints {
        window_type: Some(WmWindowType::Normal),
        size_hints: Some(SizeHints {
            min_size: Some(Size { w: 100, h: 100 }),
            max_size: Some(Size { w: 800, h: 600 }),
        }),
        is_popup: false,
    };
    assert!(!should_float(&hints));
}

#[test]
fn dialog_type_floats() {
    let hints = WindowHints {
        window_type: Some(WmWindowType::Dialog),
        size_hints: None,
        is_popup: false,
    };
    assert!(should_float(&hints));
}

#[test]
fn popup_flag_floats() {
    let hints = WindowHints { window_type: None, size_hints: None, is_popup: true };
    assert!(should_float(&hints));
}

#[test]
fn zero_min_size_still_floats_when_fixed() {
    let hints = WindowHints {
        window_type: None,
        size_hints: Some(SizeHints {
            min_size: Some(Size { w: 0, h: 200 }),
            max_size: Some(Size { w: 0, h: 200 }),
        }),
        is_popup: false,
    };
    assert!(should_float(&hints));
}

#[test]
fn one_fixed_axis_floats() {
    let hints = WindowHints {
        window_type: None,
        size_hints: Some(SizeHints {
            min_size: Some(Size { w: 0, h: 200 }),
            max_size: Some(Size { w: 300, h: 200 }),
        }),
        is_popup: false,
    };
    assert!(should_float(&hints));
}

#[test]
fn focused_tags_keeps_order_and_filters() {
    let state = OutputState {
        tags: vec![tag(1, "1", true), tag(2, "2", false), tag(3, "3", true)],
    };
    let focused = state.focused_tags();
    let ids: Vec<u32> = focused.iter().map(|t| t.id).collect();
    assert_eq!(ids, vec![1, 3]);
}

#[test]
fn initial_tags_prefer_focused_tags() {
    let op = OutputState { tags: vec![tag(1, "1", true), tag(2, "2", false)] };
    let existing: Vec<Vec<u32>> = Vec::new();
    let tags = assign_initial_tags(Some(&op), None, &existing);
    assert_eq!(tags, vec![1]);
}

#[test]
fn initial_tags_fall_back_to_member_tags() {
    let op = OutputState {
        tags: vec![tag(1, "1", false), tag(2, "2", false), tag(3, "3", false)],
    };
    let existing: Vec<Vec<u32>> = vec![vec![2], vec![3]];
    let tags = assign_initial_tags(Some(&op), None, &existing);
    assert_eq!(tags, vec![2, 3]);
}

#[test]
fn initial_tags_fall_back_to_first_tag() {
    let op = OutputState { tags: vec![tag(7, "7", false), tag(8, "8", false)] };
    let existing: Vec<Vec<u32>> = Vec::new();
    let tags = assign_initial_tags(Some(&op), None, &existing);
    assert_eq!(tags, vec![7]);
}

#[test]
fn initial_tags_empty_without_outputs() {
    let existing: Vec<Vec<u32>> = Vec::new();
    let tags = assign_initial_tags(None, None, &existing);
    assert!(tags.is_empty());
}

#[test]
fn initial_tags_use_first_output_when_none_focused() {
    let op = OutputState { tags: vec![tag(4, "4", true)] };
    let existing: Vec<Vec<u32>> = Vec::new();
    let tags = assign_initial_tags(None, Some(&op), &existing);
    assert_eq!(tags, vec![4]);
}

#[test]
fn tag_inference_is_deterministic() {
    let op = OutputState {
        tags: vec![tag(1, "1", false), tag(2, "2", true), tag(3, "3", true)],
    };
    let existing: Vec<Vec<u32>> = vec![vec![1]];
    let first = assign_initial_tags(Some(&op), None, &existing);
    let second = assign_initial_tags(Some(&op), None, &existing);
    assert_eq!(first, second);
    assert_eq!(first, vec![2, 3]);
}

#[test]
fn fullscreen_or_maximized_primitive_round_trip() {
    for variant in [
        FullscreenOrMaximized::Neither,
        FullscreenOrMaximized::Fullscreen,
        FullscreenOrMaximized::Maximized,
    ] {
        let code = fullscreen_or_maximized_to_primitive(variant);
        assert_eq!(fullscreen_or_maximized_from_primitive(code), Some(variant));
    }
    assert_eq!(fullscreen_or_maximized_from_primitive(0), None);
    assert_eq!(fullscreen_or_maximized_from_primitive(4), None);
    assert_eq!(fullscreen_or_maximized_from_primitive(2), Some(FullscreenOrMaximized::Fullscreen));
}
