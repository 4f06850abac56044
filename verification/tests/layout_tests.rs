use pinnacle_core::geometry::{Point, Rect, Size};
use pinnacle_core::layout::layout;
use pinnacle_core::tag::{LayoutKind, Tag};
use pinnacle_core::window::{
    Float, FullscreenOrMaximized, WindowElement, WindowKind, WindowState,
};

fn tag(id: u32, active: bool, layout: LayoutKind) -> Tag {
    Tag { id, name: format!("{id}"), active, layout }
}

fn tiled_window(id: u32, tags: Vec<u32>) -> WindowElement {
    WindowElement {
        id,
        kind: WindowKind::X11,
        override_redirect: false,
        has_surface: true,
        xwm: Some(1),
        state: WindowState {
            tags,
            floating: Float::Tiled,
            fullscreen_or_maximized: FullscreenOrMaximized::Neither,
        },
    }
}

fn screen() -> Rect {
    Rect { loc: Point { x: 0, y: 0 }, size: Size { w: 1920, h: 1080 } }
}

#[test]
fn master_stack_three_windows() {
    let windows = vec![
        tiled_window(1, vec![1]),
        tiled_window(2, vec![1]),
        tiled_window(3, vec![1]),
    ];
    let active = vec![tag(1, true, LayoutKind::MasterStack)];
    let placed = layout(&windows, &active, screen());
    assert_eq!(placed.len(), 3);
    assert_eq!(placed[0], (1, Rect { loc: Point { x: 0, y: 0 }, size: Size { w: 960, h: 1080 } }));
    assert_eq!(
        placed[1],
        (2, Rect { loc: Point { x: 960, y: 0 }, size: Size { w: 960, h: 540 } })
    );
    assert_eq!(
        placed[2],
        (3, Rect { loc: Point { x: 960, y: 540 }, size: Size { w: 960, h: 540 } })
    );
}

#[test]
fn master_stack_single_window_fills_output() {
    let windows = vec![tiled_window(1, vec![1])];
    let active = vec![tag(1, true, LayoutKind::MasterStack)];
    let placed = layout(&windows, &active, screen());
    assert_eq!(placed, vec![(1, screen())]);
}

#[test]
fn stacked_layout_splits_evenly() {
    let windows = vec![tiled_window(1, vec![1]), tiled_window(2, vec![1])];
    let active = vec![tag(1, true, LayoutKind::Stacked)];
    let placed = layout(&windows, &active, screen());
    assert_eq!(
        placed[0],
        (1, Rect { loc: Point { x: 0, y: 0 }, size: Size { w: 1920, h: 540 } })
    );
    assert_eq!(
        placed[1],
        (2, Rect { loc: Point { x: 0, y: 540 }, size: Size { w: 1920, h: 540 } })
    );
}

#[test]
fn empty_tag_window_never_laid_out() {
    let windows = vec![tiled_window(1, vec![]), tiled_window(2, vec![1])];
    let active = vec![tag(1, true, LayoutKind::MasterStack)];
    let placed = layout(&windows, &active, screen());
    assert_eq!(placed.len(), 1);
    assert_eq!(placed[0].0, 2);
}

#[test]
fn floating_window_excluded_from_layout() {
    let mut float_win = tiled_window(1, vec![1]);
    float_win.state.floating = Float::Floating(Point { x: 10, y: 20 });
    let windows = vec![float_win, tiled_window(2, vec![1])];
    let active = vec![tag(1, true, LayoutKind::MasterStack)];
    let placed = layout(&windows, &active, screen());
    assert_eq!(placed.len(), 1);
    assert_eq!(placed[0], (2, screen()));
}

#[test]
fn non_intersecting_window_excluded() {
    let windows = vec![tiled_window(1, vec![5]), tiled_window(2, vec![1])];
    let active = vec![tag(1, true, LayoutKind::MasterStack)];
    let placed = layout(&windows, &active, screen());
    assert_eq!(placed.len(), 1);
    assert_eq!(placed[0].0, 2);
}

#[test]
fn layout_twice_is_identical() {
    let windows = vec![
        tiled_window(1, vec![1]),
        tiled_window(2, vec![1, 2]),
        tiled_window(3, vec![2]),
    ];
    let active = vec![tag(1, true, LayoutKind::MasterStack), tag(2, true, LayoutKind::Stacked)];
    let first = layout(&windows, &active, screen());
    let second = layout(&windows, &active, screen());
    assert_eq!(first, second);
}

#[test]
fn first_active_tag_governs_algorithm() {
    let windows = vec![tiled_window(1, vec![1, 2]), tiled_window(2, vec![1, 2])];
    let active = vec![tag(2, true, LayoutKind::Stacked), tag(1, true, LayoutKind::MasterStack)];
    let placed = layout(&windows, &active, screen());
    // The first active tag asks for a vertical stack, not master-stack.
    assert_eq!(
        placed[0],
        (1, Rect { loc: Point { x: 0, y: 0 }, size: Size { w: 1920, h: 540 } })
    );
}

#[test]
fn no_active_tags_lays_out_nothing() {
    let windows = vec![tiled_window(1, vec![1])];
    let active: Vec<Tag> = Vec::new();
    let placed = layout(&windows, &active, screen());
    assert!(placed.is_empty());
}
