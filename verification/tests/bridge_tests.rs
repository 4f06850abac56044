use pinnacle_core::bridge::{Action, Compositor, ResizeEdge, SelectionType, X11MapRequest};
use pinnacle_core::geometry::{Point, Rect, Size};
use pinnacle_core::output::OutputName;
use pinnacle_core::tag::{LayoutKind, Tag};
use pinnacle_core::window::WindowHints;

fn tag(id: u32, name: &str, active: bool) -> Tag {
    Tag { id, name: name.to_string(), active, layout: LayoutKind::MasterStack }
}

fn plain_hints() -> WindowHints {
    WindowHints { window_type: None, size_hints: None, is_popup: false }
}

fn map_request(id: u32) -> X11MapRequest {
    X11MapRequest {
        id,
        override_redirect: false,
        has_surface: true,
        xwm: 1,
        geometry: Rect { loc: Point { x: 0, y: 0 }, size: Size { w: 400, h: 300 } },
        hints: plain_hints(),
    }
}

fn one_output_compositor() -> Compositor {
    let mut c = Compositor::new();
    c.connect_output(
        OutputName("connector-1".to_string()),
        Point { x: 0, y: 0 },
        Size { w: 1920, h: 1080 },
    );
    c.add_tag_to_output(0, tag(1, "1", true));
    c.add_tag_to_output(0, tag(2, "2", false));
    c.focus_output(0);
    c
}

fn raised_windows(acts: &[Action]) -> Vec<u32> {
    let mut out = Vec::new();
    for a in acts {
        if let Action::RaiseWindow { window } = a {
            out.push(*window);
        }
    }
    out
}

fn released_windows(acts: &[Action]) -> Vec<u32> {
    let mut out = Vec::new();
    for a in acts {
        if let Action::ReleaseBlocker { window } = a {
            out.push(*window);
        }
    }
    out
}

fn blocked_windows(acts: &[Action]) -> Vec<u32> {
    let mut out = Vec::new();
    for a in acts {
        if let Action::AddBlocker { window } = a {
            out.push(*window);
        }
    }
    out
}

#[test]
fn first_window_raises_immediately_without_barrier() {
    let mut c = one_output_compositor();
    let acts = c.map_window_request(&map_request(10));
    // No siblings: nothing is blocked and no barrier exists.
    assert!(c.barriers.is_empty());
    assert!(blocked_windows(&acts).is_empty());
    assert!(matches!(acts[1], Action::MapElement { window: 10, raise: true, .. }));
}

#[test]
fn managed_window_is_centered_on_focused_output() {
    let mut c = one_output_compositor();
    let acts = c.map_window_request(&map_request(10));
    assert!(matches!(
        acts[1],
        Action::MapElement { window: 10, loc: Point { x: 760, y: 390 }, raise: true }
    ));
    assert!(matches!(acts[0], Action::SetMapped { window: 10, mapped: true }));
}

#[test]
fn second_window_gates_on_sibling_and_raises_after_second_commit() {
    let mut c = one_output_compositor();
    c.map_window_request(&map_request(10));
    let acts = c.map_window_request(&map_request(11));
    // A barrier now gates window 11 on its sibling 10.
    assert_eq!(c.barriers.len(), 1);
    assert_eq!(c.barriers[0].gated, 11);
    assert_eq!(c.barriers[0].members, vec![10]);
    assert_eq!(blocked_windows(&acts), vec![10]);

    // First commit of the sibling: the blocker is released, no raise yet.
    let acts1 = c.commit(10);
    assert_eq!(released_windows(&acts1), vec![10]);
    assert!(raised_windows(&acts1).is_empty());

    // Second commit of the sibling: only now is window 11 raised.
    let acts2 = c.commit(10);
    assert_eq!(raised_windows(&acts2), vec![11]);
    assert!(c.barriers.is_empty());
}

#[test]
fn raise_waits_for_every_sibling_post_release_commit() {
    let mut c = one_output_compositor();
    c.map_window_request(&map_request(10));
    c.map_window_request(&map_request(11));
    // Resolve the first episode so both windows sit settled.
    c.commit(10);
    c.commit(10);
    assert!(c.barriers.is_empty());

    // The third window is gated on both existing siblings.
    c.map_window_request(&map_request(12));
    assert_eq!(c.barriers.len(), 1);
    assert_eq!(c.barriers[0].members, vec![10, 11]);

    // First round of commits releases, but only once both have landed.
    let a = c.commit(10);
    assert!(released_windows(&a).is_empty() && raised_windows(&a).is_empty());
    let a = c.commit(11);
    assert_eq!(released_windows(&a), vec![10, 11]);
    assert!(raised_windows(&a).is_empty());

    // Second round: one post-release commit is not enough.
    let a = c.commit(10);
    assert!(raised_windows(&a).is_empty());
    let a = c.commit(11);
    assert_eq!(raised_windows(&a), vec![12]);
    assert!(c.barriers.is_empty());
}

#[test]
fn destroying_gated_window_releases_pending_siblings() {
    let mut c = one_output_compositor();
    c.map_window_request(&map_request(10));
    c.map_window_request(&map_request(11));
    assert_eq!(c.barriers.len(), 1);
    // The gated window dies before its sibling ever commits: the
    // sibling's blocker must still be released, and nothing raises.
    let acts = c.destroyed_window(11);
    assert_eq!(released_windows(&acts), vec![10]);
    assert!(raised_windows(&acts).is_empty());
    assert!(c.barriers.is_empty());
    // Later commits of the sibling hit no barrier.
    let later = c.commit(10);
    assert!(later.is_empty());
}

#[test]
fn destroying_only_sibling_raises_gated_window() {
    let mut c = one_output_compositor();
    c.map_window_request(&map_request(10));
    c.map_window_request(&map_request(11));
    let acts = c.destroyed_window(10);
    // The only blocked window is gone, so there is no blocker left to
    // release and the gated window raises at once.
    assert!(released_windows(&acts).is_empty());
    assert_eq!(raised_windows(&acts), vec![11]);
    assert!(c.barriers.is_empty());
}

#[test]
fn tag_switch_scenario() {
    let mut c = one_output_compositor();
    c.map_window_request(&map_request(10));
    assert_eq!(c.windows[0].state.tags, vec![1]);

    c.set_output_tag_active(0, 1, false);
    c.set_output_tag_active(0, 2, true);
    c.map_window_request(&map_request(11));
    assert_eq!(c.windows[1].state.tags, vec![2]);
    // The first window keeps its tag and drops out of the visible set.
    assert_eq!(c.windows[0].state.tags, vec![1]);
    let focused = c.outputs[0].state.focused_tags();
    let placed = pinnacle_core::layout::layout(
        &c.windows,
        &focused,
        Rect { loc: Point { x: 0, y: 0 }, size: Size { w: 1920, h: 1080 } },
    );
    assert_eq!(placed.len(), 1);
    assert_eq!(placed[0].0, 11);
}

#[test]
fn override_redirect_window_bypasses_tracking() {
    let mut c = one_output_compositor();
    let mut req = map_request(42);
    req.override_redirect = true;
    req.geometry.loc = Point { x: 77, y: 88 };
    let acts = c.map_window_request(&req);
    assert!(c.windows.is_empty());
    assert!(c.barriers.is_empty());
    assert_eq!(acts.len(), 1);
    assert!(matches!(
        acts[0],
        Action::MapElement { window: 42, loc: Point { x: 77, y: 88 }, raise: true }
    ));
}

#[test]
fn mapped_override_redirect_places_at_own_location() {
    let mut c = one_output_compositor();
    let acts = c.mapped_override_redirect_window(
        9,
        Rect { loc: Point { x: 5, y: 6 }, size: Size { w: 10, h: 10 } },
    );
    assert_eq!(acts.len(), 1);
    assert!(matches!(
        acts[0],
        Action::MapElement { window: 9, loc: Point { x: 5, y: 6 }, raise: true }
    ));
    assert_eq!(c.space.len(), 1);
    assert_eq!(c.space[0].window, 9);
}

#[test]
fn unmapped_window_is_hidden_but_still_tracked() {
    let mut c = one_output_compositor();
    c.map_window_request(&map_request(10));
    assert_eq!(c.space.len(), 1);
    let acts = c.unmapped_window(10, false);
    assert!(c.space.is_empty());
    assert_eq!(c.windows.len(), 1);
    assert!(matches!(acts[0], Action::UnmapElement { window: 10 }));
    assert!(matches!(acts[1], Action::SetMapped { window: 10, mapped: false }));
}

#[test]
fn destroyed_tiled_window_triggers_relayout() {
    let mut c = one_output_compositor();
    c.map_window_request(&map_request(10));
    c.map_window_request(&map_request(11));
    c.commit(10);
    c.commit(10);
    let acts = c.destroyed_window(10);
    assert_eq!(c.windows.len(), 1);
    assert_eq!(c.windows[0].id, 11);
    // The survivor is re-laid out to fill the whole output.
    let placements: Vec<(u32, Rect)> = acts
        .iter()
        .filter_map(|a| {
            if let Action::PlaceWindow { window, geometry } = a {
                Some((*window, *geometry))
            } else {
                None
            }
        })
        .collect();
    assert_eq!(
        placements,
        vec![(11, Rect { loc: Point { x: 0, y: 0 }, size: Size { w: 1920, h: 1080 } })]
    );
}

#[test]
fn configure_request_keeps_position() {
    let c = Compositor::new();
    let geo = Rect { loc: Point { x: 30, y: 40 }, size: Size { w: 500, h: 600 } };
    let act = c.configure_request(7, geo, Some(800), None);
    assert!(matches!(
        act,
        Action::Configure {
            window: 7,
            geometry: Rect { loc: Point { x: 30, y: 40 }, size: Size { w: 800, h: 600 } },
        }
    ));
}

#[test]
fn configure_notify_reconciles_location() {
    let mut c = one_output_compositor();
    c.map_window_request(&map_request(10));
    let acts = c.configure_notify(
        10,
        Rect { loc: Point { x: 123, y: 456 }, size: Size { w: 400, h: 300 } },
    );
    assert_eq!(c.space[0].loc, Point { x: 123, y: 456 });
    assert!(matches!(
        acts[0],
        Action::MapElement { window: 10, loc: Point { x: 123, y: 456 }, raise: true }
    ));
    // A window the space does not hold is left alone.
    let none = c.configure_notify(
        99,
        Rect { loc: Point { x: 1, y: 1 }, size: Size { w: 1, h: 1 } },
    );
    assert!(none.is_empty());
}

#[test]
fn move_and_resize_requests_forward_to_grab() {
    let mut c = one_output_compositor();
    c.map_window_request(&map_request(10));
    assert!(matches!(
        c.move_request(10, 0x110),
        Some(Action::StartMoveGrab { window: 10, button: 0x110 })
    ));
    assert!(matches!(
        c.resize_request(10, 0x110, ResizeEdge::BottomRight),
        Some(Action::StartResizeGrab { window: 10, button: 0x110, edge: ResizeEdge::BottomRight })
    ));
    assert!(c.move_request(99, 0x110).is_none());
}

#[test]
fn selection_access_requires_focused_x11_window_of_same_connection() {
    let mut c = one_output_compositor();
    c.map_window_request(&map_request(10));
    // map_request sets keyboard focus to the new window of connection 1.
    assert!(c.allow_selection_access(1));
    assert!(!c.allow_selection_access(2));
    c.keyboard_focus = None;
    assert!(!c.allow_selection_access(1));
}

#[test]
fn send_selection_routes_by_type() {
    let c = Compositor::new();
    let a = c.send_selection(SelectionType::Clipboard, "text/plain".to_string(), 3);
    assert!(matches!(a, Action::RequestClipboardData { fd: 3, .. }));
    let b = c.send_selection(SelectionType::Primary, "text/plain".to_string(), 4);
    assert!(matches!(b, Action::RequestPrimaryData { fd: 4, .. }));
}

#[test]
fn cleared_selection_only_clears_what_is_published() {
    let mut c = Compositor::new();
    assert!(c.cleared_selection(SelectionType::Clipboard).is_none());
    c.new_selection(SelectionType::Clipboard, vec!["text/plain".to_string()]);
    assert!(c.clipboard_selection);
    assert!(matches!(
        c.cleared_selection(SelectionType::Clipboard),
        Some(Action::ClearClipboardSelection)
    ));
    assert!(!c.clipboard_selection);
    c.new_selection(SelectionType::Primary, vec!["text/plain".to_string()]);
    assert!(matches!(
        c.cleared_selection(SelectionType::Primary),
        Some(Action::ClearPrimarySelection)
    ));
}

#[test]
fn removing_a_tag_strips_it_from_every_window() {
    let mut c = one_output_compositor();
    c.map_window_request(&map_request(10));
    assert_eq!(c.windows[0].state.tags, vec![1]);
    let acts = c.remove_tag_from_output(0, 1);
    // No window may keep a reference to a removed tag.
    assert!(c.windows[0].state.tags.is_empty());
    assert_eq!(c.outputs[0].state.tags.len(), 1);
    assert_eq!(c.outputs[0].state.tags[0].id, 2);
    // With its only tag gone the window drops out of the layout.
    assert!(acts.iter().all(|a| !matches!(a, Action::PlaceWindow { .. })));
}

#[test]
fn window_with_no_tags_stays_invisible() {
    let mut c = Compositor::new();
    // No outputs at all: the new window ends up with no tags.
    let acts = c.map_window_request(&map_request(10));
    assert!(c.windows[0].state.tags.is_empty());
    assert!(acts.iter().all(|a| !matches!(a, Action::PlaceWindow { .. })));
}
