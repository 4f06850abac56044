use pinnacle_core::api::{
    begin_move, begin_resize, get_all, get_focused, mouse_button_code, Geometry, MouseButton,
    PropertiesResponse, RawGeometry, SetOrToggle, WindowHandle, WindowProperties, WindowRequest,
};
use pinnacle_core::window::FullscreenOrMaximized;

fn empty_response() -> PropertiesResponse {
    PropertiesResponse {
        geometry: None,
        class: None,
        title: None,
        focused: None,
        floating: None,
        fullscreen_or_maximized: None,
        tag_ids: Vec::new(),
    }
}

#[test]
fn handle_requests_carry_the_window_id() {
    let h = WindowHandle { id: 12 };
    assert_eq!(h.close(), WindowRequest::Close { window_id: 12 });
    assert_eq!(
        h.set_fullscreen(true),
        WindowRequest::SetFullscreen { window_id: 12, set_or_toggle: SetOrToggle::SetTo(true) }
    );
    assert_eq!(
        h.toggle_fullscreen(),
        WindowRequest::SetFullscreen { window_id: 12, set_or_toggle: SetOrToggle::Toggle }
    );
    assert_eq!(
        h.set_maximized(false),
        WindowRequest::SetMaximized { window_id: 12, set_or_toggle: SetOrToggle::SetTo(false) }
    );
    assert_eq!(
        h.toggle_maximized(),
        WindowRequest::SetMaximized { window_id: 12, set_or_toggle: SetOrToggle::Toggle }
    );
    assert_eq!(
        h.set_floating(true),
        WindowRequest::SetFloating { window_id: 12, set_or_toggle: SetOrToggle::SetTo(true) }
    );
    assert_eq!(
        h.toggle_floating(),
        WindowRequest::SetFloating { window_id: 12, set_or_toggle: SetOrToggle::Toggle }
    );
    assert_eq!(h.move_to_tag(3), WindowRequest::MoveToTag { window_id: 12, tag_id: 3 });
    assert_eq!(
        h.set_tag(3, true),
        WindowRequest::SetTag { window_id: 12, tag_id: 3, set_or_toggle: SetOrToggle::SetTo(true) }
    );
    assert_eq!(
        h.toggle_tag(3),
        WindowRequest::SetTag { window_id: 12, tag_id: 3, set_or_toggle: SetOrToggle::Toggle }
    );
}

#[test]
fn grab_requests_use_evdev_codes() {
    assert_eq!(mouse_button_code(MouseButton::Left), 0x110);
    assert_eq!(mouse_button_code(MouseButton::Back), 0x116);
    assert_eq!(begin_move(MouseButton::Left), WindowRequest::MoveGrab { button: 0x110 });
    assert_eq!(
        begin_resize(MouseButton::Middle),
        WindowRequest::ResizeGrab { button: 0x112 }
    );
}

#[test]
fn props_decodes_fullscreen_code() {
    let h = WindowHandle { id: 1 };
    let mut resp = empty_response();
    resp.fullscreen_or_maximized = Some(2);
    let props = h.props(resp);
    assert_eq!(props.fullscreen_or_maximized, Some(FullscreenOrMaximized::Fullscreen));

    let mut resp = empty_response();
    resp.fullscreen_or_maximized = Some(9);
    assert_eq!(h.props(resp).fullscreen_or_maximized, None);

    // An absent field reads as zero, which decodes to nothing.
    assert_eq!(h.props(empty_response()).fullscreen_or_maximized, None);
}

#[test]
fn props_decodes_geometry_with_defaults() {
    let h = WindowHandle { id: 1 };
    let mut resp = empty_response();
    resp.geometry = Some(RawGeometry {
        x: Some(-5),
        y: None,
        width: Some(640),
        height: Some(480),
    });
    let props = h.props(resp);
    assert_eq!(props.geometry, Some(Geometry { x: -5, y: 0, width: 640, height: 480 }));
}

#[test]
fn props_passes_strings_and_tags_through() {
    let h = WindowHandle { id: 1 };
    let mut resp = empty_response();
    resp.class = Some("editor".to_string());
    resp.title = Some("notes".to_string());
    resp.focused = Some(true);
    resp.floating = Some(false);
    resp.tag_ids = vec![1, 4];
    let props = h.props(resp);
    assert_eq!(props.class.as_deref(), Some("editor"));
    assert_eq!(props.title.as_deref(), Some("notes"));
    assert_eq!(props.focused, Some(true));
    assert_eq!(props.floating, Some(false));
    assert_eq!(props.tags, vec![1, 4]);
}

#[test]
fn get_all_wraps_every_id() {
    let handles = get_all(&vec![3, 1, 4]);
    let ids: Vec<u32> = handles.iter().map(|h| h.id).collect();
    assert_eq!(ids, vec![3, 1, 4]);
}

#[test]
fn get_focused_picks_first_focused_window() {
    let mk = |focused: Option<bool>| WindowProperties {
        geometry: None,
        class: None,
        title: None,
        focused,
        floating: None,
        fullscreen_or_maximized: None,
        tags: Vec::new(),
    };
    let ids = vec![7, 8, 9];
    let props = vec![mk(Some(false)), mk(Some(true)), mk(Some(true))];
    let found = get_focused(&ids, &props);
    assert_eq!(found.map(|h| h.id), Some(8));

    let props = vec![mk(None), mk(Some(false)), mk(None)];
    assert!(get_focused(&ids, &props).is_none());
}
