//! The control-API surface: the request values a window handle sends
//! over the control channel, and the decoding of the properties a
//! window reports back. The channel itself (connecting, sending,
//! receiving) lives outside the library; everything here is the value
//! construction and decoding on either side of it.

use vstd::prelude::*;

use crate::window::{
    fullscreen_or_maximized_from_primitive, spec_fullscreen_or_maximized_from_primitive,
    FullscreenOrMaximized,
};

verus! {

/// A mouse button, encoded as the evdev button code the move/resize
/// grab requests carry.
#[derive(Clone, Copy, Debug, PartialEq, Eq, Structural)]
pub enum MouseButton {
    Left,
    Right,
    Middle,
    Side,
    Extra,
    Forward,
    Back,
}

/// The evdev code of a mouse button.
pub open spec fn spec_mouse_button_code(b: MouseButton) -> u32 {
    match b {
        MouseButton::Left => 0x110,
        MouseButton::Right => 0x111,
        MouseButton::Middle => 0x112,
        MouseButton::Side => 0x113,
        MouseButton::Extra => 0x114,
        MouseButton::Forward => 0x115,
        MouseButton::Back => 0x116,
    }
}

/// Encode a mouse button as its evdev code.
pub fn mouse_button_code(b: MouseButton) -> (r: u32)
    ensures
        r == spec_mouse_button_code(b),
{
    match b {
        MouseButton::Left => 0x110,
        MouseButton::Right => 0x111,
        MouseButton::Middle => 0x112,
        MouseButton::Side => 0x113,
        MouseButton::Extra => 0x114,
        MouseButton::Forward => 0x115,
        MouseButton::Back => 0x116,
    }
}

/// Whether a request sets a flag to a value or flips it.
#[derive(Clone, Copy, Debug, PartialEq, Eq, Structural)]
pub enum SetOrToggle {
    SetTo(bool),
    Toggle,
}

/// One request to the window service, as a plain value ready for the
/// wire.
#[derive(Clone, Copy, Debug, PartialEq, Eq, Structural)]
pub enum WindowRequest {
    Close { window_id: u32 },
    SetFullscreen { window_id: u32, set_or_toggle: SetOrToggle },
    SetMaximized { window_id: u32, set_or_toggle: SetOrToggle },
    SetFloating { window_id: u32, set_or_toggle: SetOrToggle },
    MoveToTag { window_id: u32, tag_id: u32 },
    SetTag { window_id: u32, tag_id: u32, set_or_toggle: SetOrToggle },
    MoveGrab { button: u32 },
    ResizeGrab { button: u32 },
}

/// A geometry as the control API reports it.
#[derive(Clone, Copy, Debug, PartialEq, Eq, Structural)]
pub struct Geometry {
    pub x: i32,
    pub y: i32,
    pub width: u32,
    pub height: u32,
}

/// The raw geometry fields of a properties response; absent fields
/// read as zero.
#[derive(Clone, Copy, Debug, PartialEq, Eq, Structural)]
pub struct RawGeometry {
    pub x: Option<i32>,
    pub y: Option<i32>,
    pub width: Option<i32>,
    pub height: Option<i32>,
}

/// The raw fields of a get-properties response.
pub struct PropertiesResponse {
    pub geometry: Option<RawGeometry>,
    pub class: Option<String>,
    pub title: Option<String>,
    pub focused: Option<bool>,
    pub floating: Option<bool>,
    pub fullscreen_or_maximized: Option<i32>,
    pub tag_ids: Vec<u32>,
}

/// The decoded properties of one window.
pub struct WindowProperties {
    pub geometry: Option<Geometry>,
    pub class: Option<String>,
    pub title: Option<String>,
    pub focused: Option<bool>,
    pub floating: Option<bool>,
    pub fullscreen_or_maximized: Option<FullscreenOrMaximized>,
    pub tags: Vec<u32>,
}

/// The geometry a raw response decodes to: absent coordinates read as
/// zero, and the sizes are reinterpreted as unsigned.
pub open spec fn spec_decode_geometry(g: RawGeometry) -> Geometry {
    Geometry {
        x: if g.x is Some {
            g.x->0
        } else {
            0
        },
        y: if g.y is Some {
            g.y->0
        } else {
            0
        },
        width: (if g.width is Some {
            g.width->0
        } else {
            0
        }) as u32,
        height: (if g.height is Some {
            g.height->0
        } else {
            0
        }) as u32,
    }
}

/// A handle on one window, identified by the id the window service
/// assigned.
#[derive(Clone, Copy, Debug, PartialEq, Eq, Structural)]
pub struct WindowHandle {
    pub id: u32,
}

impl WindowHandle {
    /// The request that closes this window.
    pub fn close(&self) -> (r: WindowRequest)
        ensures
            r == (WindowRequest::Close { window_id: self.id }),
    {
        WindowRequest::Close { window_id: self.id }
    }

    /// The request that sets this window's fullscreen flag.
    pub fn set_fullscreen(&self, set: bool) -> (r: WindowRequest)
        ensures
            r == (WindowRequest::SetFullscreen {
                window_id: self.id,
                set_or_toggle: SetOrToggle::SetTo(set),
            }),
    {
        WindowRequest::SetFullscreen {
            window_id: self.id,
            set_or_toggle: SetOrToggle::SetTo(set),
        }
    }

    /// The request that flips this window's fullscreen flag.
    pub fn toggle_fullscreen(&self) -> (r: WindowRequest)
        ensures
            r == (WindowRequest::SetFullscreen {
                window_id: self.id,
                set_or_toggle: SetOrToggle::Toggle,
            }),
    {
        WindowRequest::SetFullscreen { window_id: self.id, set_or_toggle: SetOrToggle::Toggle }
    }

    /// The request that sets this window's maximized flag.
    pub fn set_maximized(&self, set: bool) -> (r: WindowRequest)
        ensures
            r == (WindowRequest::SetMaximized {
                window_id: self.id,
                set_or_toggle: SetOrToggle::SetTo(set),
            }),
    {
        WindowRequest::SetMaximized {
            window_id: self.id,
            set_or_toggle: SetOrToggle::SetTo(set),
        }
    }

    /// The request that flips this window's maximized flag.
    pub fn toggle_maximized(&self) -> (r: WindowRequest)
        ensures
            r == (WindowRequest::SetMaximized {
                window_id: self.id,
                set_or_toggle: SetOrToggle::Toggle,
            }),
    {
        WindowRequest::SetMaximized { window_id: self.id, set_or_toggle: SetOrToggle::Toggle }
    }

    /// The request that sets this window's floating flag.
    pub fn set_floating(&self, set: bool) -> (r: WindowRequest)
        ensures
            r == (WindowRequest::SetFloating {
                window_id: self.id,
                set_or_toggle: SetOrToggle::SetTo(set),
            }),
    {
        WindowRequest::SetFloating {
            window_id: self.id,
            set_or_toggle: SetOrToggle::SetTo(set),
        }
    }

    /// The request that flips this window's floating flag.
    pub fn toggle_floating(&self) -> (r: WindowRequest)
        ensures
            r == (WindowRequest::SetFloating {
                window_id: self.id,
                set_or_toggle: SetOrToggle::Toggle,
            }),
    {
        WindowRequest::SetFloating { window_id: self.id, set_or_toggle: SetOrToggle::Toggle }
    }

    /// The request that moves this window to exactly one tag.
    pub fn move_to_tag(&self, tag_id: u32) -> (r: WindowRequest)
        ensures
            r == (WindowRequest::MoveToTag { window_id: self.id, tag_id }),
    {
        WindowRequest::MoveToTag { window_id: self.id, tag_id }
    }

    /// The request that sets this window's membership in one tag.
    pub fn set_tag(&self, tag_id: u32, set: bool) -> (r: WindowRequest)
        ensures
            r == (WindowRequest::SetTag {
                window_id: self.id,
                tag_id,
                set_or_toggle: SetOrToggle::SetTo(set),
            }),
    {
        WindowRequest::SetTag {
            window_id: self.id,
            tag_id,
            set_or_toggle: SetOrToggle::SetTo(set),
        }
    }

    /// The request that flips this window's membership in one tag.
    pub fn toggle_tag(&self, tag_id: u32) -> (r: WindowRequest)
        ensures
            r == (WindowRequest::SetTag {
                window_id: self.id,
                tag_id,
                set_or_toggle: SetOrToggle::Toggle,
            }),
    {
        WindowRequest::SetTag {
            window_id: self.id,
            tag_id,
            set_or_toggle: SetOrToggle::Toggle,
        }
    }

    /// Decode a raw properties response for this window.
    pub fn props(&self, response: PropertiesResponse) -> (r: WindowProperties)
        ensures
            r.geometry == (match response.geometry {
                Some(g) => Some(spec_decode_geometry(g)),
                None => None::<Geometry>,
            }),
            r.class == response.class,
            r.title == response.title,
            r.focused == response.focused,
            r.floating == response.floating,
            r.fullscreen_or_maximized == spec_fullscreen_or_maximized_from_primitive(
                match response.fullscreen_or_maximized {
                    Some(v) => v,
                    None => 0,
                },
            ),
            r.tags == response.tag_ids,
    {
        let fom_raw = match response.fullscreen_or_maximized {
            Some(v) => v,
            None => 0,
        };
        let fullscreen_or_maximized = fullscreen_or_maximized_from_primitive(fom_raw);
        let geometry = match response.geometry {
            Some(g) => Some(decode_geometry(g)),
            None => None,
        };
        WindowProperties {
            geometry,
            class: response.class,
            title: response.title,
            focused: response.focused,
            floating: response.floating,
            fullscreen_or_maximized,
            tags: response.tag_ids,
        }
    }
}

/// Decode a raw geometry.
fn decode_geometry(g: RawGeometry) -> (r: Geometry)
    ensures
        r == spec_decode_geometry(g),
{
    let x = match g.x {
        Some(v) => v,
        None => 0,
    };
    let y = match g.y {
        Some(v) => v,
        None => 0,
    };
    let w = match g.width {
        Some(v) => v,
        None => 0,
    };
    let h = match g.height {
        Some(v) => v,
        None => 0,
    };
    #[verifier::truncate]
    let width = w as u32;
    #[verifier::truncate]
    let height = h as u32;
    Geometry { x, y, width, height }
}

/// The request that starts an interactive move with this button held.
pub fn begin_move(button: MouseButton) -> (r: WindowRequest)
    ensures
        r == (WindowRequest::MoveGrab { button: spec_mouse_button_code(button) }),
{
    WindowRequest::MoveGrab { button: mouse_button_code(button) }
}

/// The request that starts an interactive resize with this button held.
pub fn begin_resize(button: MouseButton) -> (r: WindowRequest)
    ensures
        r == (WindowRequest::ResizeGrab { button: spec_mouse_button_code(button) }),
{
    WindowRequest::ResizeGrab { button: mouse_button_code(button) }
}

/// One handle per window id the service reported.
pub fn get_all(window_ids: &Vec<u32>) -> (r: Vec<WindowHandle>)
    ensures
        r@.len() == window_ids@.len(),
        forall|i: int| 0 <= i < r@.len() ==> (#[trigger] r@[i]).id == window_ids@[i],
{
    let mut out: Vec<WindowHandle> = Vec::new();
    let mut i: usize = 0;
    while i < window_ids.len()
        invariant
            0 <= i <= window_ids@.len(),
            out@.len() == i,
            forall|j: int| 0 <= j < i ==> (#[trigger] out@[j]).id == window_ids@[j],
        decreases window_ids@.len() - i,
    {
        out.push(WindowHandle { id: window_ids[i] });
        i += 1;
    }
    out
}

/// The focused window among the reported ones: the first whose
/// properties say it holds focus.
pub fn get_focused(window_ids: &Vec<u32>, props: &Vec<WindowProperties>) -> (r: Option<
    WindowHandle,
>)
    requires
        window_ids@.len() == props@.len(),
    ensures
        match r {
            Some(h) => exists|i: int|
                0 <= i < props@.len() && (#[trigger] props@[i]).focused == Some(true)
                    && h.id == window_ids@[i] && forall|j: int|
                    0 <= j < i ==> (#[trigger] props@[j]).focused != Some(true),
            None => forall|i: int|
                0 <= i < props@.len() ==> (#[trigger] props@[i]).focused != Some(true),
        },
{
    let mut i: usize = 0;
    while i < props.len()
        invariant
            0 <= i <= props@.len(),
            window_ids@.len() == props@.len(),
            forall|j: int| 0 <= j < i ==> (#[trigger] props@[j]).focused != Some(true),
        decreases props@.len() - i,
    {
        let is_focused = match props[i].focused {
            Some(b) => b,
            None => false,
        };
        if is_focused {
            return Some(WindowHandle { id: window_ids[i] });
        }
        i += 1;
    }
    None
}

} // verus!
