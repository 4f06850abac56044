//! Per-window state: assigned tags, floating/tiled mode, the
//! fullscreen/maximized flag, the float heuristic over a window's hints,
//! and the tag inference that runs when a window is first mapped.

use vstd::prelude::*;

use crate::geometry::{Point, Size};
use crate::output::{spec_focused_tags, OutputState};
use crate::tag::{seq_has_id, Tag};

verus! {

/// Fullscreen and maximized are mutually exclusive, so one flag carries
/// both.
#[derive(Clone, Copy, Debug, Hash, PartialEq, Eq, Structural)]
pub enum FullscreenOrMaximized {
    Neither,
    Fullscreen,
    Maximized,
}

/// The decoding of the wire value: 1, 2 and 3 in variant order; every
/// other value decodes to nothing.
pub open spec fn spec_fullscreen_or_maximized_from_primitive(v: i32) -> Option<
    FullscreenOrMaximized,
> {
    if v == 1 {
        Some(FullscreenOrMaximized::Neither)
    } else if v == 2 {
        Some(FullscreenOrMaximized::Fullscreen)
    } else if v == 3 {
        Some(FullscreenOrMaximized::Maximized)
    } else {
        None
    }
}

/// Decode the wire encoding of [`FullscreenOrMaximized`].
pub fn fullscreen_or_maximized_from_primitive(v: i32) -> (r: Option<FullscreenOrMaximized>)
    ensures
        r == spec_fullscreen_or_maximized_from_primitive(v),
{
    match v {
        1 => Some(FullscreenOrMaximized::Neither),
        2 => Some(FullscreenOrMaximized::Fullscreen),
        3 => Some(FullscreenOrMaximized::Maximized),
        _ => None,
    }
}

/// The integer a [`FullscreenOrMaximized`] value encodes to.
pub fn fullscreen_or_maximized_to_primitive(f: FullscreenOrMaximized) -> (r: i32)
    ensures
        f is Neither ==> r == 1,
        f is Fullscreen ==> r == 2,
        f is Maximized ==> r == 3,
{
    match f {
        FullscreenOrMaximized::Neither => 1,
        FullscreenOrMaximized::Fullscreen => 2,
        FullscreenOrMaximized::Maximized => 3,
    }
}

/// A window is either positioned by the layout engine (tiled) or keeps a
/// stored location of its own (floating).
#[derive(Clone, Copy, Debug, PartialEq, Eq, Structural)]
pub enum Float {
    Tiled,
    /// The last-known location; it persists until explicitly changed.
    Floating(Point),
}

impl Float {
    pub fn is_tiled(&self) -> (r: bool)
        ensures
            r == (*self is Tiled),
    {
        matches!(self, Float::Tiled)
    }
}

/// The state this core tracks for one window.
pub struct WindowState {
    /// Ids of the tags assigned to the window.
    pub tags: Vec<u32>,
    pub floating: Float,
    pub fullscreen_or_maximized: FullscreenOrMaximized,
}

/// How a window reached the compositor: as a native Wayland toplevel or
/// through the X11 bridge.
#[derive(Clone, Copy, Debug, PartialEq, Eq, Structural)]
pub enum WindowKind {
    Native,
    X11,
}

/// One tracked window: its identity, where it came from, and the state
/// the layout and lifecycle logic read.
pub struct WindowElement {
    pub id: u32,
    pub kind: WindowKind,
    /// An override-redirect window places itself and bypasses tagging
    /// and gating.
    pub override_redirect: bool,
    /// Whether a committable surface exists for the window; only such
    /// windows can carry a commit blocker.
    pub has_surface: bool,
    /// The X11 window-manager connection the window belongs to, for
    /// bridged windows.
    pub xwm: Option<u32>,
    pub state: WindowState,
}

/// The X11 window-type hint, as far as the float heuristic reads it.
#[derive(Clone, Copy, Debug, PartialEq, Eq, Structural)]
pub enum WmWindowType {
    DropdownMenu,
    Dialog,
    Menu,
    Notification,
    Normal,
    PopupMenu,
    Splash,
    Toolbar,
    Tooltip,
    Utility,
}

/// The size bounds a client declares for its window.
#[derive(Clone, Copy, Debug, PartialEq, Eq, Structural)]
pub struct SizeHints {
    pub min_size: Option<Size>,
    pub max_size: Option<Size>,
}

/// Everything the float heuristic reads off a window.
#[derive(Clone, Copy, Debug, PartialEq, Eq, Structural)]
pub struct WindowHints {
    pub window_type: Option<WmWindowType>,
    pub size_hints: Option<SizeHints>,
    /// The explicit transient/popup relationship flag.
    pub is_popup: bool,
}

/// A window-type hint that marks a dialog-like role.
pub open spec fn spec_is_popup_by_type(t: WmWindowType) -> bool {
    t is Dialog || t is Utility || t is Toolbar || t is Splash
}

/// Size hints of a non-resizable window: declared minimum bounds that
/// meet the maximum bounds on at least one axis.
pub open spec fn spec_is_popup_by_size(h: SizeHints) -> bool {
    match (h.min_size, h.max_size) {
        (Some(mn), Some(mx)) => mn.w == mx.w || mn.h == mx.h,
        _ => false,
    }
}

/// The float heuristic: any one of the popup flag, a dialog-like window
/// type, or non-resizable size hints classifies the window as floating.
pub open spec fn spec_should_float(hints: WindowHints) -> bool {
    ||| hints.is_popup
    ||| (hints.window_type is Some && spec_is_popup_by_type(hints.window_type->0))
    ||| (hints.size_hints is Some && spec_is_popup_by_size(hints.size_hints->0))
}

/// Decide at map time whether a window should float, from its hints
/// alone.
pub fn should_float(hints: &WindowHints) -> (r: bool)
    ensures
        r == spec_should_float(*hints),
{
    let is_popup_by_type = match hints.window_type {
        Some(t) => matches!(
            t,
            WmWindowType::Dialog | WmWindowType::Utility | WmWindowType::Toolbar | WmWindowType::Splash
        ),
        None => false,
    };
    let is_popup_by_size = match hints.size_hints {
        Some(h) => match (h.min_size, h.max_size) {
            (Some(mn), Some(mx)) => mn.w == mx.w || mn.h == mx.h,
            _ => false,
        },
        None => false,
    };
    hints.is_popup || is_popup_by_type || is_popup_by_size
}

/// A window whose minimum size equals its maximum size on some axis is
/// always classified floating.
pub proof fn lemma_fixed_size_floats(hints: WindowHints)
    requires
        match hints.size_hints {
            Some(h) => match (h.min_size, h.max_size) {
                (Some(mn), Some(mx)) => mn.w == mx.w || mn.h == mx.h,
                _ => false,
            },
            None => false,
        },
    ensures
        spec_should_float(hints),
{
}

/// A resizable window that is no popup and carries no dialog-like type
/// hint is never classified floating by the heuristic alone.
pub proof fn lemma_resizable_plain_window_never_floats(hints: WindowHints)
    requires
        !hints.is_popup,
        hints.window_type is Some ==> !spec_is_popup_by_type(hints.window_type->0),
        hints.size_hints is Some ==> !spec_is_popup_by_size(hints.size_hints->0),
    ensures
        !spec_should_float(hints),
{
}

/// Does some existing window (each given as its tag-id list) carry the
/// tag `id`?
pub open spec fn spec_tag_has_member(windows: Seq<Seq<u32>>, id: u32) -> bool {
    exists|i: int| 0 <= i < windows.len() && seq_has_id(windows[i], id)
}

/// The ids of a tag sequence, in order.
pub open spec fn spec_tag_ids(tags: Seq<Tag>) -> Seq<u32> {
    tags.map_values(|t: Tag| t.id)
}

/// The tag ids a newly mapped window inherits from the resolved output:
/// the output's focused tags if any are active; otherwise its tags that
/// already have a member among the existing windows; otherwise its first
/// declared tag; otherwise none. With no output at all, none.
pub open spec fn spec_assign_initial_tags(
    output_tags: Option<Seq<Tag>>,
    windows: Seq<Seq<u32>>,
) -> Seq<u32> {
    match output_tags {
        None => Seq::empty(),
        Some(tags) => {
            let focused = spec_focused_tags(tags);
            if focused.len() > 0 {
                spec_tag_ids(focused)
            } else {
                let member = tags.filter(|t: Tag| spec_tag_has_member(windows, t.id));
                if member.len() > 0 {
                    spec_tag_ids(member)
                } else if tags.len() > 0 {
                    seq![tags[0].id]
                } else {
                    Seq::empty()
                }
            }
        },
    }
}

/// Does some window in `existing` (each given as its tag-id list) carry
/// the tag `id`?
fn tag_has_member(existing: &Vec<Vec<u32>>, id: u32) -> (r: bool)
    ensures
        r == spec_tag_has_member(existing.deep_view(), id),
{
    let mut i: usize = 0;
    while i < existing.len()
        invariant
            0 <= i <= existing.len(),
            forall|j: int| 0 <= j < i ==> !seq_has_id(existing.deep_view()[j], id),
        decreases existing.len() - i,
    {
        assert(existing.deep_view()[i as int] == existing@[i as int]@);
        if crate::tag::ids_contain(&existing[i], id) {
            return true;
        }
        i += 1;
    }
    false
}

/// The ids of the given tags, in order.
fn tag_ids(tags: &Vec<Tag>) -> (r: Vec<u32>)
    ensures
        r@ == spec_tag_ids(tags@),
{
    let mut out: Vec<u32> = Vec::new();
    let mut i: usize = 0;
    while i < tags.len()
        invariant
            0 <= i <= tags.len(),
            i == out.len(),
            forall|j: int| 0 <= j < i ==> out@[j] == tags@[j].id,
        decreases tags.len() - i,
    {
        out.push(tags[i].id);
        i += 1;
    }
    proof {
        assert(out@ =~= spec_tag_ids(tags@));
    }
    out
}

/// Infer the tag set of a newly mapped window. The output is the focused
/// one if there is one, else the first connected one; `existing` gives
/// the tag-id lists of the windows already tracked.
pub fn assign_initial_tags(
    focused_output: Option<&OutputState>,
    first_output: Option<&OutputState>,
    existing: &Vec<Vec<u32>>,
) -> (r: Vec<u32>)
    ensures
        r@ == spec_assign_initial_tags(
            match (focused_output, first_output) {
                (Some(op), _) => Some(op.tags@),
                (None, Some(op)) => Some(op.tags@),
                (None, None) => None,
            },
            existing.deep_view(),
        ),
{
    let output = match (focused_output, first_output) {
        (Some(op), _) => Some(op),
        (None, Some(op)) => Some(op),
        (None, None) => None,
    };
    match output {
        None => Vec::new(),
        Some(op) => {
            let focused = op.focused_tags();
            if focused.len() > 0 {
                tag_ids(&focused)
            } else {
                let member = member_tags(&op.tags, existing);
                if member.len() > 0 {
                    tag_ids(&member)
                } else if op.tags.len() > 0 {
                    let mut out: Vec<u32> = Vec::new();
                    out.push(op.tags[0].id);
                    proof {
                        assert(out@ =~= seq![op.tags@[0].id]);
                    }
                    out
                } else {
                    Vec::new()
                }
            }
        },
    }
}

/// The tags among `tags` that already have a member among `existing`.
fn member_tags(tags: &Vec<Tag>, existing: &Vec<Vec<u32>>) -> (r: Vec<Tag>)
    ensures
        r@ == tags@.filter(|t: Tag| spec_tag_has_member(existing.deep_view(), t.id)),
{
    let mut out: Vec<Tag> = Vec::new();
    let mut i: usize = 0;
    while i < tags.len()
        invariant
            0 <= i <= tags.len(),
            out@ == tags@.take(i as int).filter(
                |t: Tag| spec_tag_has_member(existing.deep_view(), t.id),
            ),
        decreases tags.len() - i,
    {
        proof {
            assert(tags@.take(i + 1).drop_last() =~= tags@.take(i as int));
            reveal(Seq::filter);
        }
        if tag_has_member(existing, tags[i].id) {
            out.push(tags[i].clone());
        }
        i += 1;
    }
    proof {
        assert(tags@.take(tags@.len() as int) =~= tags@);
    }
    out
}

/// Tag inference is deterministic: on equal inputs it yields equal tag
/// sets.
pub proof fn lemma_assign_initial_tags_deterministic(
    output_a: Option<Seq<Tag>>,
    windows_a: Seq<Seq<u32>>,
    output_b: Option<Seq<Tag>>,
    windows_b: Seq<Seq<u32>>,
)
    requires
        output_a == output_b,
        windows_a == windows_b,
    ensures
        spec_assign_initial_tags(output_a, windows_a) == spec_assign_initial_tags(
            output_b,
            windows_b,
        ),
{
}

} // verus!
