//! The X11 window-manager bridge: a state machine over window lifecycle
//! events. Each handler turns one external event into a state change and
//! an ordered list of actions for the windowing layer to perform; no
//! handler blocks, and everything a handler must wait for arrives as a
//! later event.

use vstd::prelude::*;

use crate::barrier::{no_dup, spec_step, Barrier, BarrierEvent, BarrierView};
use crate::geometry::{
    spec_center_on_output, center_on_output, Point, Rect, Size,
};
use crate::layout::{layout, spec_layout};
use crate::output::{spec_focused_tags, OutputName, OutputState};
use crate::tag::{tag_ids_intersect, Tag};
use crate::window::{
    assign_initial_tags, should_float, spec_assign_initial_tags, spec_should_float, Float,
    FullscreenOrMaximized, WindowElement, WindowHints, WindowKind, WindowState,
};

verus! {

/// Which selection a request concerns.
#[derive(Clone, Copy, Debug, PartialEq, Eq, Structural)]
pub enum SelectionType {
    Clipboard,
    Primary,
}

/// The edge or corner an interactive resize starts from.
#[derive(Clone, Copy, Debug, PartialEq, Eq, Structural)]
pub enum ResizeEdge {
    Top,
    Bottom,
    Left,
    Right,
    TopLeft,
    TopRight,
    BottomLeft,
    BottomRight,
}

/// What the bridge asks the windowing layer to do. The layer performs
/// them in order and feeds the resulting events back in.
#[derive(Debug)]
pub enum Action {
    /// Map the window into the space at `loc`, optionally raised.
    MapElement { window: u32, loc: Point, raise: bool },
    /// Remove the window from the space.
    UnmapElement { window: u32 },
    /// Tell the X11 side whether the window counts as mapped.
    SetMapped { window: u32, mapped: bool },
    /// Send the window a configure with this geometry.
    Configure { window: u32, geometry: Rect },
    /// Attach a commit blocker token to the window's surface.
    AddBlocker { window: u32 },
    /// Remove the window's blocker token, flushing its held commits.
    ReleaseBlocker { window: u32 },
    /// Raise the window above its siblings.
    RaiseWindow { window: u32 },
    /// Move keyboard focus to the window.
    SetKeyboardFocus { window: u32 },
    /// Place one tiled window at the geometry the layout engine chose.
    PlaceWindow { window: u32, geometry: Rect },
    /// Start an interactive move grab.
    StartMoveGrab { window: u32, button: u32 },
    /// Start an interactive resize grab.
    StartResizeGrab { window: u32, button: u32, edge: ResizeEdge },
    /// Ask the Wayland side for the current clipboard contents.
    RequestClipboardData { mime_type: String, fd: i32 },
    /// Ask the Wayland side for the current primary selection.
    RequestPrimaryData { mime_type: String, fd: i32 },
    /// Publish an X11 clipboard selection with these mime types.
    SetClipboardSelection { mime_types: Vec<String> },
    /// Publish an X11 primary selection with these mime types.
    SetPrimarySelection { mime_types: Vec<String> },
    /// Withdraw the clipboard selection.
    ClearClipboardSelection,
    /// Withdraw the primary selection.
    ClearPrimarySelection,
}

/// One window mapped into the space, at its current location.
#[derive(Clone, Copy, Debug, PartialEq, Eq, Structural)]
pub struct MappedElement {
    pub window: u32,
    pub loc: Point,
}

/// One connected output: its identity, geometry and tag state.
pub struct OutputEntry {
    pub name: OutputName,
    pub loc: Point,
    pub size: crate::geometry::Size,
    pub state: OutputState,
}

/// The shared compositor state the bridge mutates.
pub struct Compositor {
    /// The tracked (managed) windows, in mapping order.
    pub windows: Vec<WindowElement>,
    /// What is currently mapped into the space, and where.
    pub space: Vec<MappedElement>,
    /// The connected outputs.
    pub outputs: Vec<OutputEntry>,
    /// Index of the focused output, if any.
    pub focused_output: Option<usize>,
    /// The window holding keyboard focus, if any.
    pub keyboard_focus: Option<u32>,
    /// The live barrier episodes, oldest first.
    pub barriers: Vec<Barrier>,
    /// Whether an X11 clipboard selection is currently published.
    pub clipboard_selection: bool,
    /// Whether an X11 primary selection is currently published.
    pub primary_selection: bool,
}

/// No two tracked windows share an id.
pub open spec fn distinct_window_ids(ws: Seq<WindowElement>) -> bool {
    forall|i: int, j: int| 0 <= i < j < ws.len() ==> ws[i].id != ws[j].id
}

/// The spec-level images of a barrier list.
pub open spec fn views_of(bs: Seq<Barrier>) -> Seq<BarrierView> {
    bs.map_values(|b: Barrier| b.view())
}

/// The stepped images of a barrier list under one event.
pub open spec fn spec_step_all(bs: Seq<BarrierView>, e: BarrierEvent) -> Seq<BarrierView> {
    bs.map_values(|b: BarrierView| spec_step(b, e).0)
}

/// The barriers of `bs` whose episode is not over.
pub open spec fn spec_live(bs: Seq<BarrierView>) -> Seq<BarrierView> {
    bs.filter(|b: BarrierView| !(b.phase is Done))
}

/// The actions one barrier emits on one event: a release removes every
/// surviving member's blocker token, a raise lifts the gated window.
pub open spec fn spec_step_actions(b: BarrierView, e: BarrierEvent) -> Seq<Action> {
    let stepped = spec_step(b, e);
    let rel: Seq<Action> = if stepped.1.release {
        stepped.0.members.map_values(|m: u32| Action::ReleaseBlocker { window: m })
    } else {
        Seq::empty()
    };
    let rai: Seq<Action> = if stepped.1.raise {
        seq![Action::RaiseWindow { window: b.gated }]
    } else {
        Seq::empty()
    };
    rel + rai
}

/// The actions a whole barrier list emits on one event, in list order.
pub open spec fn spec_all_barrier_actions(bs: Seq<BarrierView>, e: BarrierEvent) -> Seq<Action>
    decreases bs.len(),
{
    if bs.len() == 0 {
        Seq::empty()
    } else {
        spec_all_barrier_actions(bs.drop_last(), e) + spec_step_actions(bs.last(), e)
    }
}

impl Compositor {
    /// Well-formedness of the shared state.
    pub open spec fn wf(self) -> bool {
        &&& distinct_window_ids(self.windows@)
        &&& (self.focused_output is Some ==> self.focused_output->0 < self.outputs@.len())
        &&& (forall|i: int| 0 <= i < self.barriers@.len() ==> (#[trigger] self.barriers@[i]).wf())
        &&& (forall|i: int|
            0 <= i < self.outputs@.len() ==> (#[trigger] self.outputs@[i]).loc.bounded()
                && self.outputs@[i].size.bounded())
    }

    /// A compositor with nothing connected and nothing tracked.
    pub fn new() -> (r: Self)
        ensures
            r.wf(),
            r.windows@.len() == 0,
            r.space@.len() == 0,
            r.outputs@.len() == 0,
            r.focused_output is None,
            r.keyboard_focus is None,
            r.barriers@.len() == 0,
            !r.clipboard_selection,
            !r.primary_selection,
    {
        Compositor {
            windows: Vec::new(),
            space: Vec::new(),
            outputs: Vec::new(),
            focused_output: None,
            keyboard_focus: None,
            barriers: Vec::new(),
            clipboard_selection: false,
            primary_selection: false,
        }
    }

    /// Feed one barrier event to every live episode, in order: collect
    /// the actions each emits and drop the episodes that ended.
    fn pump_barriers(&mut self, e: BarrierEvent) -> (acts: Vec<Action>)
        requires
            old(self).wf(),
        ensures
            final(self).wf(),
            views_of(final(self).barriers@) == spec_live(
                spec_step_all(views_of(old(self).barriers@), e),
            ),
            acts@ == spec_all_barrier_actions(views_of(old(self).barriers@), e),
            final(self).windows == old(self).windows,
            final(self).space == old(self).space,
            final(self).outputs == old(self).outputs,
            final(self).focused_output == old(self).focused_output,
            final(self).keyboard_focus == old(self).keyboard_focus,
            final(self).clipboard_selection == old(self).clipboard_selection,
            final(self).primary_selection == old(self).primary_selection,
    {
        let ghost orig = self.barriers@;
        let mut remaining: Vec<Barrier> = Vec::new();
        let mut acts: Vec<Action> = Vec::new();
        let mut k: usize = 0;
        let n = self.barriers.len();
        while k < n
            invariant
                0 <= k <= n,
                n == orig.len(),
                self.barriers@ == orig,
                forall|i: int| 0 <= i < orig.len() ==> (#[trigger] orig[i]).wf(),
                views_of(remaining@) == spec_live(spec_step_all(views_of(orig.take(k as int)), e)),
                forall|i: int| 0 <= i < remaining@.len() ==> (#[trigger] remaining@[i]).wf(),
                acts@ == spec_all_barrier_actions(views_of(orig.take(k as int)), e),
            decreases n - k,
        {
            let mut b = self.barriers[k].clone();
            let out = match e {
                BarrierEvent::Commit(w) => b.on_commit(w),
                BarrierEvent::Destroyed(w) => b.on_destroyed(w),
            };
            assert((b.view(), out) == spec_step(orig[k as int].view(), e));
            if out.release {
                let mut m: usize = 0;
                let ghost before = acts@;
                while m < b.members.len()
                    invariant
                        0 <= m <= b.members@.len(),
                        acts@ == before + b.members@.take(m as int).map_values(
                            |x: u32| Action::ReleaseBlocker { window: x },
                        ),
                    decreases b.members@.len() - m,
                {
                    acts.push(Action::ReleaseBlocker { window: b.members[m] });
                    proof {
                        assert(acts@ =~= before + b.members@.take(m + 1).map_values(
                            |x: u32| Action::ReleaseBlocker { window: x },
                        ));
                    }
                    m += 1;
                }
                proof {
                    assert(b.members@.take(b.members@.len() as int) =~= b.members@);
                }
            }
            if out.raise {
                acts.push(Action::RaiseWindow { window: b.gated });
            }
            let is_done = matches!(b.phase, crate::barrier::BarrierPhase::Done);
            if !is_done {
                remaining.push(b);
            }
            proof {
                let vk = views_of(orig.take(k as int));
                let vk1 = views_of(orig.take(k + 1));
                assert(vk1.drop_last() =~= vk);
                assert(vk1.last() == orig[k as int].view());
                let sk = spec_step_all(vk, e);
                let sk1 = spec_step_all(vk1, e);
                assert(sk1.drop_last() =~= sk);
                assert(sk1.last() == b.view());
                reveal(Seq::filter);
                assert(spec_live(sk1) == if !(b.view().phase is Done) {
                    spec_live(sk).push(b.view())
                } else {
                    spec_live(sk)
                });
                assert(views_of(remaining@) =~= spec_live(sk1));
                assert(spec_all_barrier_actions(vk1, e) == spec_all_barrier_actions(vk, e)
                    + spec_step_actions(vk1.last(), e));
                assert(acts@ =~= spec_all_barrier_actions(vk1, e));
            }
            k += 1;
        }
        proof {
            assert(orig.take(orig.len() as int) =~= orig);
        }
        self.barriers = remaining;
        acts
    }

    /// An X11 client asks to map a window. An override-redirect window
    /// is placed at its own location and bypasses tracking, tagging and
    /// gating. A managed window is centered on the focused output, gets
    /// its tags inferred and its floating mode classified, triggers a
    /// re-layout, and — when siblings share a tag with the focused
    /// output — is gated behind a commit barrier on them; with no
    /// siblings it raises at once and no barrier exists. Keyboard focus
    /// moves to the new window.
    pub fn map_window_request(&mut self, req: &X11MapRequest) -> (acts: Vec<Action>)
        requires
            old(self).wf(),
            !spec_windows_has(old(self).windows@, req.id),
            req.geometry.bounded(),
        ensures
            final(self).wf(),
            final(self).outputs == old(self).outputs,
            final(self).focused_output == old(self).focused_output,
            final(self).clipboard_selection == old(self).clipboard_selection,
            final(self).primary_selection == old(self).primary_selection,
            req.override_redirect ==> {
                &&& final(self).windows@ == old(self).windows@
                &&& final(self).barriers@ == old(self).barriers@
                &&& final(self).keyboard_focus == old(self).keyboard_focus
                &&& final(self).space@ == spec_space_upsert(
                    old(self).space@,
                    req.id,
                    req.geometry.loc,
                )
                &&& acts@ =~= seq![
                    Action::MapElement { window: req.id, loc: req.geometry.loc, raise: true },
                ]
            },
            !req.override_redirect ==> {
                let center = spec_map_target(*old(self), req.geometry.size);
                let sibs = spec_gating_sibs(*old(self));
                let entry = final(self).windows@.last();
                &&& final(self).windows@.len() == old(self).windows@.len() + 1
                &&& final(self).windows@.drop_last() == old(self).windows@
                &&& entry.id == req.id
                &&& entry.kind is X11
                &&& !entry.override_redirect
                &&& entry.has_surface == req.has_surface
                &&& entry.xwm == Some(req.xwm)
                &&& entry.state.tags@ == spec_assign_initial_tags(
                    spec_resolved_output_tags(*old(self)),
                    old(self).windows@.map_values(|w: WindowElement| w.state.tags@),
                )
                &&& entry.state.floating == (if spec_should_float(req.hints) {
                    Float::Floating(center)
                } else {
                    Float::Tiled
                })
                &&& entry.state.fullscreen_or_maximized is Neither
                &&& final(self).space@ == spec_space_upsert(old(self).space@, req.id, center)
                &&& (sibs.len() == 0 ==> final(self).barriers@ == old(self).barriers@)
                &&& (sibs.len() > 0 ==> {
                    &&& final(self).barriers@.len() == old(self).barriers@.len() + 1
                    &&& final(self).barriers@.drop_last() == old(self).barriers@
                    &&& final(self).barriers@.last().view() == crate::barrier::spec_install(
                        req.id,
                        sibs,
                    )
                })
                &&& final(self).keyboard_focus == Some(req.id)
                &&& acts@ =~= seq![
                    Action::SetMapped { window: req.id, mapped: true },
                    Action::MapElement { window: req.id, loc: center, raise: true },
                    Action::Configure {
                        window: req.id,
                        geometry: Rect { loc: center, size: req.geometry.size },
                    },
                ] + spec_map_layout_actions(*old(self), final(self).windows@) + sibs.map_values(
                    |w: u32| Action::AddBlocker { window: w },
                ) + seq![Action::SetKeyboardFocus { window: req.id }]
            },
    {
        if req.override_redirect {
            space_upsert(&mut self.space, req.id, req.geometry.loc);
            let mut acts: Vec<Action> = Vec::new();
            acts.push(Action::MapElement { window: req.id, loc: req.geometry.loc, raise: true });
            return acts;
        }
        let (out_loc, out_size) = match self.focused_output {
            Some(k) => (self.outputs[k].loc, self.outputs[k].size),
            None => (Point { x: 0, y: 0 }, Size { w: 2, h: 2 }),
        };
        let center = center_on_output(out_loc, out_size, req.geometry.size);
        let mut acts: Vec<Action> = Vec::new();
        acts.push(Action::SetMapped { window: req.id, mapped: true });
        acts.push(Action::MapElement { window: req.id, loc: center, raise: true });
        acts.push(
            Action::Configure {
                window: req.id,
                geometry: Rect { loc: center, size: req.geometry.size },
            },
        );
        let ghost base = acts@;

        let existing = collect_tag_lists(&self.windows);
        let tags = match self.focused_output {
            Some(k) => assign_initial_tags(
                Some(&self.outputs[k].state),
                if self.outputs.len() > 0 {
                    Some(&self.outputs[0].state)
                } else {
                    None
                },
                &existing,
            ),
            None => assign_initial_tags(
                None,
                if self.outputs.len() > 0 {
                    Some(&self.outputs[0].state)
                } else {
                    None
                },
                &existing,
            ),
        };
        let floating = if should_float(&req.hints) {
            Float::Floating(center)
        } else {
            Float::Tiled
        };
        let entry = WindowElement {
            id: req.id,
            kind: WindowKind::X11,
            override_redirect: false,
            has_surface: req.has_surface,
            xwm: Some(req.xwm),
            state: WindowState {
                tags,
                floating,
                fullscreen_or_maximized: FullscreenOrMaximized::Neither,
            },
        };

        match self.focused_output {
            Some(k) => {
                let sibs = sibling_ids(&self.windows, &self.outputs[k].state.tags);
                self.windows.push(entry);
                space_upsert(&mut self.space, req.id, center);
                let focused = self.outputs[k].state.focused_tags();
                let ghost with_layout = acts@;
                if focused.len() > 0 {
                    let op_geo = Rect { loc: self.outputs[k].loc, size: self.outputs[k].size };
                    let placed = layout(&self.windows, &focused, op_geo);
                    let mut p: usize = 0;
                    while p < placed.len()
                        invariant
                            0 <= p <= placed@.len(),
                            acts@ == base + spec_place_actions(placed@.take(p as int)),
                        decreases placed@.len() - p,
                    {
                        acts.push(
                            Action::PlaceWindow {
                                window: placed[p].0,
                                geometry: placed[p].1,
                            },
                        );
                        proof {
                            assert(acts@ =~= base + spec_place_actions(placed@.take(p + 1)));
                        }
                        p += 1;
                    }
                    proof {
                        assert(placed@.take(placed@.len() as int) =~= placed@);
                    }
                }
                let mut m: usize = 0;
                let ghost pre_blockers = acts@;
                while m < sibs.len()
                    invariant
                        0 <= m <= sibs@.len(),
                        acts@ == pre_blockers + sibs@.take(m as int).map_values(
                            |w: u32| Action::AddBlocker { window: w },
                        ),
                    decreases sibs@.len() - m,
                {
                    acts.push(Action::AddBlocker { window: sibs[m] });
                    proof {
                        assert(acts@ =~= pre_blockers + sibs@.take(m + 1).map_values(
                            |w: u32| Action::AddBlocker { window: w },
                        ));
                    }
                    m += 1;
                }
                proof {
                    assert(sibs@.take(sibs@.len() as int) =~= sibs@);
                    if sibs@.contains(req.id) {
                        assert(spec_windows_has(old(self).windows@, req.id));
                    }
                }
                match Barrier::install(req.id, sibs) {
                    Some(b) => {
                        self.barriers.push(b);
                        proof {
                            assert(self.barriers@.drop_last() =~= old(self).barriers@);
                        }
                    },
                    None => {},
                }
            },
            None => {
                self.windows.push(entry);
                space_upsert(&mut self.space, req.id, center);
            },
        }
        self.keyboard_focus = Some(req.id);
        acts.push(Action::SetKeyboardFocus { window: req.id });
        proof {
            assert(final(self).windows@.drop_last() =~= old(self).windows@);
            assert forall|i: int, j: int|
                0 <= i < j < self.windows@.len() implies self.windows@[i].id
                != self.windows@[j].id by {
                if j < self.windows@.len() - 1 {
                    assert(old(self).windows@[i].id != old(self).windows@[j].id);
                } else {
                    if self.windows@[i].id == req.id {
                        assert(spec_windows_has(old(self).windows@, req.id));
                    }
                }
            }
            assert(acts@ =~= seq![
                Action::SetMapped { window: req.id, mapped: true },
                Action::MapElement {
                    window: req.id,
                    loc: spec_map_target(*old(self), req.geometry.size),
                    raise: true,
                },
                Action::Configure {
                    window: req.id,
                    geometry: Rect {
                        loc: spec_map_target(*old(self), req.geometry.size),
                        size: req.geometry.size,
                    },
                },
            ] + spec_map_layout_actions(*old(self), final(self).windows@) + spec_gating_sibs(
                *old(self),
            ).map_values(|w: u32| Action::AddBlocker { window: w }) + seq![
                Action::SetKeyboardFocus { window: req.id },
            ]);
        }
        acts
    }

    /// A surface committed a new frame: drive every barrier episode one
    /// step and report the releases and raises that fall due.
    pub fn commit(&mut self, window: u32) -> (acts: Vec<Action>)
        requires
            old(self).wf(),
        ensures
            final(self).wf(),
            views_of(final(self).barriers@) == spec_live(
                spec_step_all(views_of(old(self).barriers@), BarrierEvent::Commit(window)),
            ),
            acts@ == spec_all_barrier_actions(
                views_of(old(self).barriers@),
                BarrierEvent::Commit(window),
            ),
            final(self).windows == old(self).windows,
            final(self).space == old(self).space,
            final(self).outputs == old(self).outputs,
            final(self).focused_output == old(self).focused_output,
            final(self).keyboard_focus == old(self).keyboard_focus,
            final(self).clipboard_selection == old(self).clipboard_selection,
            final(self).primary_selection == old(self).primary_selection,
    {
        self.pump_barriers(BarrierEvent::Commit(window))
    }

    /// An override-redirect window mapped itself: place it at its own
    /// location, raised, without tracking or gating it.
    pub fn mapped_override_redirect_window(&mut self, id: u32, geometry: Rect) -> (acts: Vec<
        Action,
    >)
        requires
            old(self).wf(),
        ensures
            final(self).wf(),
            final(self).space@ == spec_space_upsert(old(self).space@, id, geometry.loc),
            acts@ =~= seq![Action::MapElement { window: id, loc: geometry.loc, raise: true }],
            final(self).windows == old(self).windows,
            final(self).outputs == old(self).outputs,
            final(self).focused_output == old(self).focused_output,
            final(self).keyboard_focus == old(self).keyboard_focus,
            final(self).barriers == old(self).barriers,
            final(self).clipboard_selection == old(self).clipboard_selection,
            final(self).primary_selection == old(self).primary_selection,
    {
        space_upsert(&mut self.space, id, geometry.loc);
        let mut acts: Vec<Action> = Vec::new();
        acts.push(Action::MapElement { window: id, loc: geometry.loc, raise: true });
        acts
    }

    /// A window was unmapped: remove it from the space but keep it
    /// tracked (hidden is not destroyed), and tell the X11 side it is
    /// unmapped unless it manages itself.
    pub fn unmapped_window(&mut self, id: u32, override_redirect: bool) -> (acts: Vec<Action>)
        requires
            old(self).wf(),
        ensures
            final(self).wf(),
            final(self).space@ == old(self).space@.filter(|m: MappedElement| m.window != id),
            acts@ =~= (if spec_space_has(old(self).space@, id) {
                seq![Action::UnmapElement { window: id }]
            } else {
                Seq::empty()
            }) + (if !override_redirect {
                seq![Action::SetMapped { window: id, mapped: false }]
            } else {
                Seq::empty()
            }),
            final(self).windows == old(self).windows,
            final(self).outputs == old(self).outputs,
            final(self).focused_output == old(self).focused_output,
            final(self).keyboard_focus == old(self).keyboard_focus,
            final(self).barriers == old(self).barriers,
            final(self).clipboard_selection == old(self).clipboard_selection,
            final(self).primary_selection == old(self).primary_selection,
    {
        let mut acts: Vec<Action> = Vec::new();
        let present = space_has(&self.space, id);
        if present {
            acts.push(Action::UnmapElement { window: id });
        }
        let ghost orig = self.space@;
        let mut kept: Vec<MappedElement> = Vec::new();
        let mut i: usize = 0;
        while i < self.space.len()
            invariant
                0 <= i <= self.space@.len(),
                self.space@ == orig,
                kept@ == orig.take(i as int).filter(|m: MappedElement| m.window != id),
            decreases self.space@.len() - i,
        {
            proof {
                assert(orig.take(i + 1).drop_last() =~= orig.take(i as int));
                reveal(Seq::filter);
            }
            if self.space[i].window != id {
                kept.push(self.space[i]);
            }
            i += 1;
        }
        proof {
            assert(orig.take(orig.len() as int) =~= orig);
        }
        self.space = kept;
        if !override_redirect {
            acts.push(Action::SetMapped { window: id, mapped: false });
        }
        acts
    }

    /// A window was destroyed: drop it from tracking, satisfy or abort
    /// any barrier slot it held, and re-lay out its output if it was
    /// tiled. The barrier releases come first, so no sibling stays
    /// blocked.
    pub fn destroyed_window(&mut self, id: u32) -> (acts: Vec<Action>)
        requires
            old(self).wf(),
        ensures
            final(self).wf(),
            views_of(final(self).barriers@) == spec_live(
                spec_step_all(views_of(old(self).barriers@), BarrierEvent::Destroyed(id)),
            ),
            final(self).space == old(self).space,
            final(self).outputs == old(self).outputs,
            final(self).focused_output == old(self).focused_output,
            final(self).keyboard_focus == old(self).keyboard_focus,
            final(self).clipboard_selection == old(self).clipboard_selection,
            final(self).primary_selection == old(self).primary_selection,
            !spec_windows_has(old(self).windows@, id) ==> final(self).windows@ == old(self).windows@ && acts@ == spec_all_barrier_actions(
                views_of(old(self).barriers@),
                BarrierEvent::Destroyed(id),
            ),
            forall|i: int|
                0 <= i < old(self).windows@.len() && old(self).windows@[i].id == id ==> {
                    let w = old(self).windows@[i];
                    let remaining = old(self).windows@.remove(i);
                    let barrier_acts = spec_all_barrier_actions(
                        views_of(old(self).barriers@),
                        BarrierEvent::Destroyed(id),
                    );
                    &&& final(self).windows@ == remaining
                    &&& (!(w.state.floating is Tiled) ==> acts@ == barrier_acts)
                    &&& (w.state.floating is Tiled ==> {
                        &&& (forall|k: int|
                            spec_is_first_intersecting_output(
                                old(self).outputs@,
                                w.state.tags@,
                                k,
                            ) ==> acts@ == barrier_acts + spec_place_actions(
                                spec_layout(
                                    remaining,
                                    spec_focused_tags(old(self).outputs@[k].state.tags@),
                                    Rect {
                                        loc: old(self).outputs@[k].loc,
                                        size: old(self).outputs@[k].size,
                                    },
                                ),
                            ))
                        &&& ((forall|k: int|
                            !spec_is_first_intersecting_output(
                                old(self).outputs@,
                                w.state.tags@,
                                k,
                            )) ==> acts@ == barrier_acts)
                    })
                },
    {
        let mut acts = self.pump_barriers(BarrierEvent::Destroyed(id));
        let found = find_window(&self.windows, id);
        match found {
            Some(ix) => {
                let tiled = self.windows[ix].state.floating.is_tiled();
                let wtags = crate::tag::copy_ids(&self.windows[ix].state.tags);
                let ghost before = self.windows@;
                self.windows.remove(ix);
                proof {
                    assert forall|a: int, b: int|
                        0 <= a < b < self.windows@.len() implies self.windows@[a].id
                        != self.windows@[b].id by {
                        assert(self.windows@[a] == (if a < ix as int {
                            before[a]
                        } else {
                            before[a + 1]
                        }));
                        assert(self.windows@[b] == (if b < ix as int {
                            before[b]
                        } else {
                            before[b + 1]
                        }));
                    }
                }
                if tiled {
                    match first_intersecting_output(&self.outputs, &wtags) {
                        Some(k) => {
                            let focused = self.outputs[k].state.focused_tags();
                            let op_geo = Rect {
                                loc: self.outputs[k].loc,
                                size: self.outputs[k].size,
                            };
                            let placed = layout(&self.windows, &focused, op_geo);
                            let ghost pre = acts@;
                            let mut p: usize = 0;
                            while p < placed.len()
                                invariant
                                    0 <= p <= placed@.len(),
                                    acts@ == pre + spec_place_actions(placed@.take(p as int)),
                                decreases placed@.len() - p,
                            {
                                acts.push(
                                    Action::PlaceWindow {
                                        window: placed[p].0,
                                        geometry: placed[p].1,
                                    },
                                );
                                proof {
                                    assert(acts@ =~= pre + spec_place_actions(
                                        placed@.take(p + 1),
                                    ));
                                }
                                p += 1;
                            }
                            proof {
                                assert(placed@.take(placed@.len() as int) =~= placed@);
                            }
                        },
                        None => {},
                    }
                }
            },
            None => {},
        }
        acts
    }

    /// A client's configure request: only the width and height it asks
    /// for are honored; the position stays compositor-controlled.
    pub fn configure_request(
        &self,
        id: u32,
        geometry: Rect,
        w: Option<i32>,
        h: Option<i32>,
    ) -> (a: Action)
        ensures
            a == (Action::Configure {
                window: id,
                geometry: crate::geometry::spec_apply_configure_request(geometry, w, h),
            }),
    {
        Action::Configure {
            window: id,
            geometry: crate::geometry::apply_configure_request(geometry, w, h),
        }
    }

    /// The X11 window manager reports a window's geometry: reconcile the
    /// stored location with the reported one, if the window is mapped.
    pub fn configure_notify(&mut self, id: u32, geometry: Rect) -> (acts: Vec<Action>)
        requires
            old(self).wf(),
        ensures
            final(self).wf(),
            spec_space_has(old(self).space@, id) ==> final(self).space@ == spec_space_upsert(
                old(self).space@,
                id,
                geometry.loc,
            ) && acts@ =~= seq![
                Action::MapElement { window: id, loc: geometry.loc, raise: true },
            ],
            !spec_space_has(old(self).space@, id) ==> final(self).space@ == old(self).space@
                && acts@.len() == 0,
            final(self).windows == old(self).windows,
            final(self).outputs == old(self).outputs,
            final(self).focused_output == old(self).focused_output,
            final(self).keyboard_focus == old(self).keyboard_focus,
            final(self).barriers == old(self).barriers,
            final(self).clipboard_selection == old(self).clipboard_selection,
            final(self).primary_selection == old(self).primary_selection,
    {
        let mut acts: Vec<Action> = Vec::new();
        if space_has(&self.space, id) {
            space_upsert(&mut self.space, id, geometry.loc);
            acts.push(Action::MapElement { window: id, loc: geometry.loc, raise: true });
        }
        acts
    }

    /// Forward an interactive resize to the grab component, if the
    /// window has a surface to grab.
    pub fn resize_request(&self, id: u32, button: u32, edge: ResizeEdge) -> (r: Option<Action>)
        ensures
            r is Some <==> spec_window_has_surface(self.windows@, id),
            r is Some ==> r->0 == (Action::StartResizeGrab { window: id, button, edge }),
    {
        if window_has_surface(&self.windows, id) {
            Some(Action::StartResizeGrab { window: id, button, edge })
        } else {
            None
        }
    }

    /// Forward an interactive move to the grab component, if the window
    /// has a surface to grab.
    pub fn move_request(&self, id: u32, button: u32) -> (r: Option<Action>)
        ensures
            r is Some <==> spec_window_has_surface(self.windows@, id),
            r is Some ==> r->0 == (Action::StartMoveGrab { window: id, button }),
    {
        if window_has_surface(&self.windows, id) {
            Some(Action::StartMoveGrab { window: id, button })
        } else {
            None
        }
    }

    /// Selection access control: granted only when the keyboard focus is
    /// an X11 window of the requesting window-manager connection.
    pub fn allow_selection_access(&self, xwm: u32) -> (r: bool)
        ensures
            r == spec_allow_selection_access(*self, xwm),
    {
        match self.keyboard_focus {
            Some(f) => {
                let mut i: usize = 0;
                while i < self.windows.len()
                    invariant
                        0 <= i <= self.windows@.len(),
                        self.keyboard_focus == Some(f),
                        forall|j: int|
                            0 <= j < i ==> !((#[trigger] self.windows@[j]).id == f
                                && self.windows@[j].kind is X11 && self.windows@[j].xwm == Some(
                                xwm,
                            )),
                    decreases self.windows@.len() - i,
                {
                    if self.windows[i].id == f && matches!(
                        self.windows[i].kind,
                        crate::window::WindowKind::X11,
                    ) {
                        match self.windows[i].xwm {
                            Some(x) => {
                                if x == xwm {
                                    proof {
                                        assert(0 <= i < self.windows@.len()
                                            && self.windows@[i as int].id == f
                                            && self.windows@[i as int].kind is X11
                                            && self.windows@[i as int].xwm == Some(xwm));
                                        assert(spec_allow_selection_access(*self, xwm));
                                    }
                                    return true;
                                }
                            },
                            None => {},
                        }
                    }
                    i += 1;
                }
                false
            },
            None => false,
        }
    }

    /// Route a selection-data request to the Wayland side by selection
    /// type, unchanged.
    pub fn send_selection(&self, selection: SelectionType, mime_type: String, fd: i32) -> (a:
        Action)
        ensures
            selection is Clipboard ==> a == (Action::RequestClipboardData { mime_type, fd }),
            selection is Primary ==> a == (Action::RequestPrimaryData { mime_type, fd }),
    {
        match selection {
            SelectionType::Clipboard => Action::RequestClipboardData { mime_type, fd },
            SelectionType::Primary => Action::RequestPrimaryData { mime_type, fd },
        }
    }

    /// An X11 client took a selection: publish it on the Wayland side.
    pub fn new_selection(&mut self, selection: SelectionType, mime_types: Vec<String>) -> (a:
        Action)
        requires
            old(self).wf(),
        ensures
            final(self).wf(),
            selection is Clipboard ==> final(self).clipboard_selection && final(self).primary_selection == old(self).primary_selection && a == (
            Action::SetClipboardSelection { mime_types }),
            selection is Primary ==> final(self).primary_selection && final(self).clipboard_selection == old(self).clipboard_selection && a == (
            Action::SetPrimarySelection { mime_types }),
            final(self).windows == old(self).windows,
            final(self).space == old(self).space,
            final(self).outputs == old(self).outputs,
            final(self).focused_output == old(self).focused_output,
            final(self).keyboard_focus == old(self).keyboard_focus,
            final(self).barriers == old(self).barriers,
    {
        match selection {
            SelectionType::Clipboard => {
                self.clipboard_selection = true;
                Action::SetClipboardSelection { mime_types }
            },
            SelectionType::Primary => {
                self.primary_selection = true;
                Action::SetPrimarySelection { mime_types }
            },
        }
    }

    /// An X11 client dropped its selection: withdraw it, but only if one
    /// is actually published.
    pub fn cleared_selection(&mut self, selection: SelectionType) -> (r: Option<Action>)
        requires
            old(self).wf(),
        ensures
            final(self).wf(),
            selection is Clipboard ==> {
                &&& !final(self).clipboard_selection
                &&& final(self).primary_selection == old(self).primary_selection
                &&& r == (if old(self).clipboard_selection {
                    Some(Action::ClearClipboardSelection)
                } else {
                    None::<Action>
                })
            },
            selection is Primary ==> {
                &&& !final(self).primary_selection
                &&& final(self).clipboard_selection == old(self).clipboard_selection
                &&& r == (if old(self).primary_selection {
                    Some(Action::ClearPrimarySelection)
                } else {
                    None::<Action>
                })
            },
            final(self).windows == old(self).windows,
            final(self).space == old(self).space,
            final(self).outputs == old(self).outputs,
            final(self).focused_output == old(self).focused_output,
            final(self).keyboard_focus == old(self).keyboard_focus,
            final(self).barriers == old(self).barriers,
    {
        match selection {
            SelectionType::Clipboard => {
                if self.clipboard_selection {
                    self.clipboard_selection = false;
                    Some(Action::ClearClipboardSelection)
                } else {
                    None
                }
            },
            SelectionType::Primary => {
                if self.primary_selection {
                    self.primary_selection = false;
                    Some(Action::ClearPrimarySelection)
                } else {
                    None
                }
            },
        }
    }

    /// Connect an output with no tags yet.
    pub fn connect_output(&mut self, name: OutputName, loc: Point, size: Size)
        requires
            old(self).wf(),
            loc.bounded(),
            size.bounded(),
        ensures
            final(self).wf(),
            final(self).outputs@.len() == old(self).outputs@.len() + 1,
            final(self).outputs@.drop_last() == old(self).outputs@,
            final(self).outputs@.last().loc == loc,
            final(self).outputs@.last().size == size,
            final(self).outputs@.last().state.tags@.len() == 0,
            final(self).windows == old(self).windows,
            final(self).space == old(self).space,
            final(self).focused_output == old(self).focused_output,
            final(self).keyboard_focus == old(self).keyboard_focus,
            final(self).barriers == old(self).barriers,
            final(self).clipboard_selection == old(self).clipboard_selection,
            final(self).primary_selection == old(self).primary_selection,
    {
        self.outputs.push(OutputEntry { name, loc, size, state: OutputState::new() });
        proof {
            assert(self.outputs@.drop_last() =~= old(self).outputs@);
        }
    }

    /// Focus an output.
    pub fn focus_output(&mut self, k: usize)
        requires
            old(self).wf(),
            k < old(self).outputs@.len(),
        ensures
            final(self).wf(),
            final(self).focused_output == Some(k),
            final(self).windows == old(self).windows,
            final(self).space == old(self).space,
            final(self).outputs == old(self).outputs,
            final(self).keyboard_focus == old(self).keyboard_focus,
            final(self).barriers == old(self).barriers,
            final(self).clipboard_selection == old(self).clipboard_selection,
            final(self).primary_selection == old(self).primary_selection,
    {
        self.focused_output = Some(k);
    }

    /// Attach a tag to an output. Attaching is a membership change, so
    /// the output is re-laid out under its new focused set.
    pub fn add_tag_to_output(&mut self, k: usize, tag: Tag) -> (acts: Vec<Action>)
        requires
            old(self).wf(),
            k < old(self).outputs@.len(),
        ensures
            final(self).wf(),
            final(self).outputs@.len() == old(self).outputs@.len(),
            final(self).outputs@[k as int].state.tags@ == old(self).outputs@[k as int].state.tags@.push(tag),
            final(self).outputs@[k as int].name == old(self).outputs@[k as int].name,
            final(self).outputs@[k as int].loc == old(self).outputs@[k as int].loc,
            final(self).outputs@[k as int].size == old(self).outputs@[k as int].size,
            forall|j: int|
                0 <= j < old(self).outputs@.len() && j != k ==> final(self).outputs@[j] == old(self).outputs@[j],
            acts@ == spec_place_actions(
                spec_layout(
                    old(self).windows@,
                    spec_focused_tags(final(self).outputs@[k as int].state.tags@),
                    Rect {
                        loc: old(self).outputs@[k as int].loc,
                        size: old(self).outputs@[k as int].size,
                    },
                ),
            ),
            final(self).windows == old(self).windows,
            final(self).space == old(self).space,
            final(self).focused_output == old(self).focused_output,
            final(self).keyboard_focus == old(self).keyboard_focus,
            final(self).barriers == old(self).barriers,
            final(self).clipboard_selection == old(self).clipboard_selection,
            final(self).primary_selection == old(self).primary_selection,
    {
        let mut entry = self.outputs.remove(k);
        entry.state.add_tag(tag);
        self.outputs.insert(k, entry);
        proof {
            assert(self.outputs@ =~= old(self).outputs@.update(
                k as int,
                self.outputs@[k as int],
            ));
        }
        self.relayout_output(k)
    }

    /// Flip a tag's active flag on an output. The focused set changes,
    /// so the output is re-laid out.
    pub fn set_output_tag_active(&mut self, k: usize, id: u32, active: bool) -> (acts: Vec<
        Action,
    >)
        requires
            old(self).wf(),
            k < old(self).outputs@.len(),
        ensures
            final(self).wf(),
            final(self).outputs@.len() == old(self).outputs@.len(),
            final(self).outputs@[k as int].state.tags@ == crate::output::spec_set_tag_active(
                old(self).outputs@[k as int].state.tags@,
                id,
                active,
            ),
            final(self).outputs@[k as int].name == old(self).outputs@[k as int].name,
            final(self).outputs@[k as int].loc == old(self).outputs@[k as int].loc,
            final(self).outputs@[k as int].size == old(self).outputs@[k as int].size,
            forall|j: int|
                0 <= j < old(self).outputs@.len() && j != k ==> final(self).outputs@[j] == old(self).outputs@[j],
            acts@ == spec_place_actions(
                spec_layout(
                    old(self).windows@,
                    spec_focused_tags(final(self).outputs@[k as int].state.tags@),
                    Rect {
                        loc: old(self).outputs@[k as int].loc,
                        size: old(self).outputs@[k as int].size,
                    },
                ),
            ),
            final(self).windows == old(self).windows,
            final(self).space == old(self).space,
            final(self).focused_output == old(self).focused_output,
            final(self).keyboard_focus == old(self).keyboard_focus,
            final(self).barriers == old(self).barriers,
            final(self).clipboard_selection == old(self).clipboard_selection,
            final(self).primary_selection == old(self).primary_selection,
    {
        let mut entry = self.outputs.remove(k);
        entry.state.set_tag_active(id, active);
        self.outputs.insert(k, entry);
        proof {
            assert(self.outputs@ =~= old(self).outputs@.update(
                k as int,
                self.outputs@[k as int],
            ));
        }
        self.relayout_output(k)
    }

    /// Detach a tag from an output. Every window holding the tag drops
    /// it at the same step, so no window ever references a removed tag,
    /// and the output is re-laid out under its remaining focused set.
    pub fn remove_tag_from_output(&mut self, k: usize, id: u32) -> (acts: Vec<Action>)
        requires
            old(self).wf(),
            k < old(self).outputs@.len(),
        ensures
            final(self).wf(),
            final(self).outputs@.len() == old(self).outputs@.len(),
            final(self).outputs@[k as int].state.tags@ == old(
                self,
            ).outputs@[k as int].state.tags@.filter(|t: Tag| t.id != id),
            final(self).outputs@[k as int].name == old(self).outputs@[k as int].name,
            final(self).outputs@[k as int].loc == old(self).outputs@[k as int].loc,
            final(self).outputs@[k as int].size == old(self).outputs@[k as int].size,
            forall|j: int|
                0 <= j < old(self).outputs@.len() && j != k ==> final(self).outputs@[j] == old(
                    self,
                ).outputs@[j],
            final(self).windows@.len() == old(self).windows@.len(),
            forall|j: int|
                0 <= j < old(self).windows@.len() ==> {
                    let w0 = old(self).windows@[j];
                    let w1 = #[trigger] final(self).windows@[j];
                    &&& w1.id == w0.id
                    &&& w1.kind == w0.kind
                    &&& w1.override_redirect == w0.override_redirect
                    &&& w1.has_surface == w0.has_surface
                    &&& w1.xwm == w0.xwm
                    &&& w1.state.floating == w0.state.floating
                    &&& w1.state.fullscreen_or_maximized == w0.state.fullscreen_or_maximized
                    &&& w1.state.tags@ == crate::tag::spec_ids_without(w0.state.tags@, id)
                },
            acts@ == spec_place_actions(
                spec_layout(
                    final(self).windows@,
                    spec_focused_tags(final(self).outputs@[k as int].state.tags@),
                    Rect {
                        loc: old(self).outputs@[k as int].loc,
                        size: old(self).outputs@[k as int].size,
                    },
                ),
            ),
            final(self).space == old(self).space,
            final(self).focused_output == old(self).focused_output,
            final(self).keyboard_focus == old(self).keyboard_focus,
            final(self).barriers == old(self).barriers,
            final(self).clipboard_selection == old(self).clipboard_selection,
            final(self).primary_selection == old(self).primary_selection,
    {
        let ghost o0 = self.outputs@;
        let mut entry = self.outputs.remove(k);
        let ghost o1 = self.outputs@;
        entry.state.remove_tag(id);
        let ghost e2 = entry;
        self.outputs.insert(k, entry);
        proof {
            o0.remove_ensures(k as int);
            o1.insert_ensures(k as int, e2);
            assert forall|j: int|
                0 <= j < self.outputs@.len() && j != k implies self.outputs@[j] == o0[j] by {
                if j < k {
                    assert(self.outputs@[j] == o1[j]);
                } else {
                    assert(self.outputs@[j] == o1[j - 1]);
                }
            }
        }
        let ghost before = self.windows@;
        let ghost outs2 = self.outputs@;
        let mut i: usize = 0;
        while i < self.windows.len()
            invariant
                0 <= i <= self.windows@.len(),
                self.outputs@ == outs2,
                self.space == old(self).space,
                self.focused_output == old(self).focused_output,
                self.keyboard_focus == old(self).keyboard_focus,
                self.barriers == old(self).barriers,
                self.clipboard_selection == old(self).clipboard_selection,
                self.primary_selection == old(self).primary_selection,
                self.windows@.len() == before.len(),
                forall|j: int| i <= j < before.len() ==> self.windows@[j] == before[j],
                forall|j: int|
                    0 <= j < i ==> {
                        let w0 = before[j];
                        let w1 = #[trigger] self.windows@[j];
                        &&& w1.id == w0.id
                        &&& w1.kind == w0.kind
                        &&& w1.override_redirect == w0.override_redirect
                        &&& w1.has_surface == w0.has_surface
                        &&& w1.xwm == w0.xwm
                        &&& w1.state.floating == w0.state.floating
                        &&& w1.state.fullscreen_or_maximized == w0.state.fullscreen_or_maximized
                        &&& w1.state.tags@ == crate::tag::spec_ids_without(w0.state.tags@, id)
                    },
            decreases self.windows@.len() - i,
        {
            let ghost pre = self.windows@;
            let mut w = self.windows.remove(i);
            let ghost mid = self.windows@;
            w.state.tags = crate::tag::ids_without(&w.state.tags, id);
            let ghost w2 = w;
            self.windows.insert(i, w);
            proof {
                pre.remove_ensures(i as int);
                mid.insert_ensures(i as int, w2);
                assert forall|j: int|
                    0 <= j < self.windows@.len() && j != i implies self.windows@[j]
                    == pre[j] by {
                    if j < i {
                        assert(self.windows@[j] == mid[j]);
                    } else {
                        assert(self.windows@[j] == mid[j - 1]);
                    }
                }
            }
            i += 1;
        }
        proof {
            assert forall|a: int, b: int|
                0 <= a < b < self.windows@.len() implies self.windows@[a].id
                != self.windows@[b].id by {
                assert(self.windows@[a].id == before[a].id);
                assert(self.windows@[b].id == before[b].id);
            }
        }
        self.relayout_output(k)
    }

    /// Recompute the layout of one output under its current focused
    /// tags.
    fn relayout_output(&mut self, k: usize) -> (acts: Vec<Action>)
        requires
            old(self).wf(),
            k < old(self).outputs@.len(),
        ensures
            *final(self) == *old(self),
            final(self).wf(),
            acts@ == spec_place_actions(
                spec_layout(
                    old(self).windows@,
                    spec_focused_tags(old(self).outputs@[k as int].state.tags@),
                    Rect {
                        loc: old(self).outputs@[k as int].loc,
                        size: old(self).outputs@[k as int].size,
                    },
                ),
            ),
    {
        let focused = self.outputs[k].state.focused_tags();
        let op_geo = Rect { loc: self.outputs[k].loc, size: self.outputs[k].size };
        let placed = layout(&self.windows, &focused, op_geo);
        let mut acts: Vec<Action> = Vec::new();
        let mut p: usize = 0;
        while p < placed.len()
            invariant
                0 <= p <= placed@.len(),
                acts@ == spec_place_actions(placed@.take(p as int)),
            decreases placed@.len() - p,
        {
            acts.push(Action::PlaceWindow { window: placed[p].0, geometry: placed[p].1 });
            proof {
                assert(acts@ =~= spec_place_actions(placed@.take(p + 1)));
            }
            p += 1;
        }
        proof {
            assert(placed@.take(placed@.len() as int) =~= placed@);
        }
        acts
    }
}

/// The keyboard focus is an X11 window belonging to the window-manager
/// connection `xwm`.
pub open spec fn spec_allow_selection_access(s: Compositor, xwm: u32) -> bool {
    match s.keyboard_focus {
        Some(f) => exists|i: int|
            0 <= i < s.windows@.len() && (#[trigger] s.windows@[i]).id == f
                && s.windows@[i].kind is X11 && s.windows@[i].xwm == Some(xwm),
        None => false,
    }
}

/// A tracked window with this id exists and has a surface.
pub open spec fn spec_window_has_surface(ws: Seq<WindowElement>, id: u32) -> bool {
    exists|i: int| 0 <= i < ws.len() && (#[trigger] ws[i]).id == id && ws[i].has_surface
}

/// Output `k` is the first whose tag set intersects the given window
/// tag ids: the output the window is associated with.
pub open spec fn spec_is_first_intersecting_output(
    outputs: Seq<OutputEntry>,
    tags: Seq<u32>,
    k: int,
) -> bool {
    &&& 0 <= k < outputs.len()
    &&& tag_ids_intersect(tags, outputs[k].state.tags@)
    &&& forall|j: int| 0 <= j < k ==> !tag_ids_intersect(tags, (#[trigger] outputs[j]).state.tags@)
}

/// Scan for a tracked window with this id and a surface.
fn window_has_surface(ws: &Vec<WindowElement>, id: u32) -> (r: bool)
    ensures
        r == spec_window_has_surface(ws@, id),
{
    let mut i: usize = 0;
    while i < ws.len()
        invariant
            0 <= i <= ws@.len(),
            forall|j: int|
                0 <= j < i ==> !((#[trigger] ws@[j]).id == id && ws@[j].has_surface),
        decreases ws@.len() - i,
    {
        if ws[i].id == id && ws[i].has_surface {
            return true;
        }
        i += 1;
    }
    false
}

/// Find the index of the tracked window with this id.
fn find_window(ws: &Vec<WindowElement>, id: u32) -> (r: Option<usize>)
    ensures
        match r {
            Some(ix) => ix < ws@.len() && ws@[ix as int].id == id,
            None => !spec_windows_has(ws@, id),
        },
{
    let mut i: usize = 0;
    while i < ws.len()
        invariant
            0 <= i <= ws@.len(),
            forall|j: int| 0 <= j < i ==> (#[trigger] ws@[j]).id != id,
        decreases ws@.len() - i,
    {
        if ws[i].id == id {
            return Some(i);
        }
        i += 1;
    }
    None
}

/// Find the first output whose tags intersect the given window tags.
fn first_intersecting_output(outputs: &Vec<OutputEntry>, tags: &Vec<u32>) -> (r: Option<usize>)
    ensures
        match r {
            Some(k) => spec_is_first_intersecting_output(outputs@, tags@, k as int),
            None => forall|k: int|
                !spec_is_first_intersecting_output(outputs@, tags@, k),
        },
{
    let mut i: usize = 0;
    while i < outputs.len()
        invariant
            0 <= i <= outputs@.len(),
            forall|j: int|
                0 <= j < i ==> !tag_ids_intersect(tags@, (#[trigger] outputs@[j]).state.tags@),
        decreases outputs@.len() - i,
    {
        if crate::tag::ids_intersect_tags(tags, &outputs[i].state.tags) {
            return Some(i);
        }
        i += 1;
    }
    None
}

/// A map request as the X11 side reports it.
pub struct X11MapRequest {
    pub id: u32,
    pub override_redirect: bool,
    /// Whether a committable surface exists for the window.
    pub has_surface: bool,
    /// The window-manager connection the window belongs to.
    pub xwm: u32,
    pub geometry: Rect,
    pub hints: WindowHints,
}

/// Is a window with this id tracked?
pub open spec fn spec_windows_has(ws: Seq<WindowElement>, id: u32) -> bool {
    exists|i: int| 0 <= i < ws.len() && ws[i].id == id
}

/// Is an element with this id mapped in the space?
pub open spec fn spec_space_has(space: Seq<MappedElement>, id: u32) -> bool {
    exists|i: int| 0 <= i < space.len() && space[i].window == id
}

/// The space after moving the element `id` to `loc`, or appending it if
/// it was not mapped.
pub open spec fn spec_space_upsert(space: Seq<MappedElement>, id: u32, loc: Point) -> Seq<
    MappedElement,
> {
    if spec_space_has(space, id) {
        space.map(
            |i: int, m: MappedElement|
                if m.window == id {
                    MappedElement { window: id, loc }
                } else {
                    m
                },
        )
    } else {
        space.push(MappedElement { window: id, loc })
    }
}

/// The ids of the tracked windows that share a tag with the given
/// output tag list and own a committable surface, in tracking order:
/// the siblings a new window's barrier gates on.
pub open spec fn spec_sibling_ids(ws: Seq<WindowElement>, op_tags: Seq<Tag>) -> Seq<u32>
    decreases ws.len(),
{
    if ws.len() == 0 {
        Seq::empty()
    } else {
        let rest = spec_sibling_ids(ws.drop_last(), op_tags);
        let w = ws.last();
        if w.has_surface && tag_ids_intersect(w.state.tags@, op_tags) {
            rest.push(w.id)
        } else {
            rest
        }
    }
}

/// The siblings a freshly mapped window is gated on: windows sharing a
/// tag with the focused output. With no focused output nothing is gated.
pub open spec fn spec_gating_sibs(s: Compositor) -> Seq<u32> {
    match s.focused_output {
        Some(k) => spec_sibling_ids(s.windows@, s.outputs@[k as int].state.tags@),
        None => Seq::empty(),
    }
}

/// The output a freshly mapped window inherits tags from: the focused
/// one, else the first connected one, else none.
pub open spec fn spec_resolved_output_tags(s: Compositor) -> Option<Seq<Tag>> {
    match s.focused_output {
        Some(k) => Some(s.outputs@[k as int].state.tags@),
        None => if s.outputs@.len() > 0 {
            Some(s.outputs@[0].state.tags@)
        } else {
            None
        },
    }
}

/// Where a managed window of this size is centered: the middle of the
/// focused output, or of a tiny fallback area when none is focused.
pub open spec fn spec_map_target(s: Compositor, size: Size) -> Point {
    match s.focused_output {
        Some(k) => spec_center_on_output(
            s.outputs@[k as int].loc,
            s.outputs@[k as int].size,
            size,
        ),
        None => spec_center_on_output(Point { x: 0, y: 0 }, Size { w: 2, h: 2 }, size),
    }
}

/// The layout re-run a managed map triggers: one placement per visible
/// window, governed by the focused output's first active tag. Without a
/// focused output or an active tag nothing is laid out.
pub open spec fn spec_map_layout_actions(s: Compositor, new_windows: Seq<WindowElement>) -> Seq<
    Action,
> {
    match s.focused_output {
        Some(k) => {
            let op = s.outputs@[k as int];
            let ft = spec_focused_tags(op.state.tags@);
            if ft.len() > 0 {
                spec_place_actions(
                    spec_layout(new_windows, ft, Rect { loc: op.loc, size: op.size }),
                )
            } else {
                Seq::empty()
            }
        },
        None => Seq::empty(),
    }
}

/// One placement action per layout assignment.
pub open spec fn spec_place_actions(assignments: Seq<(u32, Rect)>) -> Seq<Action> {
    assignments.map_values(
        |p: (u32, Rect)| Action::PlaceWindow { window: p.0, geometry: p.1 },
    )
}

/// Does the space hold an element with this id?
fn space_has(space: &Vec<MappedElement>, id: u32) -> (r: bool)
    ensures
        r == spec_space_has(space@, id),
{
    let mut i: usize = 0;
    while i < space.len()
        invariant
            0 <= i <= space@.len(),
            forall|j: int| 0 <= j < i ==> space@[j].window != id,
        decreases space@.len() - i,
    {
        if space[i].window == id {
            return true;
        }
        i += 1;
    }
    false
}

/// Move an element, or map it if it is new.
fn space_upsert(space: &mut Vec<MappedElement>, id: u32, loc: Point)
    ensures
        final(space)@ == spec_space_upsert(old(space)@, id, loc),
{
    if space_has(space, id) {
        let ghost orig = space@;
        let mut i: usize = 0;
        while i < space.len()
            invariant
                0 <= i <= space@.len(),
                space@.len() == orig.len(),
                forall|j: int| i <= j < orig.len() ==> space@[j] == orig[j],
                forall|j: int|
                    0 <= j < i ==> #[trigger] space@[j] == (if orig[j].window == id {
                        MappedElement { window: id, loc }
                    } else {
                        orig[j]
                    }),
            decreases space@.len() - i,
        {
            if space[i].window == id {
                space.set(i, MappedElement { window: id, loc });
            }
            i += 1;
        }
        proof {
            assert(space@ =~= spec_space_upsert(orig, id, loc));
        }
    } else {
        space.push(MappedElement { window: id, loc });
    }
}

/// Collect each tracked window's tag-id list, in tracking order.
fn collect_tag_lists(ws: &Vec<WindowElement>) -> (r: Vec<Vec<u32>>)
    ensures
        r.deep_view() == ws@.map_values(|w: WindowElement| w.state.tags@),
{
    let mut out: Vec<Vec<u32>> = Vec::new();
    let mut i: usize = 0;
    while i < ws.len()
        invariant
            0 <= i <= ws@.len(),
            out@.len() == i,
            forall|j: int| 0 <= j < i ==> #[trigger] out@[j]@ == ws@[j].state.tags@,
        decreases ws@.len() - i,
    {
        out.push(crate::tag::copy_ids(&ws[i].state.tags));
        i += 1;
    }
    proof {
        assert forall|j: int| 0 <= j < out@.len() implies #[trigger] out.deep_view()[j] == ws@.map_values(
            |w: WindowElement| w.state.tags@,
        )[j] by {
            assert(out.deep_view()[j] == out@[j]@);
        }
        assert(out.deep_view() =~= ws@.map_values(|w: WindowElement| w.state.tags@));
    }
    out
}

/// The sibling ids for a new window's barrier, with no id repeated and
/// every id belonging to a tracked window.
fn sibling_ids(ws: &Vec<WindowElement>, op_tags: &Vec<Tag>) -> (r: Vec<u32>)
    requires
        distinct_window_ids(ws@),
    ensures
        r@ == spec_sibling_ids(ws@, op_tags@),
        no_dup(r@),
        forall|x: u32| #[trigger] r@.contains(x) ==> spec_windows_has(ws@, x),
{
    let mut out: Vec<u32> = Vec::new();
    let mut i: usize = 0;
    while i < ws.len()
        invariant
            0 <= i <= ws@.len(),
            distinct_window_ids(ws@),
            out@ == spec_sibling_ids(ws@.take(i as int), op_tags@),
            no_dup(out@),
            forall|x: u32|
                #[trigger] out@.contains(x) ==> exists|j: int| 0 <= j < i && ws@[j].id == x,
        decreases ws@.len() - i,
    {
        proof {
            assert(ws@.take(i + 1).drop_last() =~= ws@.take(i as int));
            assert(ws@.take(i + 1).last() == ws@[i as int]);
        }
        let gated = ws[i].has_surface && crate::tag::ids_intersect_tags(
            &ws[i].state.tags,
            op_tags,
        );
        if gated {
            proof {
                if out@.contains(ws@[i as int].id) {
                    let j = choose|j: int| 0 <= j < i && ws@[j].id == ws@[i as int].id;
                    assert(false);
                }
            }
            let ghost prev = out@;
            out.push(ws[i].id);
            proof {
                assert forall|a: int, b: int| 0 <= a < b < out@.len() implies out@[a]
                    != out@[b] by {
                    if b < out@.len() - 1 {
                        assert(prev[a] != prev[b]);
                    } else {
                        if prev[a] == ws@[i as int].id {
                            assert(prev.contains(ws@[i as int].id));
                        }
                    }
                }
                assert forall|x: u32| #[trigger] out@.contains(x) implies exists|j: int|
                    0 <= j < i + 1 && ws@[j].id == x by {
                    let idx = choose|idx: int| 0 <= idx < out@.len() && out@[idx] == x;
                    if idx < out@.len() - 1 {
                        assert(prev.contains(x)) by {
                            assert(prev[idx] == x);
                        }
                        let j = choose|j: int| 0 <= j < i && ws@[j].id == x;
                        assert(0 <= j < i + 1 && ws@[j].id == x);
                    } else {
                        assert(ws@[i as int].id == x);
                    }
                }
            }
        }
        i += 1;
    }
    proof {
        assert(ws@.take(ws@.len() as int) =~= ws@);
    }
    out
}

} // verus!
