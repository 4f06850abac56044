//! The layout engine: a pure function from the tracked window list, the
//! active tags of one output and the output's geometry to a target
//! geometry for every visible tiled window. Floating windows keep their
//! stored location and are not assigned here.

use vstd::prelude::*;

use crate::geometry::{Point, Rect, Size};
use crate::tag::{tag_ids_intersect, LayoutKind, Tag};
use crate::window::WindowElement;

verus! {

/// A window takes part in an output's layout when it is tiled and its
/// tag set intersects the given active tags. A window with no tags never
/// does.
pub open spec fn spec_visible(w: WindowElement, active: Seq<Tag>) -> bool {
    w.state.floating is Tiled && tag_ids_intersect(w.state.tags@, active)
}

/// The windows of `ws` that take part in the layout, in list order.
pub open spec fn spec_visible_windows(ws: Seq<WindowElement>, active: Seq<Tag>) -> Seq<
    WindowElement,
> {
    ws.filter(|w: WindowElement| spec_visible(w, active))
}

/// The algorithm that governs the output: that of the first active tag
/// in declaration order. With no active tag nothing is laid out, and the
/// choice is immaterial.
pub open spec fn spec_layout_kind(active: Seq<Tag>) -> LayoutKind {
    if active.len() > 0 {
        active[0].layout
    } else {
        LayoutKind::MasterStack
    }
}

/// One row of a vertical stack that splits `area` into `rows` equal
/// slices; integer division may leave a sliver at the bottom unused.
pub open spec fn spec_stack_row(area: Rect, rows: int, index: int) -> Rect {
    Rect {
        loc: Point {
            x: area.loc.x,
            y: (area.loc.y + index * (area.size.h as int / rows)) as i32,
        },
        size: Size { w: area.size.w, h: (area.size.h as int / rows) as i32 },
    }
}

/// The left (master) half of the output.
pub open spec fn spec_master_area(output: Rect) -> Rect {
    Rect {
        loc: output.loc,
        size: Size { w: (output.size.w / 2) as i32, h: output.size.h },
    }
}

/// The right (stack) half of the output.
pub open spec fn spec_stack_area(output: Rect) -> Rect {
    Rect {
        loc: Point { x: (output.loc.x + output.size.w / 2) as i32, y: output.loc.y },
        size: Size { w: (output.size.w - output.size.w / 2) as i32, h: output.size.h },
    }
}

/// The geometry of the window at position `index` among `count` visible
/// windows, under the given algorithm.
pub open spec fn spec_tile_rect(kind: LayoutKind, output: Rect, count: int, index: int) -> Rect {
    match kind {
        LayoutKind::MasterStack => {
            if count <= 1 {
                output
            } else if index == 0 {
                spec_master_area(output)
            } else {
                spec_stack_row(spec_stack_area(output), count - 1, index - 1)
            }
        },
        LayoutKind::Stacked => spec_stack_row(output, count, index),
    }
}

/// The full geometry assignment: one entry per visible window, in window
/// list order, each placed by [`spec_tile_rect`].
pub open spec fn spec_layout(ws: Seq<WindowElement>, active: Seq<Tag>, output: Rect) -> Seq<
    (u32, Rect),
> {
    let visible = spec_visible_windows(ws, active);
    Seq::new(
        visible.len(),
        |i: int|
            (visible[i].id, spec_tile_rect(spec_layout_kind(active), output, visible.len() as int, i)),
    )
}

/// `index * (h / rows)` stays between 0 and `h` when `0 <= index < rows`.
proof fn lemma_row_offset_bounded(h: int, rows: int, index: int)
    requires
        0 <= h,
        0 <= index < rows,
    ensures
        0 <= index * (h / rows),
        index * (h / rows) <= h,
{
    let d = h / rows;
    vstd::arithmetic::div_mod::lemma_div_pos_is_pos(h, rows);
    vstd::arithmetic::mul::lemma_mul_nonnegative(index, d);
    vstd::arithmetic::mul::lemma_mul_inequality(index, rows, d);
    vstd::arithmetic::div_mod::lemma_fundamental_div_mod(h, rows);
    vstd::arithmetic::div_mod::lemma_mod_bound(h, rows);
}

/// One row of a vertical stack, executably.
fn stack_row(area: Rect, rows: usize, index: usize) -> (r: Rect)
    requires
        -0x4000_0000 <= area.loc.y <= 0x4000_0000,
        0 <= area.size.h <= 0x100_0000,
        0 <= index < rows,
    ensures
        r == spec_stack_row(area, rows as int, index as int),
{
    proof {
        lemma_row_offset_bounded(area.size.h as int, rows as int, index as int);
    }
    // More rows than the coordinate bound means more rows than pixels:
    // every slice is empty and every offset is zero.
    let h: i32 = if rows > 0x100_0000 {
        proof {
            vstd::arithmetic::div_mod::lemma_basic_div(area.size.h as int, rows as int);
        }
        0
    } else {
        area.size.h / (rows as i32)
    };
    let y_off: i32 = if index > 0x100_0000 {
        proof {
            vstd::arithmetic::div_mod::lemma_basic_div(area.size.h as int, rows as int);
        }
        0
    } else {
        (index as i32) * h
    };
    Rect {
        loc: Point { x: area.loc.x, y: area.loc.y + y_off },
        size: Size { w: area.size.w, h },
    }
}

/// The geometry of the window at position `index` among `count` visible
/// windows, executably.
fn tile_rect(kind: LayoutKind, output: Rect, count: usize, index: usize) -> (r: Rect)
    requires
        output.bounded(),
        index < count,
    ensures
        r == spec_tile_rect(kind, output, count as int, index as int),
{
    match kind {
        LayoutKind::MasterStack => {
            if count <= 1 {
                output
            } else if index == 0 {
                Rect { loc: output.loc, size: Size { w: output.size.w / 2, h: output.size.h } }
            } else {
                let area = Rect {
                    loc: Point { x: output.loc.x + output.size.w / 2, y: output.loc.y },
                    size: Size { w: output.size.w - output.size.w / 2, h: output.size.h },
                };
                stack_row(area, count - 1, index - 1)
            }
        },
        LayoutKind::Stacked => stack_row(output, count, index),
    }
}

/// Compute the geometry assignment for one output: every tiled window
/// whose tags intersect `active` gets a rectangle, every other window
/// gets none. The computation reads nothing but its arguments.
pub fn layout(windows: &Vec<WindowElement>, active: &Vec<Tag>, output_geo: Rect) -> (r: Vec<
    (u32, Rect),
>)
    requires
        output_geo.bounded(),
    ensures
        r@ == spec_layout(windows@, active@, output_geo),
{
    let kind: LayoutKind = if active.len() > 0 {
        active[0].layout
    } else {
        LayoutKind::MasterStack
    };
    let mut visible: Vec<usize> = Vec::new();
    let mut i: usize = 0;
    while i < windows.len()
        invariant
            0 <= i <= windows.len(),
            forall|j: int|
                0 <= j < visible@.len() ==> 0 <= #[trigger] visible@[j] < i,
            spec_visible_windows(windows@.take(i as int), active@) =~= Seq::new(
                visible@.len(),
                |j: int| windows@[visible@[j] as int],
            ),
        decreases windows.len() - i,
    {
        proof {
            assert(windows@.take(i + 1).drop_last() =~= windows@.take(i as int));
            reveal(Seq::filter);
        }
        let tiled = windows[i].state.floating.is_tiled();
        if tiled && crate::tag::ids_intersect_tags(&windows[i].state.tags, active) {
            visible.push(i);
        }
        proof {
            assert(spec_visible_windows(windows@.take(i + 1), active@) =~= Seq::new(
                visible@.len(),
                |j: int| windows@[visible@[j] as int],
            ));
        }
        i += 1;
    }
    proof {
        assert(windows@.take(windows@.len() as int) =~= windows@);
    }
    let ghost vis_seq = spec_visible_windows(windows@, active@);
    let n = visible.len();
    let mut out: Vec<(u32, Rect)> = Vec::new();
    let mut k: usize = 0;
    while k < n
        invariant
            0 <= k <= n,
            n == visible@.len(),
            output_geo.bounded(),
            kind == spec_layout_kind(active@),
            vis_seq == spec_visible_windows(windows@, active@),
            vis_seq =~= Seq::new(visible@.len(), |j: int| windows@[visible@[j] as int]),
            forall|j: int| 0 <= j < visible@.len() ==> 0 <= #[trigger] visible@[j] < windows@.len(),
            out@.len() == k,
            forall|j: int|
                0 <= j < k ==> #[trigger] out@[j] == (
                vis_seq[j].id,
                spec_tile_rect(kind, output_geo, vis_seq.len() as int, j),
            ),
        decreases n - k,
    {
        let idx = visible[k];
        let rect = tile_rect(kind, output_geo, n, k);
        out.push((windows[idx].id, rect));
        k += 1;
    }
    proof {
        assert(out@ =~= spec_layout(windows@, active@, output_geo));
    }
    out
}

/// A window with an empty tag set never appears in any output's layout:
/// it is not in the visible set the computation assigns geometry to.
pub proof fn lemma_empty_tag_window_not_laid_out(
    ws: Seq<WindowElement>,
    active: Seq<Tag>,
    w: WindowElement,
)
    requires
        w.state.tags@.len() == 0,
    ensures
        !spec_visible_windows(ws, active).contains(w),
{
    let pred = |x: WindowElement| spec_visible(x, active);
    if spec_visible_windows(ws, active).contains(w) {
        let i = choose|i: int|
            0 <= i < ws.filter(pred).len() && ws.filter(pred)[i] == w;
        ws.lemma_filter_pred(pred, i);
    }
}

/// Layout idempotence: two runs of the computation on the same inputs
/// produce the same geometries.
pub proof fn lemma_layout_idempotent(
    ws: Seq<WindowElement>,
    active: Seq<Tag>,
    output: Rect,
    first: Seq<(u32, Rect)>,
    second: Seq<(u32, Rect)>,
)
    requires
        first == spec_layout(ws, active, output),
        second == spec_layout(ws, active, output),
    ensures
        first == second,
{
}

} // verus!
