//! Engine-wide laws proved over the placement specification.

use vstd::prelude::*;

use crate::geometry::{Rect, LIMIT};
use crate::layout::{placed_axis, placed_size, two_thirds, lemma_placed_axis_bounds, MappedWindow,
    OutputEntry, RenderEntry, spec_render_output};
use crate::model::{WindowEntity, MIN_ZONE_EXTENT};

verus! {

/// The window ids of a sequence of paint entries, in order.
pub open spec fn render_ids(s: Seq<RenderEntry>) -> Seq<u64> {
    s.map_values(|e: RenderEntry| e.window)
}

/// The ids of the windows overlapping an output, in mapping order.
pub open spec fn overlapping_ids(elems: Seq<MappedWindow>, out: OutputEntry) -> Seq<u64>
    decreases elems.len(),
{
    if elems.len() == 0 {
        Seq::empty()
    } else {
        overlapping_ids(elems.drop_last(), out) + (if elems.last().space_rect().overlaps(
            out.space_rect(),
        ) {
            seq![elems.last().window.id]
        } else {
            Seq::empty()
        })
    }
}

/// Render order: the composition emits exactly one paint entry per
/// window overlapping the output, in mapping order (most recently
/// raised last), and overlay boxes stand only on the focused window's
/// entry, beside that window's own content.
pub proof fn lemma_render_order(
    elems: Seq<MappedWindow>,
    out: OutputEntry,
    focused: Option<u64>,
    resize_overlay: bool,
    thickness: u8,
)
    ensures
        render_ids(spec_render_output(elems, out, focused, resize_overlay, thickness))
            == overlapping_ids(elems, out),
        forall|p: int|
            0 <= p < spec_render_output(elems, out, focused, resize_overlay, thickness).len() && (((
            #[trigger] spec_render_output(elems, out, focused, resize_overlay, thickness)[p]).resize_overlay
                is Some) || (spec_render_output(
                elems,
                out,
                focused,
                resize_overlay,
                thickness,
            )[p].focus_ring is Some)) ==> focused == Some(
                spec_render_output(elems, out, focused, resize_overlay, thickness)[p].window,
            ),
    decreases elems.len(),
{
    if elems.len() == 0 {
        assert(render_ids(spec_render_output(elems, out, focused, resize_overlay, thickness))
            =~= overlapping_ids(elems, out));
    } else {
        lemma_render_order(elems.drop_last(), out, focused, resize_overlay, thickness);
        assert(render_ids(spec_render_output(elems, out, focused, resize_overlay, thickness))
            =~= overlapping_ids(elems, out));
    }
}

/// Size bound of placement: on each axis the final size lies within the
/// declared minimum and maximum (taken as absent when zero) and never
/// exceeds the zone extent, whenever the window's candidate size itself
/// respects its declared bounds and the declared minimum fits the zone.
pub proof fn lemma_placement_size_bounds(candidate: int, zone: int, min: int, max: int)
    requires
        1 <= candidate,
        MIN_ZONE_EXTENT <= zone,
        min == 0 || (1 <= min <= candidate && min <= zone),
        max == 0 || candidate <= max,
    ensures
        1 <= placed_axis(candidate, zone, min, max) <= zone,
        min != 0 ==> min <= placed_axis(candidate, zone, min, max),
        max != 0 ==> placed_axis(candidate, zone, min, max) <= max,
{
    lemma_placed_axis_bounds(candidate, zone, min, max);
}

/// The placed size of a window respects its declared bounds and the
/// zone on both axes.
pub proof fn lemma_placed_size_bounds(w: WindowEntity, zone: Rect)
    requires
        w.wf(),
        w.last_geometry is None,
        MIN_ZONE_EXTENT <= zone.size.w <= LIMIT,
        MIN_ZONE_EXTENT <= zone.size.h <= LIMIT,
        w.min_w() == 0 || (w.min_w() <= w.size.w && w.min_w() <= zone.size.w),
        w.min_h() == 0 || (w.min_h() <= w.size.h && w.min_h() <= zone.size.h),
        w.max_w() == 0 || w.size.w <= w.max_w(),
        w.max_h() == 0 || w.size.h <= w.max_h(),
    ensures
        1 <= placed_size(w, zone).w <= zone.size.w,
        1 <= placed_size(w, zone).h <= zone.size.h,
        w.min_w() != 0 ==> w.min_w() <= placed_size(w, zone).w,
        w.min_h() != 0 ==> w.min_h() <= placed_size(w, zone).h,
        w.max_w() != 0 ==> placed_size(w, zone).w <= w.max_w(),
        w.max_h() != 0 ==> placed_size(w, zone).h <= w.max_h(),
{
    lemma_placement_size_bounds(w.size.w as int, zone.size.w as int, w.min_w(), w.max_w());
    lemma_placement_size_bounds(w.size.h as int, zone.size.h as int, w.min_h(), w.max_h());
}

/// The two-thirds share never exceeds the whole.
pub proof fn lemma_two_thirds_le(v: int)
    requires
        0 <= v,
    ensures
        two_thirds(v) <= v,
{
    assert(v / 3 * 2 <= v) by (nonlinear_arith)
        requires
            0 <= v,
    ;
}

} // verus!
