//! The floating layout engine: a spatial index of outputs and mapped
//! windows, with placement, resize, topology and restore operations.
//!
//! Coordinate conventions: every output is registered in the index at a
//! *space location* which may differ from the output's own absolute
//! position (outputs can be logically repositioned, for example after a
//! merge). The engine works in index coordinates; geometry committed to
//! a window is translated by the *output offset* — the difference
//! between the output's absolute position and its index location. An
//! output's usable zone is reported relative to the output and is
//! translated to index coordinates at its index location before use.
//!
//! A window is mapped at the index location of its content box, so its
//! occupied region in the index is the rectangle of that location and
//! its current size.

use vstd::prelude::*;

use crate::geometry::{Extent, Point, Rect, LIMIT, LOC_LIMIT, LOC_SLACK, SIZE_LIMIT};
use crate::model::{OutputInfo, ResizeData, ResizeDirection, ResizeEdges, WindowEntity,
    MIN_ZONE_EXTENT};

verus! {

/// An output registered in the spatial index at `location`.
#[derive(Clone, Copy, PartialEq, Eq, Structural, Debug)]
pub struct OutputEntry {
    pub info: OutputInfo,
    /// Where the index holds the output, in index coordinates.
    pub location: Point,
}

impl OutputEntry {
    pub open spec fn wf(self) -> bool {
        self.info.wf() && self.location.bounded(LIMIT as int)
    }

    /// The region the output covers in index coordinates.
    pub open spec fn space_rect(self) -> Rect {
        Rect { loc: self.location, size: self.info.size }
    }

    /// The output's usable zone, translated to index coordinates.
    pub open spec fn zone_space(self) -> Rect {
        Rect {
            loc: Point {
                x: (self.location.x + self.info.zone.loc.x) as i32,
                y: (self.location.y + self.info.zone.loc.y) as i32,
            },
            size: self.info.zone.size,
        }
    }

    /// The shift from index coordinates to the output's own absolute
    /// coordinates.
    pub open spec fn offset(self) -> Point {
        Point {
            x: (self.info.position.x - self.location.x) as i32,
            y: (self.info.position.y - self.location.y) as i32,
        }
    }
}

/// A window registered in the spatial index at `location`.
#[derive(Clone, Debug)]
pub struct MappedWindow {
    pub window: WindowEntity,
    /// Index location of the window's content box top-left corner.
    pub location: Point,
}

impl MappedWindow {
    pub open spec fn wf(self) -> bool {
        self.window.wf() && self.location.bounded(LOC_LIMIT as int)
    }

    /// The region the window covers in index coordinates.
    pub open spec fn space_rect(self) -> Rect {
        Rect { loc: self.location, size: self.window.size }
    }
}

/// The rectangle overlaps the region of at least one of the outputs.
pub open spec fn covered_by(r: Rect, outs: Seq<OutputEntry>) -> bool {
    exists|o: int| 0 <= o < outs.len() && r.overlaps((#[trigger] outs[o]).space_rect())
}

/// The floating layout engine. `outputs` is kept in registration
/// order; `elements` in mapping order, last mapped or raised on top.
#[derive(Clone, Debug)]
pub struct FloatingLayout {
    pub outputs: Vec<OutputEntry>,
    pub elements: Vec<MappedWindow>,
}

impl FloatingLayout {
    pub open spec fn wf(self) -> bool {
        &&& forall|i: int| 0 <= i < self.outputs@.len() ==> (#[trigger] self.outputs@[i]).wf()
        &&& forall|i: int, j: int|
            0 <= i < j < self.outputs@.len() ==> self.outputs@[i].info.id
                != self.outputs@[j].info.id
        &&& forall|i: int| 0 <= i < self.elements@.len() ==> (#[trigger] self.elements@[i]).wf()
        &&& forall|i: int, j: int|
            0 <= i < j < self.elements@.len() ==> self.elements@[i].window.id
                != self.elements@[j].window.id
    }

    /// The window at index `i` overlaps at least one registered
    /// output.
    pub open spec fn element_covered(self, i: int) -> bool {
        covered_by(self.elements@[i].space_rect(), self.outputs@)
    }

    /// `i` is the index of the first registered output with this id.
    pub open spec fn output_idx_is(self, id: u64, i: int) -> bool {
        &&& 0 <= i < self.outputs@.len()
        &&& self.outputs@[i].info.id == id
        &&& forall|j: int| 0 <= j < i ==> self.outputs@[j].info.id != id
    }

    pub open spec fn no_output(self, id: u64) -> bool {
        forall|i: int| 0 <= i < self.outputs@.len() ==> self.outputs@[i].info.id != id
    }

    /// `i` is the index of the first mapped window with this id.
    pub open spec fn window_idx_is(self, id: u64, i: int) -> bool {
        &&& 0 <= i < self.elements@.len()
        &&& self.elements@[i].window.id == id
        &&& forall|j: int| 0 <= j < i ==> self.elements@[j].window.id != id
    }

    pub open spec fn no_window(self, id: u64) -> bool {
        forall|i: int| 0 <= i < self.elements@.len() ==> self.elements@[i].window.id != id
    }

    /// `i` is the index of the first mapped window holding this
    /// toplevel surface.
    pub open spec fn surface_idx_is(self, surface: u64, i: int) -> bool {
        &&& 0 <= i < self.elements@.len()
        &&& self.elements@[i].window.has_surface(surface)
        &&& forall|j: int|
            0 <= j < i ==> !(#[trigger] self.elements@[j]).window.has_surface(surface)
    }

    pub open spec fn no_surface(self, surface: u64) -> bool {
        forall|i: int|
            0 <= i < self.elements@.len() ==> !(#[trigger] self.elements@[i]).window.has_surface(
                surface,
            )
    }

    /// An empty engine: no outputs, no windows.
    pub fn new() -> (r: FloatingLayout)
        ensures
            r.outputs@.len() == 0,
            r.elements@.len() == 0,
            r.wf(),
    {
        FloatingLayout { outputs: Vec::new(), elements: Vec::new() }
    }

    /// Register an output with the spatial index at `location`.
    pub fn map_output(&mut self, output: OutputInfo, location: Point)
        requires
            old(self).wf(),
            output.wf(),
            location.bounded(LIMIT as int),
            old(self).no_output(output.id),
        ensures
            final(self).wf(),
            final(self).outputs@ == old(self).outputs@.push(
                OutputEntry { info: output, location },
            ),
            final(self).elements@ == old(self).elements@,
    {
        self.outputs.push(OutputEntry { info: output, location });
    }

    fn find_output(&self, id: u64) -> (r: Option<usize>)
        ensures
            match r {
                Some(i) => self.output_idx_is(id, i as int),
                None => self.no_output(id),
            },
    {
        let mut i: usize = 0;
        while i < self.outputs.len()
            invariant
                i <= self.outputs@.len(),
                forall|j: int| 0 <= j < i ==> self.outputs@[j].info.id != id,
            decreases self.outputs@.len() - i,
        {
            if self.outputs[i].info.id == id {
                return Some(i);
            }
            i = i + 1;
        }
        None
    }

    fn find_window(&self, id: u64) -> (r: Option<usize>)
        ensures
            match r {
                Some(i) => self.window_idx_is(id, i as int),
                None => self.no_window(id),
            },
    {
        let mut i: usize = 0;
        while i < self.elements.len()
            invariant
                i <= self.elements@.len(),
                forall|j: int| 0 <= j < i ==> self.elements@[j].window.id != id,
            decreases self.elements@.len() - i,
        {
            if self.elements[i].window.id == id {
                return Some(i);
            }
            i = i + 1;
        }
        None
    }

    fn find_by_surface(&self, surface: u64) -> (r: Option<usize>)
        ensures
            match r {
                Some(i) => self.surface_idx_is(surface, i as int),
                None => self.no_surface(surface),
            },
    {
        let mut i: usize = 0;
        while i < self.elements.len()
            invariant
                i <= self.elements@.len(),
                forall|j: int|
                    0 <= j < i ==> !(#[trigger] self.elements@[j]).window.has_surface(surface),
            decreases self.elements@.len() - i,
        {
            let w = &self.elements[i].window;
            let mut k: usize = 0;
            while k < w.surfaces.len()
                invariant
                    k <= w.surfaces@.len(),
                    i < self.elements@.len(),
                    w == self.elements@[i as int].window,
                    forall|j: int|
                        0 <= j < i ==> !(#[trigger] self.elements@[j]).window.has_surface(surface),
                    forall|j: int| 0 <= j < k ==> w.surfaces@[j] != surface,
                decreases w.surfaces@.len() - k,
            {
                if w.surfaces[k] == surface {
                    assert(w.surfaces@[k as int] == surface);
                    assert(w.has_surface(surface));
                    return Some(i);
                }
                k = k + 1;
            }
            assert(!w.has_surface(surface));
            i = i + 1;
        }
        None
    }

    /// The index geometry of a mapped window: its location and current
    /// size. `None` when the window is not registered here.
    pub fn element_geometry(&self, id: u64) -> (r: Option<Rect>)
        ensures
            match r {
                Some(g) => exists|i: int|
                    #[trigger] self.window_idx_is(id, i) && g == self.elements@[i].space_rect(),
                None => self.no_window(id),
            },
    {
        match self.find_window(id) {
            Some(i) => {
                let e = &self.elements[i];
                Some(Rect { loc: e.location, size: e.window.size })
            },
            None => None,
        }
    }

    /// Ids of the mapped windows, most recently raised first.
    pub fn mapped(&self) -> (r: Vec<u64>)
        ensures
            r@.len() == self.elements@.len(),
            forall|i: int|
                0 <= i < r@.len() ==> r@[i] == self.elements@[self.elements@.len() - 1 - i].window.id,
    {
        let mut r: Vec<u64> = Vec::new();
        let mut i: usize = self.elements.len();
        while i > 0
            invariant
                i <= self.elements@.len(),
                r@.len() == self.elements@.len() - i,
                forall|j: int|
                    0 <= j < r@.len() ==> r@[j] == self.elements@[self.elements@.len() - 1
                        - j].window.id,
            decreases i,
        {
            i = i - 1;
            r.push(self.elements[i].window.id);
        }
        r
    }

    /// Ids of all constituent toplevel surfaces, windows most recently
    /// raised first, surfaces in their window order.
    pub fn windows(&self) -> (r: Vec<u64>)
        ensures
            r@ == spec_surfaces_rev(self.elements@),
    {
        let mut r: Vec<u64> = Vec::new();
        let mut i: usize = self.elements.len();
        while i > 0
            invariant
                i <= self.elements@.len(),
                r@ == spec_surfaces_rev(self.elements@.skip(i as int)),
            decreases i,
        {
            i = i - 1;
            let w = &self.elements[i].window;
            let mut k: usize = 0;
            while k < w.surfaces.len()
                invariant
                    k <= w.surfaces@.len(),
                    r@ == spec_surfaces_rev(self.elements@.skip(i as int + 1)) + w.surfaces@.take(
                        k as int,
                    ),
                decreases w.surfaces@.len() - k,
            {
                let s = w.surfaces[k];
                r.push(s);
                assert(w.surfaces@.take(k as int + 1) =~= w.surfaces@.take(k as int).push(s));
                k = k + 1;
            }
            assert(w.surfaces@.take(w.surfaces@.len() as int) =~= w.surfaces@);
            assert(self.elements@.skip(i as int).drop_first() =~= self.elements@.skip(i as int + 1));
            assert(self.elements@.skip(i as int)[0] == self.elements@[i as int]);
        }
        assert(self.elements@.skip(0) =~= self.elements@);
        r
    }
}

/// A descriptor for an interactive resize session: the pointer-driven
/// drive loop outside the engine feeds motion deltas through the same
/// clamping rules starting from this snapshot.
#[derive(Clone, Copy, PartialEq, Eq, Structural, Debug)]
pub struct ResizeGrab {
    pub window: u64,
    pub edges: ResizeEdges,
    pub initial_location: Point,
    pub initial_size: Extent,
}

/// A window record with the restore slot set to its current index
/// geometry: the snapshot taken before maximizing or unregistering.
pub open spec fn snapshot_element(e: MappedWindow) -> MappedWindow {
    MappedWindow {
        window: WindowEntity { last_geometry: Some(e.space_rect()), ..e.window },
        location: e.location,
    }
}

/// A window restored from its snapshot: remapped at the recorded
/// location with the recorded size, committed translated by the chosen
/// output's offset.
pub open spec fn restored_element(e: MappedWindow, out: OutputEntry) -> MappedWindow {
    match e.window.last_geometry {
        Some(g) => MappedWindow {
            window: WindowEntity {
                size: g.size,
                committed: Some(
                    Rect {
                        loc: Point {
                            x: (g.loc.x + out.offset().x) as i32,
                            y: (g.loc.y + out.offset().y) as i32,
                        },
                        size: g.size,
                    },
                ),
                ..e.window
            },
            location: g.loc,
        },
        None => e,
    }
}

impl FloatingLayout {
    /// `oi` is the output a restore targets: the first output under the
    /// recorded location, or the first registered output when none
    /// contains it.
    pub open spec fn restore_choice(self, p: Point, oi: int) -> bool {
        self.output_under_idx_is(p, oi) || (self.no_output_under(p) && oi == 0)
    }

    /// `i` is the index of the first registered output containing the
    /// point.
    pub open spec fn output_under_idx_is(self, p: Point, i: int) -> bool {
        &&& 0 <= i < self.outputs@.len()
        &&& self.outputs@[i].space_rect().contains_point(p)
        &&& forall|j: int|
            0 <= j < i ==> !(#[trigger] self.outputs@[j]).space_rect().contains_point(p)
    }

    pub open spec fn no_output_under(self, p: Point) -> bool {
        forall|i: int|
            0 <= i < self.outputs@.len() ==> !(#[trigger] self.outputs@[i]).space_rect().contains_point(p)
    }

    fn find_output_under(&self, p: Point) -> (r: Option<usize>)
        requires
            forall|i: int| 0 <= i < self.outputs@.len() ==> (#[trigger] self.outputs@[i]).wf(),
        ensures
            match r {
                Some(i) => self.output_under_idx_is(p, i as int),
                None => self.no_output_under(p),
            },
    {
        let mut i: usize = 0;
        while i < self.outputs.len()
            invariant
                i <= self.outputs@.len(),
                forall|j: int| 0 <= j < self.outputs@.len() ==> (#[trigger] self.outputs@[j]).wf(),
                forall|j: int|
                    0 <= j < i ==> !(#[trigger] self.outputs@[j]).space_rect().contains_point(p),
            decreases self.outputs@.len() - i,
        {
            let o = &self.outputs[i];
            if o.location.x <= p.x && p.x < o.location.x + o.info.size.w && o.location.y <= p.y
                && p.y < o.location.y + o.info.size.h {
                return Some(i);
            }
            i = i + 1;
        }
        None
    }

    /// Unregister a window. Before a non-maximized window leaves, its
    /// current index geometry is written to its restore slot; the
    /// updated record is handed back to the caller, which keeps the
    /// handle alive. Returns `None` when the window is not registered
    /// here.
    pub fn unmap(&mut self, id: u64) -> (r: Option<WindowEntity>)
        requires
            old(self).wf(),
        ensures
            final(self).wf(),
            final(self).outputs@ == old(self).outputs@,
            r is Some <==> !old(self).no_window(id),
            old(self).no_window(id) ==> final(self).elements@ == old(self).elements@,
            forall|i: int|
                old(self).window_idx_is(id, i) ==> final(self).elements@ == old(
                    self,
                ).elements@.remove(i) && r == Some(
                    if old(self).elements@[i].window.maximized {
                        old(self).elements@[i].window
                    } else {
                        snapshot_element(old(self).elements@[i]).window
                    },
                ),
    {
        match self.find_window(id) {
            Some(i) => {
                if !self.elements[i].window.maximized {
                    let loc = self.elements[i].location;
                    let size = self.elements[i].window.size;
                    self.elements[i].window.last_geometry = Some(Rect { loc, size });
                }
                let e = self.elements.remove(i);
                Some(e.window)
            },
            None => None,
        }
    }

    /// Before the window holding this surface is maximized, record its
    /// current index geometry in its restore slot.
    pub fn maximize_request(&mut self, surface: u64)
        requires
            old(self).wf(),
        ensures
            final(self).wf(),
            final(self).outputs@ == old(self).outputs@,
            old(self).no_surface(surface) ==> final(self).elements@ == old(self).elements@,
            forall|i: int|
                old(self).surface_idx_is(surface, i) ==> final(self).elements@ == old(
                    self,
                ).elements@.update(i, snapshot_element(old(self).elements@[i])),
    {
        match self.find_by_surface(surface) {
            Some(i) => {
                let loc = self.elements[i].location;
                let size = self.elements[i].window.size;
                self.elements[i].window.last_geometry = Some(Rect { loc, size });
            },
            None => {},
        }
    }

    /// Restore the window holding this surface to the geometry
    /// recorded before it was maximized, remapping it raised to the
    /// top, and report the restored size. A restore slot must have
    /// been recorded first: restoring without one is a caller-side
    /// sequencing bug. Returns `None` when no mapped window holds the
    /// surface.
    #[verifier::rlimit(60)]
    pub fn unmaximize_request(&mut self, surface: u64) -> (r: Option<Extent>)
        requires
            old(self).wf(),
            forall|i: int|
                old(self).surface_idx_is(surface, i) ==> old(
                    self,
                ).elements@[i].window.last_geometry is Some,
            !old(self).no_surface(surface) ==> old(self).outputs@.len() > 0,
        ensures
            final(self).wf(),
            final(self).outputs@ == old(self).outputs@,
            r is Some <==> !old(self).no_surface(surface),
            old(self).no_surface(surface) ==> final(self).elements@ == old(self).elements@,
            forall|i: int|
                old(self).surface_idx_is(surface, i) ==> r == Some(
                    old(self).elements@[i].window.last_geometry->Some_0.size,
                ) && exists|oi: int|
                    #[trigger] old(self).restore_choice(
                        old(self).elements@[i].window.last_geometry->Some_0.loc,
                        oi,
                    ) && final(self).elements@ == old(self).elements@.remove(i).push(
                        restored_element(old(self).elements@[i], old(self).outputs@[oi]),
                    ),
    {
        match self.find_by_surface(surface) {
            Some(i) => {
                let g = match self.elements[i].window.last_geometry {
                    Some(g) => g,
                    None => {
                        proof {
                            assert(self.surface_idx_is(surface, i as int));
                            assert(false);
                        }
                        Rect { loc: Point { x: 0, y: 0 }, size: Extent { w: 1, h: 1 } }
                    },
                };
                let oi = match self.find_output_under(g.loc) {
                    Some(o) => o,
                    None => 0,
                };
                let off_x = self.outputs[oi].info.position.x - self.outputs[oi].location.x;
                let off_y = self.outputs[oi].info.position.y - self.outputs[oi].location.y;
                self.elements[i].window.size = g.size;
                self.elements[i].window.committed = Some(
                    Rect {
                        loc: Point { x: g.loc.x + off_x, y: g.loc.y + off_y },
                        size: g.size,
                    },
                );
                self.elements[i].location = g.loc;
                let e = self.elements.remove(i);
                self.elements.push(e);
                proof {
                    assert(old(self).restore_choice(g.loc, oi as int));
                    assert(self.elements@ =~= old(self).elements@.remove(i as int).push(
                        restored_element(
                            old(self).elements@[i as int],
                            old(self).outputs@[oi as int],
                        ),
                    ));
                }
                Some(g.size)
            },
            None => None,
        }
    }

    /// Construct an interactive resize grab descriptor from the
    /// window's current location and size, provided the seat reports
    /// an active pointer device; the drive loop is outside the engine.
    pub fn resize_request(&self, window: u64, pointer_present: bool, edges: ResizeEdges) -> (r:
        Option<ResizeGrab>)
        requires
            pointer_present ==> !self.no_window(window),
        ensures
            r is Some <==> pointer_present,
            pointer_present ==> exists|i: int|
                #[trigger] self.window_idx_is(window, i) && r == Some(
                    ResizeGrab {
                        window,
                        edges,
                        initial_location: self.elements@[i].location,
                        initial_size: self.elements@[i].window.size,
                    },
                ),
    {
        if pointer_present {
            let i = match self.find_window(window) {
                Some(i) => i,
                None => {
                    proof {
                        let w = choose|i: int|
                            0 <= i < self.elements@.len() && self.elements@[i].window.id == window;
                        assert(false);
                    }
                    0
                },
            };
            Some(
                ResizeGrab {
                    window,
                    edges,
                    initial_location: self.elements[i].location,
                    initial_size: self.elements[i].window.size,
                },
            )
        } else {
            None
        }
    }
}

/// Fallback minimum width a resize clamps to when a window declares no
/// minimum size.
pub const DEFAULT_MIN_W: i32 = 360;

/// Fallback minimum height a resize clamps to when a window declares
/// no minimum size.
pub const DEFAULT_MIN_H: i32 = 240;

/// The rectangle a discrete resize proposes before clamping: the size
/// grows or shrinks by `amount` on each active axis, and when the left
/// or top edge is active the origin shifts oppositely so that edge
/// moves while the other stays anchored.
pub open spec fn proposed_rect(
    geo: Rect,
    direction: ResizeDirection,
    edges: ResizeEdges,
    amount: int,
) -> Rect {
    let dw: int = if edges.left || edges.right {
        if direction is Inwards {
            -amount
        } else {
            amount
        }
    } else {
        0
    };
    let dx: int = if edges.left {
        if direction is Inwards {
            amount
        } else {
            -amount
        }
    } else {
        0
    };
    let dh: int = if edges.top || edges.bottom {
        if direction is Inwards {
            -amount
        } else {
            amount
        }
    } else {
        0
    };
    let dy: int = if edges.top {
        if direction is Inwards {
            amount
        } else {
            -amount
        }
    } else {
        0
    };
    Rect {
        loc: Point { x: (geo.loc.x + dx) as i32, y: (geo.loc.y + dy) as i32 },
        size: Extent { w: (geo.size.w + dw) as i32, h: (geo.size.h + dh) as i32 },
    }
}

pub open spec fn resize_min_w(w: WindowEntity) -> int {
    match w.min_size {
        Some(s) => s.w as int,
        None => DEFAULT_MIN_W as int,
    }
}

pub open spec fn resize_min_h(w: WindowEntity) -> int {
    match w.min_size {
        Some(s) => s.h as int,
        None => DEFAULT_MIN_H as int,
    }
}

pub open spec fn resize_max_w(w: WindowEntity) -> int {
    match w.max_size {
        Some(s) => s.w as int,
        None => i32::MAX as int,
    }
}

pub open spec fn resize_max_h(w: WindowEntity) -> int {
    match w.max_size {
        Some(s) => s.h as int,
        None => i32::MAX as int,
    }
}

/// The proposed rectangle with its size clamped into the window's
/// declared bounds (360×240 floor when undeclared, unbounded above
/// when undeclared), minimum winning over maximum.
pub open spec fn resize_clamped(w: WindowEntity, prop: Rect) -> Rect {
    let cw = if resize_min_w(w) > prop.size.w {
        resize_min_w(w)
    } else {
        prop.size.w as int
    };
    let cw2 = if cw > resize_max_w(w) {
        resize_max_w(w)
    } else {
        cw
    };
    let ch = if resize_min_h(w) > prop.size.h {
        resize_min_h(w)
    } else {
        prop.size.h as int
    };
    let ch2 = if ch > resize_max_h(w) {
        resize_max_h(w)
    } else {
        ch
    };
    Rect { loc: prop.loc, size: Extent { w: cw2 as i32, h: ch2 as i32 } }
}

/// The bounding box of the registered outputs whose region overlaps
/// `r`, folded in registration order; `None` when no output overlaps.
pub open spec fn outputs_bbox(outs: Seq<OutputEntry>, r: Rect) -> Option<Rect>
    decreases outs.len(),
{
    if outs.len() == 0 {
        None
    } else {
        let prev = outputs_bbox(outs.drop_last(), r);
        let o = outs.last().space_rect();
        if o.overlaps(r) {
            match prev {
                None => Some(o),
                Some(b) => Some(b.spec_union(o)),
            }
        } else {
            prev
        }
    }
}

/// Where a window anchors the geometry committed by a resize: legacy
/// windows that own their decoration offset anchor at their reported
/// content offset, all others at the local origin.
pub open spec fn anchor_point(w: WindowEntity) -> Point {
    if w.owns_origin {
        w.offset
    } else {
        Point { x: 0, y: 0 }
    }
}

/// The effect of a discrete resize on a mapped window: the new size is
/// committed at the window's anchor, the pre-resize geometry is
/// recorded in the resize-state slot, and the window is marked as
/// actively resizing. The index location does not move.
pub open spec fn resized_element(e: MappedWindow, edges: ResizeEdges, size: Extent) -> MappedWindow {
    MappedWindow {
        window: WindowEntity {
            size: size,
            resize_state: Some(
                ResizeData { edges, initial_location: e.location, initial_size: e.window.size },
            ),
            resizing: true,
            committed: Some(Rect { loc: anchor_point(e.window), size: size }),
            ..e.window
        },
        location: e.location,
    }
}

impl FloatingLayout {
    /// A resize can intersect the clamped rectangle with the outputs'
    /// bounding box: a declared bound so extreme that the clamped
    /// rectangle no longer touches the box would leave nothing to
    /// intersect, a caller-side constraint bug the engine does not
    /// accept.
    pub open spec fn resize_ok(
        self,
        focused: Option<u64>,
        direction: ResizeDirection,
        edges: ResizeEdges,
        amount: int,
    ) -> bool {
        match focused {
            None => true,
            Some(s) => forall|i: int|
                self.surface_idx_is(s, i) ==> {
                    let prop = proposed_rect(
                        #[trigger] self.elements@[i].space_rect(),
                        direction,
                        edges,
                        amount,
                    );
                    match outputs_bbox(self.outputs@, prop) {
                        None => true,
                        Some(b) => resize_clamped(self.elements@[i].window, prop).overlaps(b),
                    }
                },
        }
    }

    /// Discrete keybinding-driven resize of the window holding the
    /// focused toplevel surface. Reports whether the gesture was
    /// handled: `false` when there is no focused toplevel or no mapped
    /// window holds it. When no output overlaps the proposed rectangle
    /// the gesture is accepted with no further processing; otherwise
    /// the size is clamped into the window's bounds and the rectangle
    /// intersected with the overlapping outputs' bounding box, so the
    /// result never exceeds that box and never undercuts the declared
    /// minimum when the clamped rectangle fits inside the box.
    #[verifier::rlimit(100)]
    pub fn resize(
        &mut self,
        focused: Option<u64>,
        direction: ResizeDirection,
        edges: ResizeEdges,
        amount: i32,
    ) -> (handled: bool)
        requires
            old(self).wf(),
            0 <= amount <= LIMIT,
            old(self).resize_ok(focused, direction, edges, amount as int),
        ensures
            final(self).wf(),
            final(self).outputs@ == old(self).outputs@,
            handled <==> (focused is Some && !old(self).no_surface(focused->0)),
            !handled ==> final(self).elements@ == old(self).elements@,
            forall|i: int|
                (focused is Some && old(self).surface_idx_is(focused->0, i)) ==> {
                    let prop = proposed_rect(
                        #[trigger] old(self).elements@[i].space_rect(),
                        direction,
                        edges,
                        amount as int,
                    );
                    match outputs_bbox(old(self).outputs@, prop) {
                        None => final(self).elements@ == old(self).elements@,
                        Some(b) => {
                            let fr = resize_clamped(
                                old(self).elements@[i].window,
                                prop,
                            ).spec_intersection(b);
                            &&& final(self).elements@ == old(self).elements@.update(
                                i,
                                resized_element(old(self).elements@[i], edges, fr.size),
                            )
                            &&& fr.inside(b)
                            &&& resize_clamped(old(self).elements@[i].window, prop).inside(b)
                                ==> fr == resize_clamped(old(self).elements@[i].window, prop)
                        },
                    }
                },
    {
        let s = match focused {
            Some(s) => s,
            None => {
                return false;
            },
        };
        let i = match self.find_by_surface(s) {
            Some(i) => i,
            None => {
                return false;
            },
        };
        let geo_loc = self.elements[i].location;
        let geo_size = self.elements[i].window.size;

        let mut gx = geo_loc.x;
        let mut gy = geo_loc.y;
        let mut gw = geo_size.w;
        let mut gh = geo_size.h;
        if edges.right || edges.left {
            if matches!(direction, ResizeDirection::Inwards) {
                gw = gw - amount;
            } else {
                gw = gw + amount;
            }
            if edges.left {
                if matches!(direction, ResizeDirection::Inwards) {
                    gx = gx + amount;
                } else {
                    gx = gx - amount;
                }
            }
        }
        if edges.bottom || edges.top {
            if matches!(direction, ResizeDirection::Inwards) {
                gh = gh - amount;
            } else {
                gh = gh + amount;
            }
            if edges.top {
                if matches!(direction, ResizeDirection::Inwards) {
                    gy = gy + amount;
                } else {
                    gy = gy - amount;
                }
            }
        }
        let prop = Rect { loc: Point { x: gx, y: gy }, size: Extent { w: gw, h: gh } };
        assert(prop == proposed_rect(
            old(self).elements@[i as int].space_rect(),
            direction,
            edges,
            amount as int,
        ));

        let mut bbox: Option<Rect> = None;
        let mut k: usize = 0;
        while k < self.outputs.len()
            invariant
                k <= self.outputs@.len(),
                forall|j: int| 0 <= j < self.outputs@.len() ==> (#[trigger] self.outputs@[j]).wf(),
                prop.loc.bounded(2 * LOC_LIMIT as int),
                -SIZE_LIMIT - LIMIT <= prop.size.w <= 2 * SIZE_LIMIT,
                -SIZE_LIMIT - LIMIT <= prop.size.h <= 2 * SIZE_LIMIT,
                bbox == outputs_bbox(self.outputs@.take(k as int), prop),
                match bbox {
                    Some(b) => b.loc.bounded(LIMIT as int) && 1 <= b.size.w && 1 <= b.size.h
                        && b.right() <= 2 * LIMIT && b.bottom() <= 2 * LIMIT,
                    None => true,
                },
            decreases self.outputs@.len() - k,
        {
            let o_rect = Rect {
                loc: self.outputs[k].location,
                size: self.outputs[k].info.size,
            };
            assert(o_rect == self.outputs@[k as int].space_rect());
            let hit = prop.overlaps_exec(&o_rect);
            assert(hit == o_rect.overlaps(prop));
            if hit {
                bbox = match bbox {
                    None => Some(o_rect),
                    Some(b) => Some(b.union(&o_rect)),
                };
            }
            proof {
                assert(self.outputs@.take(k as int + 1).drop_last() =~= self.outputs@.take(
                    k as int,
                ));
                assert(self.outputs@.take(k as int + 1).last() == self.outputs@[k as int]);
            }
            k = k + 1;
        }
        proof {
            assert(self.outputs@.take(self.outputs@.len() as int) =~= self.outputs@);
        }
        let b = match bbox {
            Some(b) => b,
            None => {
                return true;
            },
        };

        let min_w = match self.elements[i].window.min_size {
            Some(s) => s.w,
            None => DEFAULT_MIN_W,
        };
        let min_h = match self.elements[i].window.min_size {
            Some(s) => s.h,
            None => DEFAULT_MIN_H,
        };
        let max_w = match self.elements[i].window.max_size {
            Some(s) => s.w,
            None => i32::MAX,
        };
        let max_h = match self.elements[i].window.max_size {
            Some(s) => s.h,
            None => i32::MAX,
        };
        let mut cw = if min_w > gw {
            min_w
        } else {
            gw
        };
        if cw > max_w {
            cw = max_w;
        }
        let mut ch = if min_h > gh {
            min_h
        } else {
            gh
        };
        if ch > max_h {
            ch = max_h;
        }
        let clamped = Rect { loc: Point { x: gx, y: gy }, size: Extent { w: cw, h: ch } };
        assert(clamped == resize_clamped(self.elements@[i as int].window, prop));

        let fr = clamped.intersection(&b);

        self.elements[i].window.resize_state = Some(
            ResizeData { edges, initial_location: geo_loc, initial_size: geo_size },
        );
        self.elements[i].window.resizing = true;
        self.elements[i].window.size = fr.size;
        let anchor = if self.elements[i].window.owns_origin {
            self.elements[i].window.offset
        } else {
            Point { x: 0, y: 0 }
        };
        self.elements[i].window.committed = Some(Rect { loc: anchor, size: fr.size });
        true
    }
}

/// A window record with a cleared restore slot: the cached geometry is
/// stale once the window's output vanished.
pub open spec fn cleared_element(e: MappedWindow) -> MappedWindow {
    MappedWindow { window: WindowEntity { last_geometry: None, ..e.window }, location: e.location }
}

/// Bounds of the placement clamp: the final extent is positive and
/// never exceeds the usable zone.
pub proof fn lemma_placed_axis_bounds(candidate: int, zone: int, min: int, max: int)
    requires
        1 <= candidate,
        MIN_ZONE_EXTENT <= zone,
        min == 0 || 1 <= min,
        max == 0 || 1 <= max,
    ensures
        1 <= placed_axis(candidate, zone, min, max),
        placed_axis(candidate, zone, min, max) <= zone,
        candidate <= two_thirds(zone) ==> placed_axis(candidate, zone, min, max) == candidate,
{
    assert(3 * (zone / 3) <= zone && zone / 3 >= 43) by (nonlinear_arith)
        requires
            130 <= zone,
    ;
}

/// A window placed on an output with no explicit position and no
/// restore slot lands centred in the usable zone, and so overlaps the
/// output's own region in the index.
pub proof fn lemma_placed_covered(w: WindowEntity, out: OutputEntry)
    requires
        w.wf(),
        out.wf(),
        w.last_geometry is None,
    ensures
        placed_element(w, out, None).space_rect().overlaps(out.space_rect()),
{
    let zone = out.zone_space();
    lemma_placed_axis_bounds(w.size.w as int, zone.size.w as int, w.min_w(), w.max_w());
    lemma_placed_axis_bounds(w.size.h as int, zone.size.h as int, w.min_h(), w.max_h());
    let size = placed_size(w, zone);
    let zw = zone.size.w as int;
    let zh = zone.size.h as int;
    let pw = size.w as int;
    let ph = size.h as int;
    assert(2 * (zw / 2) <= zw && zw - zw / 2 >= 65 && zw / 2 >= 65) by (nonlinear_arith)
        requires
            130 <= zw <= LIMIT,
    ;
    assert(2 * (zh / 2) <= zh && zh - zh / 2 >= 65 && zh / 2 >= 65) by (nonlinear_arith)
        requires
            130 <= zh <= LIMIT,
    ;
    assert(pw - pw / 2 >= 1 && pw / 2 >= 0) by (nonlinear_arith)
        requires
            1 <= pw,
    ;
    assert(ph - ph / 2 >= 1 && ph / 2 >= 0) by (nonlinear_arith)
        requires
            1 <= ph,
    ;
}

impl FloatingLayout {
    /// Like `wf`, but tolerating locations pushed out to the transient
    /// merge bound; the closing reflow of a merge restores `wf`.
    pub open spec fn wf_loose(self) -> bool {
        &&& forall|i: int| 0 <= i < self.outputs@.len() ==> (#[trigger] self.outputs@[i]).wf()
        &&& forall|i: int, j: int|
            0 <= i < j < self.outputs@.len() ==> self.outputs@[i].info.id
                != self.outputs@[j].info.id
        &&& forall|i: int|
            0 <= i < self.elements@.len() ==> (#[trigger] self.elements@[i]).window.wf()
                && self.elements@[i].location.bounded(LOC_SLACK as int)
        &&& forall|i: int, j: int|
            0 <= i < j < self.elements@.len() ==> self.elements@[i].window.id
                != self.elements@[j].window.id
    }

    /// An index of an output the window at `idx` overlaps, if any.
    fn covered_witness(&self, idx: usize) -> (r: Option<usize>)
        requires
            idx < self.elements@.len(),
            forall|i: int| 0 <= i < self.outputs@.len() ==> (#[trigger] self.outputs@[i]).wf(),
            self.elements@[idx as int].window.wf(),
            self.elements@[idx as int].location.bounded(LOC_SLACK as int),
        ensures
            match r {
                Some(o) => o < self.outputs@.len()
                    && self.elements@[idx as int].space_rect().overlaps(
                    self.outputs@[o as int].space_rect(),
                ),
                None => !self.element_covered(idx as int),
            },
    {
        let rect = Rect { loc: self.elements[idx].location, size: self.elements[idx].window.size };
        assert(rect == self.elements@[idx as int].space_rect());
        let mut o: usize = 0;
        while o < self.outputs.len()
            invariant
                o <= self.outputs@.len(),
                idx < self.elements@.len(),
                rect == self.elements@[idx as int].space_rect(),
                forall|i: int| 0 <= i < self.outputs@.len() ==> (#[trigger] self.outputs@[i]).wf(),
                rect.loc.bounded(2 * LOC_LIMIT as int),
                1 <= rect.size.w <= SIZE_LIMIT,
                1 <= rect.size.h <= SIZE_LIMIT,
                forall|j: int|
                    0 <= j < o ==> !rect.overlaps((#[trigger] self.outputs@[j]).space_rect()),
            decreases self.outputs@.len() - o,
        {
            let o_rect = Rect { loc: self.outputs[o].location, size: self.outputs[o].info.size };
            assert(o_rect == self.outputs@[o as int].space_rect());
            if rect.overlaps_exec(&o_rect) {
                return Some(o);
            }
            o = o + 1;
        }
        None
    }

    /// Global reflow: every window the index reports as overlapping no
    /// output has its stale restore slot cleared and is re-placed on
    /// the first registered output, restoring the invariant that every
    /// mapped window overlaps at least one output. Reflowing with
    /// orphaned windows and no output left is a caller-side sequencing
    /// bug the engine does not accept.
    #[verifier::rlimit(100)]
    pub fn refresh(&mut self)
        requires
            old(self).wf_loose(),
            old(self).outputs@.len() >= 1 || old(self).elements@.len() == 0,
        ensures
            final(self).wf(),
            final(self).outputs@ == old(self).outputs@,
            final(self).elements@.len() == old(self).elements@.len(),
            forall|i: int|
                0 <= i < old(self).elements@.len() && old(self).element_covered(i)
                    ==> final(self).elements@[i] == old(self).elements@[i],
            forall|i: int|
                0 <= i < old(self).elements@.len() && !old(self).element_covered(i)
                    ==> final(self).elements@[i] == placed_element(
                    cleared_element(old(self).elements@[i]).window,
                    old(self).outputs@[0],
                    None,
                ),
            old(self).outputs@.len() >= 1 ==> forall|i: int|
                0 <= i < final(self).elements@.len() ==> final(self).element_covered(i),
    {
        let mut i: usize = 0;
        while i < self.elements.len()
            invariant
                i <= self.elements@.len(),
                self.outputs@ == old(self).outputs@,
                self.elements@.len() == old(self).elements@.len(),
                old(self).wf_loose(),
                self.outputs@.len() >= 1 || self.elements@.len() == 0,
                forall|j: int| i <= j < self.elements@.len() ==> self.elements@[j] == old(
                    self,
                ).elements@[j],
                forall|j: int|
                    0 <= j < i && old(self).element_covered(j) ==> self.elements@[j] == old(
                        self,
                    ).elements@[j],
                forall|j: int|
                    0 <= j < i && !old(self).element_covered(j) ==> self.elements@[j]
                        == placed_element(
                        cleared_element(old(self).elements@[j]).window,
                        old(self).outputs@[0],
                        None,
                    ),
                forall|j: int| 0 <= j < i ==> (#[trigger] self.elements@[j]).wf(),
                forall|j: int|
                    0 <= j < self.elements@.len() ==> (#[trigger] self.elements@[j]).window.id
                        == old(self).elements@[j].window.id,
            decreases self.elements@.len() - i,
        {
            match self.covered_witness(i) {
                Some(o) => {
                    proof {
                        // a window overlapping an output sits within a
                        // bounded band around it
                        let e = self.elements@[i as int];
                        let orect = self.outputs@[o as int].space_rect();
                        assert(e.space_rect().overlaps(orect));
                        assert(e.location.x < orect.right());
                        assert(orect.loc.x < e.location.x + e.window.size.w);
                        assert(e.location.bounded(LOC_LIMIT as int));
                        assert(self.elements@[i as int].wf());
                    }
                },
                None => {
                    assert(!old(self).element_covered(i as int));
                    self.elements[i].window.last_geometry = None;
                    assert(self.elements@[i as int] == cleared_element(
                        old(self).elements@[i as int],
                    ));
                    self.map_internal(i, 0, None);
                },
            }
            i = i + 1;
        }
        proof {
            assert forall|j: int|
                0 <= j < self.elements@.len() && self.outputs@.len() >= 1 implies
                self.element_covered(j) by {
                if old(self).element_covered(j) {
                    let o = choose|o: int|
                        0 <= o < old(self).outputs@.len() && old(
                            self,
                        ).elements@[j].space_rect().overlaps(
                            (#[trigger] old(self).outputs@[o]).space_rect(),
                        );
                    assert(self.elements@[j].space_rect().overlaps(
                        self.outputs@[o].space_rect(),
                    ));
                } else {
                    lemma_placed_covered(
                        cleared_element(old(self).elements@[j]).window,
                        old(self).outputs@[0],
                    );
                    assert(self.elements@[j].space_rect().overlaps(
                        self.outputs@[0].space_rect(),
                    ));
                }
            }
        }
    }
}

/// The leave notifications due when an output is unregistered: for
/// each window overlapping it, in mapping order, one `(surface,
/// output)` pair per constituent surface.
pub open spec fn spec_leave_events(elems: Seq<MappedWindow>, out: OutputEntry) -> Seq<(u64, u64)>
    decreases elems.len(),
{
    if elems.len() == 0 {
        Seq::empty()
    } else {
        spec_leave_events(elems.drop_last(), out) + (if elems.last().space_rect().overlaps(
            out.space_rect(),
        ) {
            elems.last().window.surfaces@.map_values(|s: u64| (s, out.info.id))
        } else {
            Seq::empty()
        })
    }
}

/// The enter notifications due for one window after a reflow: for each
/// registered output it now overlaps, in registration order, one pair
/// per constituent surface.
pub open spec fn window_enter_events(e: MappedWindow, outs: Seq<OutputEntry>) -> Seq<(u64, u64)>
    decreases outs.len(),
{
    if outs.len() == 0 {
        Seq::empty()
    } else {
        window_enter_events(e, outs.drop_last()) + (if e.space_rect().overlaps(
            outs.last().space_rect(),
        ) {
            e.window.surfaces@.map_values(|s: u64| (s, outs.last().info.id))
        } else {
            Seq::empty()
        })
    }
}

/// The enter notifications due after an output was unregistered, for
/// the windows marked as affected, in mapping order.
pub open spec fn spec_enter_events(
    elems: Seq<MappedWindow>,
    affected: Seq<bool>,
    outs: Seq<OutputEntry>,
) -> Seq<(u64, u64)>
    decreases elems.len(),
{
    if elems.len() == 0 || affected.len() != elems.len() {
        Seq::empty()
    } else {
        spec_enter_events(elems.drop_last(), affected.drop_last(), outs) + (if affected.last() {
            window_enter_events(elems.last(), outs)
        } else {
            Seq::empty()
        })
    }
}

impl FloatingLayout {
    /// Append one `(surface, output)` pair per constituent surface of
    /// the window at `idx` to `acc`.
    fn push_surface_events(&self, idx: usize, out_id: u64, acc: &mut Vec<(u64, u64)>)
        requires
            idx < self.elements@.len(),
        ensures
            final(acc)@ == old(acc)@ + self.elements@[idx as int].window.surfaces@.map_values(
                |s: u64| (s, out_id),
            ),
    {
        let ghost pre = acc@;
        let w = &self.elements[idx].window;
        let mut k: usize = 0;
        while k < w.surfaces.len()
            invariant
                k <= w.surfaces@.len(),
                idx < self.elements@.len(),
                w == self.elements@[idx as int].window,
                acc@ == pre + w.surfaces@.take(k as int).map_values(|s: u64| (s, out_id)),
            decreases w.surfaces@.len() - k,
        {
            acc.push((w.surfaces[k], out_id));
            proof {
                assert(w.surfaces@.take(k as int + 1).map_values(|s: u64| (s, out_id))
                    =~= w.surfaces@.take(k as int).map_values(|s: u64| (s, out_id)).push(
                    (w.surfaces@[k as int], out_id),
                ));
            }
            k = k + 1;
        }
        proof {
            assert(w.surfaces@.take(w.surfaces@.len() as int) =~= w.surfaces@);
        }
    }

    /// Unregister an output. The windows overlapping it are noted,
    /// the output is removed, the index is reflowed, and the due
    /// notifications are returned: first the leave events for the
    /// removed output, then — computed only after the reflow, since a
    /// window may have relocated — the enter events for every output
    /// each affected window now overlaps. Unknown output ids leave the
    /// engine unchanged apart from the reflow.
    #[verifier::rlimit(100)]
    pub fn unmap_output(&mut self, output: u64) -> (r: (Vec<(u64, u64)>, Vec<(u64, u64)>))
        requires
            old(self).wf(),
            !old(self).no_output(output) ==> old(self).outputs@.len() >= 2 || old(
                self,
            ).elements@.len() == 0,
            old(self).no_output(output) ==> old(self).outputs@.len() >= 1 || old(
                self,
            ).elements@.len() == 0,
        ensures
            final(self).wf(),
            old(self).no_output(output) ==> final(self).outputs@ == old(self).outputs@ && r.0@
                == Seq::<(u64, u64)>::empty() && r.1@ == Seq::<(u64, u64)>::empty(),
            forall|oi: int|
                old(self).output_idx_is(output, oi) ==> final(self).outputs@ == old(
                    self,
                ).outputs@.remove(oi),
            final(self).elements@.len() == old(self).elements@.len(),
            final(self).outputs@.len() >= 1 ==> forall|i: int|
                0 <= i < final(self).elements@.len() ==> final(self).element_covered(i),
            forall|i: int|
                0 <= i < old(self).elements@.len() && covered_by(
                    old(self).elements@[i].space_rect(),
                    final(self).outputs@,
                ) ==> final(self).elements@[i] == old(self).elements@[i],
            forall|i: int|
                0 <= i < old(self).elements@.len() && !covered_by(
                    old(self).elements@[i].space_rect(),
                    final(self).outputs@,
                ) && final(self).outputs@.len() >= 1 ==> final(self).elements@[i]
                    == placed_element(
                    cleared_element(old(self).elements@[i]).window,
                    final(self).outputs@[0],
                    None,
                ),
            forall|oi: int|
                old(self).output_idx_is(output, oi) ==> r.0@ == spec_leave_events(
                    old(self).elements@,
                    old(self).outputs@[oi],
                ) && r.1@ == spec_enter_events(
                    final(self).elements@,
                    Seq::new(
                        old(self).elements@.len(),
                        |i: int| old(self).elements@[i].space_rect().overlaps(
                            old(self).outputs@[oi].space_rect(),
                        ),
                    ),
                    final(self).outputs@,
                ),
    {
        let oi = match self.find_output(output) {
            Some(oi) => oi,
            None => {
                let ghost mid = *self;
                self.refresh();
                proof {
                    assert forall|i: int|
                        0 <= i < old(self).elements@.len() && covered_by(
                            old(self).elements@[i].space_rect(),
                            self.outputs@,
                        ) implies self.elements@[i] == old(self).elements@[i] by {
                        assert(mid.element_covered(i));
                    }
                    assert forall|i: int|
                        0 <= i < old(self).elements@.len() && !covered_by(
                            old(self).elements@[i].space_rect(),
                            self.outputs@,
                        ) && self.outputs@.len() >= 1 implies self.elements@[i] == placed_element(
                        cleared_element(old(self).elements@[i]).window,
                        self.outputs@[0],
                        None,
                    ) by {
                        assert(!mid.element_covered(i));
                    }
                }
                return (Vec::new(), Vec::new());
            },
        };
        let entry = self.outputs[oi];
        let ghost affected_spec = Seq::new(
            self.elements@.len(),
            |i: int| self.elements@[i].space_rect().overlaps(entry.space_rect()),
        );

        let mut leave: Vec<(u64, u64)> = Vec::new();
        let mut affected: Vec<bool> = Vec::new();
        let mut i: usize = 0;
        while i < self.elements.len()
            invariant
                i <= self.elements@.len(),
                self == old(self),
                oi < self.outputs@.len(),
                entry == self.outputs@[oi as int],
                entry.info.id == output,
                old(self).wf(),
                affected_spec == Seq::new(
                    self.elements@.len(),
                    |k: int| self.elements@[k].space_rect().overlaps(entry.space_rect()),
                ),
                affected@ == affected_spec.take(i as int),
                leave@ == spec_leave_events(self.elements@.take(i as int), entry),
            decreases self.elements@.len() - i,
        {
            let rect = Rect {
                loc: self.elements[i].location,
                size: self.elements[i].window.size,
            };
            assert(rect == self.elements@[i as int].space_rect());
            let orect = Rect { loc: entry.location, size: entry.info.size };
            assert(orect == entry.space_rect());
            let hit = rect.overlaps_exec(&orect);
            affected.push(hit);
            if hit {
                self.push_surface_events(i, output, &mut leave);
            }
            proof {
                assert(self.elements@.take(i as int + 1).drop_last() =~= self.elements@.take(
                    i as int,
                ));
                assert(self.elements@.take(i as int + 1).last() == self.elements@[i as int]);
                assert(affected_spec.take(i as int + 1) =~= affected_spec.take(i as int).push(
                    affected_spec[i as int],
                ));
                assert(leave@ =~= spec_leave_events(self.elements@.take(i as int + 1), entry));
            }
            i = i + 1;
        }
        proof {
            assert(self.elements@.take(self.elements@.len() as int) =~= self.elements@);
            assert(affected_spec.take(affected_spec.len() as int) =~= affected_spec);
        }

        self.outputs.remove(oi);
        let ghost mid = *self;
        self.refresh();
        proof {
            assert forall|i: int|
                0 <= i < old(self).elements@.len() && covered_by(
                    old(self).elements@[i].space_rect(),
                    self.outputs@,
                ) implies self.elements@[i] == old(self).elements@[i] by {
                assert(mid.element_covered(i));
                assert(self.elements@[i] == mid.elements@[i]);
            }
            assert forall|i: int|
                0 <= i < old(self).elements@.len() && !covered_by(
                    old(self).elements@[i].space_rect(),
                    self.outputs@,
                ) && self.outputs@.len() >= 1 implies self.elements@[i] == placed_element(
                cleared_element(old(self).elements@[i]).window,
                self.outputs@[0],
                None,
            ) by {
                assert(!mid.element_covered(i));
                assert(mid.elements@[i] == old(self).elements@[i]);
            }
        }

        let mut enter: Vec<(u64, u64)> = Vec::new();
        let mut i: usize = 0;
        while i < self.elements.len()
            invariant
                i <= self.elements@.len(),
                self.elements@.len() == affected@.len(),
                forall|j: int| 0 <= j < self.elements@.len() ==> (#[trigger] self.elements@[j]).wf(),
                forall|j: int| 0 <= j < self.outputs@.len() ==> (#[trigger] self.outputs@[j]).wf(),
                enter@ == spec_enter_events(
                    self.elements@.take(i as int),
                    affected@.take(i as int),
                    self.outputs@,
                ),
                affected@ == affected_spec,
            decreases self.elements@.len() - i,
        {
            if affected[i] {
                let mut o: usize = 0;
                let rect = Rect {
                    loc: self.elements[i].location,
                    size: self.elements[i].window.size,
                };
                assert(rect == self.elements@[i as int].space_rect());
                while o < self.outputs.len()
                    invariant
                        o <= self.outputs@.len(),
                        i < self.elements@.len(),
                        rect == self.elements@[i as int].space_rect(),
                        forall|j: int|
                            0 <= j < self.elements@.len() ==> (#[trigger] self.elements@[j]).wf(),
                        forall|j: int|
                            0 <= j < self.outputs@.len() ==> (#[trigger] self.outputs@[j]).wf(),
                        enter@ == spec_enter_events(
                            self.elements@.take(i as int),
                            affected@.take(i as int),
                            self.outputs@,
                        ) + window_enter_events(
                            self.elements@[i as int],
                            self.outputs@.take(o as int),
                        ),
                    decreases self.outputs@.len() - o,
                {
                    let orect = Rect {
                        loc: self.outputs[o].location,
                        size: self.outputs[o].info.size,
                    };
                    assert(orect == self.outputs@[o as int].space_rect());
                    if rect.overlaps_exec(&orect) {
                        let out_id = self.outputs[o].info.id;
                        self.push_surface_events(i, out_id, &mut enter);
                    }
                    proof {
                        assert(self.outputs@.take(o as int + 1).drop_last() =~= self.outputs@.take(
                            o as int,
                        ));
                        assert(self.outputs@.take(o as int + 1).last() == self.outputs@[o as int]);
                        assert(enter@ =~= spec_enter_events(
                            self.elements@.take(i as int),
                            affected@.take(i as int),
                            self.outputs@,
                        ) + window_enter_events(
                            self.elements@[i as int],
                            self.outputs@.take(o as int + 1),
                        ));
                    }
                    o = o + 1;
                }
                proof {
                    assert(self.outputs@.take(self.outputs@.len() as int) =~= self.outputs@);
                }
            }
            proof {
                assert(self.elements@.take(i as int + 1).drop_last() =~= self.elements@.take(
                    i as int,
                ));
                assert(affected@.take(i as int + 1).drop_last() =~= affected@.take(i as int));
                assert(affected@.take(i as int + 1).last() == affected@[i as int]);
                assert(self.elements@.take(i as int + 1).last() == self.elements@[i as int]);
                assert(enter@ =~= spec_enter_events(
                    self.elements@.take(i as int + 1),
                    affected@.take(i as int + 1),
                    self.outputs@,
                ));
            }
            i = i + 1;
        }
        proof {
            assert(self.elements@.take(self.elements@.len() as int) =~= self.elements@);
            assert(affected@.take(affected@.len() as int) =~= affected@);
        }
        (leave, enter)
    }
}

/// The pixel area a window rectangle shares with an output's region,
/// zero when they do not overlap.
pub open spec fn overlap_area(r: Rect, out: OutputEntry) -> int {
    if r.overlaps(out.space_rect()) {
        r.spec_intersection(out.space_rect()).area()
    } else {
        0
    }
}

/// `j` is the index of the first entry with this output id.
pub open spec fn entry_idx_is(outs: Seq<OutputEntry>, id: u64, j: int) -> bool {
    &&& 0 <= j < outs.len()
    &&& outs[j].info.id == id
    &&& forall|j2: int| 0 <= j2 < j ==> outs[j2].info.id != id
}

pub open spec fn no_entry(outs: Seq<OutputEntry>, id: u64) -> bool {
    forall|j: int| 0 <= j < outs.len() ==> outs[j].info.id != id
}

/// The overlap area a rectangle shares with the entry of this id,
/// zero when the id is absent.
pub open spec fn entry_area(outs: Seq<OutputEntry>, r: Rect, id: u64) -> int {
    if no_entry(outs, id) {
        0
    } else {
        overlap_area(r, outs[choose|j: int| entry_idx_is(outs, id, j)])
    }
}

/// The recorded-position difference a merge translates by: the target
/// output's index location here minus its index location in the other
/// engine, zero when the other engine does not hold it.
pub open spec fn merge_doff(tgt: OutputEntry, outs: Seq<OutputEntry>) -> Point {
    if no_entry(outs, tgt.info.id) {
        Point { x: 0, y: 0 }
    } else {
        let j = choose|j: int| entry_idx_is(outs, tgt.info.id, j);
        Point {
            x: (tgt.location.x - outs[j].location.x) as i32,
            y: (tgt.location.y - outs[j].location.y) as i32,
        }
    }
}

/// `oi` indexes the output a transferred window targets among this
/// engine's outputs `a_outs`: the first sharing the most area with the
/// window's rectangle in the other engine's coordinates `b_outs` (ties
/// by registration order), or the first output when no shared one
/// overlaps the window.
pub open spec fn merge_target_is(
    a_outs: Seq<OutputEntry>,
    b_outs: Seq<OutputEntry>,
    e: Rect,
    oi: int,
) -> bool {
    &&& 0 <= oi < a_outs.len()
    &&& if exists|j: int|
        0 <= j < a_outs.len() && entry_area(b_outs, e, (#[trigger] a_outs[j]).info.id) > 0 {
        &&& entry_area(b_outs, e, a_outs[oi].info.id) > 0
        &&& forall|j: int|
            0 <= j < a_outs.len() ==> entry_area(b_outs, e, (#[trigger] a_outs[j]).info.id)
                <= entry_area(b_outs, e, a_outs[oi].info.id)
        &&& forall|j: int|
            0 <= j < oi ==> entry_area(b_outs, e, (#[trigger] a_outs[j]).info.id) < entry_area(
                b_outs,
                e,
                a_outs[oi].info.id,
            )
    } else {
        oi == 0
    }
}

/// A window transferred by a merge: translated by the recorded-position
/// difference, committed at the translated location shifted by the
/// target output's offset. The index location is the translated one.
pub open spec fn transferred_element(e: MappedWindow, tgt: OutputEntry, doff: Point) -> MappedWindow {
    let loc = Point { x: (e.location.x + doff.x) as i32, y: (e.location.y + doff.y) as i32 };
    MappedWindow {
        window: WindowEntity {
            committed: Some(
                Rect {
                    loc: Point {
                        x: (loc.x + tgt.offset().x) as i32,
                        y: (loc.y + tgt.offset().y) as i32,
                    },
                    size: e.window.size,
                },
            ),
            ..e.window
        },
        location: loc,
    }
}

/// In engine `post`, the window transferred from `other`'s index `j`
/// (stored at `n0 + j`) sits exactly where its merge target and the
/// recorded-position difference put it.
pub open spec fn merge_transferred_at(
    post: FloatingLayout,
    other: FloatingLayout,
    n0: int,
    j: int,
) -> bool {
    exists|oi: int|
        #[trigger] merge_target_is(
            post.outputs@,
            other.outputs@,
            other.elements@[j].space_rect(),
            oi,
        ) && post.elements@[n0 + j] == transferred_element(
            other.elements@[j],
            post.outputs@[oi],
            merge_doff(post.outputs@[oi], other.outputs@),
        )
}

/// After a merge of `other` into `pre` giving `post`, the window
/// transferred from `other`'s index `k` was translated to its merge
/// target: it stands exactly there when the translated rectangle still
/// overlaps an output, and was re-placed on the first output by the
/// closing reflow otherwise.
pub open spec fn merge_transfer_ok(
    pre: FloatingLayout,
    other: FloatingLayout,
    post: FloatingLayout,
    k: int,
) -> bool {
    exists|oi: int|
        #[trigger] merge_target_is(
            pre.outputs@,
            other.outputs@,
            other.elements@[k].space_rect(),
            oi,
        ) && {
            let t = transferred_element(
                other.elements@[k],
                pre.outputs@[oi],
                merge_doff(pre.outputs@[oi], other.outputs@),
            );
            &&& (covered_by(t.space_rect(), pre.outputs@) ==> post.elements@[pre.elements@.len()
                + k] == t)
            &&& (!covered_by(t.space_rect(), pre.outputs@) ==> post.elements@[pre.elements@.len()
                + k] == placed_element(cleared_element(t).window, pre.outputs@[0], None))
        }
}

impl FloatingLayout {
    fn find_entry(outs: &Vec<OutputEntry>, id: u64) -> (r: Option<usize>)
        ensures
            match r {
                Some(j) => entry_idx_is(outs@, id, j as int),
                None => no_entry(outs@, id),
            },
    {
        let mut j: usize = 0;
        while j < outs.len()
            invariant
                j <= outs@.len(),
                forall|j2: int| 0 <= j2 < j ==> outs@[j2].info.id != id,
            decreases outs@.len() - j,
        {
            if outs[j].info.id == id {
                return Some(j);
            }
            j = j + 1;
        }
        None
    }

    /// The overlap area of the rectangle with the entry of this id, as
    /// `entry_area` states it.
    fn entry_area_exec(outs: &Vec<OutputEntry>, rect: &Rect, id: u64) -> (a: i64)
        requires
            forall|j: int| 0 <= j < outs@.len() ==> (#[trigger] outs@[j]).wf(),
            rect.loc.bounded(2 * LOC_LIMIT as int),
            1 <= rect.size.w <= SIZE_LIMIT,
            1 <= rect.size.h <= SIZE_LIMIT,
        ensures
            a == entry_area(outs@, *rect, id),
            a >= 0,
    {
        match Self::find_entry(outs, id) {
            Some(j) => {
                let o_rect = Rect { loc: outs[j].location, size: outs[j].info.size };
                assert(o_rect == outs@[j as int].space_rect());
                let a = rect.intersection_area(&o_rect);
                proof {
                    let cj = choose|j2: int| entry_idx_is(outs@, id, j2);
                    if cj < j as int {
                        assert(outs@[cj].info.id != id);
                        assert(false);
                    }
                    if cj > j as int {
                        assert(outs@[j as int].info.id != id);
                        assert(false);
                    }
                }
                a
            },
            None => 0,
        }
    }

    /// `oi` is the first registered output sharing the most area with
    /// the rectangle (ties resolved by registration order).
    pub open spec fn best_output_idx_is(self, r: Rect, oi: int) -> bool {
        &&& 0 <= oi < self.outputs@.len()
        &&& r.overlaps(self.outputs@[oi].space_rect())
        &&& forall|j: int|
            0 <= j < self.outputs@.len() ==> overlap_area(r, #[trigger] self.outputs@[j])
                <= overlap_area(r, self.outputs@[oi])
        &&& forall|j: int|
            0 <= j < oi ==> overlap_area(r, #[trigger] self.outputs@[j]) < overlap_area(
                r,
                self.outputs@[oi],
            )
    }

    pub open spec fn no_output_overlap(self, r: Rect) -> bool {
        forall|j: int|
            0 <= j < self.outputs@.len() ==> !r.overlaps((#[trigger] self.outputs@[j]).space_rect())
    }

    /// The output showing the largest part of the window: with a single
    /// registered output, that output unconditionally; with several,
    /// the first one sharing the most area with the window's rectangle
    /// (registration order breaks ties), falling back to the first
    /// registered output when the window overlaps none. `None` when the
    /// window is not registered here or no output is.
    pub fn most_overlapped_output_for_element(&self, id: u64) -> (r: Option<u64>)
        requires
            self.wf(),
        ensures
            match r {
                None => self.no_window(id) || self.outputs@.len() == 0,
                Some(o) => !self.no_window(id) && self.outputs@.len() >= 1 && (
                self.outputs@.len() == 1 ==> o == self.outputs@[0].info.id) && (self.outputs@.len()
                    > 1 ==> exists|i: int|
                    #[trigger] self.window_idx_is(id, i) && {
                        let rect = self.elements@[i].space_rect();
                        (exists|oi: int|
                            #[trigger] self.best_output_idx_is(rect, oi) && o
                                == self.outputs@[oi].info.id) || (self.no_output_overlap(rect) && o
                            == self.outputs@[0].info.id)
                    }),
            },
    {
        let i = match self.find_window(id) {
            Some(i) => i,
            None => {
                return None;
            },
        };
        if self.outputs.len() == 0 {
            return None;
        }
        if self.outputs.len() == 1 {
            return Some(self.outputs[0].info.id);
        }
        let rect = Rect { loc: self.elements[i].location, size: self.elements[i].window.size };
        assert(rect == self.elements@[i as int].space_rect());
        let mut best_oi: usize = 0;
        let mut best_area: i64 = 0;
        let mut found = false;
        let mut o: usize = 0;
        while o < self.outputs.len()
            invariant
                o <= self.outputs@.len(),
                self.wf(),
                rect.loc.bounded(2 * LOC_LIMIT as int),
                1 <= rect.size.w <= SIZE_LIMIT,
                1 <= rect.size.h <= SIZE_LIMIT,
                found ==> best_oi < self.outputs@.len() && best_area == overlap_area(
                    rect,
                    self.outputs@[best_oi as int],
                ) && best_area >= 1 && rect.overlaps(self.outputs@[best_oi as int].space_rect()),
                found ==> forall|j: int|
                    0 <= j < o ==> overlap_area(rect, #[trigger] self.outputs@[j]) <= best_area,
                found ==> forall|j: int|
                    0 <= j < best_oi ==> overlap_area(rect, #[trigger] self.outputs@[j])
                        < best_area,
                !found ==> forall|j: int|
                    0 <= j < o ==> !rect.overlaps((#[trigger] self.outputs@[j]).space_rect()),
                !found ==> best_area == 0,
            decreases self.outputs@.len() - o,
        {
            let o_rect = Rect { loc: self.outputs[o].location, size: self.outputs[o].info.size };
            assert(o_rect == self.outputs@[o as int].space_rect());
            let a = rect.intersection_area(&o_rect);
            if a > best_area {
                best_area = a;
                best_oi = o;
                found = true;
            }
            o = o + 1;
        }
        if found {
            assert(self.best_output_idx_is(rect, best_oi as int));
            Some(self.outputs[best_oi].info.id)
        } else {
            assert(self.no_output_overlap(rect));
            Some(self.outputs[0].info.id)
        }
    }

    /// Transfer every window of a second engine into this one, used
    /// when consolidating onto surviving outputs. Each window is
    /// translated by the recorded-position difference of its
    /// best-overlapping shared output (this engine's first output when
    /// none is shared), committed, and registered here; the closing
    /// reflow then repairs any window left out of bounds. The combined
    /// engine holds exactly the windows of both, this engine's first
    /// and in their orders, and every window overlaps an output again.
    /// Merging into an engine with no output is a caller-side
    /// sequencing bug the engine does not accept; window identities
    /// must be disjoint, as the two engines' windows are distinct.
    #[verifier::rlimit(100)]
    /// Transfer every window of a second engine into this one, used
    /// when consolidating onto surviving outputs. Each window is
    /// translated by the recorded-position difference of its
    /// best-overlapping shared output (this engine's first output when
    /// none is shared, ties by registration order), committed at the
    /// translated location shifted by that output's offset, and
    /// registered here; the closing reflow then re-places any window
    /// left out of bounds and leaves the rest untouched. The combined
    /// engine holds exactly the windows of both, this engine's first
    /// and in their orders, and every window overlaps an output again.
    /// Merging into an engine with no output is a caller-side
    /// sequencing bug the engine does not accept; window identities
    /// must be disjoint, as the two engines' windows are distinct.
    #[verifier::rlimit(100)]
    pub fn merge(&mut self, other: FloatingLayout)
        requires
            old(self).wf(),
            other.wf(),
            old(self).outputs@.len() >= 1,
            forall|i: int, j: int|
                0 <= i < old(self).elements@.len() && 0 <= j < other.elements@.len()
                    ==> (#[trigger] old(self).elements@[i]).window.id
                    != (#[trigger] other.elements@[j]).window.id,
        ensures
            final(self).wf(),
            final(self).outputs@ == old(self).outputs@,
            final(self).elements@.len() == old(self).elements@.len() + other.elements@.len(),
            forall|i: int|
                0 <= i < old(self).elements@.len() ==> final(self).elements@[i].window.id == old(
                    self,
                ).elements@[i].window.id,
            forall|k: int|
                0 <= k < other.elements@.len() ==> final(self).elements@[old(
                    self,
                ).elements@.len() + k].window.id == other.elements@[k].window.id,
            forall|i: int|
                0 <= i < final(self).elements@.len() ==> final(self).element_covered(i),
            forall|i: int|
                0 <= i < old(self).elements@.len() && old(self).element_covered(i)
                    ==> final(self).elements@[i] == old(self).elements@[i],
            forall|i: int|
                0 <= i < old(self).elements@.len() && !old(self).element_covered(i)
                    ==> final(self).elements@[i] == placed_element(
                    cleared_element(old(self).elements@[i]).window,
                    old(self).outputs@[0],
                    None,
                ),
            forall|k: int|
                0 <= k < other.elements@.len() ==> #[trigger] merge_transfer_ok(
                    *old(self),
                    other,
                    *final(self),
                    k,
                ),
    {
        let ghost other0 = other;
        let FloatingLayout { outputs: other_outputs, elements: mut other_elements } = other;
        proof {
            assert(other_elements@ == other0.elements@);
            assert(other_outputs@ == other0.outputs@);
        }
        let ghost n0 = self.elements@.len();
        let ghost total = other_elements@.len();
        proof {
            assert(other_elements@.len() == other_elements.len());
            assert(other0.elements@.skip(0) =~= other0.elements@);
        }
        let mut k: usize = 0;
        while other_elements.len() > 0
            invariant
                total == other0.elements@.len(),
                total <= usize::MAX,
                n0 == old(self).elements@.len(),
                self.outputs@.len() >= 1,
                k + other_elements@.len() == total,
                other_elements@ == other0.elements@.skip(k as int),
                self.outputs@ == old(self).outputs@,
                other_outputs@ == other0.outputs@,
                self.elements@.len() == n0 + k,
                old(self).wf(),
                other0.wf(),
                forall|i: int| 0 <= i < n0 ==> self.elements@[i] == old(self).elements@[i],
                forall|j: int|
                    0 <= j < k ==> (#[trigger] self.elements@[n0 + j]).window.id
                        == other0.elements@[j].window.id && self.elements@[n0 + j].window.wf()
                        && self.elements@[n0 + j].location.bounded(LOC_SLACK as int),
                forall|j: int|
                    0 <= j < k ==> #[trigger] merge_transferred_at(*self, other0, n0 as int, j),
            decreases other_elements@.len(),
        {
            let ghost pre_step = *self;
            let mut e = other_elements.remove(0);
            proof {
                broadcast use vstd::seq_lib::group_seq_properties;

                assert(k < total);
                assert(other0.elements@.skip(k as int)[0] == other0.elements@[k as int]);
                assert(other0.elements@.skip(k as int).remove(0) =~= other0.elements@.skip(
                    k as int + 1,
                ));
                assert(other0.elements@[k as int].wf());
            }
            let elem_rect = Rect { loc: e.location, size: e.window.size };
            assert(elem_rect == other0.elements@[k as int].space_rect());

            // best shared output by overlap in the other engine's
            // coordinates, this engine's first output otherwise
            let mut target: usize = 0;
            let mut best_area: i64 = 0;
            let mut o: usize = 0;
            while o < self.outputs.len()
                invariant
                    o <= self.outputs@.len(),
                    target < self.outputs@.len(),
                    self.outputs@.len() >= 1,
                    old(self).wf(),
                    other0.wf(),
                    self.outputs@ == old(self).outputs@,
                    other_outputs@ == other0.outputs@,
                    elem_rect.loc.bounded(2 * LOC_LIMIT as int),
                    1 <= elem_rect.size.w <= SIZE_LIMIT,
                    1 <= elem_rect.size.h <= SIZE_LIMIT,
                    best_area >= 0,
                    best_area > 0 ==> best_area == entry_area(
                        other0.outputs@,
                        elem_rect,
                        self.outputs@[target as int].info.id,
                    ),
                    best_area > 0 ==> forall|j: int|
                        0 <= j < o ==> entry_area(
                            other0.outputs@,
                            elem_rect,
                            (#[trigger] self.outputs@[j]).info.id,
                        ) <= best_area,
                    best_area > 0 ==> forall|j: int|
                        0 <= j < target ==> entry_area(
                            other0.outputs@,
                            elem_rect,
                            (#[trigger] self.outputs@[j]).info.id,
                        ) < best_area,
                    best_area == 0 ==> target == 0 && forall|j: int|
                        0 <= j < o ==> entry_area(
                            other0.outputs@,
                            elem_rect,
                            (#[trigger] self.outputs@[j]).info.id,
                        ) <= 0,
                decreases self.outputs@.len() - o,
            {
                let a = Self::entry_area_exec(&other_outputs, &elem_rect, self.outputs[o].info.id);
                if a > best_area {
                    best_area = a;
                    target = o;
                }
                o = o + 1;
            }
            proof {
                assert(merge_target_is(
                    self.outputs@,
                    other0.outputs@,
                    elem_rect,
                    target as int,
                ));
            }

            // recorded-position difference for the chosen output
            let tgt = self.outputs[target];
            let doff = match Self::find_entry(&other_outputs, tgt.info.id) {
                Some(j) => {
                    let d = Point {
                        x: tgt.location.x - other_outputs[j].location.x,
                        y: tgt.location.y - other_outputs[j].location.y,
                    };
                    proof {
                        assert(entry_idx_is(other0.outputs@, tgt.info.id, j as int));
                        let cj = choose|j2: int| entry_idx_is(other0.outputs@, tgt.info.id, j2);
                        if cj < j as int {
                            assert(other0.outputs@[cj].info.id != tgt.info.id);
                            assert(false);
                        }
                        if cj > j as int {
                            assert(other0.outputs@[j as int].info.id != tgt.info.id);
                            assert(false);
                        }
                        assert(d == merge_doff(tgt, other0.outputs@));
                    }
                    d
                },
                None => {
                    proof {
                        assert(Point { x: 0, y: 0 } == merge_doff(tgt, other0.outputs@));
                    }
                    Point { x: 0, y: 0 }
                },
            };

            let loc = Point { x: e.location.x + doff.x, y: e.location.y + doff.y };
            let off_x = tgt.info.position.x - tgt.location.x;
            let off_y = tgt.info.position.y - tgt.location.y;
            e.window.committed = Some(
                Rect {
                    loc: Point { x: loc.x + off_x, y: loc.y + off_y },
                    size: e.window.size,
                },
            );
            let moved = MappedWindow { window: e.window, location: loc };
            proof {
                assert(moved == transferred_element(other0.elements@[k as int], tgt, doff));
            }
            self.elements.push(moved);
            proof {
                assert(self.elements@[n0 + k as int] == moved);
                assert(tgt == self.outputs@[target as int]);
                assert forall|j: int|
                    0 <= j < k + 1 implies #[trigger] merge_transferred_at(
                    *self,
                    other0,
                    n0 as int,
                    j,
                ) by {
                    if j == k as int {
                        assert(merge_target_is(
                            self.outputs@,
                            other0.outputs@,
                            other0.elements@[j].space_rect(),
                            target as int,
                        ) && self.elements@[n0 + j] == transferred_element(
                            other0.elements@[j],
                            self.outputs@[target as int],
                            merge_doff(self.outputs@[target as int], other0.outputs@),
                        ));
                    } else {
                        assert(merge_transferred_at(pre_step, other0, n0 as int, j));
                        let oi = choose|oi: int|
                            merge_target_is(
                                pre_step.outputs@,
                                other0.outputs@,
                                other0.elements@[j].space_rect(),
                                oi,
                            ) && pre_step.elements@[n0 as int + j] == transferred_element(
                                other0.elements@[j],
                                pre_step.outputs@[oi],
                                merge_doff(pre_step.outputs@[oi], other0.outputs@),
                            );
                        assert(pre_step.outputs@ == self.outputs@);
                        assert(self.elements@[n0 as int + j] == pre_step.elements@[n0 as int + j]);
                        assert(merge_target_is(
                            self.outputs@,
                            other0.outputs@,
                            other0.elements@[j].space_rect(),
                            oi,
                        ) && self.elements@[n0 + j] == transferred_element(
                            other0.elements@[j],
                            self.outputs@[oi],
                            merge_doff(self.outputs@[oi], other0.outputs@),
                        ));
                    }
                }
            }
            k = k + 1;
        }
        proof {
            assert forall|a: int, b: int|
                0 <= a < b < self.elements@.len() implies self.elements@[a].window.id
                != self.elements@[b].window.id by {
                if b < n0 {
                } else if a < n0 {
                    assert(self.elements@[a] == old(self).elements@[a]);
                    assert(self.elements@[n0 + (b - n0)].window.id == other0.elements@[b
                        - n0].window.id);
                } else {
                    assert(self.elements@[n0 + (a - n0)].window.id == other0.elements@[a
                        - n0].window.id);
                    assert(self.elements@[n0 + (b - n0)].window.id == other0.elements@[b
                        - n0].window.id);
                }
            }
            assert forall|i: int|
                0 <= i < self.elements@.len() implies (#[trigger] self.elements@[i]).window.wf()
                && self.elements@[i].location.bounded(LOC_SLACK as int) by {
                if i < n0 {
                    assert(self.elements@[i] == old(self).elements@[i]);
                    assert(old(self).elements@[i].wf());
                } else {
                    assert(self.elements@[n0 + (i - n0)].window.wf());
                    assert(self.elements@[n0 + (i - n0)].location.bounded(LOC_SLACK as int));
                }
            }
            assert(self.wf_loose());
        }
        let ghost mid = *self;
        self.refresh();
        proof {
            assert forall|i: int|
                0 <= i < self.elements@.len() implies self.elements@[i].window.id
                == mid.elements@[i].window.id by {
                if mid.element_covered(i) {
                    assert(self.elements@[i] == mid.elements@[i]);
                } else {
                    assert(self.elements@[i] == placed_element(
                        cleared_element(mid.elements@[i]).window,
                        mid.outputs@[0],
                        None,
                    ));
                }
            }
            assert forall|j: int|
                0 <= j < total implies self.elements@[n0 + j].window.id
                == other0.elements@[j].window.id by {
                assert(mid.elements@[n0 + j].window.id == other0.elements@[j].window.id);
            }
            assert forall|i: int|
                0 <= i < n0 && old(self).element_covered(i) implies self.elements@[i] == old(
                    self,
                ).elements@[i] by {
                assert(mid.elements@[i] == old(self).elements@[i]);
                assert(mid.element_covered(i));
            }
            assert forall|i: int|
                0 <= i < n0 && !old(self).element_covered(i) implies self.elements@[i]
                == placed_element(
                cleared_element(old(self).elements@[i]).window,
                old(self).outputs@[0],
                None,
            ) by {
                assert(mid.elements@[i] == old(self).elements@[i]);
                assert(!mid.element_covered(i));
            }
            assert forall|k2: int|
                0 <= k2 < total implies #[trigger] merge_transfer_ok(
                *old(self),
                other0,
                *self,
                k2,
            ) by {
                assert(merge_transferred_at(mid, other0, n0 as int, k2));
                let oi = choose|oi: int|
                    merge_target_is(
                        mid.outputs@,
                        other0.outputs@,
                        other0.elements@[k2].space_rect(),
                        oi,
                    ) && mid.elements@[n0 as int + k2] == transferred_element(
                        other0.elements@[k2],
                        mid.outputs@[oi],
                        merge_doff(mid.outputs@[oi], other0.outputs@),
                    );
                assert(mid.outputs@ == old(self).outputs@);
                let t = transferred_element(
                    other0.elements@[k2],
                    old(self).outputs@[oi],
                    merge_doff(old(self).outputs@[oi], other0.outputs@),
                );
                assert(mid.elements@[n0 + k2] == t);
                if covered_by(t.space_rect(), old(self).outputs@) {
                    assert(mid.element_covered(n0 + k2));
                    assert(self.elements@[n0 + k2] == t);
                } else {
                    assert(!mid.element_covered(n0 + k2));
                    assert(self.elements@[n0 + k2] == placed_element(
                        cleared_element(t).window,
                        old(self).outputs@[0],
                        None,
                    ));
                }
                assert(merge_target_is(
                    old(self).outputs@,
                    other0.outputs@,
                    other0.elements@[k2].space_rect(),
                    oi,
                ) && {
                    let t2 = transferred_element(
                        other0.elements@[k2],
                        old(self).outputs@[oi],
                        merge_doff(old(self).outputs@[oi], other0.outputs@),
                    );
                    &&& (covered_by(t2.space_rect(), old(self).outputs@) ==> self.elements@[old(
                        self,
                    ).elements@.len() + k2] == t2)
                    &&& (!covered_by(t2.space_rect(), old(self).outputs@) ==> self.elements@[old(
                        self,
                    ).elements@.len() + k2] == placed_element(
                        cleared_element(t2).window,
                        old(self).outputs@[0],
                        None,
                    ))
                });
            }
        }
    }
}

/// A location in physical pixels: a logical coordinate multiplied by
/// the output's fractional scale and rounded to nearest, half away
/// from zero (avoids sub-pixel seams).
#[derive(Clone, Copy, PartialEq, Eq, Structural, Debug)]
pub struct PhysPoint {
    pub x: i64,
    pub y: i64,
}

/// Paint instructions for one window on one output. The caller drives
/// the renderer and the float opacity per entry, painting in entry
/// order (back to front) and, within one entry, the resize overlay,
/// then the focus ring, then the window's own content.
#[derive(Clone, Copy, PartialEq, Eq, Structural, Debug)]
pub struct RenderEntry {
    pub window: u64,
    /// Content location in physical pixels: the output-relative
    /// location, less the window's content offset, scaled by
    /// scale.num/scale.den and rounded to nearest.
    pub location: PhysPoint,
    /// Resize-overlay box in output-relative logical pixels (the
    /// window box grown 18 px per side), when due.
    pub resize_overlay: Option<Rect>,
    /// Focus-ring box, when due (thickness 0 disables it); grown like
    /// the resize overlay whenever that overlay is due too.
    pub focus_ring: Option<Rect>,
}

/// `v` scaled by the rational `num/den` and rounded to nearest,
/// half away from zero.
pub open spec fn round_scaled(v: int, num: int, den: int) -> int {
    let n = v * num;
    if n >= 0 {
        (2 * n + den) / (2 * den)
    } else {
        -((2 * (-n) + den) / (2 * den))
    }
}

/// The paint instructions one window contributes on an output.
pub open spec fn spec_render_entry(
    e: MappedWindow,
    out: OutputEntry,
    focused: Option<u64>,
    resize_overlay: bool,
    thickness: u8,
) -> RenderEntry {
    let num = out.info.scale.num as int;
    let den = out.info.scale.den as int;
    let ind = Rect {
        loc: Point {
            x: (e.location.x - out.location.x) as i32,
            y: (e.location.y - out.location.y) as i32,
        },
        size: e.window.size,
    };
    let grown = Rect {
        loc: Point { x: (ind.loc.x - 18) as i32, y: (ind.loc.y - 18) as i32 },
        size: Extent { w: (ind.size.w + 36) as i32, h: (ind.size.h + 36) as i32 },
    };
    let is_focused = focused == Some(e.window.id);
    RenderEntry {
        window: e.window.id,
        location: PhysPoint {
            x: round_scaled(ind.loc.x - e.window.offset.x, num, den) as i64,
            y: round_scaled(ind.loc.y - e.window.offset.y, num, den) as i64,
        },
        resize_overlay: if is_focused && resize_overlay {
            Some(grown)
        } else {
            None
        },
        focus_ring: if is_focused && thickness > 0 {
            Some(
                if resize_overlay {
                    grown
                } else {
                    ind
                },
            )
        } else {
            None
        },
    }
}

/// The paint instructions for one output: exactly the windows
/// overlapping it, in mapping order (most recently raised last).
pub open spec fn spec_render_output(
    elems: Seq<MappedWindow>,
    out: OutputEntry,
    focused: Option<u64>,
    resize_overlay: bool,
    thickness: u8,
) -> Seq<RenderEntry>
    decreases elems.len(),
{
    if elems.len() == 0 {
        Seq::empty()
    } else {
        spec_render_output(elems.drop_last(), out, focused, resize_overlay, thickness) + (if elems.last().space_rect().overlaps(
            out.space_rect(),
        ) {
            seq![spec_render_entry(elems.last(), out, focused, resize_overlay, thickness)]
        } else {
            Seq::empty()
        })
    }
}

impl FloatingLayout {
    /// Executable rounding scale.
    fn round_scaled_exec(v: i32, num: u32, den: u32) -> (r: i64)
        requires
            -2 * LOC_LIMIT <= v <= 2 * LOC_LIMIT,
            1 <= num <= 65536,
            1 <= den <= 65536,
        ensures
            r == round_scaled(v as int, num as int, den as int),
    {
        proof {
            assert(-66_000_000_000_000 <= (v as int) * (num as int) <= 66_000_000_000_000)
                by (nonlinear_arith)
                requires
                    -1_000_000_000 <= v as int <= 1_000_000_000,
                    1 <= num as int <= 65536,
            ;
        }
        let n = (v as i64) * (num as i64);
        let d = 2 * (den as i64);
        if n >= 0 {
            (2 * n + den as i64) / d
        } else {
            -((2 * (-n) + den as i64) / d)
        }
    }

    /// Per-output render composition: one paint entry per window
    /// overlapping the output, back to front in mapping order, each
    /// with its physical content location and, on the focused window
    /// only, the due overlay boxes. The caller hands each entry to the
    /// window's own element splitter and the overlay renderers, with
    /// the opacity of its choosing.
    pub fn render_output(
        &self,
        output: u64,
        focused: Option<u64>,
        resize_overlay: bool,
        thickness: u8,
    ) -> (r: Vec<RenderEntry>)
        requires
            self.wf(),
            !self.no_output(output),
        ensures
            forall|oi: int|
                self.output_idx_is(output, oi) ==> r@ == spec_render_output(
                    self.elements@,
                    self.outputs@[oi],
                    focused,
                    resize_overlay,
                    thickness,
                ),
    {
        let oi = match self.find_output(output) {
            Some(oi) => oi,
            None => {
                proof {
                    let w = choose|i: int|
                        0 <= i < self.outputs@.len() && self.outputs@[i].info.id == output;
                    assert(false);
                }
                0
            },
        };
        let entry = self.outputs[oi];
        let orect = Rect { loc: entry.location, size: entry.info.size };
        assert(orect == entry.space_rect());
        let mut r: Vec<RenderEntry> = Vec::new();
        let mut i: usize = 0;
        while i < self.elements.len()
            invariant
                i <= self.elements@.len(),
                self.wf(),
                oi < self.outputs@.len(),
                entry == self.outputs@[oi as int],
                orect == entry.space_rect(),
                r@ == spec_render_output(
                    self.elements@.take(i as int),
                    entry,
                    focused,
                    resize_overlay,
                    thickness,
                ),
            decreases self.elements@.len() - i,
        {
            let e = &self.elements[i];
            let rect = Rect { loc: e.location, size: e.window.size };
            assert(rect == self.elements@[i as int].space_rect());
            if rect.overlaps_exec(&orect) {
                let ind = Rect {
                    loc: Point {
                        x: e.location.x - entry.location.x,
                        y: e.location.y - entry.location.y,
                    },
                    size: e.window.size,
                };
                let grown = Rect {
                    loc: Point { x: ind.loc.x - 18, y: ind.loc.y - 18 },
                    size: Extent { w: ind.size.w + 36, h: ind.size.h + 36 },
                };
                let is_focused = match focused {
                    Some(f) => f == e.window.id,
                    None => false,
                };
                let entry_out = RenderEntry {
                    window: e.window.id,
                    location: PhysPoint {
                        x: Self::round_scaled_exec(
                            ind.loc.x - e.window.offset.x,
                            entry.info.scale.num,
                            entry.info.scale.den,
                        ),
                        y: Self::round_scaled_exec(
                            ind.loc.y - e.window.offset.y,
                            entry.info.scale.num,
                            entry.info.scale.den,
                        ),
                    },
                    resize_overlay: if is_focused && resize_overlay {
                        Some(grown)
                    } else {
                        None
                    },
                    focus_ring: if is_focused && thickness > 0 {
                        Some(
                            if resize_overlay {
                                grown
                            } else {
                                ind
                            },
                        )
                    } else {
                        None
                    },
                };
                assert(entry_out == spec_render_entry(
                    self.elements@[i as int],
                    entry,
                    focused,
                    resize_overlay,
                    thickness,
                ));
                r.push(entry_out);
            }
            proof {
                assert(self.elements@.take(i as int + 1).drop_last() =~= self.elements@.take(
                    i as int,
                ));
                assert(self.elements@.take(i as int + 1).last() == self.elements@[i as int]);
                assert(r@ =~= spec_render_output(
                    self.elements@.take(i as int + 1),
                    entry,
                    focused,
                    resize_overlay,
                    thickness,
                ));
            }
            i = i + 1;
        }
        proof {
            assert(self.elements@.take(self.elements@.len() as int) =~= self.elements@);
        }
        r
    }
}

/// The surface ids of `elems` with windows taken back to front,
/// each window's surfaces in order.
pub open spec fn spec_surfaces_rev(elems: Seq<MappedWindow>) -> Seq<u64>
    decreases elems.len(),
{
    if elems.len() == 0 {
        Seq::empty()
    } else {
        spec_surfaces_rev(elems.drop_first()) + elems[0].window.surfaces@
    }
}

} // verus!

verus! {

/// Two thirds of an extent, rounded as the placement rule rounds: a
/// window entering floating mode is shrunk toward this share of the
/// usable zone so it does not dominate the screen.
pub open spec fn two_thirds(v: int) -> int {
    v / 3 * 2
}

/// Final size of a placed window along one axis. `min` and `max` are
/// the declared bounds with `0` standing for "undeclared". When the
/// candidate exceeds two thirds of the zone it is shrunk toward that
/// share, kept no larger than `max`, then no smaller than `min` (the
/// minimum wins over the maximum), and finally capped by the zone
/// itself.
pub open spec fn placed_axis(candidate: int, zone_extent: int, min: int, max: int) -> int {
    if candidate > two_thirds(zone_extent) {
        let base = two_thirds(zone_extent);
        let capped = if max != 0 && max < base {
            max
        } else {
            base
        };
        let floored = if min != 0 && min > capped {
            min
        } else {
            capped
        };
        if floored < zone_extent {
            floored
        } else {
            zone_extent
        }
    } else {
        candidate
    }
}

/// The size placement gives a window inside a usable zone: the cached
/// restore size if present, else the window's current size, then each
/// axis clamped independently by `placed_axis`.
pub open spec fn placed_size(w: WindowEntity, zone: Rect) -> Extent {
    let candidate = match w.last_geometry {
        Some(g) => g.size,
        None => w.size,
    };
    Extent {
        w: placed_axis(candidate.w as int, zone.size.w as int, w.min_w(), w.max_w()) as i32,
        h: placed_axis(candidate.h as int, zone.size.h as int, w.min_h(), w.max_h()) as i32,
    }
}

/// The index location placement gives a window: the explicit position
/// if given, else the cached restore location, else the zone's centre
/// adjusted by the window's own content offset.
pub open spec fn placed_position(
    w: WindowEntity,
    zone: Rect,
    size: Extent,
    position: Option<Point>,
) -> Point {
    match position {
        Some(p) => p,
        None => match w.last_geometry {
            Some(g) => g.loc,
            None => Point {
                x: (zone.loc.x + zone.size.w / 2 - size.w / 2 + w.offset.x) as i32,
                y: (zone.loc.y + zone.size.h / 2 - size.h / 2 + w.offset.y) as i32,
            },
        },
    }
}

/// The full effect of placing a window on an output: the new size and
/// index location, the zone size advertised as the window's bound, the
/// untiled flag, and the geometry committed to the window in the
/// output's own coordinates.
pub open spec fn placed_element(
    w: WindowEntity,
    out: OutputEntry,
    position: Option<Point>,
) -> MappedWindow {
    let zone = out.zone_space();
    let size = placed_size(w, zone);
    let pos = placed_position(w, zone, size, position);
    let off = out.offset();
    MappedWindow {
        window: WindowEntity {
            size: size,
            tiled: false,
            bounds: Some(out.info.zone.size),
            committed: Some(
                Rect {
                    loc: Point { x: (pos.x + off.x) as i32, y: (pos.y + off.y) as i32 },
                    size: size,
                },
            ),
            ..w
        },
        location: pos,
    }
}

impl FloatingLayout {
    /// Executable placement clamp for one axis.
    fn placed_axis_exec(candidate: i32, zone_extent: i32, min: i32, max: i32) -> (r: i32)
        requires
            1 <= candidate <= SIZE_LIMIT,
            3 <= zone_extent <= LIMIT,
            0 <= min <= LIMIT,
            0 <= max <= LIMIT,
        ensures
            r as int == placed_axis(candidate as int, zone_extent as int, min as int, max as int),
            1 <= r <= SIZE_LIMIT,
    {
        let base = zone_extent / 3 * 2;
        if candidate > base {
            let mut width = base;
            if max != 0 && max < width {
                width = max;
            }
            if min != 0 && min > width {
                width = min;
            }
            if width < zone_extent {
                width
            } else {
                zone_extent
            }
        } else {
            candidate
        }
    }

    /// Compute and commit a placement for the mapped window at `idx`
    /// on the output at `out_idx`, then register the result with the
    /// index: the core of placement, shared by mapping, reflow and
    /// merging.
    #[verifier::rlimit(60)]
    fn map_internal(&mut self, idx: usize, out_idx: usize, position: Option<Point>)
        requires
            idx < old(self).elements@.len(),
            out_idx < old(self).outputs@.len(),
            old(self).outputs@[out_idx as int].wf(),
            old(self).elements@[idx as int].window.wf(),
            match position {
                Some(p) => p.bounded(LIMIT as int),
                None => true,
            },
        ensures
            final(self).outputs@ == old(self).outputs@,
            final(self).elements@ == old(self).elements@.update(
                idx as int,
                placed_element(
                    old(self).elements@[idx as int].window,
                    old(self).outputs@[out_idx as int],
                    position,
                ),
            ),
            final(self).elements@[idx as int].wf(),
    {
        let out = self.outputs[out_idx];
        let zone_x = out.location.x + out.info.zone.loc.x;
        let zone_y = out.location.y + out.info.zone.loc.y;
        let zone_w = out.info.zone.size.w;
        let zone_h = out.info.zone.size.h;

        let candidate = match self.elements[idx].window.last_geometry {
            Some(g) => g.size,
            None => self.elements[idx].window.size,
        };
        let (min_w, min_h) = match self.elements[idx].window.min_size {
            Some(s) => (s.w, s.h),
            None => (0, 0),
        };
        let (max_w, max_h) = match self.elements[idx].window.max_size {
            Some(s) => (s.w, s.h),
            None => (0, 0),
        };
        let pw = Self::placed_axis_exec(candidate.w, zone_w, min_w, max_w);
        let ph = Self::placed_axis_exec(candidate.h, zone_h, min_h, max_h);

        let pos = match position {
            Some(p) => p,
            None => match self.elements[idx].window.last_geometry {
                Some(g) => g.loc,
                None => {
                    let offset = self.elements[idx].window.offset;
                    Point { x: zone_x + zone_w / 2 - pw / 2 + offset.x, y: zone_y + zone_h / 2 - ph
                        / 2 + offset.y }
                },
            },
        };
        let off_x = out.info.position.x - out.location.x;
        let off_y = out.info.position.y - out.location.y;

        self.elements[idx].window.size = Extent { w: pw, h: ph };
        self.elements[idx].window.tiled = false;
        self.elements[idx].window.bounds = Some(Extent { w: zone_w, h: zone_h });
        self.elements[idx].window.committed = Some(
            Rect {
                loc: Point { x: pos.x + off_x, y: pos.y + off_y },
                size: Extent { w: pw, h: ph },
            },
        );
        self.elements[idx].location = pos;
    }

    /// Map a window into floating mode on the given output, at an
    /// explicit position or at the placement rules' choice.
    pub fn map(&mut self, window: WindowEntity, output: u64, position: Option<Point>)
        requires
            old(self).wf(),
            window.wf(),
            old(self).no_window(window.id),
            !old(self).no_output(output),
            match position {
                Some(p) => p.bounded(LIMIT as int),
                None => true,
            },
        ensures
            final(self).wf(),
            final(self).outputs@ == old(self).outputs@,
            exists|oi: int|
                #[trigger] old(self).output_idx_is(output, oi) && final(self).elements@ == old(
                    self,
                ).elements@.push(placed_element(window, old(self).outputs@[oi], position)),
    {
        let oi = match self.find_output(output) {
            Some(i) => i,
            None => {
                proof {
                    let w = choose|i: int|
                        0 <= i < self.outputs@.len() && self.outputs@[i].info.id == output;
                    assert(false);
                }
                0
            },
        };
        let idx = self.elements.len();
        self.elements.push(MappedWindow { window, location: Point { x: 0, y: 0 } });
        self.map_internal(idx, oi, position);
        proof {
            assert(self.elements@ =~= old(self).elements@.push(
                placed_element(window, old(self).outputs@[oi as int], position),
            ));
        }
    }
}

} // verus!
