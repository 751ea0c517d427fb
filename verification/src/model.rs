//! Plain data model of the capabilities the engine works on.
//!
//! The compositor holds windows and outputs behind shared handles; the
//! engine only ever reads and writes a fixed set of plain fields of
//! them. Those fields are modelled here as ordinary values, so every
//! rule of the engine can be stated over them. The surrounding
//! compositor converts between its handles and these records at the
//! engine's boundary.

use vstd::prelude::*;

use crate::geometry::{Extent, Point, Rect, LIMIT};

verus! {

/// Modeling assumption: a window's reported content offset (the
/// distance between its decorated bounding box and its content box) is
/// at most this many pixels per axis. Decorations and shadow margins
/// are a few dozen pixels in practice.
pub const OFFSET_LIMIT: i32 = 64;

/// Least usable extent of an output's non-exclusive zone per axis:
/// strictly more than twice the largest admissible content offset, so
/// that a window centred in the zone always overlaps its output even
/// after the offset adjustment. Any real output clears this easily.
pub const MIN_ZONE_EXTENT: i32 = 130;

/// Which edges of a window an interactive or discrete resize moves.
#[derive(Clone, Copy, PartialEq, Eq, Structural, Debug)]
pub struct ResizeEdges {
    pub left: bool,
    pub right: bool,
    pub top: bool,
    pub bottom: bool,
}

/// Whether a discrete resize shrinks or grows the window.
#[derive(Clone, Copy, PartialEq, Eq, Structural, Debug)]
pub enum ResizeDirection {
    Inwards,
    Outwards,
}

/// Snapshot taken when a resize begins: the active edges and the
/// geometry at resize start, used by the interactive drive loop to
/// compute deltas.
#[derive(Clone, Copy, PartialEq, Eq, Structural, Debug)]
pub struct ResizeData {
    pub edges: ResizeEdges,
    pub initial_location: Point,
    pub initial_size: Extent,
}

/// One floating entity: a single window or a tabbed stack. The fields
/// are the ones the layout engine reads and writes on the compositor's
/// shared window handle.
#[derive(Clone, Debug)]
pub struct WindowEntity {
    /// Stable identity of the handle.
    pub id: u64,
    /// The constituent toplevel surfaces (one for a plain window,
    /// several for a stack), identified by stable ids.
    pub surfaces: Vec<u64>,
    /// The content box offset the window reports inside its decorated
    /// bounding box.
    pub offset: Point,
    /// The window's current content size.
    pub size: Extent,
    /// Declared minimum size, if the window declares one.
    pub min_size: Option<Extent>,
    /// Declared maximum size, if the window declares one.
    pub max_size: Option<Extent>,
    /// Restore slot: the floating geometry cached before maximizing or
    /// before unregistering a non-maximized window.
    pub last_geometry: Option<Rect>,
    /// Idle (`None`) or actively resizing with the recorded snapshot.
    pub resize_state: Option<ResizeData>,
    /// Whether the window is currently maximized.
    pub maximized: bool,
    /// Whether the window was told it is tiled.
    pub tiled: bool,
    /// Whether the window was told it is being interactively resized.
    pub resizing: bool,
    /// The size bound last advertised to the window.
    pub bounds: Option<Extent>,
    /// The geometry last committed to the underlying surface, in the
    /// output's own absolute coordinates.
    pub committed: Option<Rect>,
    /// Whether the window anchors committed geometry at its own
    /// reported content offset (legacy protocol windows own their
    /// decoration offset) instead of the local origin.
    pub owns_origin: bool,
}

impl WindowEntity {
    /// Well-formedness of the fields the engine relies on.
    pub open spec fn wf(self) -> bool {
        &&& self.size.wf()
        &&& self.offset.bounded(OFFSET_LIMIT as int)
        &&& match self.min_size {
            Some(s) => 1 <= s.w <= LIMIT && 1 <= s.h <= LIMIT,
            None => true,
        }
        &&& match self.max_size {
            Some(s) => 1 <= s.w <= LIMIT && 1 <= s.h <= LIMIT,
            None => true,
        }
        &&& match self.last_geometry {
            Some(g) => g.wf(),
            None => true,
        }
    }

    /// Spec view of the declared minimum along one axis, with `0`
    /// standing for "undeclared" as the placement rules expect.
    pub open spec fn min_w(self) -> int {
        match self.min_size {
            Some(s) => s.w as int,
            None => 0,
        }
    }

    pub open spec fn min_h(self) -> int {
        match self.min_size {
            Some(s) => s.h as int,
            None => 0,
        }
    }

    pub open spec fn max_w(self) -> int {
        match self.max_size {
            Some(s) => s.w as int,
            None => 0,
        }
    }

    pub open spec fn max_h(self) -> int {
        match self.max_size {
            Some(s) => s.h as int,
            None => 0,
        }
    }

    /// Whether one of the constituent surfaces is `surface`.
    pub open spec fn has_surface(self, surface: u64) -> bool {
        self.surfaces@.contains(surface)
    }
}

/// Fractional output scale as an exact rational, numerator over
/// denominator (for example 3/2 for a 150% scale).
#[derive(Clone, Copy, PartialEq, Eq, Structural, Debug)]
pub struct Scale {
    pub num: u32,
    pub den: u32,
}

impl Scale {
    pub open spec fn wf(self) -> bool {
        1 <= self.num <= 65536 && 1 <= self.den <= 65536
    }
}

/// A display: absolute logical position, logical size, fractional
/// scale, and the non-exclusive zone left after panels and docks,
/// given relative to the output's own top-left corner.
#[derive(Clone, Copy, PartialEq, Eq, Structural, Debug)]
pub struct OutputInfo {
    /// Stable identity of the output.
    pub id: u64,
    /// The output's own absolute logical position.
    pub position: Point,
    /// Logical size.
    pub size: Extent,
    /// Fractional scale factor.
    pub scale: Scale,
    /// Usable rectangle after subtracting reserved areas, relative to
    /// the output.
    pub zone: Rect,
}

impl OutputInfo {
    pub open spec fn wf(self) -> bool {
        &&& self.position.bounded(LIMIT as int)
        &&& 1 <= self.size.w <= LIMIT && 1 <= self.size.h <= LIMIT
        &&& self.scale.wf()
        &&& 0 <= self.zone.loc.x && 0 <= self.zone.loc.y
        &&& MIN_ZONE_EXTENT <= self.zone.size.w && MIN_ZONE_EXTENT <= self.zone.size.h
        &&& self.zone.right() <= self.size.w && self.zone.bottom() <= self.size.h
    }
}

} // verus!
