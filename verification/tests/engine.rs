use floating_layout::geometry::{Extent, Point, Rect};
use floating_layout::layout::{FloatingLayout, PhysPoint, ResizeGrab};
use floating_layout::model::{OutputInfo, ResizeDirection, ResizeEdges, Scale, WindowEntity};

fn output(id: u64, x: i32, y: i32, w: i32, h: i32) -> OutputInfo {
    OutputInfo {
        id,
        position: Point { x, y },
        size: Extent { w, h },
        scale: Scale { num: 1, den: 1 },
        zone: Rect { loc: Point { x: 0, y: 0 }, size: Extent { w, h } },
    }
}

fn window(id: u64, w: i32, h: i32) -> WindowEntity {
    WindowEntity {
        id,
        surfaces: vec![id * 10],
        offset: Point { x: 0, y: 0 },
        size: Extent { w, h },
        min_size: None,
        max_size: None,
        last_geometry: None,
        resize_state: None,
        maximized: false,
        tiled: false,
        resizing: false,
        bounds: None,
        committed: None,
        owns_origin: false,
    }
}

fn edges(left: bool, right: bool, top: bool, bottom: bool) -> ResizeEdges {
    ResizeEdges { left, right, top, bottom }
}

#[test]
fn placement_two_thirds_rule() {
    // zone 1920x1080, natural size 2000x100: width shrinks to the
    // two-thirds share, height is kept
    let mut eng = FloatingLayout::new();
    eng.map_output(output(1, 0, 0, 1920, 1080), Point { x: 0, y: 0 });
    eng.map(window(7, 2000, 100), 1, None);
    let g = eng.element_geometry(7).unwrap();
    assert_eq!(g.size.w, 1280);
    assert_eq!(g.size.h, 100);
}

#[test]
fn placement_respects_zone_and_centres() {
    let mut eng = FloatingLayout::new();
    eng.map_output(output(1, 0, 0, 1920, 1080), Point { x: 0, y: 0 });
    eng.map(window(3, 400, 300), 1, None);
    let g = eng.element_geometry(3).unwrap();
    assert_eq!(g.size, Extent { w: 400, h: 300 });
    assert_eq!(g.loc, Point { x: 960 - 200, y: 540 - 150 });
}

#[test]
fn restore_round_trip_returns_exact_geometry() {
    let mut eng = FloatingLayout::new();
    eng.map_output(output(1, 0, 0, 1920, 1080), Point { x: 0, y: 0 });
    eng.map(window(5, 400, 300), 1, Some(Point { x: 100, y: 50 }));
    eng.maximize_request(50);
    let restored = eng.unmaximize_request(50).unwrap();
    assert_eq!(restored, Extent { w: 400, h: 300 });
    let g = eng.element_geometry(5).unwrap();
    assert_eq!(g.loc, Point { x: 100, y: 50 });
    assert_eq!(g.size, Extent { w: 400, h: 300 });
}

#[test]
fn resize_clamps_to_minimum_and_shifts_left_edge() {
    // min 360x240, shrinking 500x500 by 200 on the left edge inwards:
    // width clamps to 360
    let mut eng = FloatingLayout::new();
    eng.map_output(output(1, 0, 0, 1920, 1080), Point { x: 0, y: 0 });
    let mut w = window(9, 500, 500);
    w.min_size = Some(Extent { w: 360, h: 240 });
    eng.map(w, 1, Some(Point { x: 600, y: 300 }));
    let handled = eng.resize(Some(90), ResizeDirection::Inwards, edges(true, false, false, false), 200);
    assert!(handled);
    let g = eng.element_geometry(9).unwrap();
    assert_eq!(g.size.w, 360);
    assert_eq!(g.size.h, 500);
}

#[test]
fn resize_never_exceeds_output_union() {
    let mut eng = FloatingLayout::new();
    eng.map_output(output(1, 0, 0, 1920, 1080), Point { x: 0, y: 0 });
    eng.map(window(4, 1000, 800), 1, Some(Point { x: 500, y: 200 }));
    let handled = eng.resize(Some(40), ResizeDirection::Outwards, edges(false, true, false, true), 5000);
    assert!(handled);
    let g = eng.element_geometry(4).unwrap();
    assert!(g.loc.x + g.size.w <= 1920);
    assert!(g.loc.y + g.size.h <= 1080);
}

#[test]
fn resize_unknown_surface_not_handled() {
    let mut eng = FloatingLayout::new();
    eng.map_output(output(1, 0, 0, 1920, 1080), Point { x: 0, y: 0 });
    assert!(!eng.resize(Some(999), ResizeDirection::Inwards, edges(true, false, false, false), 10));
    assert!(!eng.resize(None, ResizeDirection::Inwards, edges(true, false, false, false), 10));
}

#[test]
fn resize_request_needs_pointer() {
    let mut eng = FloatingLayout::new();
    eng.map_output(output(1, 0, 0, 1920, 1080), Point { x: 0, y: 0 });
    eng.map(window(2, 640, 480), 1, Some(Point { x: 10, y: 20 }));
    assert_eq!(eng.resize_request(2, false, edges(false, true, false, false)), None);
    let grab = eng.resize_request(2, true, edges(false, true, false, false)).unwrap();
    assert_eq!(
        grab,
        ResizeGrab {
            window: 2,
            edges: edges(false, true, false, false),
            initial_location: Point { x: 10, y: 20 },
            initial_size: Extent { w: 640, h: 480 },
        }
    );
}

#[test]
fn refresh_replaces_orphans() {
    let mut eng = FloatingLayout::new();
    eng.map_output(output(1, 0, 0, 1920, 1080), Point { x: 0, y: 0 });
    // far outside every output
    eng.map(window(6, 400, 300), 1, Some(Point { x: 50_000, y: 50_000 }));
    eng.refresh();
    let g = eng.element_geometry(6).unwrap();
    assert!(g.loc.x < 1920 && g.loc.x + g.size.w > 0);
    assert!(g.loc.y < 1080 && g.loc.y + g.size.h > 0);
}

#[test]
fn unmap_output_reports_leave_and_enter() {
    let mut eng = FloatingLayout::new();
    eng.map_output(output(1, 0, 0, 1920, 1080), Point { x: 0, y: 0 });
    eng.map_output(output(2, 1920, 0, 1280, 1024), Point { x: 1920, y: 0 });
    eng.map(window(8, 400, 300), 2, Some(Point { x: 2000, y: 100 }));
    let (left, entered) = eng.unmap_output(2);
    assert_eq!(left, vec![(80, 2)]);
    assert_eq!(entered, vec![(80, 1)]);
    let g = eng.element_geometry(8).unwrap();
    assert!(g.loc.x < 1920);
}

#[test]
fn merge_conserves_windows_and_covers_them() {
    let mut a = FloatingLayout::new();
    a.map_output(output(1, 0, 0, 1920, 1080), Point { x: 0, y: 0 });
    a.map(window(1, 400, 300), 1, Some(Point { x: 10, y: 10 }));

    let mut b = FloatingLayout::new();
    b.map_output(output(2, 1920, 0, 1280, 1024), Point { x: 0, y: 0 });
    b.map(window(2, 500, 400), 2, Some(Point { x: 20, y: 30 }));
    b.map(window(3, 300, 200), 2, None);

    a.merge(b);
    let order = a.mapped();
    assert_eq!(order.len(), 3);
    // most recently raised first
    assert_eq!(order, vec![3, 2, 1]);
    for id in [1u64, 2, 3] {
        let g = a.element_geometry(id).unwrap();
        assert!(g.loc.x < 1920 && g.loc.x + g.size.w > 0);
    }
}

#[test]
fn unmap_snapshots_restore_geometry() {
    let mut eng = FloatingLayout::new();
    eng.map_output(output(1, 0, 0, 1920, 1080), Point { x: 0, y: 0 });
    eng.map(window(5, 640, 480), 1, Some(Point { x: 111, y: 222 }));
    let w = eng.unmap(5).unwrap();
    assert_eq!(
        w.last_geometry,
        Some(Rect { loc: Point { x: 111, y: 222 }, size: Extent { w: 640, h: 480 } })
    );
    assert!(eng.unmap(5).is_none());
    assert_eq!(eng.mapped(), Vec::<u64>::new());
}

#[test]
fn most_overlapped_output_prefers_larger_share() {
    let mut eng = FloatingLayout::new();
    eng.map_output(output(1, 0, 0, 1920, 1080), Point { x: 0, y: 0 });
    eng.map_output(output(2, 1920, 0, 1920, 1080), Point { x: 1920, y: 0 });
    // window straddles the boundary, mostly on output 2
    eng.map(window(4, 600, 400), 1, Some(Point { x: 1920 - 100, y: 10 }));
    assert_eq!(eng.most_overlapped_output_for_element(4), Some(2));
    assert_eq!(eng.most_overlapped_output_for_element(77), None);
}

#[test]
fn windows_lists_surfaces_top_first() {
    let mut eng = FloatingLayout::new();
    eng.map_output(output(1, 0, 0, 1920, 1080), Point { x: 0, y: 0 });
    let mut w1 = window(1, 400, 300);
    w1.surfaces = vec![11, 12];
    eng.map(w1, 1, None);
    eng.map(window(2, 400, 300), 1, None);
    assert_eq!(eng.windows(), vec![20, 11, 12]);
}

#[test]
fn render_output_orders_windows_and_marks_focused() {
    let mut eng = FloatingLayout::new();
    eng.map_output(output(1, 0, 0, 1920, 1080), Point { x: 0, y: 0 });
    eng.map(window(1, 400, 300), 1, Some(Point { x: 10, y: 20 }));
    eng.map(window(2, 500, 400), 1, Some(Point { x: 30, y: 40 }));
    eng.map(window(3, 300, 200), 1, Some(Point { x: 50, y: 60 }));
    let entries = eng.render_output(1, Some(2), true, 2);
    let ids: Vec<u64> = entries.iter().map(|e| e.window).collect();
    assert_eq!(ids, vec![1, 2, 3]);
    // scale 1:1 keeps logical coordinates
    assert_eq!(entries[0].location, PhysPoint { x: 10, y: 20 });
    assert_eq!(entries[0].resize_overlay, None);
    assert_eq!(entries[0].focus_ring, None);
    // the focused window carries both overlays, grown 18 px per side
    let grown = Rect { loc: Point { x: 30 - 18, y: 40 - 18 }, size: Extent { w: 500 + 36, h: 400 + 36 } };
    assert_eq!(entries[1].resize_overlay, Some(grown));
    assert_eq!(entries[1].focus_ring, Some(grown));
    assert_eq!(entries[2].resize_overlay, None);
}

#[test]
fn render_output_ungrown_ring_and_thickness_zero() {
    let mut eng = FloatingLayout::new();
    eng.map_output(output(1, 0, 0, 1920, 1080), Point { x: 0, y: 0 });
    eng.map(window(4, 640, 480), 1, Some(Point { x: 100, y: 50 }));
    // no resize overlay: the ring keeps the window box
    let entries = eng.render_output(1, Some(4), false, 1);
    assert_eq!(
        entries[0].focus_ring,
        Some(Rect { loc: Point { x: 100, y: 50 }, size: Extent { w: 640, h: 480 } })
    );
    assert_eq!(entries[0].resize_overlay, None);
    // thickness 0 disables the ring
    let entries = eng.render_output(1, Some(4), false, 0);
    assert_eq!(entries[0].focus_ring, None);
}

#[test]
fn render_output_rounds_physical_location_to_nearest() {
    let mut eng = FloatingLayout::new();
    let mut out = output(1, 0, 0, 1920, 1080);
    out.scale = Scale { num: 3, den: 2 };
    eng.map_output(out, Point { x: 0, y: 0 });
    eng.map(window(5, 400, 300), 1, Some(Point { x: 101, y: 33 }));
    let entries = eng.render_output(1, None, false, 0);
    // 101 * 3/2 = 151.5 rounds half away from zero to 152;
    // 33 * 3/2 = 49.5 rounds to 50
    assert_eq!(entries[0].location, PhysPoint { x: 152, y: 50 });
}

#[test]
fn render_output_skips_windows_off_the_output() {
    let mut eng = FloatingLayout::new();
    eng.map_output(output(1, 0, 0, 1920, 1080), Point { x: 0, y: 0 });
    eng.map_output(output(2, 1920, 0, 1280, 1024), Point { x: 1920, y: 0 });
    eng.map(window(6, 400, 300), 1, Some(Point { x: 10, y: 10 }));
    eng.map(window(7, 400, 300), 2, Some(Point { x: 2000, y: 10 }));
    let entries = eng.render_output(1, None, false, 0);
    let ids: Vec<u64> = entries.iter().map(|e| e.window).collect();
    assert_eq!(ids, vec![6]);
}

#[test]
fn merge_translates_by_shared_output_offset() {
    // the same physical output is recorded at different index
    // positions in the two engines: the transfer shifts by the
    // difference
    let mut a = FloatingLayout::new();
    a.map_output(output(1, 0, 0, 1920, 1080), Point { x: 100, y: 0 });

    let mut b = FloatingLayout::new();
    b.map_output(output(1, 0, 0, 1920, 1080), Point { x: 0, y: 0 });
    b.map(window(9, 400, 300), 1, Some(Point { x: 20, y: 30 }));

    a.merge(b);
    let g = a.element_geometry(9).unwrap();
    assert_eq!(g.loc, Point { x: 120, y: 30 });
}
