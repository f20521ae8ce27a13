use lightningview::transform::{ViewportTransform, ZOOM_MAX, ZOOM_MIN, ZOOM_UNIT};

#[test]
fn identity_transform() {
    let t = ViewportTransform::identity();
    assert_eq!(t.zoom_milli, ZOOM_UNIT);
    assert_eq!((t.offset_x, t.offset_y), (0, 0));
}

#[test]
fn fit_scales_up_and_centers() {
    // 400x300 image in an 800x600 area: exactly double size, no margin.
    let t = ViewportTransform::fit(800, 600, 400, 300);
    assert_eq!(t.zoom_milli, 2000);
    assert_eq!((t.offset_x, t.offset_y), (0, 0));
}

#[test]
fn fit_letterboxes_a_wide_image() {
    // 1600x400 image in an 800x600 area: zoom 0.5, vertical margin 200 each.
    let t = ViewportTransform::fit(800, 600, 1600, 400);
    assert_eq!(t.zoom_milli, 500);
    assert_eq!(t.offset_x, 0);
    assert_eq!(t.offset_y, 200);
}

#[test]
fn fit_respects_the_zoom_floor() {
    // An enormous image in a tiny area cannot go below the zoom floor.
    let t = ViewportTransform::fit(2, 2, 10000, 10000);
    assert_eq!(t.zoom_milli, ZOOM_MIN);
}

#[test]
fn drag_moves_the_offset() {
    let mut t = ViewportTransform::identity();
    t.drag(30, -45);
    assert_eq!((t.offset_x, t.offset_y), (30, -45));
    t.drag(-10, 5);
    assert_eq!((t.offset_x, t.offset_y), (20, -40));
}

#[test]
fn scroll_zoom_takes_a_geometric_step() {
    let mut t = ViewportTransform::identity();
    // scroll 50 at zoom 1000: delta = 50*1000/200 = 250.
    t.scroll_zoom(0, 0, 50);
    assert_eq!(t.zoom_milli, 1250);
}

#[test]
fn scroll_zoom_is_anchored_at_the_pointer() {
    let mut t = ViewportTransform::identity();
    // Zoom in by 25% with the pointer at (100, 40): the image point under
    // the pointer stays fixed, so the offset moves by -(pointer * 0.25).
    t.scroll_zoom(100, 40, 50);
    assert_eq!(t.zoom_milli, 1250);
    assert_eq!(t.offset_x, -25);
    assert_eq!(t.offset_y, -10);
}

#[test]
fn zoom_never_falls_below_the_floor() {
    let mut t = ViewportTransform::identity();
    for _ in 0..50 {
        t.scroll_zoom(0, 0, -200);
    }
    assert_eq!(t.zoom_milli, ZOOM_MIN);
}

#[test]
fn zoom_never_exceeds_the_ceiling() {
    let mut t = ViewportTransform::identity();
    for _ in 0..100 {
        t.scroll_zoom(0, 0, 200);
    }
    assert_eq!(t.zoom_milli, ZOOM_MAX);
}
