use lightningview::bitmap::Bitmap;
use lightningview::errors::ViewerError;
use lightningview::model::{Frame, ImageModel, LoadedImage};
use lightningview::tiles::RenderPlan;
use lightningview::viewer::ViewerState;

fn files() -> Vec<String> {
    vec!["a.png".to_string(), "b.png".to_string(), "c.png".to_string()]
}

fn solid(w: usize, h: usize, v: u8) -> Bitmap {
    Bitmap::from_rgba(w, h, vec![v; w * h * 4]).unwrap()
}

fn two_frame_animation() -> LoadedImage {
    LoadedImage::Animation(vec![
        Frame { bitmap: solid(2, 2, 10), delay_ms: 100 },
        Frame { bitmap: solid(2, 2, 20), delay_ms: 50 },
    ])
}

#[test]
fn successful_load_replaces_the_image_and_resets_fit() {
    let mut v = ViewerState::new(files(), 0, false);
    v.toggle_fit();
    assert!(!v.scaled_to_fit);
    v.apply_load_result(Ok(LoadedImage::Still(solid(8, 6, 1))));
    let m = v.model.as_ref().unwrap();
    assert_eq!((m.width(), m.height()), (8, 6));
    assert!(v.scaled_to_fit);
    assert!(v.last_error.is_none());
}

#[test]
fn failed_load_keeps_the_previous_image() {
    // Propagation policy: only a successful decode replaces the image; a
    // failure records the error and leaves the display untouched.
    let mut v = ViewerState::new(files(), 0, false);
    v.apply_load_result(Ok(LoadedImage::Still(solid(8, 6, 1))));
    v.apply_load_result(Err(ViewerError::DecodeFailure("corrupt payload".to_string())));
    let m = v.model.as_ref().expect("previous image still displayed");
    assert_eq!((m.width(), m.height()), (8, 6));
    assert_eq!(
        v.last_error,
        Some(ViewerError::DecodeFailure("corrupt payload".to_string()))
    );
}

#[test]
fn animation_advances_on_the_wall_clock() {
    let mut v = ViewerState::new(files(), 0, false);
    v.apply_load_result(Ok(two_frame_animation()));
    assert_eq!(v.model.as_ref().unwrap().current_frame, 0);
    v.tick(60);
    assert_eq!(v.model.as_ref().unwrap().current_frame, 0);
    v.tick(60);
    // 120ms accumulated >= 100ms: advance, keeping the 20ms remainder.
    let m = v.model.as_ref().unwrap();
    assert_eq!(m.current_frame, 1);
    assert_eq!(m.elapsed_ms, 20);
    v.tick(30);
    // 50ms >= the second frame's 50ms delay: wrap to frame 0.
    assert_eq!(v.model.as_ref().unwrap().current_frame, 0);
}

#[test]
fn current_bitmap_follows_the_frame() {
    let m = ImageModel::new(two_frame_animation());
    assert_eq!(m.current_bitmap().pixels[0], 10);
    let mut m = m;
    m.advance_animation(100);
    assert_eq!(m.current_frame, 1);
    assert_eq!(m.current_bitmap().pixels[0], 20);
}

#[test]
fn drag_and_scroll_leave_fit_mode() {
    let mut v = ViewerState::new(files(), 0, false);
    v.apply_load_result(Ok(LoadedImage::Still(solid(8, 6, 1))));
    assert!(v.scaled_to_fit);
    v.on_drag(5, 5);
    assert!(!v.scaled_to_fit);
    v.toggle_fit();
    assert!(v.scaled_to_fit);
    v.on_scroll(0, 0, 10);
    assert!(!v.scaled_to_fit);
}

#[test]
fn layout_recomputes_the_fit_transform_each_pass() {
    let mut v = ViewerState::new(files(), 0, false);
    v.apply_load_result(Ok(LoadedImage::Still(solid(400, 300, 1))));
    v.layout(800, 600);
    assert_eq!(v.transform.zoom_milli, 2000);
    // While fit mode is on, a manual-looking transform is overwritten on
    // the next pass rather than persisted.
    v.transform.offset_x = 999;
    v.layout(800, 600);
    assert_eq!(v.transform.offset_x, 0);
}

#[test]
fn delete_flow_asks_first_and_mutates_only_on_success() {
    let mut v = ViewerState::new(files(), 1, false);
    v.request_delete();
    assert!(v.show_delete_confirmation);
    v.cancel_delete();
    assert!(!v.show_delete_confirmation);
    assert_eq!(v.nav.len(), 3);

    v.request_delete();
    v.on_delete_outcome(Err("permission denied".to_string()));
    assert_eq!(v.nav.len(), 3, "a failed delete leaves the lists untouched");
    assert_eq!(
        v.last_error,
        Some(ViewerError::FileSystemFailure("permission denied".to_string()))
    );

    v.request_delete();
    v.on_delete_outcome(Ok(()));
    assert_eq!(v.nav.len(), 2);
    assert_eq!(v.nav.files, vec!["a.png".to_string(), "c.png".to_string()]);
    assert!(!v.show_delete_confirmation);
}

#[test]
fn fullscreen_toggle_flips_the_flag() {
    let mut v = ViewerState::new(files(), 0, true);
    assert!(v.fullscreen);
    v.toggle_fullscreen();
    assert!(!v.fullscreen);
}

#[test]
fn render_plan_flows_through_the_viewer() {
    let mut v = ViewerState::new(files(), 0, false);
    assert!(v.plan_render(800, 600).is_none(), "nothing loaded yet");

    v.apply_load_result(Ok(LoadedImage::Still(solid(640, 480, 9))));
    assert_eq!(v.plan_render(800, 600), Some(RenderPlan::Whole));

    v.apply_load_result(Ok(LoadedImage::Still(solid(4096, 1024, 9))));
    // At the fit zoom for an 800x600 area, the image renders well below the
    // preview's resolution.
    v.layout(800, 600);
    assert_eq!(v.plan_render(800, 600), Some(RenderPlan::Preview));
    assert_eq!(v.renderer.cache.len(), 0);

    // Zoom far in: the plan switches to tiles, and caching them works
    // through the viewer alone.
    v.on_scroll(400, 300, 200);
    v.on_scroll(400, 300, 200);
    v.on_scroll(400, 300, 200);
    match v.plan_render(800, 600) {
        Some(RenderPlan::Tiles { row0, row1, col0, col1 }) => {
            for r in row0..=row1 {
                for c in col0..=col1 {
                    assert!(v.ensure_visible_tile(r, c));
                }
            }
            assert!(v.renderer.cache.len() > 0);
        }
        other => panic!("expected tiles after zooming in, got {:?}", other),
    }
    assert!(!v.ensure_visible_tile(999, 999), "out-of-grid coordinates are refused");

    // Zoom back out below the preview scale: the cache is purged.
    for _ in 0..40 {
        v.on_scroll(400, 300, -200);
    }
    assert_eq!(v.plan_render(800, 600), Some(RenderPlan::Preview));
    assert_eq!(v.renderer.cache.len(), 0);
}
