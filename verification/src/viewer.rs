use vstd::prelude::*;

use crate::errors::ViewerError;
use crate::model::{ImageModel, LoadedImage};
use crate::nav::NavState;
use crate::tiles::{grid_cols, grid_rows, spec_needs_tiling, RenderPlan, TiledRenderer};
use crate::transform::{ViewportTransform, COORD_LIMIT, SCROLL_LIMIT};

verus! {

/// The whole viewer in one owned aggregate: the displayed image, the
/// navigation state over the sibling files, the viewport transform with its
/// fit/manual mode, the tiled renderer, and the last error. Every event is a
/// method taking the state by exclusive reference; nothing here touches a
/// window, a file or the clipboard.
pub struct ViewerState {
    pub nav: NavState,
    pub model: Option<ImageModel>,
    pub renderer: TiledRenderer,
    pub transform: ViewportTransform,
    /// Fit-to-screen mode: while set, the transform is recomputed every
    /// layout pass; any drag or scroll switches to manual mode.
    pub scaled_to_fit: bool,
    pub fullscreen: bool,
    pub show_delete_confirmation: bool,
    pub last_error: Option<ViewerError>,
}

impl ViewerState {
    pub open spec fn wf(&self) -> bool {
        &&& self.nav.wf()
        &&& match self.model {
            Some(m) => m.wf(),
            None => true,
        }
        &&& self.renderer.wf()
        &&& self.transform.wf()
    }

    /// Start viewing `files` at `start`, with nothing decoded yet: name
    /// order, fit mode, an identity transform and a clean slate.
    pub fn new(files: Vec<String>, start: usize, fullscreen: bool) -> (v: ViewerState)
        ensures
            v.wf(),
            v.nav.files@ == files@,
            !v.nav.randomized,
            crate::nav::is_identity(v.nav.order@),
            v.nav.position == if (start as int) < files@.len() {
                start as int
            } else {
                0
            },
            v.model is None,
            v.renderer.cache.entries@.len() == 0,
            v.renderer.preview is None,
            v.transform.zoom_milli == crate::transform::ZOOM_UNIT,
            v.transform.offset_x == 0,
            v.transform.offset_y == 0,
            v.scaled_to_fit,
            v.fullscreen == fullscreen,
            !v.show_delete_confirmation,
            v.last_error is None,
    {
        ViewerState {
            nav: NavState::new(files, start),
            model: None,
            renderer: TiledRenderer::new(),
            transform: ViewportTransform::identity(),
            scaled_to_fit: true,
            fullscreen,
            show_delete_confirmation: false,
            last_error: None,
        }
    }

    /// Take in the outcome of a load. A successful decode replaces the
    /// displayed image, resets playback to frame zero, re-enables fit mode,
    /// readies the renderer (dropping every stale tile) and clears the error.
    /// A failed one leaves the previously displayed image, the renderer and
    /// the transform intact and unmodified, and only records the error: the
    /// viewer stays interactive.
    pub fn apply_load_result(&mut self, result: Result<LoadedImage, ViewerError>)
        requires
            old(self).wf(),
            result matches Ok(img) ==> img.wf(),
        ensures
            final(self).wf(),
            final(self).nav == old(self).nav,
            final(self).fullscreen == old(self).fullscreen,
            final(self).show_delete_confirmation == old(self).show_delete_confirmation,
            match result {
                Ok(img) => {
                    &&& final(self).model matches Some(m) && m.image == img && m.current_frame
                        == 0 && m.elapsed_ms == 0
                    &&& final(self).scaled_to_fit
                    &&& final(self).last_error is None
                    &&& final(self).renderer.cache.entries@.len() == 0
                    &&& crate::tiles::spec_needs_tiling(
                        final(self).model->Some_0.spec_width(),
                        final(self).model->Some_0.spec_height(),
                    ) ==> final(self).renderer.preview is Some
                },
                Err(e) => {
                    &&& final(self).model == old(self).model
                    &&& final(self).renderer == old(self).renderer
                    &&& final(self).transform == old(self).transform
                    &&& final(self).scaled_to_fit == old(self).scaled_to_fit
                    &&& final(self).last_error == Some(e)
                },
            },
    {
        match result {
            Ok(img) => {
                let m = ImageModel::new(img);
                {
                    let b = m.current_bitmap();
                    self.renderer.prepare(b);
                }
                self.model = Some(m);
                self.scaled_to_fit = true;
                self.last_error = None;
            },
            Err(e) => {
                self.last_error = Some(e);
            },
        }
    }

    /// Feed elapsed wall-clock time to animation playback: the accumulator
    /// grows by `dt_ms`, and on reaching the showing frame's delay the next
    /// frame is selected, wrapping after the last. Still images never change.
    pub fn tick(&mut self, dt_ms: u64)
        requires
            old(self).wf(),
        ensures
            final(self).wf(),
            final(self).nav == old(self).nav,
            final(self).transform == old(self).transform,
            final(self).renderer == old(self).renderer,
            final(self).scaled_to_fit == old(self).scaled_to_fit,
            final(self).fullscreen == old(self).fullscreen,
            final(self).show_delete_confirmation == old(self).show_delete_confirmation,
            final(self).last_error == old(self).last_error,
            old(self).model is None ==> *final(self) == *old(self),
            old(self).model matches Some(m) ==> {
                &&& final(self).model is Some
                &&& final(self).model->Some_0.image == m.image
                &&& match m.image {
                    LoadedImage::Still(_) => final(self).model == old(self).model,
                    LoadedImage::Animation(frames) => {
                        let acc = if m.elapsed_ms + dt_ms <= u64::MAX {
                            m.elapsed_ms + dt_ms
                        } else {
                            u64::MAX as int
                        };
                        let delay = frames@[m.current_frame as int].delay_ms as int;
                        if acc >= delay {
                            &&& final(self).model->Some_0.elapsed_ms == acc - delay
                            &&& final(self).model->Some_0.current_frame as int == (m.current_frame
                                + 1) % (frames@.len() as int)
                        } else {
                            &&& final(self).model->Some_0.elapsed_ms == acc
                            &&& final(self).model->Some_0.current_frame == m.current_frame
                        }
                    },
                }
            },
    {
        match &mut self.model {
            Some(m) => {
                m.advance_animation(dt_ms);
            },
            None => {},
        }
    }

    /// A primary-button drag pans the image and leaves fit mode.
    pub fn on_drag(&mut self, dx: i64, dy: i64)
        requires
            old(self).wf(),
            -COORD_LIMIT <= dx <= COORD_LIMIT,
            -COORD_LIMIT <= dy <= COORD_LIMIT,
        ensures
            final(self).wf(),
            final(self).nav == old(self).nav,
            final(self).model == old(self).model,
            final(self).renderer == old(self).renderer,
            final(self).fullscreen == old(self).fullscreen,
            final(self).show_delete_confirmation == old(self).show_delete_confirmation,
            final(self).last_error == old(self).last_error,
            !final(self).scaled_to_fit,
            final(self).transform.zoom_milli == old(self).transform.zoom_milli,
            final(self).transform.offset_x == crate::transform::clamp_spec(
                old(self).transform.offset_x + dx,
                -crate::transform::OFFSET_LIMIT as int,
                crate::transform::OFFSET_LIMIT as int,
            ),
    {
        self.transform.drag(dx, dy);
        self.scaled_to_fit = false;
    }

    /// A wheel scroll zooms about the pointer and leaves fit mode.
    pub fn on_scroll(&mut self, pointer_x: i64, pointer_y: i64, scroll: i64)
        requires
            old(self).wf(),
            -COORD_LIMIT <= pointer_x <= COORD_LIMIT,
            -COORD_LIMIT <= pointer_y <= COORD_LIMIT,
            -SCROLL_LIMIT <= scroll <= SCROLL_LIMIT,
            scroll != 0,
        ensures
            final(self).wf(),
            final(self).nav == old(self).nav,
            final(self).model == old(self).model,
            final(self).renderer == old(self).renderer,
            final(self).fullscreen == old(self).fullscreen,
            final(self).show_delete_confirmation == old(self).show_delete_confirmation,
            final(self).last_error == old(self).last_error,
            !final(self).scaled_to_fit,
            final(self).transform.zoom_milli == ViewportTransform::spec_scroll_zoom(
                old(self).transform.zoom_milli as int,
                scroll as int,
            ),
    {
        self.transform.scroll_zoom(pointer_x, pointer_y, scroll);
        self.scaled_to_fit = false;
    }

    /// One layout pass: while fit mode is on and an image is displayed, the
    /// transform is recomputed from the available area and the image size,
    /// never persisted.
    pub fn layout(&mut self, avail_w: i64, avail_h: i64)
        requires
            old(self).wf(),
            0 <= avail_w <= COORD_LIMIT,
            0 <= avail_h <= COORD_LIMIT,
        ensures
            final(self).wf(),
            final(self).nav == old(self).nav,
            final(self).model == old(self).model,
            final(self).renderer == old(self).renderer,
            final(self).scaled_to_fit == old(self).scaled_to_fit,
            final(self).fullscreen == old(self).fullscreen,
            final(self).show_delete_confirmation == old(self).show_delete_confirmation,
            final(self).last_error == old(self).last_error,
            !(old(self).scaled_to_fit && old(self).model is Some) ==> final(self).transform == old(
                self,
            ).transform,
            (old(self).scaled_to_fit && old(self).model is Some) ==> {
                let zoom = ViewportTransform::spec_fit_zoom(
                    avail_w as int,
                    avail_h as int,
                    old(self).model->Some_0.spec_width(),
                    old(self).model->Some_0.spec_height(),
                );
                &&& final(self).transform.zoom_milli == zoom
                &&& final(self).transform.offset_x as int == crate::transform::div_trunc(
                    avail_w as int - old(self).model->Some_0.spec_width() * zoom / (
                    crate::transform::ZOOM_UNIT as int),
                    2,
                )
                &&& final(self).transform.offset_y as int == crate::transform::div_trunc(
                    avail_h as int - old(self).model->Some_0.spec_height() * zoom / (
                    crate::transform::ZOOM_UNIT as int),
                    2,
                )
            },
    {
        if self.scaled_to_fit {
            let dims = match &self.model {
                Some(m) => Some((m.width(), m.height())),
                None => None,
            };
            match dims {
                Some((w, h)) => {
                    self.transform = ViewportTransform::fit(avail_w, avail_h, w as i64, h as i64);
                },
                None => {},
            }
        }
    }

    /// Switch fit-to-screen mode on or off explicitly.
    pub fn toggle_fit(&mut self)
        requires
            old(self).wf(),
        ensures
            final(self).wf(),
            final(self).scaled_to_fit == !old(self).scaled_to_fit,
            final(self).nav == old(self).nav,
            final(self).model == old(self).model,
            final(self).renderer == old(self).renderer,
            final(self).transform == old(self).transform,
            final(self).fullscreen == old(self).fullscreen,
            final(self).show_delete_confirmation == old(self).show_delete_confirmation,
            final(self).last_error == old(self).last_error,
    {
        self.scaled_to_fit = !self.scaled_to_fit;
    }

    pub fn toggle_fullscreen(&mut self)
        requires
            old(self).wf(),
        ensures
            final(self).wf(),
            final(self).fullscreen == !old(self).fullscreen,
            final(self).nav == old(self).nav,
            final(self).model == old(self).model,
            final(self).renderer == old(self).renderer,
            final(self).transform == old(self).transform,
            final(self).scaled_to_fit == old(self).scaled_to_fit,
            final(self).show_delete_confirmation == old(self).show_delete_confirmation,
            final(self).last_error == old(self).last_error,
    {
        self.fullscreen = !self.fullscreen;
    }

    /// A delete request only raises the confirmation; nothing is touched
    /// until the outcome arrives.
    pub fn request_delete(&mut self)
        requires
            old(self).wf(),
        ensures
            final(self).wf(),
            final(self).show_delete_confirmation,
            final(self).nav == old(self).nav,
            final(self).model == old(self).model,
            final(self).renderer == old(self).renderer,
            final(self).transform == old(self).transform,
            final(self).scaled_to_fit == old(self).scaled_to_fit,
            final(self).fullscreen == old(self).fullscreen,
            final(self).last_error == old(self).last_error,
    {
        self.show_delete_confirmation = true;
    }

    pub fn cancel_delete(&mut self)
        requires
            old(self).wf(),
        ensures
            final(self).wf(),
            !final(self).show_delete_confirmation,
            final(self).nav == old(self).nav,
            final(self).model == old(self).model,
            final(self).renderer == old(self).renderer,
            final(self).transform == old(self).transform,
            final(self).scaled_to_fit == old(self).scaled_to_fit,
            final(self).fullscreen == old(self).fullscreen,
            final(self).last_error == old(self).last_error,
    {
        self.show_delete_confirmation = false;
    }

    /// Decide what this frame draws. `None` when nothing is displayed, or
    /// when the image would need tiles but has no preview to fall back on.
    /// Otherwise the renderer's decision: the whole image within the surface
    /// ceiling; the preview at or below its resolution, with the tile cache
    /// purged entirely; or the inclusive grid ranges of the visible tiles,
    /// with the cache left alone.
    pub fn plan_render(&mut self, view_w: i64, view_h: i64) -> (r: Option<RenderPlan>)
        requires
            old(self).wf(),
            0 <= view_w <= COORD_LIMIT,
            0 <= view_h <= COORD_LIMIT,
        ensures
            final(self).wf(),
            final(self).nav == old(self).nav,
            final(self).model == old(self).model,
            final(self).transform == old(self).transform,
            final(self).renderer.preview == old(self).renderer.preview,
            final(self).scaled_to_fit == old(self).scaled_to_fit,
            final(self).fullscreen == old(self).fullscreen,
            final(self).show_delete_confirmation == old(self).show_delete_confirmation,
            final(self).last_error == old(self).last_error,
            old(self).model is None ==> r is None && *final(self) == *old(self),
            r == Some(RenderPlan::Preview) ==> final(self).renderer.cache.entries@.len() == 0,
            (r is Some && r != Some(RenderPlan::Preview)) ==> final(self).renderer.cache == old(
                self,
            ).renderer.cache,
            old(self).model matches Some(m) ==> (r == Some(RenderPlan::Whole)
                <==> !spec_needs_tiling(m.spec_width(), m.spec_height())),
            r matches Some(RenderPlan::Tiles { row0, row1, col0, col1 }) ==> {
                &&& old(self).model is Some
                &&& row0 <= row1 && (row1 as int) < grid_rows(
                    old(self).model->Some_0.spec_height(),
                )
                &&& col0 <= col1 && (col1 as int) < grid_cols(old(self).model->Some_0.spec_width())
            },
    {
        let (w, h) = match &self.model {
            None => {
                return None;
            },
            Some(m) => (m.width(), m.height()),
        };
        if crate::tiles::needs_tiling(w, h) && !self.has_preview() {
            return None;
        }
        let plan = self.renderer.plan_frame(w, h, &self.transform, view_w, view_h);
        Some(plan)
    }

    fn has_preview(&self) -> (r: bool)
        ensures
            r == (self.renderer.preview is Some),
    {
        match &self.renderer.preview {
            Some(_) => true,
            None => false,
        }
    }

    /// Hand the renderer the tile at `(row, col)` of the showing frame,
    /// synthesizing and caching it on first use. Returns false (and touches
    /// nothing) when no image is displayed or the coordinate lies outside
    /// the tile grid.
    pub fn ensure_visible_tile(&mut self, row: usize, col: usize) -> (ok: bool)
        requires
            old(self).wf(),
        ensures
            final(self).wf(),
            final(self).nav == old(self).nav,
            final(self).model == old(self).model,
            final(self).transform == old(self).transform,
            final(self).renderer.preview == old(self).renderer.preview,
            final(self).scaled_to_fit == old(self).scaled_to_fit,
            final(self).fullscreen == old(self).fullscreen,
            final(self).show_delete_confirmation == old(self).show_delete_confirmation,
            final(self).last_error == old(self).last_error,
            !ok ==> *final(self) == *old(self),
            ok ==> final(self).renderer.cache.has_key(row as int, col as int),
            (ok && old(self).renderer.cache.has_key(row as int, col as int))
                ==> final(self).renderer.cache == old(self).renderer.cache,
            (ok && !old(self).renderer.cache.has_key(row as int, col as int)) ==> {
                let entries = final(self).renderer.cache.entries@;
                &&& entries.len() == old(self).renderer.cache.entries@.len() + 1
                &&& entries.drop_last() == old(self).renderer.cache.entries@
                &&& entries.last().row == row
                &&& entries.last().col == col
                &&& crate::tiles::tile_matches_source(
                    entries.last().bitmap,
                    old(self).model->Some_0.spec_frame_bitmap(
                        old(self).model->Some_0.current_frame as int,
                    ),
                    row as int,
                    col as int,
                )
            },
    {
        let bitmap = match &self.model {
            None => {
                return false;
            },
            Some(m) => m.current_bitmap(),
        };
        let rows = (bitmap.height + crate::tiles::TILE_EDGE - 1) / crate::tiles::TILE_EDGE;
        let cols = (bitmap.width + crate::tiles::TILE_EDGE - 1) / crate::tiles::TILE_EDGE;
        if row >= rows || col >= cols {
            return false;
        }
        self.renderer.ensure_tile(bitmap, row, col);
        true
    }

    /// Take in the outcome of the file-system delete the caller performed on
    /// the viewed file. On success the file leaves the navigation state (the
    /// index shift of the remaining permutation entries included). On failure
    /// the in-memory file list and permutation are left unmutated and only
    /// the error is recorded.
    pub fn on_delete_outcome(&mut self, outcome: Result<(), String>)
        requires
            old(self).wf(),
            old(self).nav.files@.len() > 0,
        ensures
            final(self).wf(),
            !final(self).show_delete_confirmation,
            final(self).model == old(self).model,
            final(self).renderer == old(self).renderer,
            final(self).transform == old(self).transform,
            final(self).scaled_to_fit == old(self).scaled_to_fit,
            final(self).fullscreen == old(self).fullscreen,
            match outcome {
                Ok(_) => {
                    &&& final(self).nav.files@ == old(self).nav.files@.remove(
                        old(self).nav.spec_current(),
                    )
                    &&& final(self).nav.position as int == if old(self).nav.files@.len() > 1 {
                        old(self).nav.position as int % (old(self).nav.files@.len() - 1)
                    } else {
                        0
                    }
                    &&& final(self).last_error == old(self).last_error
                },
                Err(msg) => {
                    &&& final(self).nav == old(self).nav
                    &&& final(self).last_error == Some(ViewerError::FileSystemFailure(msg))
                },
            },
    {
        match outcome {
            Ok(_) => {
                let _removed = self.nav.delete_current();
            },
            Err(msg) => {
                self.last_error = Some(ViewerError::FileSystemFailure(msg));
            },
        }
        self.show_delete_confirmation = false;
    }
}

} // verus!
