use vstd::prelude::*;

use crate::bitmap::Bitmap;
use crate::transform::{ViewportTransform, COORD_LIMIT, ZOOM_UNIT};

verus! {

/// Largest edge of one tile, in pixels.
pub const TILE_EDGE: usize = 1024;

/// Hard ceiling on the edge of any single display surface, in pixels. An
/// image wider or taller than this is split into tiles.
pub const MAX_SURFACE: usize = 2048;

/// Whether an image must be tiled to respect the surface ceiling.
pub open spec fn spec_needs_tiling(w: int, h: int) -> bool {
    w > MAX_SURFACE || h > MAX_SURFACE
}

pub fn needs_tiling(w: usize, h: usize) -> (r: bool)
    ensures
        r == spec_needs_tiling(w as int, h as int),
{
    w > MAX_SURFACE || h > MAX_SURFACE
}

/// Number of tile rows of an image of height `h`: the last row may be
/// shorter than a full tile edge.
pub open spec fn grid_rows(h: int) -> int {
    (h + TILE_EDGE - 1) / (TILE_EDGE as int)
}

/// Number of tile columns of an image of width `w`.
pub open spec fn grid_cols(w: int) -> int {
    (w + TILE_EDGE - 1) / (TILE_EDGE as int)
}

/// Left edge of tile column `c`.
pub open spec fn tile_x0(c: int) -> int {
    c * TILE_EDGE
}

/// Top edge of tile row `r`.
pub open spec fn tile_y0(r: int) -> int {
    r * TILE_EDGE
}

/// Width of the tile in column `c` of an image of width `w`: a full tile
/// edge, or the true remainder at the right boundary, never padded.
pub open spec fn tile_w(w: int, c: int) -> int {
    vstd::math::min(w - tile_x0(c), TILE_EDGE as int)
}

/// Height of the tile in row `r` of an image of height `h`.
pub open spec fn tile_h(h: int, r: int) -> int {
    vstd::math::min(h - tile_y0(r), TILE_EDGE as int)
}

/// The pixel `(x, y)` lies inside the rectangle of tile `(r, c)`.
pub open spec fn in_tile(w: int, h: int, r: int, c: int, x: int, y: int) -> bool {
    &&& tile_x0(c) <= x < tile_x0(c) + tile_w(w, c)
    &&& tile_y0(r) <= y < tile_y0(r) + tile_h(h, r)
}

/// Tile coverage: the tile rectangles of an image exactly partition it.
/// Every pixel of the image lies in the rectangle of exactly one grid
/// coordinate, namely `(y / TILE_EDGE, x / TILE_EDGE)`, and that coordinate
/// is inside the grid's extent.
pub proof fn lemma_tile_coverage(w: int, h: int, x: int, y: int)
    requires
        0 < w,
        0 < h,
        0 <= x < w,
        0 <= y < h,
    ensures
        0 <= y / (TILE_EDGE as int) < grid_rows(h),
        0 <= x / (TILE_EDGE as int) < grid_cols(w),
        in_tile(w, h, y / (TILE_EDGE as int), x / (TILE_EDGE as int), x, y),
        forall|r: int, c: int|
            #[trigger] in_tile(w, h, r, c, x, y) ==> r == y / (TILE_EDGE as int) && c == x / (
            TILE_EDGE as int),
{
    let t = TILE_EDGE as int;
    vstd::arithmetic::div_mod::lemma_fundamental_div_mod(x, t);
    vstd::arithmetic::div_mod::lemma_fundamental_div_mod(y, t);
    vstd::arithmetic::div_mod::lemma_mod_bound(x, t);
    vstd::arithmetic::div_mod::lemma_mod_bound(y, t);
    vstd::arithmetic::div_mod::lemma_div_pos_is_pos(x, t);
    vstd::arithmetic::div_mod::lemma_div_pos_is_pos(y, t);
    vstd::arithmetic::div_mod::lemma_div_is_ordered(x, w - 1, t);
    vstd::arithmetic::div_mod::lemma_div_is_ordered(y, h - 1, t);
    vstd::arithmetic::div_mod::lemma_div_plus_one(w - 1, t);
    vstd::arithmetic::div_mod::lemma_div_plus_one(h - 1, t);
    assert(grid_cols(w) == (w - 1) / t + 1);
    assert(grid_rows(h) == (h - 1) / t + 1);
    assert forall|r: int, c: int| #[trigger] in_tile(w, h, r, c, x, y) implies r == y / t && c == x
        / t by {
        vstd::arithmetic::div_mod::lemma_div_multiples_vanish_fancy(c, x - c * t, t);
        vstd::arithmetic::div_mod::lemma_div_multiples_vanish_fancy(r, y - r * t, t);
        assert(t * c + (x - c * t) == x);
        assert(t * r + (y - r * t) == y);
    }
}

/// The pixel bytes of tile pixel `(j, i)` (column, row within the tile)
/// equal the bytes of image pixel `(x0 + j, y0 + i)`.
pub open spec fn tile_pixel_matches(
    tp: Seq<u8>,
    sp: Seq<u8>,
    sw: int,
    x0: int,
    y0: int,
    tw: int,
    j: int,
    i: int,
) -> bool {
    forall|k: int|
        0 <= k < 4 ==> #[trigger] tp[(i * tw + j) * 4 + k] == sp[((y0 + i) * sw + (x0 + j)) * 4
            + k]
}

/// The bitmap `tb` is exactly the clipped rectangle of tile `(row, col)` of
/// `src`: the clipped dimensions, and every pixel byte copied from the
/// corresponding image pixel.
pub open spec fn tile_matches_source(tb: Bitmap, src: Bitmap, row: int, col: int) -> bool {
    &&& tb.wf()
    &&& tb.width as int == tile_w(src.width as int, col)
    &&& tb.height as int == tile_h(src.height as int, row)
    &&& forall|j: int, i: int|
        0 <= j < tb.width && 0 <= i < tb.height ==> #[trigger] tile_pixel_matches(
            tb.pixels@,
            src.pixels@,
            src.width as int,
            tile_x0(col),
            tile_y0(row),
            tb.width as int,
            j,
            i,
        )
}

/// Copy the clipped sub-rectangle of tile `(row, col)` out of the
/// full-resolution bitmap. Edge tiles get their true remainder size, never
/// padding: the returned bitmap's stored dimensions are the clipped ones.
pub fn extract_tile(src: &Bitmap, row: usize, col: usize) -> (t: Bitmap)
    requires
        src.wf(),
        0 <= (row as int) < grid_rows(src.height as int),
        0 <= (col as int) < grid_cols(src.width as int),
    ensures
        tile_matches_source(t, *src, row as int, col as int),
{
    let sw = src.width;
    let sh = src.height;
    proof {
        let t = TILE_EDGE as int;
        vstd::arithmetic::div_mod::lemma_div_plus_one(sw as int - 1, t);
        vstd::arithmetic::div_mod::lemma_div_plus_one(sh as int - 1, t);
        vstd::arithmetic::div_mod::lemma_div_pos_is_pos(sw as int - 1, t);
        vstd::arithmetic::div_mod::lemma_div_pos_is_pos(sh as int - 1, t);
        vstd::arithmetic::div_mod::lemma_fundamental_div_mod(sw as int - 1, t);
        vstd::arithmetic::div_mod::lemma_fundamental_div_mod(sh as int - 1, t);
        vstd::arithmetic::div_mod::lemma_mod_bound(sw as int - 1, t);
        vstd::arithmetic::div_mod::lemma_mod_bound(sh as int - 1, t);
        assert((col as int) <= (sw as int - 1) / t && (row as int) <= (sh as int - 1) / t);
        assert(col as int * t <= (sw as int - 1) / t * t) by (nonlinear_arith)
            requires
                col as int <= (sw as int - 1) / t,
                t > 0,
        ;
        assert((sw as int - 1) / t * t <= sw as int - 1);
        assert(row as int * t <= (sh as int - 1) / t * t) by (nonlinear_arith)
            requires
                row as int <= (sh as int - 1) / t,
                t > 0,
        ;
        assert((sh as int - 1) / t * t <= sh as int - 1);
    }
    let x0: usize = col * TILE_EDGE;
    let y0: usize = row * TILE_EDGE;
    let tw: usize = if sw - x0 < TILE_EDGE {
        sw - x0
    } else {
        TILE_EDGE
    };
    let th: usize = if sh - y0 < TILE_EDGE {
        sh - y0
    } else {
        TILE_EDGE
    };
    let mut pixels: Vec<u8> = Vec::new();
    let mut i: usize = 0;
    while i < th
        invariant
            0 <= i <= th,
            src.wf(),
            sw == src.width,
            sh == src.height,
            x0 + tw <= sw,
            y0 + th <= sh,
            0 < tw <= TILE_EDGE,
            0 < th <= TILE_EDGE,
            pixels@.len() == i * tw * 4,
            forall|jj: int, ii: int|
                0 <= jj < tw && 0 <= ii < i ==> #[trigger] tile_pixel_matches(
                    pixels@,
                    src.pixels@,
                    sw as int,
                    x0 as int,
                    y0 as int,
                    tw as int,
                    jj,
                    ii,
                ),
        decreases th - i,
    {
        let mut j: usize = 0;
        proof {
            assert(i * tw * 4 + tw * 4 <= 16384 * 16384 * 4 && (i + 1) * tw == i * tw + tw) by (
            nonlinear_arith)
                requires
                    0 <= i < th,
                    0 < tw <= 1024,
                    0 < th <= 1024,
            ;
            assert((y0 + i) * sw + x0 + tw <= sw * sh) by (nonlinear_arith)
                requires
                    0 <= i < th,
                    y0 + th <= sh,
                    x0 + tw <= sw,
                    0 < sw,
                    0 < tw,
            ;
            assert(sw * sh * 4 <= 16384 * 16384 * 4) by (nonlinear_arith)
                requires
                    0 < sw <= 16384,
                    0 < sh <= 16384,
            ;
        }
        let src_row_base: usize = (y0 + i) * sw;
        while j < tw
            invariant
                0 <= j <= tw,
                0 <= i < th,
                src.wf(),
                sw == src.width,
                sh == src.height,
                x0 + tw <= sw,
                y0 + th <= sh,
                0 < tw <= TILE_EDGE,
                0 < th <= TILE_EDGE,
                src_row_base == (y0 + i) * sw,
                (y0 + i) * sw + x0 + tw <= sw * sh,
                sw * sh * 4 <= 16384 * 16384 * 4,
                i * tw * 4 + tw * 4 <= 16384 * 16384 * 4,
                pixels@.len() == i * tw * 4 + j * 4,
                forall|jj: int, ii: int|
                    0 <= jj < tw && 0 <= ii < i ==> #[trigger] tile_pixel_matches(
                        pixels@,
                        src.pixels@,
                        sw as int,
                        x0 as int,
                        y0 as int,
                        tw as int,
                        jj,
                        ii,
                    ),
                forall|jj: int|
                    0 <= jj < j ==> #[trigger] tile_pixel_matches(
                        pixels@,
                        src.pixels@,
                        sw as int,
                        x0 as int,
                        y0 as int,
                        tw as int,
                        jj,
                        i as int,
                    ),
            decreases tw - j,
        {
            let sbase: usize = (src_row_base + x0 + j) * 4;
            let ghost pre = pixels@;
            pixels.push(src.pixels[sbase]);
            pixels.push(src.pixels[sbase + 1]);
            pixels.push(src.pixels[sbase + 2]);
            pixels.push(src.pixels[sbase + 3]);
            proof {
                assert forall|jj: int, ii: int|
                    0 <= jj < tw && 0 <= ii < i implies #[trigger] tile_pixel_matches(
                    pixels@,
                    src.pixels@,
                    sw as int,
                    x0 as int,
                    y0 as int,
                    tw as int,
                    jj,
                    ii,
                ) by {
                    assert(tile_pixel_matches(
                        pre,
                        src.pixels@,
                        sw as int,
                        x0 as int,
                        y0 as int,
                        tw as int,
                        jj,
                        ii,
                    ));
                    assert(ii * tw <= (i - 1) * tw) by (nonlinear_arith)
                        requires
                            ii <= i - 1,
                            tw > 0,
                    ;
                    assert((i - 1) * tw + tw == i * tw) by (nonlinear_arith);
                }
                assert forall|jj: int|
                    0 <= jj < j + 1 implies #[trigger] tile_pixel_matches(
                    pixels@,
                    src.pixels@,
                    sw as int,
                    x0 as int,
                    y0 as int,
                    tw as int,
                    jj,
                    i as int,
                ) by {
                    if jj < j {
                        assert(tile_pixel_matches(
                            pre,
                            src.pixels@,
                            sw as int,
                            x0 as int,
                            y0 as int,
                            tw as int,
                            jj,
                            i as int,
                        ));
                    }
                }
            }
            j = j + 1;
        }
        i = i + 1;
    }
    proof {
        assert(th * tw * 4 == tw * th * 4) by (nonlinear_arith);
        assert(tw * th <= 16384 * 16384) by (nonlinear_arith)
            requires
                0 < tw <= 1024,
                0 < th <= 1024,
        ;
    }
    Bitmap { width: tw, height: th, pixels }
}

/// One cached tile: its grid coordinate and its pixel data. The
/// display-resident handle derived from it lives with the window toolkit,
/// keyed the same way.
pub struct TileEntry {
    pub row: usize,
    pub col: usize,
    pub bitmap: Bitmap,
}

/// The tile cache: an association from grid coordinate to tile, with each
/// coordinate present at most once.
pub struct TileCache {
    pub entries: Vec<TileEntry>,
}

impl TileCache {
    /// Some entry carries the grid coordinate `(r, c)`.
    pub open spec fn has_key(&self, r: int, c: int) -> bool {
        exists|i: int|
            0 <= i < self.entries@.len() && (#[trigger] self.entries@[i]).row == r
                && self.entries@[i].col == c
    }

    /// No grid coordinate occurs twice.
    pub open spec fn wf(&self) -> bool {
        forall|i: int, j: int|
            0 <= i < j < self.entries@.len() ==> !((#[trigger] self.entries@[i]).row == (
            #[trigger] self.entries@[j]).row && self.entries@[i].col == self.entries@[j].col)
    }

    pub fn new() -> (cache: TileCache)
        ensures
            cache.wf(),
            cache.entries@.len() == 0,
    {
        TileCache { entries: Vec::new() }
    }

    pub fn len(&self) -> (n: usize)
        ensures
            n == self.entries@.len(),
    {
        self.entries.len()
    }

    /// The cached tile at `(r, c)`, if one is present.
    pub fn lookup(&self, r: usize, c: usize) -> (res: Option<&Bitmap>)
        ensures
            match res {
                Some(b) => exists|i: int|
                    0 <= i < self.entries@.len() && (#[trigger] self.entries@[i]).row == r
                        && self.entries@[i].col == c && self.entries@[i].bitmap == *b,
                None => !self.has_key(r as int, c as int),
            },
    {
        let mut i: usize = 0;
        while i < self.entries.len()
            invariant
                0 <= i <= self.entries@.len(),
                forall|k: int|
                    0 <= k < i ==> !((#[trigger] self.entries@[k]).row == r && self.entries@[k].col
                        == c),
            decreases self.entries@.len() - i,
        {
            if self.entries[i].row == r && self.entries[i].col == c {
                return Some(&self.entries[i].bitmap);
            }
            i = i + 1;
        }
        None
    }

    /// Cache a tile under a coordinate that is not yet present.
    pub fn insert(&mut self, r: usize, c: usize, bitmap: Bitmap)
        requires
            old(self).wf(),
            !old(self).has_key(r as int, c as int),
        ensures
            final(self).wf(),
            final(self).entries@ == old(self).entries@.push(
                TileEntry { row: r, col: c, bitmap },
            ),
            final(self).has_key(r as int, c as int),
    {
        self.entries.push(TileEntry { row: r, col: c, bitmap });
        proof {
            let entries = self.entries@;
            let n = entries.len() as int - 1;
            assert forall|i: int, j: int| 0 <= i < j < entries.len() implies !((
            #[trigger] entries[i]).row == (#[trigger] entries[j]).row && entries[i].col
                == entries[j].col) by {
                if j < n {
                } else {
                    if entries[i].row == r && entries[i].col == c {
                        assert(old(self).has_key(r as int, c as int));
                    }
                }
            }
            assert((#[trigger] self.entries@[n]).row == r && self.entries@[n].col == c);
        }
    }

    /// Evict every tile: the cache is empty afterwards.
    pub fn clear(&mut self)
        ensures
            final(self).wf(),
            final(self).entries@.len() == 0,
    {
        self.entries.clear();
    }
}

/// Width of the downscaled full-image preview of a tiled image: the largest
/// size within the surface ceiling that keeps the aspect ratio, at least one
/// pixel each way.
pub open spec fn preview_width(w: int, h: int) -> int {
    if w >= h {
        MAX_SURFACE as int
    } else {
        vstd::math::max(1, w * MAX_SURFACE / h)
    }
}

/// Height of the downscaled full-image preview of a tiled image.
pub open spec fn preview_height(w: int, h: int) -> int {
    if w >= h {
        vstd::math::max(1, h * MAX_SURFACE / w)
    } else {
        MAX_SURFACE as int
    }
}

/// The RGBA bytes that Lanczos-class resampling produces for the given
/// source pixels and target dimensions. The resampler is deterministic: the
/// same input always gives the same bytes.
pub uninterp spec fn resampled(w: int, h: int, pixels: Seq<u8>, nw: int, nh: int) -> Seq<u8>;

/// Relies on image::RgbaImage::from_raw and image::imageops::resize with
/// the Lanczos3 filter: on a buffer of exactly four bytes per source pixel
/// the construction cannot be refused and the resampler is total, yielding
/// an RGBA buffer of exactly four bytes per requested pixel.
#[verifier::external_body]
fn resize_rgba(width: usize, height: usize, pixels: &Vec<u8>, new_w: usize, new_h: usize) -> (r:
    Option<Vec<u8>>)
    requires
        width <= 16384,
        height <= 16384,
        new_w <= 16384,
        new_h <= 16384,
        pixels@.len() == width * height * 4,
    ensures
        r is Some,
        r matches Some(px) ==> px@ == resampled(
            width as int,
            height as int,
            pixels@,
            new_w as int,
            new_h as int,
        ) && px@.len() == new_w * new_h * 4,
{
    let buf = image::RgbaImage::from_raw(width as u32, height as u32, pixels.clone())?;
    let out = image::imageops::resize(
        &buf,
        new_w as u32,
        new_h as u32,
        image::imageops::FilterType::Lanczos3,
    );
    Some(out.into_raw())
}

/// Downscale a full image to its preview size by Lanczos-class resampling.
/// On a well-formed bitmap this cannot fail: the result is exactly the
/// resampled image at the preview dimensions.
pub fn make_preview(src: &Bitmap) -> (p: Bitmap)
    requires
        src.wf(),
    ensures
        p.wf(),
        p.width as int == preview_width(src.width as int, src.height as int),
        p.height as int == preview_height(src.width as int, src.height as int),
        p.pixels@ == resampled(
            src.width as int,
            src.height as int,
            src.pixels@,
            p.width as int,
            p.height as int,
        ),
{
    let w = src.width;
    let h = src.height;
    let pw: usize;
    let ph: usize;
    if w >= h {
        proof {
            assert(h * MAX_SURFACE <= w * MAX_SURFACE) by (nonlinear_arith)
                requires
                    h <= w,
            ;
            vstd::arithmetic::div_mod::lemma_div_is_ordered(
                h as int * MAX_SURFACE,
                w as int * MAX_SURFACE,
                w as int,
            );
            vstd::arithmetic::div_mod::lemma_div_by_multiple(MAX_SURFACE as int, w as int);
            vstd::arithmetic::div_mod::lemma_div_pos_is_pos(h as int * MAX_SURFACE, w as int);
        }
        let d = (h * MAX_SURFACE) / w;
        pw = MAX_SURFACE;
        ph = if d == 0 {
            1
        } else {
            d
        };
    } else {
        proof {
            assert(w * MAX_SURFACE <= h * MAX_SURFACE) by (nonlinear_arith)
                requires
                    w <= h,
            ;
            vstd::arithmetic::div_mod::lemma_div_is_ordered(
                w as int * MAX_SURFACE,
                h as int * MAX_SURFACE,
                h as int,
            );
            vstd::arithmetic::div_mod::lemma_div_by_multiple(MAX_SURFACE as int, h as int);
            vstd::arithmetic::div_mod::lemma_div_pos_is_pos(w as int * MAX_SURFACE, h as int);
        }
        let d = (w * MAX_SURFACE) / h;
        pw = if d == 0 {
            1
        } else {
            d
        };
        ph = MAX_SURFACE;
    }
    match resize_rgba(w, h, &src.pixels, pw, ph) {
        None => {
            proof {
                assert(false);
            }
            Bitmap { width: 1, height: 1, pixels: Vec::new() }
        },
        Some(px) => match Bitmap::from_rgba(pw, ph, px) {
            Ok(b) => b,
            Err(e) => {
                proof {
                    assert(false);
                }
                Bitmap { width: 1, height: 1, pixels: Vec::new() }
            },
        },
    }
}

/// What the renderer draws this frame.
#[derive(Clone, Copy, Debug, PartialEq, Eq, Structural)]
pub enum RenderPlan {
    /// The image fits a single surface: draw it whole.
    Whole,
    /// Draw the downscaled preview, scaled by the current zoom.
    Preview,
    /// Draw the cached tiles of the inclusive grid ranges.
    Tiles { row0: usize, row1: usize, col0: usize, col1: usize },
    /// No image pixel intersects the viewport.
    Offscreen,
}

/// The preview is drawn instead of tiles exactly when the current zoom
/// renders the image at or below the preview's own resolution.
pub open spec fn spec_use_preview(zoom: int, img_w: int, pw: int) -> bool {
    zoom * img_w <= pw * ZOOM_UNIT
}

/// The inclusive tile range along one axis: the image-space interval visible
/// through the viewport (the inverse transform of `[0, view)` through offset
/// and zoom, the far edge rounded up), clamped to the image extent `n`, and
/// divided into tile-grid coordinates. `None` when the interval is empty.
pub open spec fn spec_axis_range(n: int, zoom: int, offset: int, view: int) -> Option<(int, int)> {
    if offset >= view {
        None
    } else {
        let lo = if offset >= 0 {
            0int
        } else {
            (-offset) * ZOOM_UNIT / zoom
        };
        let hi = vstd::math::min(((view - offset) * ZOOM_UNIT + zoom - 1) / zoom, n);
        if hi <= lo {
            None
        } else {
            Some((lo / (TILE_EDGE as int), (hi - 1) / (TILE_EDGE as int)))
        }
    }
}

/// Soundness of the visible range against the forward transform: an image
/// coordinate `x` is drawn across the screen span
/// `[x * zoom / ZOOM_UNIT + offset, (x + 1) * zoom / ZOOM_UNIT + offset)`;
/// whenever that span meets the viewport `[0, view)`, the range returned by
/// [`spec_axis_range`] is non-empty and contains `x`'s tile coordinate. No
/// visible tile is ever skipped.
pub proof fn lemma_axis_range_sound(n: int, zoom: int, offset: int, view: int, x: int)
    requires
        0 < n,
        0 < zoom,
        0 <= view,
        0 <= x < n,
        x * zoom / (ZOOM_UNIT as int) + offset < view,
        (x + 1) * zoom / (ZOOM_UNIT as int) + offset > 0,
    ensures
        spec_axis_range(n, zoom, offset, view) matches Some(pair) && pair.0 <= x / (
        TILE_EDGE as int) <= pair.1,
{
    let u = ZOOM_UNIT as int;
    let t = TILE_EDGE as int;
    vstd::arithmetic::div_mod::lemma_div_pos_is_pos(x * zoom, u);
    assert(x * zoom >= 0) by (nonlinear_arith)
        requires
            x >= 0,
            zoom > 0,
    ;
    assert(offset < view);
    let lo = if offset >= 0 {
        0int
    } else {
        (-offset) * u / zoom
    };
    let hi0 = ((view - offset) * u + zoom - 1) / zoom;
    let hi = vstd::math::min(hi0, n);
    // lo <= x: were x < lo, the whole span of pixel x would sit left of the
    // viewport, against the second visibility premise.
    if offset < 0 {
        let d = -offset;
        assert((x + 1) * zoom / u >= d + 1);
        vstd::arithmetic::div_mod::lemma_fundamental_div_mod((x + 1) * zoom, u);
        vstd::arithmetic::div_mod::lemma_mod_bound((x + 1) * zoom, u);
        assert((x + 1) * zoom >= (d + 1) * u) by (nonlinear_arith)
            requires
                (x + 1) * zoom == u * ((x + 1) * zoom / u) + (x + 1) * zoom % u,
                0 <= (x + 1) * zoom % u < u,
                (x + 1) * zoom / u >= d + 1,
                u > 0,
        ;
        if x < lo {
            assert(x + 1 <= d * u / zoom);
            vstd::arithmetic::div_mod::lemma_fundamental_div_mod(d * u, zoom);
            vstd::arithmetic::div_mod::lemma_mod_bound(d * u, zoom);
            assert((x + 1) * zoom <= d * u) by (nonlinear_arith)
                requires
                    x + 1 <= d * u / zoom,
                    d * u == zoom * (d * u / zoom) + d * u % zoom,
                    0 <= d * u % zoom < zoom,
                    zoom > 0,
            ;
            assert(d * u < (d + 1) * u) by (nonlinear_arith)
                requires
                    u > 0,
            ;
            assert(false);
        }
    }
    // x < hi: the left edge of pixel x is inside the viewport, so x lies
    // below the rounded-up far edge of the visible interval.
    assert(x * zoom / u <= view - offset - 1);
    vstd::arithmetic::div_mod::lemma_fundamental_div_mod(x * zoom, u);
    vstd::arithmetic::div_mod::lemma_mod_bound(x * zoom, u);
    assert(x * zoom < (view - offset) * u) by (nonlinear_arith)
        requires
            x * zoom == u * (x * zoom / u) + x * zoom % u,
            0 <= x * zoom % u < u,
            x * zoom / u <= view - offset - 1,
            u > 0,
    ;
    assert((view - offset) * u + zoom - 1 >= x * zoom + zoom) by (nonlinear_arith)
        requires
            x * zoom < (view - offset) * u,
    ;
    vstd::arithmetic::div_mod::lemma_div_is_ordered(x * zoom + zoom, (view - offset) * u + zoom
        - 1, zoom);
    assert(x * zoom + zoom == zoom * (x + 1)) by (nonlinear_arith);
    vstd::arithmetic::div_mod::lemma_div_multiples_vanish(x + 1, zoom);
    assert(hi0 >= x + 1);
    assert(x < hi);
    // the tile coordinates of the clamped interval bracket x's tile
    vstd::arithmetic::div_mod::lemma_div_is_ordered(lo, x, t);
    vstd::arithmetic::div_mod::lemma_div_is_ordered(x, hi - 1, t);
}

/// The tiled viewport renderer: the tile cache plus the one downscaled
/// preview of the current image, if that image needed tiling at all.
pub struct TiledRenderer {
    pub cache: TileCache,
    pub preview: Option<Bitmap>,
}

impl TiledRenderer {
    pub open spec fn wf(&self) -> bool {
        &&& self.cache.wf()
        &&& match self.preview {
            Some(p) => p.wf(),
            None => true,
        }
    }

    pub fn new() -> (r: TiledRenderer)
        ensures
            r.wf(),
            r.cache.entries@.len() == 0,
            r.preview is None,
    {
        TiledRenderer { cache: TileCache::new(), preview: None }
    }

    /// Ready the renderer for a newly loaded image: every stale tile is
    /// dropped, and an image over the surface ceiling always gets its
    /// downscaled preview.
    pub fn prepare(&mut self, src: &Bitmap)
        requires
            src.wf(),
        ensures
            final(self).wf(),
            final(self).cache.entries@.len() == 0,
            !spec_needs_tiling(src.width as int, src.height as int) ==> final(self).preview
                is None,
            spec_needs_tiling(src.width as int, src.height as int) ==> {
                &&& final(self).preview is Some
                &&& final(self).preview->Some_0.width as int == preview_width(
                    src.width as int,
                    src.height as int,
                )
                &&& final(self).preview->Some_0.height as int == preview_height(
                    src.width as int,
                    src.height as int,
                )
            },
    {
        self.cache.clear();
        if needs_tiling(src.width, src.height) {
            self.preview = Some(make_preview(src));
        } else {
            self.preview = None;
        }
    }

    /// Decide what to draw this frame. An image within the surface ceiling
    /// is drawn whole. Otherwise, when the zoom is at or below the preview's
    /// resolution, the preview is drawn and the tile cache is purged
    /// entirely, so stale tiles never accumulate while unused. Otherwise the
    /// inclusive ranges of tile coordinates intersecting the viewport are
    /// returned, and the cache is left as it is.
    pub fn plan_frame(&mut self, img_w: usize, img_h: usize, t: &ViewportTransform, view_w: i64, view_h: i64) -> (plan: RenderPlan)
        requires
            old(self).wf(),
            t.wf(),
            0 < img_w <= 16384,
            0 < img_h <= 16384,
            0 <= view_w <= COORD_LIMIT,
            0 <= view_h <= COORD_LIMIT,
            spec_needs_tiling(img_w as int, img_h as int) ==> old(self).preview is Some,
        ensures
            final(self).wf(),
            final(self).preview == old(self).preview,
            !spec_needs_tiling(img_w as int, img_h as int) ==> plan == RenderPlan::Whole
                && final(self).cache == old(self).cache,
            spec_needs_tiling(img_w as int, img_h as int) ==> {
                let pw = old(self).preview->Some_0.width as int;
                if spec_use_preview(t.zoom_milli as int, img_w as int, pw) {
                    plan == RenderPlan::Preview && final(self).cache.entries@.len() == 0
                } else {
                    final(self).cache == old(self).cache && match (
                        spec_axis_range(img_h as int, t.zoom_milli as int, t.offset_y as int, view_h as int),
                        spec_axis_range(img_w as int, t.zoom_milli as int, t.offset_x as int, view_w as int),
                    ) {
                        (Some(rows), Some(cols)) => plan == (RenderPlan::Tiles {
                            row0: rows.0 as usize,
                            row1: rows.1 as usize,
                            col0: cols.0 as usize,
                            col1: cols.1 as usize,
                        }),
                        _ => plan == RenderPlan::Offscreen,
                    }
                }
            },
            plan matches RenderPlan::Tiles { row0, row1, col0, col1 } ==> {
                &&& row0 <= row1 && (row1 as int) < grid_rows(img_h as int)
                &&& col0 <= col1 && (col1 as int) < grid_cols(img_w as int)
            },
    {
        if !needs_tiling(img_w, img_h) {
            return RenderPlan::Whole;
        }
        let pw: i64 = match &self.preview {
            Some(p) => p.width as i64,
            None => 0,
        };
        let zoom = t.zoom_milli;
        proof {
            assert(0 <= zoom * (img_w as int) <= 1000000 * 16384) by (nonlinear_arith)
                requires
                    10 <= zoom <= 1000000,
                    0 < img_w <= 16384,
            ;
        }
        if zoom * (img_w as i64) <= pw * ZOOM_UNIT {
            self.cache.clear();
            return RenderPlan::Preview;
        }
        let rows = Self::axis_range(img_h, zoom, t.offset_y, view_h);
        let cols = Self::axis_range(img_w, zoom, t.offset_x, view_w);
        match (rows, cols) {
            (Some((row0, row1)), Some((col0, col1))) => RenderPlan::Tiles { row0, row1, col0, col1 },
            _ => RenderPlan::Offscreen,
        }
    }

    /// The inclusive tile range visible along one axis.
    fn axis_range(n: usize, zoom: i64, offset: i64, view: i64) -> (r: Option<(usize, usize)>)
        requires
            0 < n <= 16384,
            10 <= zoom <= 1000000,
            -0x100_0000_0000 <= offset <= 0x100_0000_0000,
            0 <= view <= COORD_LIMIT,
        ensures
            match r {
                Some(pair) => spec_axis_range(n as int, zoom as int, offset as int, view as int)
                    == Some((pair.0 as int, pair.1 as int)) && pair.0 <= pair.1 && (pair.1 as int)
                    < grid_cols(n as int),
                None => spec_axis_range(n as int, zoom as int, offset as int, view as int)
                    is None,
            },
    {
        if offset >= view {
            return None;
        }
        let lo64: i64 = if offset >= 0 {
            0
        } else {
            proof {
                vstd::arithmetic::div_mod::lemma_div_pos_is_pos((-offset as int) * 1000, zoom as int);
                vstd::arithmetic::div_mod::lemma_div_is_ordered_by_denominator(
                    (-offset as int) * 1000,
                    1,
                    zoom as int,
                );
            }
            ((-offset) * ZOOM_UNIT) / zoom
        };
        proof {
            vstd::arithmetic::div_mod::lemma_div_pos_is_pos(
                (view as int - offset) * 1000 + zoom - 1,
                zoom as int,
            );
            vstd::arithmetic::div_mod::lemma_div_is_ordered_by_denominator(
                (view as int - offset) * 1000 + zoom - 1,
                1,
                zoom as int,
            );
        }
        let hi_raw: i64 = ((view - offset) * ZOOM_UNIT + zoom - 1) / zoom;
        let hi: i64 = if hi_raw <= n as i64 {
            hi_raw
        } else {
            n as i64
        };
        if hi <= lo64 {
            return None;
        }
        let lo: usize = lo64 as usize;
        let hi_u: usize = hi as usize;
        proof {
            let t = TILE_EDGE as int;
            vstd::arithmetic::div_mod::lemma_div_pos_is_pos(lo as int, t);
            vstd::arithmetic::div_mod::lemma_div_is_ordered(lo as int, hi as int - 1, t);
            vstd::arithmetic::div_mod::lemma_div_is_ordered(hi as int - 1, n as int - 1, t);
            vstd::arithmetic::div_mod::lemma_div_plus_one(n as int - 1, t);
            vstd::arithmetic::div_mod::lemma_div_pos_is_pos(n as int - 1, t);
        }
        Some((lo / TILE_EDGE, (hi_u - 1) / TILE_EDGE))
    }

    /// Hand back the tile at `(row, col)`, synthesizing and caching it on
    /// first use: the cached tile is returned if present, otherwise the
    /// clipped sub-rectangle is copied out of the full-resolution bitmap and
    /// cached under its coordinate.
    pub fn ensure_tile(&mut self, src: &Bitmap, row: usize, col: usize)
        requires
            old(self).wf(),
            src.wf(),
            (row as int) < grid_rows(src.height as int),
            (col as int) < grid_cols(src.width as int),
        ensures
            final(self).wf(),
            final(self).preview == old(self).preview,
            final(self).cache.has_key(row as int, col as int),
            old(self).cache.has_key(row as int, col as int) ==> final(self).cache == old(
                self,
            ).cache,
            !old(self).cache.has_key(row as int, col as int) ==> {
                &&& final(self).cache.entries@.len() == old(self).cache.entries@.len() + 1
                &&& final(self).cache.entries@.drop_last() == old(self).cache.entries@
                &&& final(self).cache.entries@.last().row == row
                &&& final(self).cache.entries@.last().col == col
                &&& tile_matches_source(
                    final(self).cache.entries@.last().bitmap,
                    *src,
                    row as int,
                    col as int,
                )
            },
    {
        let cached = match self.cache.lookup(row, col) {
            Some(_) => true,
            None => false,
        };
        if !cached {
            let tile = extract_tile(src, row, col);
            self.cache.insert(row, col, tile);
        }
    }
}

} // verus!
