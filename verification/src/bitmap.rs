use vstd::prelude::*;

use crate::errors::ViewerError;

verus! {

/// Largest width or height, in pixels, that the viewer accepts for a
/// decoded image. This is a machine limit, not policy: it keeps every
/// buffer-length product (up to width * height * 4) inside `usize` on every
/// architecture the crate verifies for.
pub const MAX_DIM: usize = 16384;

/// An in-memory rectangular pixel grid with red, green, blue and alpha
/// intensities stored as one byte each, row-major.
///
/// Consumers only ever see well-formed bitmaps: every constructor either
/// returns a value satisfying [`Bitmap::wf`] or an error, never a partial
/// image.
pub struct Bitmap {
    pub width: usize,
    pub height: usize,
    pub pixels: Vec<u8>,
}

/// The RGBA pixel `p` of `pix` carries the RGB bytes of pixel `p` of `rgb`
/// with a fully opaque alpha byte.
pub open spec fn rgba_from_rgb_at(pix: Seq<u8>, rgb: Seq<u8>, p: int) -> bool {
    &&& pix[4 * p] == rgb[3 * p]
    &&& pix[4 * p + 1] == rgb[3 * p + 1]
    &&& pix[4 * p + 2] == rgb[3 * p + 2]
    &&& pix[4 * p + 3] == 255u8
}

/// The RGBA pixel `p` of `pix` carries the gray byte `gray[p]` in all three
/// color channels with a fully opaque alpha byte.
pub open spec fn rgba_from_gray_at(pix: Seq<u8>, gray: Seq<u8>, p: int) -> bool {
    &&& pix[4 * p] == gray[p]
    &&& pix[4 * p + 1] == gray[p]
    &&& pix[4 * p + 2] == gray[p]
    &&& pix[4 * p + 3] == 255u8
}

impl Bitmap {
    /// Both dimensions are positive and bounded, and the buffer holds exactly
    /// four bytes per pixel.
    pub open spec fn wf(&self) -> bool {
        &&& 0 < self.width <= MAX_DIM
        &&& 0 < self.height <= MAX_DIM
        &&& self.pixels@.len() == self.width * self.height * 4
    }

    /// Index of the first byte (the red channel) of the pixel in column `x`
    /// of row `y`.
    pub open spec fn spec_pixel_start(&self, x: int, y: int) -> int {
        (y * self.width + x) * 4
    }

    /// Wrap an RGBA buffer, accepting it only when its length matches the
    /// claimed dimensions exactly.
    pub fn from_rgba(width: usize, height: usize, pixels: Vec<u8>) -> (r: Result<Bitmap, ViewerError>)
        ensures
            r is Ok <==> {
                &&& 0 < width <= MAX_DIM
                &&& 0 < height <= MAX_DIM
                &&& pixels@.len() == width * height * 4
            },
            r matches Ok(b) ==> b.wf() && b.width == width && b.height == height
                && b.pixels@ == pixels@,
            (width == 0 || height == 0) ==> r == Err::<Bitmap, ViewerError>(
                ViewerError::EmptyResult,
            ),
            (r is Err && width > 0 && height > 0) ==> r->Err_0 is DecodeFailure,
    {
        if width == 0 || height == 0 {
            return Err(ViewerError::EmptyResult);
        }
        if width > MAX_DIM || height > MAX_DIM {
            return Err(ViewerError::DecodeFailure("image dimensions are too large".to_owned()));
        }
        proof {
            assert(width * height * 4 <= 16384 * 16384 * 4) by (nonlinear_arith)
                requires
                    width <= 16384,
                    height <= 16384,
            ;
        }
        let expected: usize = width * height * 4;
        if pixels.len() != expected {
            return Err(ViewerError::DecodeFailure("pixel buffer length mismatch".to_owned()));
        }
        Ok(Bitmap { width, height, pixels })
    }

    /// Expand a packed RGB buffer (three bytes per pixel) to RGBA with every
    /// alpha byte fully opaque. Sensor-raw decodes arrive in this form.
    pub fn from_rgb(width: usize, height: usize, rgb: &Vec<u8>) -> (r: Result<Bitmap, ViewerError>)
        ensures
            r is Ok <==> {
                &&& 0 < width <= MAX_DIM
                &&& 0 < height <= MAX_DIM
                &&& rgb@.len() == width * height * 3
            },
            r matches Ok(b) ==> {
                &&& b.wf()
                &&& b.width == width
                &&& b.height == height
                &&& forall|p: int| 0 <= p < width * height
                    ==> #[trigger] rgba_from_rgb_at(b.pixels@, rgb@, p)
            },
            (width == 0 || height == 0) ==> r == Err::<Bitmap, ViewerError>(
                ViewerError::EmptyResult,
            ),
            (r is Err && width > 0 && height > 0) ==> r->Err_0 is DecodeFailure,
    {
        if width == 0 || height == 0 {
            return Err(ViewerError::EmptyResult);
        }
        if width > MAX_DIM || height > MAX_DIM {
            return Err(ViewerError::DecodeFailure("image dimensions are too large".to_owned()));
        }
        proof {
            assert(width * height * 4 <= 16384 * 16384 * 4 && width * height * 3 <= 16384
                * 16384 * 3) by (nonlinear_arith)
                requires
                    width <= 16384,
                    height <= 16384,
            ;
        }
        let count: usize = width * height;
        if rgb.len() != count * 3 {
            return Err(ViewerError::DecodeFailure("pixel buffer length mismatch".to_owned()));
        }
        let mut pixels: Vec<u8> = Vec::new();
        let mut p: usize = 0;
        while p < count
            invariant
                p <= count,
                count == width * height,
                rgb@.len() == count * 3,
                count * 4 <= usize::MAX,
                pixels@.len() == 4 * p,
                forall|q: int| 0 <= q < p ==> #[trigger] rgba_from_rgb_at(pixels@, rgb@, q),
            decreases count - p,
        {
            let ghost pre = pixels@;
            pixels.push(rgb[3 * p]);
            pixels.push(rgb[3 * p + 1]);
            pixels.push(rgb[3 * p + 2]);
            pixels.push(255);
            proof {
                assert forall|q: int| 0 <= q < p + 1 implies #[trigger] rgba_from_rgb_at(
                    pixels@,
                    rgb@,
                    q,
                ) by {
                    if q < p {
                        assert(rgba_from_rgb_at(pre, rgb@, q));
                    }
                }
            }
            p = p + 1;
        }
        Ok(Bitmap { width, height, pixels })
    }

    /// Broadcast a single-channel (grayscale) buffer to all three color
    /// channels with every alpha byte fully opaque.
    pub fn from_gray(width: usize, height: usize, gray: &Vec<u8>) -> (r: Result<Bitmap, ViewerError>)
        ensures
            r is Ok <==> {
                &&& 0 < width <= MAX_DIM
                &&& 0 < height <= MAX_DIM
                &&& gray@.len() == width * height
            },
            r matches Ok(b) ==> {
                &&& b.wf()
                &&& b.width == width
                &&& b.height == height
                &&& forall|p: int| 0 <= p < width * height
                    ==> #[trigger] rgba_from_gray_at(b.pixels@, gray@, p)
            },
            (width == 0 || height == 0) ==> r == Err::<Bitmap, ViewerError>(
                ViewerError::EmptyResult,
            ),
            (r is Err && width > 0 && height > 0) ==> r->Err_0 is DecodeFailure,
    {
        if width == 0 || height == 0 {
            return Err(ViewerError::EmptyResult);
        }
        if width > MAX_DIM || height > MAX_DIM {
            return Err(ViewerError::DecodeFailure("image dimensions are too large".to_owned()));
        }
        proof {
            assert(width * height * 4 <= 16384 * 16384 * 4) by (nonlinear_arith)
                requires
                    width <= 16384,
                    height <= 16384,
            ;
        }
        let count: usize = width * height;
        if gray.len() != count {
            return Err(ViewerError::DecodeFailure("pixel buffer length mismatch".to_owned()));
        }
        let mut pixels: Vec<u8> = Vec::new();
        let mut p: usize = 0;
        while p < count
            invariant
                p <= count,
                count == width * height,
                gray@.len() == count,
                count * 4 <= usize::MAX,
                pixels@.len() == 4 * p,
                forall|q: int| 0 <= q < p ==> #[trigger] rgba_from_gray_at(pixels@, gray@, q),
            decreases count - p,
        {
            let g = gray[p];
            let ghost pre = pixels@;
            pixels.push(g);
            pixels.push(g);
            pixels.push(g);
            pixels.push(255);
            proof {
                assert forall|q: int| 0 <= q < p + 1 implies #[trigger] rgba_from_gray_at(
                    pixels@,
                    gray@,
                    q,
                ) by {
                    if q < p {
                        assert(rgba_from_gray_at(pre, gray@, q));
                    }
                }
            }
            p = p + 1;
        }
        Ok(Bitmap { width, height, pixels })
    }
}

} // verus!
