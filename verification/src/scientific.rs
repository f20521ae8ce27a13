use vstd::prelude::*;

use crate::bitmap::{Bitmap, MAX_DIM};
use crate::errors::ViewerError;
use crate::tonemap::{tone_map, tone_mapped};

verus! {

/// Largest magnitude a fixed-point scientific sample may have. This is a
/// machine limit, not policy: the weighted luma sum multiplies a sample by
/// up to 9999, and 9999 * 2^49 still fits `i64`. The pipeline itself is
/// scale-invariant, so a caller with wider data can rescale without
/// changing the output.
pub const SAMPLE_LIMIT: i64 = 0x2_0000_0000_0000;

/// A scientific data unit must hold exactly three planes in a
/// (height, width, channel) layout.
pub open spec fn valid_shape(shape: Seq<usize>) -> bool {
    shape.len() == 3 && shape[2] == 3
}

/// Grayscale reduction by NTSC luma weights, kept in units of 1/10000 of a
/// sample: 0.2989 red + 0.5870 green + 0.1140 blue. The min-max stage of the
/// tone-mapping pipeline absorbs the common factor, so no division is needed.
pub open spec fn luma_weighted(r: int, g: int, b: int) -> int {
    2989 * r + 5870 * g + 1140 * b
}

/// The weighted luma of pixel `p` of an interleaved RGB sample sequence.
pub open spec fn luma_at(samples: Seq<i64>, p: int) -> int {
    luma_weighted(samples[3 * p] as int, samples[3 * p + 1] as int, samples[3 * p + 2] as int)
}

/// The grayscale plane of an interleaved RGB sample sequence.
pub open spec fn gray_plane(samples: Seq<i64>, count: int) -> Seq<i64> {
    Seq::new(count as nat, |p: int| luma_at(samples, p) as i64)
}

/// The tone-mapped grayscale plane of an interleaved RGB sample sequence:
/// the byte that ends up in all three color channels of each pixel.
pub open spec fn toned_plane(samples: Seq<i64>, count: int) -> Seq<u8> {
    Seq::new(count as nat, |q: int| tone_mapped(gray_plane(samples, count), q))
}

/// Decode one scientific image data unit: verify the (height, width, 3)
/// layout, reduce the three planes to weighted grayscale, tone-map the result
/// and broadcast it to an opaque RGBA bitmap.
///
/// `shape` is the extent of each axis of the data unit; `samples` holds the
/// fixed-point samples, interleaved by channel, row-major. Success is owed
/// exactly when the shape is the three-plane layout, the dimensions are
/// positive and within bounds, the sample count matches the shape and every
/// sample's magnitude stays within [`SAMPLE_LIMIT`].
pub fn decode_scientific(shape: &Vec<usize>, samples: &Vec<i64>) -> (r: Result<
    Bitmap,
    ViewerError,
>)
    ensures
        r is Ok <==> {
            &&& valid_shape(shape@)
            &&& 0 < shape@[1] <= MAX_DIM
            &&& 0 < shape@[0] <= MAX_DIM
            &&& samples@.len() == shape@[0] * shape@[1] * 3
            &&& forall|i: int|
                0 <= i < samples@.len() ==> -SAMPLE_LIMIT <= #[trigger] samples@[i]
                    <= SAMPLE_LIMIT
        },
        !valid_shape(shape@) ==> r == Err::<Bitmap, ViewerError>(ViewerError::ShapeMismatch),
        r matches Ok(b) ==> {
            &&& b.wf()
            &&& b.width == shape@[1]
            &&& b.height == shape@[0]
            &&& forall|p: int|
                0 <= p < b.width * b.height ==> #[trigger] crate::bitmap::rgba_from_gray_at(
                    b.pixels@,
                    toned_plane(samples@, (b.width * b.height) as int),
                    p,
                )
        },
{
    if shape.len() != 3 {
        return Err(ViewerError::ShapeMismatch);
    }
    if shape[2] != 3 {
        return Err(ViewerError::ShapeMismatch);
    }
    let height = shape[0];
    let width = shape[1];
    if width == 0 || height == 0 {
        return Err(ViewerError::EmptyResult);
    }
    if width > MAX_DIM || height > MAX_DIM {
        return Err(ViewerError::DecodeFailure("image dimensions are too large".to_owned()));
    }
    proof {
        assert(width * height * 3 <= 16384 * 16384 * 3) by (nonlinear_arith)
            requires
                width <= 16384,
                height <= 16384,
        ;
    }
    let count: usize = width * height;
    if samples.len() != count * 3 {
        return Err(ViewerError::DecodeFailure("sample count does not match the shape".to_owned()));
    }
    let ghost svals = samples@;
    let mut idx: usize = 0;
    while idx < samples.len()
        invariant
            0 <= idx <= svals.len(),
            svals == samples@,
            valid_shape(shape@),
            forall|t: int| 0 <= t < idx ==> -SAMPLE_LIMIT <= #[trigger] svals[t] <= SAMPLE_LIMIT,
        decreases svals.len() - idx,
    {
        let x = samples[idx];
        if x < -SAMPLE_LIMIT || x > SAMPLE_LIMIT {
            return Err(ViewerError::DecodeFailure("sample magnitude out of range".to_owned()));
        }
        idx = idx + 1;
    }
    let mut gray: Vec<i64> = Vec::new();
    let mut p: usize = 0;
    while p < count
        invariant
            0 <= p <= count,
            svals == samples@,
            valid_shape(shape@),
            count <= 16384 * 16384,
            svals.len() == count * 3,
            forall|t: int| 0 <= t < svals.len() ==> -SAMPLE_LIMIT <= #[trigger] svals[t]
                <= SAMPLE_LIMIT,
            gray@.len() == p,
            forall|q: int| 0 <= q < p ==> gray@[q] as int == luma_at(svals, q),
        decreases count - p,
    {
        let r = samples[3 * p];
        let g = samples[3 * p + 1];
        let b = samples[3 * p + 2];
        let l: i64 = 2989 * r + 5870 * g + 1140 * b;
        gray.push(l);
        p = p + 1;
    }
    proof {
        assert(gray@ =~= gray_plane(svals, count as int));
        assert(count >= 1) by (nonlinear_arith)
            requires
                count == width * height,
                width >= 1,
                height >= 1,
        ;
    }
    let toned: Vec<u8> = tone_map(&gray);
    let result = Bitmap::from_gray(width, height, &toned);
    proof {
        assert(toned@ =~= toned_plane(svals, (width * height) as int));
    }
    result
}

} // verus!
