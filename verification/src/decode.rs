use vstd::prelude::*;

use crate::bitmap::{rgba_from_rgb_at, Bitmap, MAX_DIM};
use crate::errors::ViewerError;
use crate::format::{family_of, has_tga_extension, tga_name, Family};
use crate::model::{Frame, LoadedImage};

use image::AnimationDecoder;

verus! {

/// What the general-purpose still-image codec makes of a byte payload, with
/// the TGA format hint applied when content sniffing finds nothing: the
/// decoded width, height and RGBA bytes, or, on failure, whether the codec
/// reported the container or format unsupported (rather than the payload
/// corrupt). The codec is deterministic: the same input always gives the
/// same outcome.
pub uninterp spec fn raster_decoded(bytes: Seq<u8>, tga: bool) -> Result<(int, int, Seq<u8>), bool>;

/// What the animation decoder makes of a byte payload: every frame's width,
/// height, RGBA bytes and display delay in milliseconds, eagerly and in
/// order; `None` when the container or any frame cannot be decoded. The
/// decoder is deterministic.
pub uninterp spec fn gif_decoded(bytes: Seq<u8>) -> Option<Seq<(int, int, Seq<u8>, int)>>;

/// What the sensor demosaicing pipeline makes of a byte payload: the
/// dimensions and packed RGB bytes of the developed 8-bit image, or `None`
/// when the data cannot be decoded or processed. The pipeline is
/// deterministic: it draws on no randomness, clock or environment.
pub uninterp spec fn sensor_decoded(bytes: Seq<u8>) -> Option<(int, int, Seq<u8>)>;

/// The still codec decodes `bytes` to dimensions the viewer accepts.
pub open spec fn raster_ok(bytes: Seq<u8>, tga: bool) -> bool {
    raster_decoded(bytes, tga) matches Ok(d) && 0 < d.0 <= MAX_DIM && 0 < d.1 <= MAX_DIM
}

/// `b` is exactly the still image the codec decoded from `bytes`.
pub open spec fn bitmap_matches_raster(b: Bitmap, bytes: Seq<u8>, tga: bool) -> bool {
    raster_decoded(bytes, tga) matches Ok(d) && b.width == d.0 && b.height == d.1 && b.pixels@
        == d.2
}

/// The animation decoder finds at least one frame in `bytes` and every
/// frame's dimensions are ones the viewer accepts.
pub open spec fn animated_ok(bytes: Seq<u8>) -> bool {
    gif_decoded(bytes) matches Some(s) && s.len() > 0 && forall|i: int|
        0 <= i < s.len() ==> 0 < (#[trigger] s[i]).0 <= MAX_DIM && 0 < s[i].1 <= MAX_DIM
}

/// `frames` are exactly the frames the animation decoder produced from
/// `bytes`, in order, delays included.
pub open spec fn frames_match_animation(frames: Seq<Frame>, bytes: Seq<u8>) -> bool {
    gif_decoded(bytes) matches Some(s) && frames.len() == s.len() && forall|i: int|
        0 <= i < frames.len() ==> {
            &&& (#[trigger] frames[i]).bitmap.width == s[i].0
            &&& frames[i].bitmap.height == s[i].1
            &&& frames[i].bitmap.pixels@ == s[i].2
            &&& frames[i].delay_ms == s[i].3
        }
}

/// The sensor pipeline develops `bytes` into an image the viewer accepts:
/// positive bounded dimensions and three bytes per pixel.
pub open spec fn sensor_ok(bytes: Seq<u8>) -> bool {
    sensor_decoded(bytes) matches Some(d) && 0 < d.0 <= MAX_DIM && 0 < d.1 <= MAX_DIM && d.2.len()
        == d.0 * d.1 * 3
}

/// `b` is exactly the developed sensor image: the pipeline's dimensions,
/// its RGB bytes expanded with opaque alpha.
pub open spec fn bitmap_matches_sensor(b: Bitmap, bytes: Seq<u8>) -> bool {
    sensor_decoded(bytes) matches Some(d) && b.width == d.0 && b.height == d.1 && forall|p: int|
        0 <= p < d.0 * d.1 ==> #[trigger] rgba_from_rgb_at(b.pixels@, d.2, p)
}

/// Relies on image::ImageReader (new, with_guessed_format, set_format,
/// decode), image::DynamicImage::into_rgba8, image::ImageBuffer::dimensions
/// and image::ImageBuffer::into_raw: the payload is decoded by content
/// sniffing, falling back to the TGA format when asked and nothing was
/// recognized, into an RGBA buffer of exactly four bytes per pixel. A
/// failure carries the codec's message and whether it was the unsupported
/// kind (image::ImageError::Unsupported) rather than a corrupt payload.
#[verifier::external_body]
fn raster_from_bytes(bytes: &[u8], tga: bool) -> (r: Result<
    (usize, usize, Vec<u8>),
    (bool, String),
>)
    ensures
        r is Ok <==> raster_decoded(bytes@, tga) is Ok,
        r matches Ok(t) ==> raster_decoded(bytes@, tga) matches Ok(d) && d.0 == t.0 && d.1 == t.1
            && d.2 == t.2@ && t.2@.len() == t.0 * t.1 * 4,
        r matches Err(e) ==> raster_decoded(bytes@, tga) matches Err(u) && u == e.0,
{
    let mut reader = image::ImageReader::new(std::io::Cursor::new(bytes)).with_guessed_format()
        .map_err(|e| (true, e.to_string()))?;
    if reader.format().is_none() && tga {
        reader.set_format(image::ImageFormat::Tga);
    }
    match reader.decode() {
        Ok(img) => {
            let rgba = img.into_rgba8();
            let (w, h) = rgba.dimensions();
            Ok((w as usize, h as usize, rgba.into_raw()))
        },
        Err(e) => Err((matches!(e, image::ImageError::Unsupported(_)), e.to_string())),
    }
}

/// Relies on image::codecs::gif::GifDecoder::new,
/// image::AnimationDecoder::into_frames and image::Frames::collect_frames:
/// every frame of the payload is decoded eagerly to an RGBA buffer of
/// exactly four bytes per pixel plus its display delay in milliseconds.
#[verifier::external_body]
fn gif_frames_from_bytes(bytes: &[u8]) -> (r: Result<
    Vec<(usize, usize, Vec<u8>, u64)>,
    String,
>)
    ensures
        r is Ok <==> gif_decoded(bytes@) is Some,
        r matches Ok(v) ==> gif_decoded(bytes@) matches Some(s) && s.len() == v@.len() && forall|
            i: int,
        |
            0 <= i < v@.len() ==> {
                &&& (#[trigger] v@[i]).0 == s[i].0
                &&& v@[i].1 == s[i].1
                &&& v@[i].2@ == s[i].2
                &&& v@[i].3 == s[i].3
                &&& v@[i].2@.len() == v@[i].0 * v@[i].1 * 4
            },
{
    let decoder = image::codecs::gif::GifDecoder::new(std::io::Cursor::new(bytes)).map_err(
        |e| e.to_string(),
    )?;
    let frames = decoder.into_frames().collect_frames().map_err(|e| e.to_string())?;
    Ok(
        frames.into_iter().map(
            |f| {
                let delay = std::time::Duration::from(f.delay()).as_millis() as u64;
                let buf = f.into_buffer();
                let (w, h) = buf.dimensions();
                (w as usize, h as usize, buf.into_raw(), delay)
            },
        ).collect(),
    )
}

/// Relies on rawloader::decode (which catches decoder panics and reports
/// them as errors), imagepipe::Pipeline::new_from_source and
/// imagepipe::Pipeline::output_8bit: proprietary sensor data is demosaiced
/// into an 8-bit sRGB image given as its dimensions and a packed RGB buffer.
/// Nothing is assumed of the buffer's length; the caller checks it.
#[verifier::external_body]
fn sensor_rgb_from_bytes(bytes: &[u8]) -> (r: Result<(usize, usize, Vec<u8>), String>)
    ensures
        r is Ok <==> sensor_decoded(bytes@) is Some,
        r matches Ok(t) ==> sensor_decoded(bytes@) matches Some(d) && d.0 == t.0 && d.1 == t.1
            && d.2 == t.2@,
{
    let raw = rawloader::decode(&mut std::io::Cursor::new(bytes)).map_err(|e| e.to_string())?;
    let source = imagepipe::ImageSource::Raw(raw);
    let mut pipeline = imagepipe::Pipeline::new_from_source(source).map_err(|e| e.to_string())?;
    let out = pipeline.output_8bit(None).map_err(|e| e.to_string())?;
    Ok((out.width, out.height, out.data))
}

/// Decode a still raster payload (the standard formats and the general-codec
/// group) into a well-formed bitmap. Success is owed exactly when the codec
/// decodes the payload to dimensions the viewer accepts. The codec's two
/// failure modes surface as distinct errors: a container or format it does
/// not support is an open failure, a corrupt payload a decode failure, and
/// neither ever yields a partial image.
pub fn decode_standard_raster(name: &str, bytes: &[u8]) -> (r: Result<Bitmap, ViewerError>)
    ensures
        r is Ok <==> raster_ok(bytes@, tga_name(name@)),
        r matches Ok(b) ==> b.wf() && bitmap_matches_raster(b, bytes@, tga_name(name@)),
        (raster_decoded(bytes@, tga_name(name@)) matches Err(u) && u) ==> r is Err && r->Err_0
            is OpenFailure,
        (raster_decoded(bytes@, tga_name(name@)) matches Err(u) && !u) ==> r is Err && r->Err_0
            is DecodeFailure,
        (raster_decoded(bytes@, tga_name(name@)) matches Ok(d) && (d.0 == 0 || d.1 == 0)) ==> r
            == Err::<Bitmap, ViewerError>(ViewerError::EmptyResult),
        (raster_decoded(bytes@, tga_name(name@)) matches Ok(d) && d.0 > 0 && d.1 > 0 && (d.0
            > MAX_DIM || d.1 > MAX_DIM)) ==> r->Err_0 is DecodeFailure,
{
    let tga = has_tga_extension(name);
    match raster_from_bytes(bytes, tga) {
        Err((unrecognized, msg)) => {
            if unrecognized {
                Err(ViewerError::OpenFailure(msg))
            } else {
                Err(ViewerError::DecodeFailure(msg))
            }
        },
        Ok((w, h, pixels)) => Bitmap::from_rgba(w, h, pixels),
    }
}

/// Decode every frame of an animated payload eagerly. Success is owed
/// exactly when the decoder finds at least one frame with acceptable
/// dimensions, and then yields exactly those frames in order: a zero-frame
/// decode is reported as an empty-result error, never as an empty sequence.
pub fn decode_animated(bytes: &[u8]) -> (r: Result<Vec<Frame>, ViewerError>)
    ensures
        r is Ok <==> animated_ok(bytes@),
        gif_decoded(bytes@) is None ==> r->Err_0 is DecodeFailure,
        (gif_decoded(bytes@) matches Some(s) && s.len() == 0) ==> r == Err::<
            Vec<Frame>,
            ViewerError,
        >(ViewerError::EmptyResult),
        r matches Ok(frames) ==> frames_match_animation(frames@, bytes@) && forall|i: int|
            0 <= i < frames@.len() ==> (#[trigger] frames@[i]).wf(),
{
    let decoded = match gif_frames_from_bytes(bytes) {
        Err(msg) => {
            return Err(ViewerError::DecodeFailure(msg));
        },
        Ok(v) => v,
    };
    if decoded.len() == 0 {
        return Err(ViewerError::EmptyResult);
    }
    let ghost named = gif_decoded(bytes@)->Some_0;
    let mut frames: Vec<Frame> = Vec::new();
    let mut i: usize = 0;
    while i < decoded.len()
        invariant
            0 <= i <= decoded@.len(),
            gif_decoded(bytes@) == Some(named),
            named.len() == decoded@.len(),
            decoded@.len() > 0,
            forall|k: int|
                0 <= k < decoded@.len() ==> {
                    &&& (#[trigger] decoded@[k]).0 == named[k].0
                    &&& decoded@[k].1 == named[k].1
                    &&& decoded@[k].2@ == named[k].2
                    &&& decoded@[k].3 == named[k].3
                    &&& decoded@[k].2@.len() == decoded@[k].0 * decoded@[k].1 * 4
                },
            frames@.len() == i,
            forall|k: int|
                0 <= k < i ==> {
                    &&& (#[trigger] frames@[k]).wf()
                    &&& frames@[k].bitmap.width == named[k].0
                    &&& frames@[k].bitmap.height == named[k].1
                    &&& frames@[k].bitmap.pixels@ == named[k].2
                    &&& frames@[k].delay_ms == named[k].3
                },
        decreases decoded@.len() - i,
    {
        let w = decoded[i].0;
        let h = decoded[i].1;
        let pixels = decoded[i].2.clone();
        let delay_ms = decoded[i].3;
        let bitmap = match Bitmap::from_rgba(w, h, pixels) {
            Err(e) => {
                return Err(e);
            },
            Ok(b) => b,
        };
        frames.push(Frame { bitmap, delay_ms });
        i = i + 1;
    }
    proof {
        assert forall|k: int|
            0 <= k < named.len() implies 0 < (#[trigger] named[k]).0 <= MAX_DIM && 0 < named[k].1
            <= MAX_DIM by {
            assert(frames@[k].wf());
        }
    }
    Ok(frames)
}

/// Decode a proprietary sensor capture through the demosaicing pipeline
/// into a well-formed bitmap with opaque alpha. Success is owed exactly
/// when the pipeline develops the payload into an image the viewer accepts,
/// and then the bitmap carries exactly the developed pixels.
pub fn decode_sensor_raw(bytes: &[u8]) -> (r: Result<Bitmap, ViewerError>)
    ensures
        r is Ok <==> sensor_ok(bytes@),
        sensor_decoded(bytes@) is None ==> r->Err_0 is DecodeFailure,
        (sensor_decoded(bytes@) matches Some(d) && (d.0 == 0 || d.1 == 0)) ==> r == Err::<
            Bitmap,
            ViewerError,
        >(ViewerError::EmptyResult),
        r matches Ok(b) ==> b.wf() && bitmap_matches_sensor(b, bytes@),
{
    match sensor_rgb_from_bytes(bytes) {
        Err(msg) => Err(ViewerError::DecodeFailure(msg)),
        Ok((w, h, rgb)) => Bitmap::from_rgb(w, h, &rgb),
    }
}

/// One sample normalized from `depth` bits down to 8 bits.
pub open spec fn normalized_sample(v: int, depth: nat) -> int {
    v * 255 / (vstd::arithmetic::power2::pow2(depth) - 1)
}

/// Normalize an arbitrary-bit-depth RGBA sample buffer down to 8 bits per
/// channel, as the next-generation-codec family's adapter owes it. No such
/// codec is among this build's dependencies, so this verified normalization
/// stage takes the codec's output as plain samples; the byte-level dispatch
/// meanwhile hands next-generation payloads to the general codec, as the
/// routing always did for extensions without a codec of their own. Success
/// is owed exactly when the depth is in `[1, 16]`, the dimensions are
/// positive and within bounds, the buffer holds four samples per pixel and
/// every sample fits in the declared depth.
pub fn decode_next_gen(width: usize, height: usize, depth: u32, samples: &Vec<u16>) -> (r: Result<
    Bitmap,
    ViewerError,
>)
    ensures
        r is Ok <==> {
            &&& 1 <= depth <= 16
            &&& 0 < width <= MAX_DIM
            &&& 0 < height <= MAX_DIM
            &&& samples@.len() == width * height * 4
            &&& forall|i: int|
                0 <= i < samples@.len() ==> (#[trigger] samples@[i] as int)
                    < vstd::arithmetic::power2::pow2(depth as nat)
        },
        r matches Ok(b) ==> {
            &&& b.wf()
            &&& b.width == width
            &&& b.height == height
            &&& forall|i: int|
                0 <= i < samples@.len() ==> #[trigger] b.pixels@[i] as int == normalized_sample(
                    samples@[i] as int,
                    depth as nat,
                )
        },
{
    if depth < 1 || depth > 16 {
        return Err(ViewerError::DecodeFailure("unsupported bit depth".to_owned()));
    }
    if width == 0 || height == 0 {
        return Err(ViewerError::EmptyResult);
    }
    if width > MAX_DIM || height > MAX_DIM {
        return Err(ViewerError::DecodeFailure("image dimensions are too large".to_owned()));
    }
    proof {
        assert(width * height * 4 <= 16384 * 16384 * 4) by (nonlinear_arith)
            requires
                width <= 16384,
                height <= 16384,
        ;
    }
    let count: usize = width * height;
    if samples.len() != count * 4 {
        return Err(ViewerError::DecodeFailure("sample count does not match dimensions".to_owned()));
    }
    proof {
        vstd::arithmetic::power2::lemma2_to64();
        if depth < 16 {
            vstd::arithmetic::power2::lemma_pow2_strictly_increases(depth as nat, 16);
        }
        vstd::bits::lemma_u32_shl_is_mul(1u32, depth);
    }
    let maxv: u32 = (1u32 << depth) - 1;
    let mut pixels: Vec<u8> = Vec::new();
    let mut i: usize = 0;
    while i < samples.len()
        invariant
            0 <= i <= samples@.len(),
            1 <= depth <= 16,
            maxv as int == vstd::arithmetic::power2::pow2(depth as nat) - 1,
            1 <= maxv <= 65535,
            pixels@.len() == i,
            forall|k: int|
                0 <= k < i ==> {
                    &&& (#[trigger] samples@[k] as int)
                        < vstd::arithmetic::power2::pow2(depth as nat)
                    &&& pixels@[k] as int == normalized_sample(samples@[k] as int, depth as nat)
                },
        decreases samples@.len() - i,
    {
        let v = samples[i];
        if v as u32 > maxv {
            return Err(ViewerError::DecodeFailure("sample exceeds the declared depth".to_owned()));
        }
        let scaled: u32 = (v as u32 * 255) / maxv;
        proof {
            vstd::arithmetic::div_mod::lemma_div_is_ordered(
                (v as int) * 255,
                (maxv as int) * 255,
                maxv as int,
            );
            vstd::arithmetic::div_mod::lemma_div_multiples_vanish(255, maxv as int);
            vstd::arithmetic::div_mod::lemma_div_pos_is_pos((v as int) * 255, maxv as int);
        }
        pixels.push(scaled as u8);
        i = i + 1;
    }
    let r = Bitmap::from_rgba(width, height, pixels);
    r
}

/// Route an in-memory payload to its family's decoder by file name. A name
/// outside every table is rejected without a decode attempt; a scientific
/// container is not decoded from bytes (its reader works from the file, and
/// its sample data enters through [`crate::scientific::decode_scientific`]).
/// For every other family success is owed exactly when that family's
/// decoder accepts the payload, and the result carries exactly what it
/// decoded.
pub fn decode_bytes(name: &str, bytes: &[u8]) -> (r: Result<LoadedImage, ViewerError>)
    ensures
        family_of(name@) == Family::Unsupported ==> r == Err::<LoadedImage, ViewerError>(
            ViewerError::UnsupportedFormat,
        ),
        family_of(name@) == Family::Scientific ==> r is Err && r->Err_0 is OpenFailure,
        (family_of(name@) == Family::StandardRaster || family_of(name@) == Family::NextGenCodec)
            ==> {
            &&& r is Ok <==> raster_ok(bytes@, tga_name(name@))
            &&& r matches Ok(img) ==> (img matches LoadedImage::Still(b)
                && bitmap_matches_raster(b, bytes@, tga_name(name@)))
        },
        family_of(name@) == Family::Animated ==> {
            &&& r is Ok <==> animated_ok(bytes@)
            &&& r matches Ok(img) ==> (img matches LoadedImage::Animation(frames)
                && frames_match_animation(frames@, bytes@))
        },
        family_of(name@) == Family::SensorRaw ==> {
            &&& r is Ok <==> sensor_ok(bytes@)
            &&& r matches Ok(img) ==> (img matches LoadedImage::Still(b)
                && bitmap_matches_sensor(b, bytes@))
        },
        r matches Ok(img) ==> img.wf(),
{
    let family = crate::format::classify(name);
    match family {
        Family::Unsupported => Err(ViewerError::UnsupportedFormat),
        Family::Scientific => Err(
            ViewerError::OpenFailure(
                "scientific containers are decoded from their file, not from memory".to_owned(),
            ),
        ),
        Family::Animated => {
            let frames = decode_animated(bytes)?;
            Ok(LoadedImage::Animation(frames))
        },
        Family::SensorRaw => {
            let bitmap = decode_sensor_raw(bytes)?;
            Ok(LoadedImage::Still(bitmap))
        },
        Family::StandardRaster | Family::NextGenCodec => {
            let bitmap = decode_standard_raster(name, bytes)?;
            Ok(LoadedImage::Still(bitmap))
        },
    }
}

} // verus!
