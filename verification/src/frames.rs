//! The frame pipeline: decoding downloaded image bytes into canvas frames
//! for the GIF encoder, and the integer timing of the animation.
//!
//! For each downloaded body, in input order, the producer stage sniffs the
//! image format, decodes it, and converts every pixel to 4-channel RGBA with
//! full alpha. A frame's presentation time is `index / fps` seconds; this
//! module states it exactly in milliseconds rounded to nearest, and the
//! inter-frame delay in centiseconds (the GIF unit), also rounded to nearest.
//! A frame that cannot be decoded is fatal to the whole encode: a partially
//! produced GIF is not a meaningful output.

use vstd::arithmetic::div_mod::lemma_div_is_ordered;
use vstd::prelude::*;

use crate::errors::PipelineError;

verus! {

/// What decoding an encoded image gives: `None` for undecodable bytes, or
/// width, height and the raw 8-bit RGB pixel rows. The decode is a function
/// of the bytes alone.
pub uninterp spec fn decoded_rgb_of(bytes: Seq<u8>) -> Option<(u32, u32, Seq<u8>)>;

/// One decoded image: its pixel grid as raw 8-bit RGB, three bytes per
/// pixel, row by row.
pub struct DecodedImage {
    /// Width of the decoded grid in pixels.
    pub width: u32,
    /// Height of the decoded grid in pixels.
    pub height: u32,
    /// The raw RGB bytes, `3 * width * height` of them.
    pub rgb: Vec<u8>,
}

/// Relies on image::load_from_memory (a format-sniffing decode, a function
/// of the bytes alone) and DynamicImage::to_rgb8, whose raw buffer holds
/// exactly three bytes per pixel.
#[verifier::external_body]
fn decode_rgb(bytes: &Vec<u8>) -> (r: Option<DecodedImage>)
    ensures
        r is Some <==> decoded_rgb_of(bytes@) is Some,
        r matches Some(d) ==> (decoded_rgb_of(bytes@) matches Some(t) && d.width == t.0
            && d.height == t.1 && d.rgb@ == t.2 && d.rgb@.len() == 3 * (d.width as int) * (
        d.height as int)),
{
    match image::load_from_memory(bytes.as_slice()) {
        Ok(img) => {
            let buf = img.to_rgb8();
            let width: u32 = buf.width();
            let height: u32 = buf.height();
            Some(DecodedImage { width, height, rgb: buf.into_raw() })
        },
        Err(_) => None,
    }
}

/// The 4-channel RGBA expansion of raw RGB bytes: each pixel keeps its three
/// channels and gains a fully opaque alpha.
pub open spec fn rgba_expand(rgb: Seq<u8>) -> Seq<u8> {
    Seq::new(
        rgb.len() / 3 * 4,
        |j: int|
            if j % 4 == 3 {
                255u8
            } else {
                rgb[(j / 4) * 3 + j % 4]
            },
    )
}

/// Converts raw RGB bytes to RGBA with full alpha, pixel by pixel, keeping
/// pixel order.
pub fn rgb_to_rgba(rgb: &Vec<u8>) -> (r: Vec<u8>)
    requires
        rgb@.len() % 3 == 0,
        rgb@.len() / 3 * 4 <= usize::MAX,
    ensures
        r@ == rgba_expand(rgb@),
{
    let pixels: usize = rgb.len() / 3;
    let mut out: Vec<u8> = Vec::new();
    let mut p: usize = 0;
    while p < pixels
        invariant
            p <= pixels,
            pixels == rgb@.len() / 3,
            rgb@.len() % 3 == 0,
            pixels * 4 <= usize::MAX,
            out@.len() == 4 * p,
            forall|j: int| 0 <= j < 4 * p ==> out@[j] == rgba_expand(rgb@)[j],
        decreases pixels - p,
    {
        let base: usize = 3 * p;
        out.push(rgb[base]);
        out.push(rgb[base + 1]);
        out.push(rgb[base + 2]);
        out.push(255);
        proof {
            assert forall|j: int| 0 <= j < 4 * (p + 1) implies out@[j] == rgba_expand(rgb@)[j] by {
                if j >= 4 * p {
                    assert(j / 4 == p && (j % 4 == 0 || j % 4 == 1 || j % 4 == 2 || j % 4 == 3));
                }
            }
        }
        p = p + 1;
    }
    assert(out@ =~= rgba_expand(rgb@));
    out
}

/// Whether one downloaded body can become a frame: its bytes decode, and the
/// expanded RGBA buffer fits in memory.
pub open spec fn frame_ok(bytes: Seq<u8>) -> bool {
    match decoded_rgb_of(bytes) {
        Some(t) => t.2.len() / 3 <= usize::MAX as int / 4,
        None => false,
    }
}

/// The RGBA contents of the frame a body decodes to.
pub open spec fn frame_rgba_spec(bytes: Seq<u8>) -> Seq<u8> {
    rgba_expand((decoded_rgb_of(bytes)->0).2)
}

/// One decoded, RGBA-normalized frame. Its presentation time is
/// `index / fps` seconds; the frame at position `i` of the input is exactly
/// the frame at position `i` of the animation.
pub struct Frame {
    /// Position of the source image in the manifest, and of this frame in
    /// the animation.
    pub index: usize,
    /// Width of the decoded grid in pixels.
    pub width: u32,
    /// Height of the decoded grid in pixels.
    pub height: u32,
    /// The pixel grid as 4-channel RGBA, fully opaque.
    pub rgba: Vec<u8>,
}

/// Decodes one downloaded body into the frame at `index`. Failure to decode
/// is `FrameDecodeFailure` carrying that index, and nothing else.
pub fn decode_frame(bytes: &Vec<u8>, index: usize) -> (r: Result<Frame, PipelineError>)
    ensures
        r is Ok <==> frame_ok(bytes@),
        r matches Ok(f) ==> (f.index == index && f.rgba@ == frame_rgba_spec(bytes@) && (
        decoded_rgb_of(bytes@) matches Some(t) && f.width == t.0 && f.height == t.1)),
        r matches Err(e) ==> e == (PipelineError::FrameDecodeFailure { index }),
{
    match decode_rgb(bytes) {
        Some(d) => {
            if d.rgb.len() / 3 <= usize::MAX / 4 {
                proof {
                    let w: int = d.width as int;
                    let h: int = d.height as int;
                    assert((w * h) * 3 == 3 * w * h) by (nonlinear_arith);
                    vstd::arithmetic::div_mod::lemma_mod_multiples_basic(w * h, 3);
                }
                let rgba = rgb_to_rgba(&d.rgb);
                Ok(Frame { index, width: d.width, height: d.height, rgba })
            } else {
                Err(PipelineError::FrameDecodeFailure { index })
            }
        },
        None => Err(PipelineError::FrameDecodeFailure { index }),
    }
}

/// Whether every body of a batch can become a frame.
pub open spec fn frames_ok(data: Seq<Seq<u8>>) -> bool {
    forall|i: int| 0 <= i < data.len() ==> frame_ok(#[trigger] data[i])
}

/// The RGBA contents of the whole animation, frame by frame, in input order.
pub open spec fn frames_rgba_spec(data: Seq<Seq<u8>>) -> Seq<Seq<u8>> {
    Seq::new(data.len(), |i: int| frame_rgba_spec(data[i]))
}

/// Decodes every downloaded body, in order, into the animation's frames:
/// frame `i` comes from body `i`. The first undecodable body is fatal for
/// the whole batch, as `FrameDecodeFailure` carrying its index.
pub fn build_frames(data: &Vec<Vec<u8>>) -> (r: Result<Vec<Frame>, PipelineError>)
    ensures
        r is Ok <==> frames_ok(data.deep_view()),
        r matches Ok(frames) ==> (frames@.len() == data@.len() && forall|i: int|
            0 <= i < data@.len() ==> ((#[trigger] frames@[i]).index == i && frames@[i].rgba@
                == frame_rgba_spec(data.deep_view()[i]) && (decoded_rgb_of(data.deep_view()[i])
                matches Some(t) && frames@[i].width == t.0 && frames@[i].height == t.1))),
        r matches Err(e) ==> (e matches PipelineError::FrameDecodeFailure { index } && 0 <= index
            < data@.len() && !frame_ok(data.deep_view()[index as int]) && (forall|j: int|
            0 <= j < index ==> frame_ok(#[trigger] data.deep_view()[j]))),
{
    let mut frames: Vec<Frame> = Vec::new();
    let mut i: usize = 0;
    while i < data.len()
        invariant
            i <= data@.len(),
            frames@.len() == i,
            forall|j: int| 0 <= j < i ==> frame_ok(#[trigger] data.deep_view()[j]),
            forall|j: int|
                0 <= j < i ==> ((#[trigger] frames@[j]).index == j && frames@[j].rgba@
                    == frame_rgba_spec(data.deep_view()[j]) && (decoded_rgb_of(
                    data.deep_view()[j],
                ) matches Some(t) && frames@[j].width == t.0 && frames@[j].height == t.1)),
        decreases data@.len() - i,
    {
        assert(data.deep_view()[i as int] == data@[i as int]@);
        match decode_frame(&data[i], i) {
            Ok(f) => {
                frames.push(f);
            },
            Err(e) => {
                return Err(e);
            },
        }
        i = i + 1;
    }
    Ok(frames)
}

/// A frame's presentation time `index / fps` in milliseconds, rounded to
/// nearest.
pub open spec fn timestamp_millis_spec(index: int, fps: int) -> int {
    (2000 * index + fps) / (2 * fps)
}

/// Computes a frame's presentation time in milliseconds, rounded to nearest.
pub fn frame_timestamp_millis(index: usize, fps: u32) -> (r: u64)
    requires
        1 <= fps,
        2000 * index <= u64::MAX - fps,
    ensures
        r == timestamp_millis_spec(index as int, fps as int),
{
    let num: u64 = 2000 * (index as u64) + (fps as u64);
    let den: u64 = 2 * (fps as u64);
    num / den
}

/// The delay between consecutive frames at `fps` frames per second, in
/// centiseconds (the GIF's native delay unit): `100 / fps` rounded to
/// nearest.
pub open spec fn delay_centis_spec(fps: int) -> int {
    (200 + fps) / (2 * fps)
}

/// Computes the inter-frame delay in centiseconds, `100 / fps` rounded to
/// nearest.
pub fn frame_delay_centis(fps: u32) -> (r: u64)
    requires
        1 <= fps,
    ensures
        r == delay_centis_spec(fps as int),
{
    let num: u64 = 200 + (fps as u64);
    let den: u64 = 2 * (fps as u64);
    num / den
}

/// Law: presentation times never run backwards: the encoder receives frames
/// in index order with nondecreasing timestamps.
pub proof fn lemma_timestamps_monotonic(i: int, j: int, fps: int)
    requires
        0 <= i <= j,
        1 <= fps,
    ensures
        timestamp_millis_spec(i, fps) <= timestamp_millis_spec(j, fps),
{
    lemma_div_is_ordered(2000 * i + fps, 2000 * j + fps, 2 * fps);
}

/// Law: at any workable frame rate (at most one frame per millisecond) the
/// timestamps strictly increase from one frame to the next, so no two frames
/// share a presentation time.
pub proof fn lemma_timestamps_strictly_increase(i: int, fps: int)
    requires
        0 <= i,
        1 <= fps <= 1000,
    ensures
        timestamp_millis_spec(i, fps) < timestamp_millis_spec(i + 1, fps),
{
    let d: int = 2 * fps;
    let a: int = 2000 * i + fps;
    vstd::arithmetic::div_mod::lemma_div_plus_one(a, d);
    lemma_div_is_ordered(d + a, 2000 * (i + 1) + fps, d);
}

/// Law: the first frame is shown at time zero.
pub proof fn lemma_first_timestamp_zero(fps: int)
    requires
        1 <= fps,
    ensures
        timestamp_millis_spec(0, fps) == 0,
{
    assert(fps / (2 * fps) == 0) by {
        vstd::arithmetic::div_mod::lemma_basic_div(fps, 2 * fps);
    }
}

/// Law: the pipeline never changes the number of items: a batch of `n`
/// downloaded bodies plans an animation of exactly `n` frames.
pub proof fn lemma_frame_count_preserved(data: Seq<Seq<u8>>)
    ensures
        frames_rgba_spec(data).len() == data.len(),
{
}

/// Law: decoding is deterministic, so re-running the frame pipeline on the
/// same downloaded bytes plans the same animation.
pub proof fn lemma_frames_deterministic(a: Seq<Seq<u8>>, b: Seq<Seq<u8>>)
    requires
        a == b,
    ensures
        frames_ok(a) == frames_ok(b),
        frames_rgba_spec(a) == frames_rgba_spec(b),
{
}

} // verus!
