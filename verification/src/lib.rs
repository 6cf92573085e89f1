//! Fetches the manifest of raw rover-helicopter images for a mission day
//! ("sol"), downloads the referenced full-resolution images with a bounded
//! number of fetches in flight, decodes them, and plans an animated GIF at a
//! configurable frame rate.
//!
//! The verified core works on plain values: manifest models, byte buffers,
//! pixel buffers and integer timing. Network transport, threads and the file
//! sink live outside the library and hand plain values in and out.

use vstd::prelude::*;

pub mod download;
pub mod errors;
pub mod frames;
pub mod manifest;

verus! {

/// Law: the pipeline is deterministic end to end. Re-run against identical
/// remote answers and identical downloaded bytes, it resolves the same sol,
/// extracts the same URL list, accepts or rejects the same frames, and plans
/// the same frame contents and timing.
pub proof fn lemma_pipeline_idempotent(
    requested: Option<i64>,
    m1: manifest::SolManifest,
    m2: manifest::SolManifest,
    d1: Seq<Seq<u8>>,
    d2: Seq<Seq<u8>>,
)
    requires
        m1 == m2,
        d1 == d2,
    ensures
        manifest::resolve_sol_spec(requested, m1) == manifest::resolve_sol_spec(requested, m2),
        manifest::extract_urls_spec(m1) == manifest::extract_urls_spec(m2),
        frames::frames_ok(d1) == frames::frames_ok(d2),
        frames::frames_rgba_spec(d1) == frames::frames_rgba_spec(d2),
{
}

/// Width in pixels of the fixed output canvas every frame is encoded at.
pub const CANVAS_WIDTH: u32 = 640;

/// Height in pixels of the fixed output canvas every frame is encoded at.
pub const CANVAS_HEIGHT: u32 = 480;

/// Default number of downloads allowed in flight at once.
pub const DEFAULT_CONCURRENCY: usize = 4;

/// Fixed encoder policy: maximal quality, not user-tunable.
pub const GIF_QUALITY: u8 = 100;

} // verus!
