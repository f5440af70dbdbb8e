//! What the render menu reports about the progress of a render.
use vstd::prelude::*;

verus! {

/// How far a render is.
#[derive(PartialEq, Eq, Structural, Clone, Copy, Debug)]
pub struct SampleProgress {
    /// The samples every pixel has, capped at the number asked for.
    pub cur_samples: u32,
    /// Whether every pixel has all its samples (the render clock then stops).
    pub finished: bool,
}

/// After `frame_id` frames of `samples_per_frame` samples, of `samples_per_pixel` in all.
pub open spec fn spec_sample_progress(frame_id: u32, samples_per_frame: u32, samples_per_pixel: u32) -> SampleProgress {
    let taken = frame_id * samples_per_frame;
    let cur = if taken < samples_per_pixel { taken } else { samples_per_pixel as int };
    SampleProgress { cur_samples: cur as u32, finished: cur >= samples_per_pixel }
}

pub fn sample_progress(frame_id: u32, samples_per_frame: u32, samples_per_pixel: u32) -> (r: SampleProgress)
    requires
        frame_id * samples_per_frame <= u32::MAX,
    ensures
        r == spec_sample_progress(frame_id, samples_per_frame, samples_per_pixel),
{
    let taken = frame_id * samples_per_frame;
    let cur = if taken < samples_per_pixel { taken } else { samples_per_pixel };
    SampleProgress { cur_samples: cur, finished: !(cur < samples_per_pixel) }
}

/// A render is finished exactly when the frames taken so far hold every sample asked for;
/// until then the count is the samples taken, and it never exceeds the samples asked for.
pub proof fn law_progress_finishes_with_the_last_sample(frame_id: u32, samples_per_frame: u32, samples_per_pixel: u32)
    ensures
        ({
            let p = spec_sample_progress(frame_id, samples_per_frame, samples_per_pixel);
            &&& p.finished <==> frame_id * samples_per_frame >= samples_per_pixel
            &&& p.cur_samples <= samples_per_pixel
            &&& p.cur_samples <= frame_id * samples_per_frame
            &&& !p.finished ==> p.cur_samples == frame_id * samples_per_frame
            &&& p.finished ==> p.cur_samples == samples_per_pixel
        }),
{
}

} // verus!
