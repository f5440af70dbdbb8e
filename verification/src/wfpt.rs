//! How the wavefront path tracer splits a frame into GPU passes.
use vstd::prelude::*;

verus! {

/// The most rays one pass traces: the ray pool holds this many.
pub const MAX_RAYS_PER_PASS: u32 = 0x10_0000;

/// The bytes of one ray in the ray pool.
pub const RAY_BYTES: u64 = 32 + 32 + 4 + 4 + 4 + 8 + 16 + 4 + 16 + 4 + 48 + 4 + 4 + 48 + 4 + 32 + 32;

/// The ray pool: the rays, then a 16-byte header whose first word is the number of rays.
pub const RAYPOOL_BUFFER_SIZE: u64 = RAY_BYTES * 0x10_0000 + 16;

/// The ray queues: four queues of ray indexes, then a 16-byte header of their lengths.
pub const QUEUE_BUFFER_SIZE: u64 = 0x10_0000 * 4 * 4 + 4 * 4;

/// The threads of one compute workgroup.
pub const WORKGROUP_SIZE: u32 = 256;

/// `a / b` rounded up.
pub open spec fn spec_div_ceil(a: int, b: int) -> int {
    (a + b - 1) / b
}

fn div_ceil(a: u32, b: u32) -> (r: u32)
    requires
        b > 0,
    ensures
        r == spec_div_ceil(a as int, b as int),
{
    let q = a / b;
    let r = a % b;
    proof {
        vstd::arithmetic::div_mod::lemma_fundamental_div_mod(a as int, b as int);
        assert(spec_div_ceil(a as int, b as int) == q + (if r == 0 { 0int } else { 1int }))
            by (nonlinear_arith)
            requires
                a == b * q + r,
                0 <= r < b,
        ;
        assert(r != 0 ==> q < u32::MAX) by (nonlinear_arith)
            requires
                a == b * q + r,
                0 <= r < b,
                a <= u32::MAX,
        ;
    }
    if r == 0 {
        q
    } else {
        q + 1
    }
}

/// The GPU work of one wavefront frame.
#[derive(PartialEq, Eq, Structural, Clone, Copy, Debug)]
pub struct WavefrontPlan {
    /// Whether the frame traces rays; once every pixel has all its samples it only draws.
    pub trace: bool,
    /// The rays of the frame: one per pixel and sample of the frame.
    pub total_ray_count: u32,
    /// The rays the first pass starts.
    pub init_ray_count: u32,
    /// The workgroups of the first passes.
    pub workgroups: u32,
    /// The rounds of logic, new-path, material and ray-cast passes.
    pub iterations: u32,
}

/// Plans the frame `frame_id` of an image of `width` by `height` pixels that takes
/// `samples_per_frame` samples per frame, `samples_per_pixel` in all, and follows each
/// path for `max_depth` bounces.
pub open spec fn spec_plan_wavefront(
    frame_id: u32,
    samples_per_frame: u32,
    samples_per_pixel: u32,
    width: u32,
    height: u32,
    max_depth: u32,
) -> WavefrontPlan {
    if frame_id * samples_per_frame < samples_per_pixel {
        let total = width * height * samples_per_frame;
        let init = if total < MAX_RAYS_PER_PASS { total } else { MAX_RAYS_PER_PASS as int };
        WavefrontPlan {
            trace: true,
            total_ray_count: total as u32,
            init_ray_count: init as u32,
            workgroups: spec_div_ceil(init, WORKGROUP_SIZE as int) as u32,
            iterations: (spec_div_ceil(total, MAX_RAYS_PER_PASS as int) * max_depth) as u32,
        }
    } else {
        WavefrontPlan {
            trace: false,
            total_ray_count: 0,
            init_ray_count: 0,
            workgroups: 0,
            iterations: 0,
        }
    }
}

pub fn plan_wavefront(
    frame_id: u32,
    samples_per_frame: u32,
    samples_per_pixel: u32,
    width: u32,
    height: u32,
    max_depth: u32,
) -> (r: WavefrontPlan)
    requires
        frame_id * samples_per_frame <= u32::MAX,
        frame_id * samples_per_frame < samples_per_pixel ==> width * height <= u32::MAX,
        frame_id * samples_per_frame < samples_per_pixel ==> width * height * samples_per_frame
            <= u32::MAX && spec_div_ceil(width * height * samples_per_frame, MAX_RAYS_PER_PASS as int)
            * max_depth <= u32::MAX,
    ensures
        r == spec_plan_wavefront(
            frame_id,
            samples_per_frame,
            samples_per_pixel,
            width,
            height,
            max_depth,
        ),
{
    if frame_id * samples_per_frame < samples_per_pixel {
        let total = width * height * samples_per_frame;
        let init = if total < MAX_RAYS_PER_PASS { total } else { MAX_RAYS_PER_PASS };
        let wg = div_ceil(init, WORKGROUP_SIZE);
        let rounds = div_ceil(total, MAX_RAYS_PER_PASS);
        WavefrontPlan {
            trace: true,
            total_ray_count: total,
            init_ray_count: init,
            workgroups: wg,
            iterations: rounds * max_depth,
        }
    } else {
        WavefrontPlan {
            trace: false,
            total_ray_count: 0,
            init_ray_count: 0,
            workgroups: 0,
            iterations: 0,
        }
    }
}

/// The header the ray queues start a traced frame with: all queues empty, the third
/// word the capacity of a queue.
pub fn queue_header() -> (r: [u32; 4])
    ensures
        r@ == seq![0u32, 0u32, MAX_RAYS_PER_PASS, 0u32],
{
    let r = [0, 0, MAX_RAYS_PER_PASS, 0];
    assert(r@ =~= seq![0u32, 0u32, MAX_RAYS_PER_PASS, 0u32]);
    r
}


/// The rounds of a traced frame start every ray of the frame: each round starts at most
/// `MAX_RAYS_PER_PASS` rays, and there are enough rounds per bounce for all of them.
pub proof fn law_rounds_cover_rays(total: nat)
    ensures
        spec_div_ceil(total as int, MAX_RAYS_PER_PASS as int) * MAX_RAYS_PER_PASS >= total,
        (spec_div_ceil(total as int, MAX_RAYS_PER_PASS as int) - 1) * MAX_RAYS_PER_PASS < total
            || total == 0,
{
    let m = MAX_RAYS_PER_PASS as int;
    let q = (total + m - 1) / m;
    assert(q * m >= total && (q - 1) * m < total || total == 0) by (nonlinear_arith)
        requires
            m == 0x10_0000,
            q == (total + m - 1) / m,
            total >= 0,
    ;
}

/// A frame traces rays exactly when some sample of every pixel is still missing, that is
/// when the frames before it took fewer samples than asked for. A traced frame casts one
/// ray per pixel and sample of the frame, starts at most `MAX_RAYS_PER_PASS` of them in
/// its first pass, gives its first passes enough workgroups of `WORKGROUP_SIZE` for
/// those and no more, and runs enough rounds per bounce to start every ray.
pub proof fn law_wavefront_traces_missing_samples(
    frame_id: u32,
    samples_per_frame: u32,
    samples_per_pixel: u32,
    width: u32,
    height: u32,
    max_depth: u32,
)
    requires
        width * height * samples_per_frame <= u32::MAX,
        (width * height * samples_per_frame + MAX_RAYS_PER_PASS) * (max_depth + 1) <= u32::MAX,
    ensures
        ({
            let p = spec_plan_wavefront(frame_id, samples_per_frame, samples_per_pixel, width, height, max_depth);
            &&& p.trace <==> frame_id * samples_per_frame < samples_per_pixel
            &&& !p.trace ==> p.total_ray_count == 0 && p.init_ray_count == 0 && p.workgroups == 0
                && p.iterations == 0
            &&& p.trace ==> {
                &&& p.total_ray_count == width * height * samples_per_frame
                &&& p.init_ray_count <= p.total_ray_count
                &&& p.init_ray_count <= MAX_RAYS_PER_PASS
                &&& (p.init_ray_count == p.total_ray_count || p.init_ray_count == MAX_RAYS_PER_PASS)
                &&& p.workgroups * WORKGROUP_SIZE >= p.init_ray_count
                &&& p.init_ray_count == 0 || (p.workgroups - 1) * WORKGROUP_SIZE < p.init_ray_count
                &&& p.iterations % (if max_depth == 0 { 1u32 } else { max_depth }) == 0
                &&& max_depth > 0 ==> (p.iterations / max_depth) * MAX_RAYS_PER_PASS >= p.total_ray_count
            }
        }),
{
    let p = spec_plan_wavefront(frame_id, samples_per_frame, samples_per_pixel, width, height, max_depth);
    if frame_id * samples_per_frame < samples_per_pixel {
        let total = width * height * samples_per_frame;
        let init = if total < MAX_RAYS_PER_PASS { total } else { MAX_RAYS_PER_PASS as int };
        let wg = spec_div_ceil(init, WORKGROUP_SIZE as int);
        let rounds = spec_div_ceil(total, MAX_RAYS_PER_PASS as int);
        assert(wg * 256 >= init && (init == 0 || (wg - 1) * 256 < init) && wg >= 0) by (nonlinear_arith)
            requires
                wg == (init + 256 - 1) / 256,
                init >= 0,
        ;
        assert(0 <= rounds <= total + 1 && rounds * 0x10_0000 >= total) by (nonlinear_arith)
            requires
                rounds == (total + 0x10_0000 - 1) / 0x10_0000,
                total >= 0,
        ;
        assert(0 <= rounds * max_depth <= (total + 0x10_0000) * (max_depth + 1)) by (nonlinear_arith)
            requires
                0 <= rounds <= total + 1,
                max_depth >= 0,
        ;
        assert(wg <= init + 1) by (nonlinear_arith)
            requires
                wg == (init + 256 - 1) / 256,
                init >= 0,
        ;
        assert(p.iterations == rounds * max_depth);
        assert(p.workgroups == wg);
        if max_depth > 0 {
            assert((rounds * max_depth) % (max_depth as int) == 0 && (rounds * max_depth) / (max_depth as int)
                == rounds) by (nonlinear_arith)
                requires
                    max_depth > 0,
                    rounds >= 0,
            ;
        }
    }
}

} // verus!
