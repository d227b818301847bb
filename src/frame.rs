//! One frame of the render-to-texture core, with its stages in order.
//!
//! 1. Swap: each portal whose camera finished a newer picture shows it.
//! 2. Resize: render targets follow their windows' sizes.
//! 3. Extract: texture-rendering cameras are copied to the render world.
//! 4. Secondary passes: the driver node runs the draw sub-graph for every
//!    camera whose views are ready; each run finishes its picture before the
//!    node returns, and so before the main pass samples any display.
//!
//! A picture drawn in frame N is displayed from frame N + 1 on. The display
//! texture sampled in a frame is never drawn into or reallocated in that
//! frame.

use vstd::prelude::*;
use crate::cam_display::{
    dangling_portals,
    lemma_swap_preserves_scene,
    newer,
    swap_post,
    swap_ready,
    swap_texture,
};
use crate::image::{Image, ImageHandle, Images, rendered, valid_handle};
use crate::render_to_texture::{
    ExtractedCamera,
    GpuImage,
    TextureViewId,
    RenderAssets,
    SecondCamDriverNode,
    SubGraphRun,
    ViewDepthTextures,
    extract_rtt_render_phase,
    extracted,
    planned_runs,
    resize_rtt_texture,
    rtt_requests,
};
use crate::resize::{lemma_reallocated_source, lists_image, request_out_of_date, resize_post};
use crate::window::Windows;
use crate::world::{
    Components,
    Entity,
    World,
    display_of,
    has_material,
    has_target,
    is_portal,
    is_render_camera,
    scene_wf,
    target_of,
    textures_distinct,
};

verus! {

/// Some run of `runs` draws into image `i`.
pub open spec fn drawn_into(runs: Seq<SubGraphRun>, i: int) -> bool {
    exists|k: int| 0 <= k < runs.len() && runs[k].render_target.id == i
}

/// The store goes from `before` to `after` as the passes of `runs` in
/// `frame` finish: each target drawn into holds that frame's picture; every
/// other image is unchanged.
pub open spec fn passes_post(
    before: Seq<Image>,
    runs: Seq<SubGraphRun>,
    frame: u64,
    after: Seq<Image>,
) -> bool {
    &&& after.len() == before.len()
    &&& forall|k: int|
        #![trigger runs[k]]
        0 <= k < runs.len() && valid_handle(before, runs[k].render_target)
            ==> after[runs[k].render_target.id as int] == rendered(
            before[runs[k].render_target.id as int],
            frame,
        )
    &&& forall|i: int|
        #![trigger after[i]]
        0 <= i < before.len() && !drawn_into(runs, i) ==> after[i] == before[i]
}

/// No torn frame: after the frame that took the world from `w0` to `w1` and
/// the store from `imgs0` to `imgs1`, the texture that each portal displays
/// was neither drawn into nor reallocated during the frame, so it holds the
/// picture it held when the frame began; and when the portal shows a
/// different texture than before, that texture held a finished picture newer
/// than the one it replaces.
pub open spec fn no_torn_frame(
    w0: Seq<Components>,
    imgs0: Seq<Image>,
    w1: Seq<Components>,
    imgs1: Seq<Image>,
    runs: Seq<SubGraphRun>,
) -> bool {
    forall|p: int|
        #![trigger is_portal(w1, p)]
        is_portal(w1, p) ==> {
            let d = display_of(w1, p);
            &&& valid_handle(imgs1, d)
            &&& !drawn_into(runs, d.id as int)
            &&& imgs1[d.id as int] == imgs0[d.id as int]
            &&& d == display_of(w0, p) || newer(
                imgs0[d.id as int].contents,
                imgs0[display_of(w0, p).id as int].contents,
            )
        }
}

/// Records that the passes of `runs` finished in `frame`.
pub fn finish_passes(images: &mut Images, runs: &Vec<SubGraphRun>, frame: u64)
    ensures
        passes_post(old(images)@, runs@, frame, final(images)@),
{
    let ghost imgs0 = images@;
    let mut k: usize = 0;
    while k < runs.len()
        invariant
            0 <= k <= runs@.len(),
            images@.len() == imgs0.len(),
            forall|j: int|
                #![trigger runs@[j]]
                0 <= j < k && valid_handle(imgs0, runs@[j].render_target)
                    ==> images@[runs@[j].render_target.id as int] == rendered(
                    imgs0[runs@[j].render_target.id as int],
                    frame,
                ),
            forall|i: int|
                #![trigger images@[i]]
                0 <= i < imgs0.len() && !drawn_into(runs@.subrange(0, k as int), i) ==> images@[i]
                    == imgs0[i],
        decreases runs.len() - k,
    {
        let h = runs[k].render_target;
        images.mark_rendered(h, frame);
        proof {
            let done = runs@.subrange(0, k as int);
            let done1 = runs@.subrange(0, k + 1);
            assert forall|i: int|
                #![trigger images@[i]]
                0 <= i < imgs0.len() && !drawn_into(done1, i) implies images@[i] == imgs0[i] by {
                if drawn_into(done, i) {
                    let m = choose|m: int| 0 <= m < done.len() && done[m].render_target.id == i;
                    assert(done1[m] == done[m]);
                }
                assert(done1[k as int] == runs@[k as int]);
            }
        }
        k = k + 1;
    }
    proof {
        assert(runs@.subrange(0, runs@.len() as int) =~= runs@);
    }
}

/// Each extracted record is a texture-rendering camera of `w` and its
/// current target.
proof fn lemma_extracted_source(w: Seq<Components>, n: int, k: int)
    requires
        0 <= n <= w.len(),
        w.len() <= usize::MAX,
        0 <= k < extracted(w, n).len(),
    ensures
        is_render_camera(w, extracted(w, n)[k].entity.id as int),
        extracted(w, n)[k].render_target == target_of(w, extracted(w, n)[k].entity.id as int),
    decreases n,
{
    if n > 0 {
        if k < extracted(w, n - 1).len() {
            lemma_extracted_source(w, n - 1, k);
        } else {
            assert(extracted(w, n)[k].entity.id == (n - 1) as usize);
        }
    }
}

/// Each planned run draws into the target of one of the extracted cameras.
proof fn lemma_planned_runs_source(
    ex: Seq<ExtractedCamera>,
    imgs: Seq<Image>,
    gpu: Seq<Option<GpuImage>>,
    depth: Seq<Option<TextureViewId>>,
    n: int,
    k: int,
)
    requires
        0 <= n <= ex.len(),
        0 <= k < planned_runs(ex, imgs, gpu, depth, n).len(),
    ensures
        exists|j: int|
            0 <= j < n && (#[trigger] ex[j]).render_target == planned_runs(
                ex,
                imgs,
                gpu,
                depth,
                n,
            )[k].render_target,
    decreases n,
{
    if n > 0 {
        let prev = planned_runs(ex, imgs, gpu, depth, n - 1);
        if k < prev.len() {
            lemma_planned_runs_source(ex, imgs, gpu, depth, n - 1, k);
        } else {
            assert(ex[n - 1].render_target == planned_runs(ex, imgs, gpu, depth, n)[k].render_target);
        }
    }
}

/// What one frame produced: the portals skipped because their camera is
/// gone, the render targets reallocated, and the sub-graph runs whose
/// pictures finished.
pub struct FrameReport {
    pub dangling: Vec<Entity>,
    pub reallocated: Vec<ImageHandle>,
    pub runs: Vec<SubGraphRun>,
}

/// Runs one frame's stages in order: swap, resize, extract, secondary
/// passes. `frame` numbers the pictures drawn in this frame.
pub fn run_frame(
    world: &mut World,
    windows: &Windows,
    images: &mut Images,
    gpu_images: &RenderAssets,
    depth_textures: &ViewDepthTextures,
    frame: u64,
) -> (r: FrameReport)
    requires
        scene_wf(old(world)@, old(images)@),
    ensures
        swap_post(old(world)@, old(images)@, final(world)@),
        r.dangling@ == dangling_portals(old(world)@, old(world)@.len() as int),
        exists|mid: Seq<Image>|
            #![trigger passes_post(mid, r.runs@, frame, final(images)@)]
            {
                &&& resize_post(
                    rtt_requests(final(world)@, windows@),
                    old(images)@,
                    mid,
                    r.reallocated@,
                )
                &&& r.runs@ == planned_runs(
                    extracted(final(world)@, final(world)@.len() as int),
                    mid,
                    gpu_images.gpu_images@,
                    depth_textures.views@,
                    extracted(final(world)@, final(world)@.len() as int).len() as int,
                )
                &&& passes_post(mid, r.runs@, frame, final(images)@)
            },
        scene_wf(final(world)@, final(images)@),
        no_torn_frame(old(world)@, old(images)@, final(world)@, final(images)@, r.runs@),
{
    let ghost w0 = world@;
    let ghost imgs0 = images@;
    let n = world.len();
    proof {
        assert(textures_distinct(w0));
    }
    let dangling = swap_texture(world, images);
    let ghost w1 = world@;
    proof {
        lemma_swap_preserves_scene(w0, imgs0, w1);
    }
    let reallocated = resize_rtt_texture(world, windows, images);
    let ghost mid = images@;
    let extracted_cams = extract_rtt_render_phase(world);
    let runs = SecondCamDriverNode.run(&extracted_cams, images, gpu_images, depth_textures);
    finish_passes(images, &runs, frame);
    let ghost imgs2 = images@;
    proof {
        let reqs = rtt_requests(w1, windows@);
        let ex = extracted_cams@;
        assert(resize_post(reqs, imgs0, mid, reallocated@));
        // A run only ever draws into a render target of the swapped world.
        assert forall|k: int| 0 <= k < runs@.len() implies has_target(
            w1,
            (choose|e: int| has_target(w1, e) && target_of(w1, e) == runs@[k].render_target),
        ) && target_of(
            w1,
            (choose|e: int| has_target(w1, e) && target_of(w1, e) == runs@[k].render_target),
        ) == runs@[k].render_target by {
            lemma_planned_runs_source(
                ex,
                mid,
                gpu_images.gpu_images@,
                depth_textures.views@,
                ex.len() as int,
                k,
            );
            let j = choose|j: int|
                0 <= j < ex.len() && (#[trigger] ex[j]).render_target == runs@[k].render_target;
            assert(n == w1.len());
            lemma_extracted_source(w1, w1.len() as int, j);
            let e = ex[j].entity.id as int;
            assert(has_target(w1, e) && target_of(w1, e) == runs@[k].render_target);
        }
        // Likewise a reallocation.
        assert forall|m: int| 0 <= m < reallocated@.len() implies has_target(
            w1,
            (choose|e: int| has_target(w1, e) && target_of(w1, e) == reallocated@[m]),
        ) && target_of(
            w1,
            (choose|e: int| has_target(w1, e) && target_of(w1, e) == reallocated@[m]),
        ) == reallocated@[m] by {
            lemma_reallocated_source(reqs, imgs0, reqs.len() as int, m);
            let j = choose|j: int|
                0 <= j < reqs.len() && request_out_of_date(imgs0, #[trigger] reqs[j])
                    && reqs[j]->Some_0.0 == reallocated@[m];
            assert(has_target(w1, j) && target_of(w1, j) == reallocated@[m]);
        }
        assert forall|p: int|
            #![trigger is_portal(w1, p)]
            is_portal(w1, p) implies {
                let d = display_of(w1, p);
                &&& valid_handle(imgs2, d)
                &&& !drawn_into(runs@, d.id as int)
                &&& imgs2[d.id as int] == imgs0[d.id as int]
                &&& d == display_of(w0, p) || newer(
                    imgs0[d.id as int].contents,
                    imgs0[display_of(w0, p).id as int].contents,
                )
            } by {
            let d = display_of(w1, p);
            assert(has_material(w1, p));
            if drawn_into(runs@, d.id as int) {
                let k = choose|k: int| 0 <= k < runs@.len() && runs@[k].render_target.id == d.id;
                let e = choose|e: int| has_target(w1, e) && target_of(w1, e) == runs@[k].render_target;
                assert(target_of(w1, e) != display_of(w1, p));
            }
            if lists_image(reallocated@, d.id as int) {
                let m = choose|m: int| 0 <= m < reallocated@.len() && reallocated@[m].id == d.id;
                let e = choose|e: int| has_target(w1, e) && target_of(w1, e) == reallocated@[m];
                assert(target_of(w1, e) != display_of(w1, p));
            }
            assert(mid[d.id as int] == imgs0[d.id as int]);
            if !swap_ready(w0, imgs0, p) {
                assert(w1[p].material == w0[p].material);
            }
        }
        assert forall|e: int| #[trigger] has_target(w1, e) implies valid_handle(imgs2, target_of(w1, e)) by {}
        assert forall|e: int| #[trigger] has_material(w1, e) implies valid_handle(imgs2, display_of(w1, e)) by {}
    }
    let r = FrameReport { dangling, reallocated, runs };
    assert(world@ == w1 && images@ == imgs2);
    assert(passes_post(mid, r.runs@, frame, images@));
    r
}

} // verus!
