//! Cameras that render into textures: their resizer, their extraction into
//! the render world, and the frame-graph node that runs the 3D draw
//! sub-graph once per such camera.

use vstd::prelude::*;
use crate::image::{Extent3d, Image, ImageHandle, Images, valid_handle};
use crate::resize::{
    ResizeRequest,
    apply_resize_requests,
    lemma_resize_idempotent,
    requests_distinct,
    resize_post,
};
use crate::window::{Window, WindowId, Windows, viewport_size};
use crate::world::{Entity, World, Components, is_render_camera, target_of, textures_distinct};

verus! {

/// The window of camera `e`.
pub open spec fn window_of(w: Seq<Components>, e: int) -> WindowId {
    w[e].camera->Some_0.window
}

/// What the resizer asks of entity `e`: its render target at its window's
/// size, when `e` renders into a texture and its window is open.
pub open spec fn rtt_request(w: Seq<Components>, ws: Seq<Option<Window>>, e: int) -> ResizeRequest {
    if is_render_camera(w, e) && viewport_size(ws, window_of(w, e)) is Some {
        Some((target_of(w, e), viewport_size(ws, window_of(w, e))->Some_0))
    } else {
        None
    }
}

/// The resizer's requests, one per entity.
pub open spec fn rtt_requests(w: Seq<Components>, ws: Seq<Option<Window>>) -> Seq<ResizeRequest> {
    Seq::new(w.len(), |e: int| rtt_request(w, ws, e))
}

/// Distinct render targets make distinct requests.
proof fn lemma_rtt_requests_distinct(w: Seq<Components>, ws: Seq<Option<Window>>)
    requires
        textures_distinct(w),
    ensures
        requests_distinct(rtt_requests(w, ws)),
{
    let reqs = rtt_requests(w, ws);
    assert forall|i: int, j: int|
        #![trigger reqs[i], reqs[j]]
        0 <= i < reqs.len() && 0 <= j < reqs.len() && i != j && reqs[i] is Some && reqs[j] is Some
            implies reqs[i]->Some_0.0 != reqs[j]->Some_0.0 by {
        assert(target_of(w, i) != target_of(w, j));
    }
}

/// Viewport resizer for render targets: every camera that renders into a
/// texture and whose window is open gets its target reallocated at the
/// window's physical size when the sizes differ. Cameras whose window is not
/// open are skipped. Returns the reallocated handles in entity order.
pub fn resize_rtt_texture(world: &World, windows: &Windows, images: &mut Images) -> (r: Vec<
    ImageHandle,
>)
    requires
        textures_distinct(world@),
    ensures
        resize_post(rtt_requests(world@, windows@), old(images)@, final(images)@, r@),
{
    let ghost reqs_spec = rtt_requests(world@, windows@);
    let mut reqs: Vec<ResizeRequest> = Vec::new();
    let n = world.len();
    let mut e: usize = 0;
    while e < n
        invariant
            0 <= e <= n,
            n == world@.len(),
            reqs_spec == rtt_requests(world@, windows@),
            reqs@.len() == e,
            forall|j: int| 0 <= j < e ==> reqs@[j] == reqs_spec[j],
        decreases n - e,
    {
        let c = world.get(Entity { id: e }).unwrap();
        let q: ResizeRequest = match (c.camera, c.render_to_texture) {
            (Some(cam), Some(rtt)) => match windows.viewport_size(cam.window) {
                Some(size) => Some((rtt.0, size)),
                None => None,
            },
            _ => None,
        };
        reqs.push(q);
        e = e + 1;
    }
    assert(reqs@ =~= reqs_spec);
    proof {
        lemma_rtt_requests_distinct(world@, windows@);
    }
    apply_resize_requests(images, &reqs)
}

/// Running the render-target resizer twice with unchanged windows: the
/// second run reallocates nothing and changes no image, and after the first
/// run every render target of a camera with an open window has that
/// window's physical size.
pub proof fn lemma_resize_rtt_idempotent(
    w: Seq<Components>,
    ws: Seq<Option<Window>>,
    imgs0: Seq<Image>,
    imgs1: Seq<Image>,
    r1: Seq<ImageHandle>,
    imgs2: Seq<Image>,
    r2: Seq<ImageHandle>,
)
    requires
        textures_distinct(w),
        resize_post(rtt_requests(w, ws), imgs0, imgs1, r1),
        resize_post(rtt_requests(w, ws), imgs1, imgs2, r2),
    ensures
        r2.len() == 0,
        imgs2 == imgs1,
        forall|e: int|
            #![trigger target_of(w, e)]
            is_render_camera(w, e) && viewport_size(ws, window_of(w, e)) is Some && valid_handle(
                imgs1,
                target_of(w, e),
            ) ==> imgs1[target_of(w, e).id as int].size == viewport_size(ws, window_of(w, e))->Some_0,
{
    let reqs = rtt_requests(w, ws);
    lemma_rtt_requests_distinct(w, ws);
    lemma_resize_idempotent(reqs, imgs0, imgs1, r1, imgs2, r2);
    assert forall|e: int|
        #![trigger target_of(w, e)]
        is_render_camera(w, e) && viewport_size(ws, window_of(w, e)) is Some && valid_handle(
            imgs1,
            target_of(w, e),
        ) implies imgs1[target_of(w, e).id as int].size == viewport_size(
        ws,
        window_of(w, e),
    )->Some_0 by {
        assert(reqs[e] == rtt_request(w, ws, e));
    }
}

/// A camera as the render world sees it: the entity and a non-owning copy
/// of its current render-target handle.
#[derive(Clone, Copy, Debug, PartialEq, Eq, Structural)]
pub struct ExtractedCamera {
    pub entity: Entity,
    pub render_target: ImageHandle,
}

/// The render-world mirror of the first `n` entities: one record per camera
/// that renders into a texture, in entity order.
pub open spec fn extracted(w: Seq<Components>, n: int) -> Seq<ExtractedCamera>
    decreases n,
{
    if n <= 0 {
        Seq::empty()
    } else if is_render_camera(w, n - 1) {
        extracted(w, n - 1).push(
            ExtractedCamera {
                entity: Entity { id: (n - 1) as usize },
                render_target: target_of(w, n - 1),
            },
        )
    } else {
        extracted(w, n - 1)
    }
}

/// Extraction: copies each texture-rendering camera's entity and current
/// render target into the render world, in entity order. The world is only
/// read.
pub fn extract_rtt_render_phase(world: &World) -> (r: Vec<ExtractedCamera>)
    ensures
        r@ == extracted(world@, world@.len() as int),
{
    let mut r: Vec<ExtractedCamera> = Vec::new();
    let n = world.len();
    let mut e: usize = 0;
    while e < n
        invariant
            0 <= e <= n,
            n == world@.len(),
            r@ == extracted(world@, e as int),
        decreases n - e,
    {
        let c = world.get(Entity { id: e }).unwrap();
        if let (Some(_), Some(rtt)) = (c.camera, c.render_to_texture) {
            r.push(ExtractedCamera { entity: Entity { id: e }, render_target: rtt.0 });
        }
        e = e + 1;
    }
    r
}

/// A GPU texture view, by id.
#[derive(Clone, Copy, Debug, PartialEq, Eq, Structural)]
pub struct TextureViewId {
    pub id: u64,
}

/// The GPU-side copy of an image: its view, and the size it was prepared at.
#[derive(Clone, Copy, Debug, PartialEq, Eq, Structural)]
pub struct GpuImage {
    pub texture_view: TextureViewId,
    pub size: Extent3d,
}

/// GPU-side images, indexed by image handle; `None` where an image has not
/// been prepared yet.
pub struct RenderAssets {
    pub gpu_images: Vec<Option<GpuImage>>,
}

/// Depth buffers that the host prepared per view, indexed by entity.
pub struct ViewDepthTextures {
    pub views: Vec<Option<TextureViewId>>,
}

/// One invocation of the 3D draw sub-graph: the camera, and the color and
/// depth attachments it draws into instead of the swapchain.
#[derive(Clone, Copy, Debug, PartialEq, Eq, Structural)]
pub struct SubGraphRun {
    pub view_entity: Entity,
    pub render_target: ImageHandle,
    pub color_attachment: TextureViewId,
    pub depth_attachment: TextureViewId,
}

/// The GPU view of camera `x`'s target, when it is prepared at the image's
/// current size.
pub open spec fn color_view(
    imgs: Seq<Image>,
    gpu: Seq<Option<GpuImage>>,
    x: ExtractedCamera,
) -> Option<TextureViewId> {
    let h = x.render_target;
    if valid_handle(imgs, h) && h.id < gpu.len() && gpu[h.id as int] is Some
        && gpu[h.id as int]->Some_0.size == imgs[h.id as int].size {
        Some(gpu[h.id as int]->Some_0.texture_view)
    } else {
        None
    }
}

/// The depth view prepared for camera `x`.
pub open spec fn depth_view(depth: Seq<Option<TextureViewId>>, x: ExtractedCamera) -> Option<
    TextureViewId,
> {
    if x.entity.id < depth.len() {
        depth[x.entity.id as int]
    } else {
        None
    }
}

/// The sub-graph runs for the first `n` extracted cameras: one per camera
/// whose color and depth views are both ready, in order; the others are
/// skipped this frame.
pub open spec fn planned_runs(
    ex: Seq<ExtractedCamera>,
    imgs: Seq<Image>,
    gpu: Seq<Option<GpuImage>>,
    depth: Seq<Option<TextureViewId>>,
    n: int,
) -> Seq<SubGraphRun>
    decreases n,
{
    if n <= 0 {
        Seq::empty()
    } else {
        let prev = planned_runs(ex, imgs, gpu, depth, n - 1);
        let x = ex[n - 1];
        if color_view(imgs, gpu, x) is Some && depth_view(depth, x) is Some {
            prev.push(
                SubGraphRun {
                    view_entity: x.entity,
                    render_target: x.render_target,
                    color_attachment: color_view(imgs, gpu, x)->Some_0,
                    depth_attachment: depth_view(depth, x)->Some_0,
                },
            )
        } else {
            prev
        }
    }
}

/// The frame-graph node that drives the secondary passes. It is ordered
/// before the main pass's dependencies, so every picture it draws is
/// finished before the main pass composes the frame.
pub struct SecondCamDriverNode;

impl SecondCamDriverNode {
    /// Resolves, for each extracted camera in order, its target's GPU view
    /// and its depth view, and plans one draw sub-graph run with them.
    /// A camera with either view missing, or whose target's GPU copy has not
    /// caught up with a resize, is skipped this frame and retried next frame.
    pub fn run(
        &self,
        extracted: &Vec<ExtractedCamera>,
        images: &Images,
        gpu_images: &RenderAssets,
        depth_textures: &ViewDepthTextures,
    ) -> (r: Vec<SubGraphRun>)
        ensures
            r@ == planned_runs(
                extracted@,
                images@,
                gpu_images.gpu_images@,
                depth_textures.views@,
                extracted@.len() as int,
            ),
    {
        let mut r: Vec<SubGraphRun> = Vec::new();
        let mut k: usize = 0;
        while k < extracted.len()
            invariant
                0 <= k <= extracted@.len(),
                r@ == planned_runs(
                    extracted@,
                    images@,
                    gpu_images.gpu_images@,
                    depth_textures.views@,
                    k as int,
                ),
            decreases extracted.len() - k,
        {
            let x = extracted[k];
            let h = x.render_target;
            let color: Option<TextureViewId> = match images.get(h) {
                Some(image) => {
                    if h.id < gpu_images.gpu_images.len() {
                        match gpu_images.gpu_images[h.id] {
                            Some(g) => {
                                if g.size == image.size {
                                    Some(g.texture_view)
                                } else {
                                    None
                                }
                            },
                            None => None,
                        }
                    } else {
                        None
                    }
                },
                None => None,
            };
            let depth: Option<TextureViewId> = if x.entity.id < depth_textures.views.len() {
                depth_textures.views[x.entity.id]
            } else {
                None
            };
            if let (Some(c), Some(d)) = (color, depth) {
                r.push(
                    SubGraphRun {
                        view_entity: x.entity,
                        render_target: h,
                        color_attachment: c,
                        depth_attachment: d,
                    },
                );
            }
            k = k + 1;
        }
        r
    }
}

} // verus!
