//! Display surfaces and the swap coordinator that double-buffers them.
//!
//! Each portal owns two textures: its camera's render target (the back
//! buffer) and its material's texture (the front buffer). Once per frame the
//! coordinator exchanges the two handles of every portal whose back buffer
//! holds a finished picture newer than the one on display. Handles are
//! exchanged, never copied, so the two textures of a portal never alias.

use vstd::prelude::*;
use crate::image::{Image, ImageContents, ImageHandle, Images, valid_handle};
use crate::resize::{ResizeRequest, apply_resize_requests, resize_post};
use crate::render_to_texture::window_of;
use crate::window::{Window, Windows, viewport_size};
use crate::world::{
    Components,
    Entity,
    RenderToTexture,
    ScreenspaceTextureMaterial,
    World,
    camera_of,
    display_of,
    is_portal,
    is_render_camera,
    no_components,
    portals_paired,
    target_of,
    textures_distinct,
    has_target,
    has_material,
    scene_wf,
};

verus! {

/// The two per-frame steps of display surfaces; the resize runs before the
/// swap.
#[derive(Clone, Copy, Debug, PartialEq, Eq, Structural)]
pub enum CamDisplaySystem {
    SwapTextures,
    ResizeMaterialTexture,
}

/// `a` is a finished picture drawn after `b`, or `b` holds none.
pub open spec fn newer(a: ImageContents, b: ImageContents) -> bool {
    match (a, b) {
        (ImageContents::Rendered { frame: fa }, ImageContents::Fill) => true,
        (ImageContents::Rendered { frame: fa }, ImageContents::Rendered { frame: fb }) => fb < fa,
        _ => false,
    }
}

/// Portal `p` is swapped: its camera still renders into a texture, both
/// handles name images, and the back buffer holds a newer finished picture
/// than the front buffer.
pub open spec fn swap_ready(w: Seq<Components>, imgs: Seq<Image>, p: int) -> bool {
    let c = camera_of(w, p);
    &&& is_portal(w, p)
    &&& is_render_camera(w, c)
    &&& valid_handle(imgs, target_of(w, c))
    &&& valid_handle(imgs, display_of(w, p))
    &&& newer(imgs[target_of(w, c).id as int].contents, imgs[display_of(w, p).id as int].contents)
}

/// Some portal among the first `n` entities swaps with camera `c`.
pub open spec fn swapped_before(w: Seq<Components>, imgs: Seq<Image>, c: int, n: int) -> bool {
    exists|p: int| 0 <= p < n && #[trigger] swap_ready(w, imgs, p) && camera_of(w, p) == c
}

/// Only render targets and material textures may change; which entities
/// carry which components stays the same.
pub open spec fn same_shape(a: Seq<Components>, b: Seq<Components>) -> bool {
    &&& a.len() == b.len()
    &&& forall|e: int|
        #![trigger b[e]]
        0 <= e < a.len() ==> {
            &&& b[e].camera == a[e].camera
            &&& b[e].cam_display == a[e].cam_display
            &&& (b[e].render_to_texture is Some <==> a[e].render_to_texture is Some)
            &&& (b[e].material is Some <==> a[e].material is Some)
        }
}

/// What the swap coordinator does to the world `w` given the image store
/// `imgs`: every ready portal exchanges its material's texture with its
/// camera's render target; everything else stays.
pub open spec fn swap_post(w: Seq<Components>, imgs: Seq<Image>, new: Seq<Components>) -> bool {
    &&& same_shape(w, new)
    &&& forall|p: int|
        #![trigger swap_ready(w, imgs, p)]
        swap_ready(w, imgs, p) ==> {
            &&& display_of(new, p) == target_of(w, camera_of(w, p))
            &&& target_of(new, camera_of(w, p)) == display_of(w, p)
        }
    &&& forall|p: int|
        #![trigger new[p].material]
        0 <= p < w.len() && !swap_ready(w, imgs, p) ==> new[p].material == w[p].material
    &&& forall|c: int|
        #![trigger new[c].render_to_texture]
        0 <= c < w.len() && !swapped_before(w, imgs, c, w.len() as int)
            ==> new[c].render_to_texture == w[c].render_to_texture
}

/// Portal `p` shows a camera that no longer renders into a texture: it was
/// despawned, lost a component, or was never issued.
pub open spec fn is_dangling(w: Seq<Components>, p: int) -> bool {
    is_portal(w, p) && !is_render_camera(w, camera_of(w, p))
}

/// The dangling portals among the first `n` entities, in entity order.
pub open spec fn dangling_portals(w: Seq<Components>, n: int) -> Seq<Entity>
    decreases n,
{
    if n <= 0 {
        Seq::empty()
    } else if is_dangling(w, n - 1) {
        dangling_portals(w, n - 1).push(Entity { id: (n - 1) as usize })
    } else {
        dangling_portals(w, n - 1)
    }
}

fn is_newer(a: ImageContents, b: ImageContents) -> (r: bool)
    ensures
        r == newer(a, b),
{
    match (a, b) {
        (ImageContents::Rendered { frame: _ }, ImageContents::Fill) => true,
        (ImageContents::Rendered { frame: fa }, ImageContents::Rendered { frame: fb }) => fb < fa,
        _ => false,
    }
}

/// The swap coordinator. For each portal, in entity order: when its camera
/// still renders into a texture and that texture holds a finished picture
/// newer than the one displayed, the material's texture and the camera's
/// render target are exchanged. A portal whose camera was despawned, or
/// whose camera has not finished a newer picture, keeps its display.
/// Returns the portals skipped because their camera is gone, in entity
/// order, so that the caller can report them.
pub fn swap_texture(world: &mut World, images: &Images) -> (r: Vec<Entity>)
    requires
        portals_paired(old(world)@),
    ensures
        swap_post(old(world)@, images@, final(world)@),
        r@ == dangling_portals(old(world)@, old(world)@.len() as int),
{
    let mut dangling: Vec<Entity> = Vec::new();
    let ghost w0 = world@;
    let ghost imgs = images@;
    let n = world.len();
    let mut p: usize = 0;
    while p < n
        invariant
            0 <= p <= n,
            n == w0.len(),
            imgs == images@,
            portals_paired(w0),
            same_shape(w0, world@),
            dangling@ == dangling_portals(w0, p as int),
            forall|q: int|
                #![trigger swap_ready(w0, imgs, q)]
                0 <= q < p && swap_ready(w0, imgs, q) ==> {
                    &&& display_of(world@, q) == target_of(w0, camera_of(w0, q))
                    &&& target_of(world@, camera_of(w0, q)) == display_of(w0, q)
                },
            forall|q: int|
                #![trigger world@[q].material]
                0 <= q < n && (q >= p || !swap_ready(w0, imgs, q)) ==> world@[q].material
                    == w0[q].material,
            forall|c: int|
                #![trigger world@[c].render_to_texture]
                0 <= c < n && !swapped_before(w0, imgs, c, p as int)
                    ==> world@[c].render_to_texture == w0[c].render_to_texture,
        decreases n - p,
    {
        let cp = world.get(Entity { id: p }).unwrap();
        assert(cp == world@[p as int]);
        if let (Some(d), Some(m)) = (cp.cam_display, cp.material) {
            let c = d.corresponding_camera;
            proof {
                assert(world@[p as int].material == w0[p as int].material);
                if 0 <= c.id < n && swapped_before(w0, imgs, c.id as int, p as int) {
                    let q = choose|q: int|
                        0 <= q < p && #[trigger] swap_ready(w0, imgs, q) && camera_of(w0, q)
                            == c.id as int;
                    assert(camera_of(w0, q) != camera_of(w0, p as int));
                }
            }
            let mut live = false;
            if let Some(cc) = world.get(c) {
                if let (Some(_), Some(rtt)) = (cc.camera, cc.render_to_texture) {
                    live = true;
                    let t = rtt.0;
                    if let (Some(back), Some(front)) = (images.get(t), images.get(m.texture)) {
                        if is_newer(back.contents, front.contents) {
                            assert(swap_ready(w0, imgs, p as int));
                            let mut np = cp;
                            np.material = Some(ScreenspaceTextureMaterial { texture: t });
                            world.set(Entity { id: p }, np);
                            let mut nc = world.get(c).unwrap();
                            nc.render_to_texture = Some(RenderToTexture(m.texture));
                            world.set(c, nc);
                            proof {
                                assert forall|q: int|
                                    #![trigger swap_ready(w0, imgs, q)]
                                    0 <= q < p + 1 && swap_ready(w0, imgs, q) implies {
                                        &&& display_of(world@, q) == target_of(
                                            w0,
                                            camera_of(w0, q),
                                        )
                                        &&& target_of(world@, camera_of(w0, q)) == display_of(
                                            w0,
                                            q,
                                        )
                                    } by {
                                    if q < p {
                                        assert(camera_of(w0, q) != camera_of(w0, p as int));
                                    }
                                }
                                assert forall|x: int|
                                    #![trigger world@[x].render_to_texture]
                                    0 <= x < n && !swapped_before(w0, imgs, x, p + 1)
                                        implies world@[x].render_to_texture
                                        == w0[x].render_to_texture by {
                                    assert(x != c.id);
                                    assert(!swapped_before(w0, imgs, x, p as int));
                                }
                            }
                        }
                    }
                }
            }
            if !live {
                dangling.push(Entity { id: p });
            }
        }
        proof {
            assert(dangling@ == dangling_portals(w0, p + 1));
            assert forall|x: int|
                #![trigger world@[x].render_to_texture]
                0 <= x < n && !swapped_before(w0, imgs, x, p + 1) implies world@[x].render_to_texture
                == w0[x].render_to_texture by {
                if swapped_before(w0, imgs, x, p as int) {
                    let q = choose|q: int|
                        0 <= q < p && #[trigger] swap_ready(w0, imgs, q) && camera_of(w0, q) == x;
                    assert(0 <= q < p + 1 && swap_ready(w0, imgs, q) && camera_of(w0, q) == x);
                }
            }
        }
        p = p + 1;
    }
    dangling
}

/// The texture that ends up in render-target slot `e` after the swap comes
/// from the material of the portal that swapped with `e`, if any.
proof fn lemma_swapped_target_origin(w: Seq<Components>, imgs: Seq<Image>, new: Seq<Components>, e: int)
    requires
        portals_paired(w),
        swap_post(w, imgs, new),
        has_target(w, e),
    ensures
        swapped_before(w, imgs, e, w.len() as int) ==> exists|p: int|
            #![trigger swap_ready(w, imgs, p)]
            swap_ready(w, imgs, p) && camera_of(w, p) == e && target_of(new, e) == display_of(w, p),
        !swapped_before(w, imgs, e, w.len() as int) ==> target_of(new, e) == target_of(w, e),
{
    if swapped_before(w, imgs, e, w.len() as int) {
        let p = choose|p: int|
            0 <= p < w.len() && #[trigger] swap_ready(w, imgs, p) && camera_of(w, p) == e;
        assert(target_of(new, camera_of(w, p)) == display_of(w, p));
    } else {
        assert(new[e].render_to_texture == w[e].render_to_texture);
    }
}

/// The swap coordinator keeps the scene invariant: it only permutes handles
/// among the render-target and material slots, and changes no pairing.
pub proof fn lemma_swap_preserves_scene(w: Seq<Components>, imgs: Seq<Image>, new: Seq<Components>)
    requires
        scene_wf(w, imgs),
        swap_post(w, imgs, new),
    ensures
        scene_wf(new, imgs),
{
    let n = w.len() as int;
    assert forall|e: int| #[trigger] has_target(new, e) implies has_target(w, e) by {}
    assert forall|e: int| #[trigger] has_material(new, e) implies has_material(w, e) by {}
    assert forall|p: int| #[trigger] is_portal(new, p) implies is_portal(w, p) && camera_of(new, p)
        == camera_of(w, p) by {
    }
    // Where each slot's new handle comes from.
    assert forall|p: int| #[trigger] has_material(new, p) implies display_of(new, p) == (if swap_ready(
        w,
        imgs,
        p,
    ) {
        target_of(w, camera_of(w, p))
    } else {
        display_of(w, p)
    }) by {
        if !swap_ready(w, imgs, p) {
            assert(new[p].material == w[p].material);
        }
    }
    assert forall|e: int| #[trigger] has_target(new, e) implies {
        ||| (!swapped_before(w, imgs, e, n) && target_of(new, e) == target_of(w, e))
        ||| exists|p: int|
            #![trigger swap_ready(w, imgs, p)]
            swap_ready(w, imgs, p) && camera_of(w, p) == e && target_of(new, e) == display_of(w, p)
    } by {
        assert(has_target(w, e));
        lemma_swapped_target_origin(w, imgs, new, e);
    }
    // Pairing.
    assert forall|p: int, q: int|
        #![trigger camera_of(new, p), camera_of(new, q)]
        p != q && is_portal(new, p) && is_portal(new, q) implies camera_of(new, p) != camera_of(
        new,
        q,
    ) by {
        assert(camera_of(w, p) != camera_of(w, q));
    }
    // Validity.
    assert forall|e: int| #[trigger] has_target(new, e) implies valid_handle(imgs, target_of(new, e)) by {
        if swapped_before(w, imgs, e, n) {
            lemma_swapped_target_origin(w, imgs, new, e);
        } else {
            assert(has_target(w, e));
        }
    }
    assert forall|e: int| #[trigger] has_material(new, e) implies valid_handle(imgs, display_of(new, e)) by {
        assert(has_material(w, e));
    }
    // Distinctness of render targets.
    assert forall|i: int, j: int|
        #![trigger target_of(new, i), target_of(new, j)]
        i != j && has_target(new, i) && has_target(new, j) implies target_of(new, i) != target_of(
        new,
        j,
    ) by {
        lemma_swapped_target_origin(w, imgs, new, i);
        lemma_swapped_target_origin(w, imgs, new, j);
        if swapped_before(w, imgs, i, n) && swapped_before(w, imgs, j, n) {
            let pi = choose|p: int|
                #![trigger swap_ready(w, imgs, p)]
                swap_ready(w, imgs, p) && camera_of(w, p) == i && target_of(new, i) == display_of(w, p);
            let pj = choose|p: int|
                #![trigger swap_ready(w, imgs, p)]
                swap_ready(w, imgs, p) && camera_of(w, p) == j && target_of(new, j) == display_of(w, p);
            assert(display_of(w, pi) != display_of(w, pj));
        } else if swapped_before(w, imgs, i, n) {
            let pi = choose|p: int|
                #![trigger swap_ready(w, imgs, p)]
                swap_ready(w, imgs, p) && camera_of(w, p) == i && target_of(new, i) == display_of(w, p);
            assert(target_of(w, j) != display_of(w, pi));
        } else if swapped_before(w, imgs, j, n) {
            let pj = choose|p: int|
                #![trigger swap_ready(w, imgs, p)]
                swap_ready(w, imgs, p) && camera_of(w, p) == j && target_of(new, j) == display_of(w, p);
            assert(target_of(w, i) != display_of(w, pj));
        } else {
            assert(target_of(w, i) != target_of(w, j));
        }
    }
    // Distinctness of material textures.
    assert forall|i: int, j: int|
        #![trigger display_of(new, i), display_of(new, j)]
        i != j && has_material(new, i) && has_material(new, j) implies display_of(new, i)
        != display_of(new, j) by {
        if swap_ready(w, imgs, i) && swap_ready(w, imgs, j) {
            assert(camera_of(w, i) != camera_of(w, j));
            assert(target_of(w, camera_of(w, i)) != target_of(w, camera_of(w, j)));
        } else if swap_ready(w, imgs, i) {
            assert(target_of(w, camera_of(w, i)) != display_of(w, j));
        } else if swap_ready(w, imgs, j) {
            assert(target_of(w, camera_of(w, j)) != display_of(w, i));
        } else {
            assert(display_of(w, i) != display_of(w, j));
        }
    }
    // A render target against a material texture.
    assert forall|i: int, j: int|
        #![trigger target_of(new, i), display_of(new, j)]
        has_target(new, i) && has_material(new, j) implies target_of(new, i) != display_of(new, j) by {
        lemma_swapped_target_origin(w, imgs, new, i);
        if swapped_before(w, imgs, i, n) {
            let pi = choose|p: int|
                #![trigger swap_ready(w, imgs, p)]
                swap_ready(w, imgs, p) && camera_of(w, p) == i && target_of(new, i) == display_of(w, p);
            if swap_ready(w, imgs, j) {
                assert(display_of(w, pi) != target_of(w, camera_of(w, j)));
            } else {
                assert(pi != j);
                assert(display_of(w, pi) != display_of(w, j));
            }
        } else {
            if swap_ready(w, imgs, j) {
                assert(camera_of(w, j) != i);
                assert(target_of(w, i) != target_of(w, camera_of(w, j)));
            } else {
                assert(target_of(w, i) != display_of(w, j));
            }
        }
    }
}

/// Swap, render, swap: when a portal is swapped, its new render target then
/// receives a picture newer than the one on display (which is not drawn
/// over), and the coordinator runs again, each of the portal's two textures
/// is back in the role it had before the first swap.
pub proof fn lemma_swap_render_swap_restores_roles(
    w0: Seq<Components>,
    imgs0: Seq<Image>,
    w1: Seq<Components>,
    imgs1: Seq<Image>,
    w2: Seq<Components>,
    p: int,
)
    requires
        swap_post(w0, imgs0, w1),
        swap_ready(w0, imgs0, p),
        imgs1.len() == imgs0.len(),
        imgs1[target_of(w0, camera_of(w0, p)).id as int] == imgs0[target_of(
            w0,
            camera_of(w0, p),
        ).id as int],
        newer(
            imgs1[display_of(w0, p).id as int].contents,
            imgs0[target_of(w0, camera_of(w0, p)).id as int].contents,
        ),
        swap_post(w1, imgs1, w2),
    ensures
        camera_of(w2, p) == camera_of(w0, p),
        target_of(w1, camera_of(w0, p)) == display_of(w0, p),
        display_of(w1, p) == target_of(w0, camera_of(w0, p)),
        display_of(w2, p) == display_of(w0, p),
        target_of(w2, camera_of(w0, p)) == target_of(w0, camera_of(w0, p)),
{
    assert(swap_ready(w1, imgs1, p));
}

/// Despawning a portal's camera keeps the scene invariant, so the swap
/// coordinator (and the whole frame) still runs, and the coordinator leaves
/// that portal's display material as it was.
pub proof fn lemma_despawned_camera_keeps_display(
    w: Seq<Components>,
    imgs: Seq<Image>,
    c: int,
    w1: Seq<Components>,
    w2: Seq<Components>,
    p: int,
)
    requires
        0 <= c < w.len(),
        w1 == w.update(c, no_components()),
        is_portal(w1, p),
        camera_of(w1, p) == c,
        swap_post(w1, imgs, w2),
    ensures
        scene_wf(w, imgs) ==> scene_wf(w1, imgs),
        w2[p].material == w1[p].material,
{
    assert(!is_render_camera(w1, c));
    assert(!swap_ready(w1, imgs, p));
    if scene_wf(w, imgs) {
        assert forall|e: int| #[trigger] has_target(w1, e) implies has_target(w, e) && target_of(
            w1,
            e,
        ) == target_of(w, e) by {}
        assert forall|e: int| #[trigger] has_material(w1, e) implies has_material(w, e)
            && display_of(w1, e) == display_of(w, e) by {}
        assert forall|e: int| #[trigger] is_portal(w1, e) implies is_portal(w, e) && camera_of(
            w1,
            e,
        ) == camera_of(w, e) by {}
        assert forall|a: int, b: int|
            #![trigger camera_of(w1, a), camera_of(w1, b)]
            a != b && is_portal(w1, a) && is_portal(w1, b) implies camera_of(w1, a) != camera_of(
            w1,
            b,
        ) by {
            assert(is_portal(w, a) && is_portal(w, b));
            assert(camera_of(w, a) != camera_of(w, b));
        }
    }
}

/// The display resizer's request for entity `p`: the material's texture at
/// the size of the window of the camera that the portal shows.
pub open spec fn material_request(w: Seq<Components>, ws: Seq<Option<Window>>, p: int) -> ResizeRequest {
    let c = camera_of(w, p);
    if is_portal(w, p) && is_render_camera(w, c) && viewport_size(ws, window_of(w, c)) is Some {
        Some((display_of(w, p), viewport_size(ws, window_of(w, c))->Some_0))
    } else {
        None
    }
}

pub open spec fn material_requests(w: Seq<Components>, ws: Seq<Option<Window>>) -> Seq<
    ResizeRequest,
> {
    Seq::new(w.len(), |p: int| material_request(w, ws, p))
}

/// Viewport resizer for display textures: each portal's material texture is
/// reallocated at the size of its camera's window when the sizes differ.
/// Portals whose camera is gone or whose window is closed are skipped.
/// Returns the reallocated handles in entity order.
pub fn resize_material_texture(world: &World, windows: &Windows, images: &mut Images) -> (r: Vec<
    ImageHandle,
>)
    requires
        textures_distinct(world@),
    ensures
        resize_post(material_requests(world@, windows@), old(images)@, final(images)@, r@),
{
    let ghost reqs_spec = material_requests(world@, windows@);
    let mut reqs: Vec<ResizeRequest> = Vec::new();
    let n = world.len();
    let mut p: usize = 0;
    while p < n
        invariant
            0 <= p <= n,
            n == world@.len(),
            reqs_spec == material_requests(world@, windows@),
            reqs@.len() == p,
            forall|j: int| 0 <= j < p ==> reqs@[j] == reqs_spec[j],
        decreases n - p,
    {
        let cp = world.get(Entity { id: p }).unwrap();
        let mut q: ResizeRequest = None;
        if let (Some(d), Some(m)) = (cp.cam_display, cp.material) {
            if let Some(cc) = world.get(d.corresponding_camera) {
                if let (Some(cam), Some(_)) = (cc.camera, cc.render_to_texture) {
                    if let Some(size) = windows.viewport_size(cam.window) {
                        q = Some((m.texture, size));
                    }
                }
            }
        }
        reqs.push(q);
        p = p + 1;
    }
    assert(reqs@ =~= reqs_spec);
    proof {
        let w = world@;
        assert forall|i: int, j: int|
            #![trigger reqs_spec[i], reqs_spec[j]]
            0 <= i < reqs_spec.len() && 0 <= j < reqs_spec.len() && i != j && reqs_spec[i] is Some
                && reqs_spec[j] is Some implies reqs_spec[i]->Some_0.0 != reqs_spec[j]->Some_0.0 by {
            assert(display_of(w, i) != display_of(w, j));
        }
    }
    apply_resize_requests(images, &reqs)
}

} // verus!
