//! Building scenes whose portals keep the core's invariant.

use vstd::prelude::*;
use crate::image::{ImageHandle, Images, dummy_image, placeholder_image, valid_handle};
use crate::window::WindowId;
use crate::world::{
    Camera,
    CamDisplay,
    Components,
    Entity,
    RenderToTexture,
    ScreenspaceTextureMaterial,
    World,
    display_of,
    has_material,
    has_target,
    is_portal,
    camera_of,
    handles_valid,
    portal_cameras_issued,
    portals_paired,
    scene_wf,
    target_of,
    textures_distinct,
};

verus! {

/// The components of a camera that renders at `window` into `target`.
pub open spec fn camera_components(window: WindowId, target: ImageHandle) -> Components {
    Components {
        camera: Some(Camera { window }),
        render_to_texture: Some(RenderToTexture(target)),
        cam_display: None,
        material: None,
    }
}

/// The components of a display surface that shows `camera` through `texture`.
pub open spec fn display_components(camera: Entity, texture: ImageHandle) -> Components {
    Components {
        camera: None,
        render_to_texture: None,
        cam_display: Some(CamDisplay { corresponding_camera: camera }),
        material: Some(ScreenspaceTextureMaterial { texture }),
    }
}

/// Spawns a portal: a camera rendering at `window` into a new placeholder
/// texture, and a display surface showing that camera through a second new
/// placeholder texture. Returns the camera and the display surface.
pub fn spawn_portal(world: &mut World, images: &mut Images, window: WindowId) -> (r: (
    Entity,
    Entity,
))
    requires
        scene_wf(old(world)@, old(images)@),
        old(world)@.len() + 2 <= usize::MAX,
        old(images)@.len() + 2 <= usize::MAX,
    ensures
        r.0.id == old(world)@.len(),
        r.1.id == old(world)@.len() + 1,
        final(images)@ == old(images)@.push(placeholder_image()).push(placeholder_image()),
        final(world)@ == old(world)@.push(
            camera_components(window, ImageHandle { id: old(images)@.len() as usize }),
        ).push(display_components(r.0, ImageHandle { id: (old(images)@.len() + 1) as usize })),
        scene_wf(final(world)@, final(images)@),
{
    let ghost w0 = world@;
    let ghost imgs0 = images@;
    let target = images.add(dummy_image());
    let texture = images.add(dummy_image());
    let camera = world.spawn();
    world.set(
        camera,
        Components {
            camera: Some(Camera { window }),
            render_to_texture: Some(RenderToTexture(target)),
            cam_display: None,
            material: None,
        },
    );
    let display = world.spawn();
    world.set(
        display,
        Components {
            camera: None,
            render_to_texture: None,
            cam_display: Some(CamDisplay { corresponding_camera: camera }),
            material: Some(ScreenspaceTextureMaterial { texture }),
        },
    );
    proof {
        let w = world@;
        let n = w0.len() as int;
        assert(w =~= w0.push(camera_components(window, target)).push(
            display_components(camera, texture),
        ));
        assert forall|e: int| 0 <= e < n implies w[e] == w0[e] by {}
        assert forall|e: int| #[trigger] has_target(w, e) implies e == n || has_target(w0, e) by {}
        assert forall|e: int| #[trigger] has_material(w, e) implies e == n + 1 || has_material(w0, e) by {}
        assert forall|e: int| #[trigger] has_target(w0, e) implies target_of(w0, e).id < imgs0.len() by {}
        assert forall|e: int| #[trigger] has_material(w0, e) implies display_of(w0, e).id < imgs0.len() by {}
        assert forall|e: int| #[trigger] is_portal(w, e) && e < n implies camera_of(w, e)
            == camera_of(w0, e) && is_portal(w0, e) && camera_of(w0, e) < n by {}
        assert(scene_wf(w, images@));
    }
    (camera, display)
}

/// Entity `e` holds image `i`, as render target or as material texture.
pub open spec fn holds(w: Seq<Components>, e: int, i: int) -> bool {
    (has_target(w, e) && target_of(w, e).id == i) || (has_material(w, e) && display_of(w, e).id
        == i)
}

/// Image `i` is held by an entity below `k`.
pub open spec fn held_below(w: Seq<Components>, k: int, i: int) -> bool {
    exists|e: int| 0 <= e < k && #[trigger] holds(w, e, i)
}

/// `textures_distinct` among the entities below `k`.
pub open spec fn distinct_below(w: Seq<Components>, k: int) -> bool {
    &&& forall|i: int, j: int|
        #![trigger target_of(w, i), target_of(w, j)]
        i < k && j < k && i != j && has_target(w, i) && has_target(w, j) ==> target_of(w, i)
            != target_of(w, j)
    &&& forall|i: int, j: int|
        #![trigger display_of(w, i), display_of(w, j)]
        i < k && j < k && i != j && has_material(w, i) && has_material(w, j) ==> display_of(w, i)
            != display_of(w, j)
    &&& forall|i: int, j: int|
        #![trigger target_of(w, i), display_of(w, j)]
        i < k && j < k && has_target(w, i) && has_material(w, j) ==> target_of(w, i)
            != display_of(w, j)
}

/// Some portal below `k` names camera `c`.
pub open spec fn claimed_below(w: Seq<Components>, k: int, c: int) -> bool {
    exists|p: int| 0 <= p < k && is_portal(w, p) && #[trigger] camera_of(w, p) == c
}

/// Whether the scene meets the invariant that the frame's steps require:
/// every texture handle names an image and is held once, and every portal
/// names an issued entity that no other portal names.
pub fn scene_is_well_formed(world: &World, images: &Images) -> (r: bool)
    ensures
        r == scene_wf(world@, images@),
{
    let ghost w = world@;
    let ghost imgs = images@;
    let n = world.len();
    let m = images.len();
    let mut seen: Vec<bool> = Vec::new();
    while seen.len() < m
        invariant
            seen@.len() <= m,
            forall|i: int| 0 <= i < seen@.len() ==> !seen@[i],
        decreases m - seen.len(),
    {
        seen.push(false);
    }
    let mut k: usize = 0;
    while k < n
        invariant
            0 <= k <= n,
            n == w.len(),
            m == imgs.len(),
            w == world@,
            imgs == images@,
            seen@.len() == m,
            forall|i: int| 0 <= i < m ==> (seen@[i] <==> held_below(w, k as int, i)),
            forall|e: int| #[trigger] has_target(w, e) && e < k ==> valid_handle(imgs, target_of(w, e)),
            forall|e: int|
                #[trigger] has_material(w, e) && e < k ==> valid_handle(imgs, display_of(w, e)),
            distinct_below(w, k as int),
        decreases n - k,
    {
        let c = world.get(Entity { id: k }).unwrap();
        let ghost ki = k as int;
        if let Some(rtt) = c.render_to_texture {
            let t = rtt.0;
            if t.id >= m {
                assert(!handles_valid(w, imgs)) by {
                    assert(has_target(w, ki));
                }
                return false;
            }
            if seen[t.id] {
                assert(held_below(w, ki, t.id as int));
                assert(!textures_distinct(w)) by {
                    let e = choose|e: int| 0 <= e < ki && #[trigger] holds(w, e, t.id as int);
                    assert(has_target(w, ki) && target_of(w, ki) == t);
                    if has_target(w, e) && target_of(w, e).id == t.id {
                        assert(target_of(w, e) == target_of(w, ki));
                    } else {
                        assert(display_of(w, e) == target_of(w, ki));
                    }
                }
                return false;
            }
            assert(!held_below(w, ki, t.id as int));
            seen.set(t.id, true);
        }
        assert(has_target(w, ki) ==> !held_below(w, ki, target_of(w, ki).id as int));
        proof {
            // What the entities below k and k's render target hold.
            assert forall|i: int| 0 <= i < m implies (seen@[i] <==> (held_below(w, ki, i) || (has_target(
                w,
                ki,
            ) && target_of(w, ki).id == i))) by {
                if held_below(w, ki, i) {
                    let e = choose|e: int| 0 <= e < ki && #[trigger] holds(w, e, i);
                }
            }
        }
        if let Some(mat) = c.material {
            let d = mat.texture;
            if d.id >= m {
                assert(!handles_valid(w, imgs)) by {
                    assert(has_material(w, ki));
                }
                return false;
            }
            if seen[d.id] {
                assert(held_below(w, ki, d.id as int) || (has_target(w, ki) && target_of(w, ki).id
                    == d.id));
                assert(!textures_distinct(w)) by {
                    assert(has_material(w, ki) && display_of(w, ki) == d);
                    if has_target(w, ki) && target_of(w, ki).id == d.id {
                        assert(target_of(w, ki) == display_of(w, ki));
                    } else {
                        let e = choose|e: int| 0 <= e < ki && #[trigger] holds(w, e, d.id as int);
                        if has_target(w, e) && target_of(w, e).id == d.id {
                            assert(target_of(w, e) == display_of(w, ki));
                        } else {
                            assert(display_of(w, e) == display_of(w, ki));
                        }
                    }
                }
                return false;
            }
            assert(!held_below(w, ki, d.id as int));
            assert(!(has_target(w, ki) && target_of(w, ki).id == d.id));
            seen.set(d.id, true);
        }
        assert(has_material(w, ki) ==> !held_below(w, ki, display_of(w, ki).id as int));
        assert(has_material(w, ki) && has_target(w, ki) ==> target_of(w, ki) != display_of(w, ki));
        proof {
            assert forall|i: int| 0 <= i < m implies (seen@[i] <==> held_below(w, ki + 1, i)) by {
                if held_below(w, ki + 1, i) {
                    let e = choose|e: int| 0 <= e < ki + 1 && #[trigger] holds(w, e, i);
                    if e < ki {
                        assert(held_below(w, ki, i));
                    }
                }
                if holds(w, ki, i) {
                    assert(held_below(w, ki + 1, i));
                }
                if held_below(w, ki, i) {
                    let e = choose|e: int| 0 <= e < ki && #[trigger] holds(w, e, i);
                    assert(held_below(w, ki + 1, i));
                }
            }
            assert forall|i: int, j: int|
                #![trigger target_of(w, i), target_of(w, j)]
                i < ki + 1 && j < ki + 1 && i != j && has_target(w, i) && has_target(w, j)
                    implies target_of(w, i) != target_of(w, j) by {
                if j == ki {
                    assert(holds(w, i, target_of(w, i).id as int));
                }
                if i == ki {
                    assert(holds(w, j, target_of(w, j).id as int));
                }
            }
            assert forall|i: int, j: int|
                #![trigger display_of(w, i), display_of(w, j)]
                i < ki + 1 && j < ki + 1 && i != j && has_material(w, i) && has_material(w, j)
                    implies display_of(w, i) != display_of(w, j) by {
                if j == ki {
                    assert(holds(w, i, display_of(w, i).id as int));
                }
                if i == ki {
                    assert(holds(w, j, display_of(w, j).id as int));
                }
            }
            assert forall|i: int, j: int|
                #![trigger target_of(w, i), display_of(w, j)]
                i < ki + 1 && j < ki + 1 && has_target(w, i) && has_material(w, j)
                    implies target_of(w, i) != display_of(w, j) by {
                if j == ki && i < ki {
                    assert(holds(w, i, target_of(w, i).id as int));
                }
                if i == ki && j < ki {
                    assert(holds(w, j, display_of(w, j).id as int));
                }
            }
        }
        k = k + 1;
    }
    assert(textures_distinct(w));
    assert(handles_valid(w, imgs));
    let mut claimed: Vec<bool> = Vec::new();
    while claimed.len() < n
        invariant
            claimed@.len() <= n,
            forall|i: int| 0 <= i < claimed@.len() ==> !claimed@[i],
        decreases n - claimed.len(),
    {
        claimed.push(false);
    }
    let mut p: usize = 0;
    while p < n
        invariant
            0 <= p <= n,
            n == w.len(),
            w == world@,
            claimed@.len() == n,
            forall|c: int| 0 <= c < n ==> (claimed@[c] <==> claimed_below(w, p as int, c)),
            forall|q: int| #[trigger] is_portal(w, q) && q < p ==> 0 <= camera_of(w, q) < n,
            forall|q: int, s: int|
                #![trigger camera_of(w, q), camera_of(w, s)]
                q < p && s < p && q != s && is_portal(w, q) && is_portal(w, s) ==> camera_of(w, q)
                    != camera_of(w, s),
        decreases n - p,
    {
        let c = world.get(Entity { id: p }).unwrap();
        let ghost pi = p as int;
        if let (Some(d), Some(_)) = (c.cam_display, c.material) {
            let cam = d.corresponding_camera.id;
            if cam >= n {
                assert(!portal_cameras_issued(w)) by {
                    assert(is_portal(w, pi));
                }
                return false;
            }
            if claimed[cam] {
                assert(!portals_paired(w)) by {
                    let q = choose|q: int|
                        0 <= q < pi && is_portal(w, q) && #[trigger] camera_of(w, q) == cam;
                    assert(is_portal(w, pi) && camera_of(w, pi) == cam);
                }
                return false;
            }
            claimed.set(cam, true);
            proof {
                assert forall|x: int| 0 <= x < n implies (claimed@[x] <==> claimed_below(
                    w,
                    pi + 1,
                    x,
                )) by {
                    if claimed_below(w, pi + 1, x) && x != cam {
                        let q = choose|q: int|
                            0 <= q < pi + 1 && is_portal(w, q) && #[trigger] camera_of(w, q) == x;
                        assert(claimed_below(w, pi, x));
                    }
                    if x == cam {
                        assert(is_portal(w, pi) && camera_of(w, pi) == x);
                    }
                    if claimed_below(w, pi, x) {
                        let q = choose|q: int|
                            0 <= q < pi && is_portal(w, q) && #[trigger] camera_of(w, q) == x;
                        assert(claimed_below(w, pi + 1, x));
                    }
                }
                assert forall|q: int, s: int|
                    #![trigger camera_of(w, q), camera_of(w, s)]
                    q < pi + 1 && s < pi + 1 && q != s && is_portal(w, q) && is_portal(w, s)
                        implies camera_of(w, q) != camera_of(w, s) by {
                    if s == pi {
                        assert(claimed_below(w, pi, camera_of(w, q)));
                    }
                    if q == pi {
                        assert(claimed_below(w, pi, camera_of(w, s)));
                    }
                }
            }
        } else {
            proof {
                assert(!is_portal(w, pi));
                assert forall|x: int| 0 <= x < n implies (claimed@[x] <==> claimed_below(
                    w,
                    pi + 1,
                    x,
                )) by {
                    if claimed_below(w, pi + 1, x) {
                        let q = choose|q: int|
                            0 <= q < pi + 1 && is_portal(w, q) && #[trigger] camera_of(w, q) == x;
                        assert(claimed_below(w, pi, x));
                    }
                    if claimed_below(w, pi, x) {
                        let q = choose|q: int|
                            0 <= q < pi && is_portal(w, q) && #[trigger] camera_of(w, q) == x;
                        assert(claimed_below(w, pi + 1, x));
                    }
                }
            }
        }
        p = p + 1;
    }
    true
}

} // verus!
