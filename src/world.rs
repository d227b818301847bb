//! The entity/component table: one row of optional components per entity.

use vstd::prelude::*;
use crate::image::{ImageHandle, Image, valid_handle};
use crate::window::WindowId;

verus! {

/// An entity id. Ids are never reused, so an id whose entity was despawned
/// refers to no entity from then on.
#[derive(Clone, Copy, Debug, PartialEq, Eq, Structural)]
pub struct Entity {
    pub id: usize,
}

/// A camera, and the window whose viewport it renders at.
#[derive(Clone, Copy, Debug, PartialEq, Eq, Structural)]
pub struct Camera {
    pub window: WindowId,
}

/// Marks a camera that renders into a texture instead of the swapchain; holds
/// its current render target.
#[derive(Clone, Copy, Debug, PartialEq, Eq, Structural)]
pub struct RenderToTexture(pub ImageHandle);

/// Marks a display surface and names the camera whose picture it shows.
#[derive(Clone, Copy, Debug, PartialEq, Eq, Structural)]
pub struct CamDisplay {
    pub corresponding_camera: Entity,
}

/// The material of a display surface: the texture it samples.
#[derive(Clone, Copy, Debug, PartialEq, Eq, Structural)]
pub struct ScreenspaceTextureMaterial {
    pub texture: ImageHandle,
}

/// The components that one entity carries.
#[derive(Clone, Copy, Debug, PartialEq, Eq, Structural)]
pub struct Components {
    pub camera: Option<Camera>,
    pub render_to_texture: Option<RenderToTexture>,
    pub cam_display: Option<CamDisplay>,
    pub material: Option<ScreenspaceTextureMaterial>,
}

/// The entity table. Row `i` holds the components of the entity with id `i`.
pub struct World {
    entities: Vec<Components>,
}

impl View for World {
    type V = Seq<Components>;

    closed spec fn view(&self) -> Seq<Components> {
        self.entities@
    }
}

pub open spec fn no_components() -> Components {
    Components { camera: None, render_to_texture: None, cam_display: None, material: None }
}

/// Entity `e` is a camera that renders into a texture.
pub open spec fn is_render_camera(w: Seq<Components>, e: int) -> bool {
    0 <= e < w.len() && w[e].camera is Some && w[e].render_to_texture is Some
}

/// Entity `e` carries a render target.
pub open spec fn has_target(w: Seq<Components>, e: int) -> bool {
    0 <= e < w.len() && w[e].render_to_texture is Some
}

pub open spec fn target_of(w: Seq<Components>, e: int) -> ImageHandle {
    w[e].render_to_texture->Some_0.0
}

/// Entity `e` carries a display material.
pub open spec fn has_material(w: Seq<Components>, e: int) -> bool {
    0 <= e < w.len() && w[e].material is Some
}

pub open spec fn display_of(w: Seq<Components>, e: int) -> ImageHandle {
    w[e].material->Some_0.texture
}

/// Entity `p` is a display surface with a material.
pub open spec fn is_portal(w: Seq<Components>, p: int) -> bool {
    0 <= p < w.len() && w[p].cam_display is Some && w[p].material is Some
}

/// The id of the camera that portal `p` shows.
pub open spec fn camera_of(w: Seq<Components>, p: int) -> int {
    w[p].cam_display->Some_0.corresponding_camera.id as int
}

/// No texture handle is held twice: render targets, display materials, and
/// one against the other.
pub open spec fn textures_distinct(w: Seq<Components>) -> bool {
    &&& forall|i: int, j: int|
        #![trigger target_of(w, i), target_of(w, j)]
        i != j && has_target(w, i) && has_target(w, j) ==> target_of(w, i) != target_of(w, j)
    &&& forall|i: int, j: int|
        #![trigger display_of(w, i), display_of(w, j)]
        i != j && has_material(w, i) && has_material(w, j) ==> display_of(w, i) != display_of(
            w,
            j,
        )
    &&& forall|i: int, j: int|
        #![trigger target_of(w, i), display_of(w, j)]
        has_target(w, i) && has_material(w, j) ==> target_of(w, i) != display_of(w, j)
}

/// Each camera is shown by at most one portal.
pub open spec fn portals_paired(w: Seq<Components>) -> bool {
    forall|p: int, q: int|
        #![trigger camera_of(w, p), camera_of(w, q)]
        p != q && is_portal(w, p) && is_portal(w, q) ==> camera_of(w, p) != camera_of(w, q)
}

/// Every texture handle that an entity holds names an image of `imgs`.
pub open spec fn handles_valid(w: Seq<Components>, imgs: Seq<Image>) -> bool {
    &&& forall|e: int| #[trigger] has_target(w, e) ==> valid_handle(imgs, target_of(w, e))
    &&& forall|e: int| #[trigger] has_material(w, e) ==> valid_handle(imgs, display_of(w, e))
}

/// Every portal names an entity id that was issued.
pub open spec fn portal_cameras_issued(w: Seq<Components>) -> bool {
    forall|p: int| #[trigger] is_portal(w, p) ==> 0 <= camera_of(w, p) < w.len()
}

/// The invariant of a scene that this core keeps: handles valid and
/// distinct, each camera shown by at most one portal, and only issued ids
/// named as cameras.
pub open spec fn scene_wf(w: Seq<Components>, imgs: Seq<Image>) -> bool {
    textures_distinct(w) && portals_paired(w) && handles_valid(w, imgs) && portal_cameras_issued(w)
}

impl Components {
    pub fn empty() -> (r: Components)
        ensures
            r == no_components(),
    {
        Components { camera: None, render_to_texture: None, cam_display: None, material: None }
    }
}

impl World {
    pub fn new() -> (r: World)
        ensures
            r@ == Seq::<Components>::empty(),
    {
        World { entities: Vec::new() }
    }

    /// Number of entity ids issued so far.
    pub fn len(&self) -> (r: usize)
        ensures
            r == self@.len(),
    {
        self.entities.len()
    }

    /// Issues a new entity with no components.
    pub fn spawn(&mut self) -> (e: Entity)
        requires
            old(self)@.len() < usize::MAX,
        ensures
            e.id == old(self)@.len(),
            final(self)@ == old(self)@.push(no_components()),
    {
        let e = Entity { id: self.entities.len() };
        self.entities.push(Components::empty());
        e
    }

    /// The components of `e`; `None` for an id never issued.
    pub fn get(&self, e: Entity) -> (r: Option<Components>)
        ensures
            r == (if e.id < self@.len() { Some(self@[e.id as int]) } else { None }),
    {
        if e.id < self.entities.len() {
            Some(self.entities[e.id])
        } else {
            None
        }
    }

    /// Replaces the components of `e`; `false` for an id never issued.
    pub fn set(&mut self, e: Entity, c: Components) -> (r: bool)
        ensures
            r == (e.id < old(self)@.len()),
            final(self)@ == (if r { old(self)@.update(e.id as int, c) } else { old(self)@ }),
    {
        if e.id < self.entities.len() {
            self.entities.set(e.id, c);
            true
        } else {
            false
        }
    }

    /// Removes every component of `e`; its id is not reused.
    pub fn despawn(&mut self, e: Entity) -> (r: bool)
        ensures
            r == (e.id < old(self)@.len()),
            final(self)@ == (if r {
                old(self)@.update(e.id as int, no_components())
            } else {
                old(self)@
            }),
    {
        self.set(e, Components::empty())
    }
}

} // verus!
