use bevy_portals::cam_display::swap_texture;
use bevy_portals::frame::run_frame;
use bevy_portals::image::{Extent3d, ImageContents, ImageHandle, Images};
use bevy_portals::render_to_texture::{
    resize_rtt_texture, GpuImage, RenderAssets, TextureViewId, ViewDepthTextures,
};
use bevy_portals::scene::spawn_portal;
use bevy_portals::window::{Window, WindowId, Windows};
use bevy_portals::world::{Entity, World};

struct Scene {
    world: World,
    images: Images,
    windows: Windows,
    window: WindowId,
    portals: Vec<(Entity, Entity)>,
}

fn scene(n_portals: usize, width: u32, height: u32) -> Scene {
    let mut world = World::new();
    let mut images = Images::new();
    let mut windows = Windows::new();
    let window = windows.add(Window { physical_width: width, physical_height: height });
    let mut portals = Vec::new();
    for _ in 0..n_portals {
        portals.push(spawn_portal(&mut world, &mut images, window));
    }
    Scene { world, images, windows, window, portals }
}

/// GPU copies of every image, prepared at `size`: what the GPU side holds
/// once it has caught up with a window of that size.
fn gpu_at(n: usize, size: Extent3d) -> RenderAssets {
    let mut gpu_images = Vec::new();
    for i in 0..n {
        gpu_images.push(Some(GpuImage { texture_view: TextureViewId { id: i as u64 }, size }));
    }
    RenderAssets { gpu_images }
}

fn depth_everywhere(world: &World) -> ViewDepthTextures {
    let mut views = Vec::new();
    for e in 0..world.len() {
        views.push(Some(TextureViewId { id: 1000 + e as u64 }));
    }
    ViewDepthTextures { views }
}

fn target(s: &Scene, camera: Entity) -> ImageHandle {
    s.world.get(camera).unwrap().render_to_texture.unwrap().0
}

fn display(s: &Scene, surface: Entity) -> ImageHandle {
    s.world.get(surface).unwrap().material.unwrap().texture
}

fn frame(s: &mut Scene, n: u64) -> usize {
    let size = s.windows.viewport_size(s.window).unwrap();
    let gpu = gpu_at(s.images.len(), size);
    let depth = depth_everywhere(&s.world);
    let report = run_frame(&mut s.world, &s.windows, &mut s.images, &gpu, &depth, n);
    report.runs.len()
}

fn frame_dangling(s: &mut Scene, n: u64) -> Vec<Entity> {
    let size = s.windows.viewport_size(s.window).unwrap();
    let gpu = gpu_at(s.images.len(), size);
    let depth = depth_everywhere(&s.world);
    run_frame(&mut s.world, &s.windows, &mut s.images, &gpu, &depth, n).dangling
}

const HD: Extent3d = Extent3d { width: 1280, height: 720, depth_or_array_layers: 1 };
const ONE: Extent3d = Extent3d { width: 1, height: 1, depth_or_array_layers: 1 };

#[test]
fn two_portals_window_resize() {
    let mut s = scene(2, 1, 1);
    for &(cam, surf) in &s.portals {
        assert_eq!(s.images.get(target(&s, cam)).unwrap().size, ONE);
        assert_eq!(s.images.get(display(&s, surf)).unwrap().size, ONE);
    }
    assert!(s.windows.set_physical_resolution(s.window, 1280, 720));

    // One full frame: both render targets follow the window; the displays
    // still show their prior 1x1 content.
    let before: Vec<ImageHandle> = s.portals.iter().map(|&(_, surf)| display(&s, surf)).collect();
    assert_eq!(frame(&mut s, 1), 2);
    for (k, &(cam, surf)) in s.portals.iter().enumerate() {
        let t = s.images.get(target(&s, cam)).unwrap();
        assert_eq!(t.size, HD);
        assert_eq!(t.contents, ImageContents::Rendered { frame: 1 });
        assert_eq!(display(&s, surf), before[k]);
        let d = s.images.get(display(&s, surf)).unwrap();
        assert_eq!(d.size, ONE);
        assert_eq!(d.contents, ImageContents::Fill);
    }

    // After the next frame the displays show the 1280x720 picture.
    assert_eq!(frame(&mut s, 2), 2);
    for &(cam, surf) in &s.portals {
        let d = s.images.get(display(&s, surf)).unwrap();
        assert_eq!(d.size, HD);
        assert_eq!(d.contents, ImageContents::Rendered { frame: 1 });
        assert_eq!(s.images.get(target(&s, cam)).unwrap().size, HD);
    }
}

#[test]
fn steady_state_swap_sequence() {
    let mut s = scene(1, 640, 480);
    let (cam, surf) = s.portals[0];
    frame(&mut s, 1);
    frame(&mut s, 2);
    frame(&mut s, 3);
    let display_n = display(&s, surf);
    let target_n = target(&s, cam);
    assert_ne!(display_n, target_n);
    frame(&mut s, 4);
    assert_eq!(target(&s, cam), display_n);
    assert_eq!(display(&s, surf), target_n);
    frame(&mut s, 5);
    assert_eq!(display(&s, surf), display_n);
    assert_eq!(target(&s, cam), target_n);
    // Each frame displays the picture of the frame before.
    assert_eq!(s.images.get(display(&s, surf)).unwrap().contents, ImageContents::Rendered { frame: 4 });
    assert_eq!(s.images.get(target(&s, cam)).unwrap().contents, ImageContents::Rendered { frame: 5 });
}

#[test]
fn resize_twice_reallocates_once() {
    let mut s = scene(2, 1, 1);
    s.windows.set_physical_resolution(s.window, 800, 600);
    let first = resize_rtt_texture(&s.world, &s.windows, &mut s.images);
    assert_eq!(first.len(), 2);
    let second = resize_rtt_texture(&s.world, &s.windows, &mut s.images);
    assert!(second.is_empty());
    for &(cam, _) in &s.portals {
        assert_eq!(s.images.get(target(&s, cam)).unwrap().size, Extent3d::new_2d(800, 600));
    }
    // A sequence of distinct sizes: each run matches the latest one.
    for (w, h) in [(1024u32, 768u32), (1920, 1080), (3, 5)] {
        s.windows.set_physical_resolution(s.window, w, h);
        assert_eq!(resize_rtt_texture(&s.world, &s.windows, &mut s.images).len(), 2);
        assert!(resize_rtt_texture(&s.world, &s.windows, &mut s.images).is_empty());
        for &(cam, _) in &s.portals {
            assert_eq!(s.images.get(target(&s, cam)).unwrap().size, Extent3d::new_2d(w, h));
        }
    }
}

#[test]
fn swap_render_swap_restores_roles() {
    let mut s = scene(1, 4, 4);
    let (cam, surf) = s.portals[0];
    let t0 = target(&s, cam);
    let d0 = display(&s, surf);
    s.images.mark_rendered(t0, 1);
    assert!(swap_texture(&mut s.world, &s.images).is_empty());
    assert_eq!(display(&s, surf), t0);
    assert_eq!(target(&s, cam), d0);
    s.images.mark_rendered(d0, 2);
    swap_texture(&mut s.world, &s.images);
    assert_eq!(display(&s, surf), d0);
    assert_eq!(target(&s, cam), t0);
}

#[test]
fn swap_without_new_picture_is_skipped() {
    let mut s = scene(1, 4, 4);
    let (cam, surf) = s.portals[0];
    let t0 = target(&s, cam);
    let d0 = display(&s, surf);
    // Nothing rendered yet: nothing to promote.
    swap_texture(&mut s.world, &s.images);
    assert_eq!((target(&s, cam), display(&s, surf)), (t0, d0));
    s.images.mark_rendered(t0, 1);
    swap_texture(&mut s.world, &s.images);
    // A second swap in the same frame finds the older picture behind.
    swap_texture(&mut s.world, &s.images);
    assert_eq!((target(&s, cam), display(&s, surf)), (d0, t0));
}

#[test]
fn despawned_camera_keeps_display() {
    let mut s = scene(2, 8, 8);
    frame(&mut s, 1);
    frame(&mut s, 2);
    let (cam, surf) = s.portals[0];
    let (cam2, surf2) = s.portals[1];
    let shown = display(&s, surf);
    let picture = s.images.get(shown).unwrap();
    assert!(s.world.despawn(cam));
    assert_eq!(frame_dangling(&mut s, 3), vec![surf]);
    assert_eq!(display(&s, surf), shown);
    assert_eq!(s.images.get(shown).unwrap().contents, ImageContents::Rendered { frame: 1 });
    assert_eq!(s.images.get(shown).unwrap(), picture);
    assert!(s.world.get(cam).unwrap().camera.is_none());
    // The other portal goes on swapping.
    assert_eq!(s.images.get(display(&s, surf2)).unwrap().contents, ImageContents::Rendered { frame: 2 });
    assert_eq!(s.images.get(target(&s, cam2)).unwrap().contents, ImageContents::Rendered { frame: 3 });
}

#[test]
fn skipped_pass_keeps_display() {
    let mut s = scene(1, 8, 8);
    let (cam, surf) = s.portals[0];
    frame(&mut s, 1);
    frame(&mut s, 2);
    let shown = display(&s, surf);
    // The window grows; the GPU copies lag behind, so the pass is skipped.
    s.windows.set_physical_resolution(s.window, 16, 16);
    let stale = RenderAssets { gpu_images: vec![
        Some(GpuImage { texture_view: TextureViewId { id: 0 }, size: Extent3d::new_2d(8, 8) }),
        Some(GpuImage { texture_view: TextureViewId { id: 1 }, size: Extent3d::new_2d(8, 8) }),
    ] };
    let depth = depth_everywhere(&s.world);
    let report = run_frame(&mut s.world, &s.windows, &mut s.images, &stale, &depth, 3);
    assert_eq!(report.reallocated.len(), 1);
    assert!(report.runs.is_empty());
    // Frame 3 promoted frame 2's picture; nothing was drawn in frame 3.
    let shown3 = display(&s, surf);
    assert_ne!(shown3, shown);
    assert_eq!(s.images.get(shown3).unwrap().contents, ImageContents::Rendered { frame: 2 });
    let t = s.images.get(target(&s, cam)).unwrap();
    assert_eq!(t.size, Extent3d::new_2d(16, 16));
    assert_eq!(t.contents, ImageContents::Fill);
    // Frame 4: the back buffer holds no new picture, so the display stays.
    let report = run_frame(&mut s.world, &s.windows, &mut s.images, &stale, &depth, 4);
    assert!(report.runs.is_empty());
    assert_eq!(display(&s, surf), shown3);
    assert_eq!(s.images.get(shown3).unwrap().contents, ImageContents::Rendered { frame: 2 });
}

#[test]
fn swap_reports_portals_whose_camera_is_gone() {
    let mut s = scene(3, 4, 4);
    let (cam0, surf0) = s.portals[0];
    let (cam1, surf1) = s.portals[1];
    let (cam2, surf2) = s.portals[2];
    for &(cam, _) in &s.portals {
        let t = target(&s, cam);
        s.images.mark_rendered(t, 1);
    }
    let shown0 = display(&s, surf0);
    let shown2 = display(&s, surf2);
    s.world.despawn(cam0);
    // Camera 2 loses its render target but stays a camera.
    let mut c = s.world.get(cam2).unwrap();
    c.render_to_texture = None;
    s.world.set(cam2, c);
    let skipped = swap_texture(&mut s.world, &s.images);
    assert_eq!(skipped, vec![surf0, surf2]);
    assert_eq!(display(&s, surf0), shown0);
    assert_eq!(display(&s, surf2), shown2);
    // The live portal was swapped.
    assert_eq!(s.images.get(display(&s, surf1)).unwrap().contents, ImageContents::Rendered { frame: 1 });
    assert_ne!(display(&s, surf1), target(&s, cam1));
}
