use bevy_portals::cam_display::resize_material_texture;
use bevy_portals::frame::finish_passes;
use bevy_portals::image::{
    dummy_image, Extent3d, Image, ImageContents, ImageHandle, Images, TextureFormat, TextureUsages,
};
use bevy_portals::render_to_texture::{
    extract_rtt_render_phase, resize_rtt_texture, ExtractedCamera, GpuImage, RenderAssets,
    SecondCamDriverNode, SubGraphRun, TextureViewId, ViewDepthTextures,
};
use bevy_portals::resize::{apply_resize_requests, resize_if_out_of_date};
use bevy_portals::scene::{scene_is_well_formed, spawn_portal};
use bevy_portals::window::{Window, WindowId, Windows};
use bevy_portals::world::{
    Camera, CamDisplay, Components, Entity, RenderToTexture, ScreenspaceTextureMaterial, World,
};

#[test]
fn dummy_image_is_a_one_pixel_render_texture() {
    let image = dummy_image();
    assert_eq!(image.size, Extent3d { width: 1, height: 1, depth_or_array_layers: 1 });
    assert_eq!(image.format, TextureFormat::Bgra8UnormSrgb);
    assert!(image.usage.render_attachment && image.usage.texture_binding && image.usage.copy_dst);
    assert!(!image.usage.copy_src);
    assert_eq!(image.contents, ImageContents::Fill);
}

#[test]
fn image_resize_keeps_format_and_drops_picture() {
    let mut image = Image {
        size: Extent3d::new_2d(2, 2),
        format: TextureFormat::Bgra8UnormSrgb,
        usage: TextureUsages::render_texture(),
        contents: ImageContents::Rendered { frame: 9 },
    };
    image.resize(Extent3d::new_2d(30, 20));
    assert_eq!(image.size, Extent3d::new_2d(30, 20));
    assert_eq!(image.format, TextureFormat::Bgra8UnormSrgb);
    assert_eq!(image.usage, TextureUsages::render_texture());
    assert_eq!(image.contents, ImageContents::Fill);
}

#[test]
fn image_store_handles() {
    let mut images = Images::new();
    let a = images.add(dummy_image());
    let b = images.add(dummy_image());
    assert_eq!((a.id, b.id, images.len()), (0, 1, 2));
    assert!(images.get(ImageHandle { id: 2 }).is_none());
    assert!(!images.resize(ImageHandle { id: 7 }, Extent3d::new_2d(3, 3)));
    assert!(!images.mark_rendered(ImageHandle { id: 7 }, 1));
    assert!(images.resize(b, Extent3d::new_2d(3, 3)));
    assert_eq!(images.get(b).unwrap().size, Extent3d::new_2d(3, 3));
    assert_eq!(images.get(a).unwrap(), dummy_image());
    assert!(images.mark_rendered(a, 4));
    assert_eq!(images.get(a).unwrap().contents, ImageContents::Rendered { frame: 4 });
    assert_eq!(images.get(a).unwrap().size, Extent3d::new_2d(1, 1));
}

#[test]
fn resize_if_out_of_date_only_when_sizes_differ() {
    let mut images = Images::new();
    let a = images.add(dummy_image());
    images.mark_rendered(a, 1);
    assert!(!resize_if_out_of_date(&mut images, a, Extent3d::new_2d(1, 1)));
    assert_eq!(images.get(a).unwrap().contents, ImageContents::Rendered { frame: 1 });
    assert!(!resize_if_out_of_date(&mut images, ImageHandle { id: 5 }, Extent3d::new_2d(2, 2)));
    assert!(resize_if_out_of_date(&mut images, a, Extent3d::new_2d(2, 1)));
    assert_eq!(images.get(a).unwrap().size, Extent3d::new_2d(2, 1));
    assert_eq!(images.get(a).unwrap().contents, ImageContents::Fill);
}

#[test]
fn apply_resize_requests_lists_reallocations_in_order() {
    let mut images = Images::new();
    let a = images.add(dummy_image());
    let b = images.add(dummy_image());
    let c = images.add(dummy_image());
    let reqs = vec![
        Some((c, Extent3d::new_2d(5, 5))),
        None,
        Some((b, Extent3d::new_2d(1, 1))),
        Some((a, Extent3d::new_2d(7, 2))),
        Some((ImageHandle { id: 9 }, Extent3d::new_2d(7, 2))),
    ];
    let r = apply_resize_requests(&mut images, &reqs);
    assert_eq!(r, vec![c, a]);
    assert_eq!(images.get(c).unwrap().size, Extent3d::new_2d(5, 5));
    assert_eq!(images.get(b).unwrap(), dummy_image());
    assert_eq!(images.get(a).unwrap().size, Extent3d::new_2d(7, 2));
}

#[test]
fn windows_open_resize_close() {
    let mut windows = Windows::new();
    let w = windows.add(Window { physical_width: 10, physical_height: 20 });
    assert_eq!(windows.viewport_size(w), Some(Extent3d::new_2d(10, 20)));
    assert!(windows.set_physical_resolution(w, 11, 21));
    assert_eq!(windows.get(w), Some(Window { physical_width: 11, physical_height: 21 }));
    assert!(!windows.set_physical_resolution(WindowId { id: 3 }, 1, 1));
    assert!(windows.close(w));
    assert!(!windows.close(w));
    assert_eq!(windows.viewport_size(w), None);
    assert!(!windows.set_physical_resolution(w, 1, 1));
}

#[test]
fn world_spawn_set_despawn() {
    let mut world = World::new();
    let e = world.spawn();
    let f = world.spawn();
    assert_eq!((e.id, f.id, world.len()), (0, 1, 2));
    assert_eq!(world.get(e), Some(Components::empty()));
    let c = Components {
        camera: Some(Camera { window: WindowId { id: 0 } }),
        render_to_texture: Some(RenderToTexture(ImageHandle { id: 3 })),
        cam_display: None,
        material: None,
    };
    assert!(world.set(f, c));
    assert_eq!(world.get(f), Some(c));
    assert!(!world.set(Entity { id: 2 }, c));
    assert!(world.despawn(f));
    assert_eq!(world.get(f), Some(Components::empty()));
    assert!(!world.despawn(Entity { id: 4 }));
    assert_eq!(world.get(Entity { id: 4 }), None);
    assert_eq!(world.spawn().id, 2);
}

#[test]
fn spawn_portal_links_fresh_textures() {
    let mut world = World::new();
    let mut images = Images::new();
    let window = WindowId { id: 0 };
    let (cam, surf) = spawn_portal(&mut world, &mut images, window);
    let (cam2, surf2) = spawn_portal(&mut world, &mut images, window);
    assert_eq!((cam.id, surf.id, cam2.id, surf2.id), (0, 1, 2, 3));
    assert_eq!(images.len(), 4);
    let c = world.get(cam).unwrap();
    assert_eq!(c.camera, Some(Camera { window }));
    assert_eq!(c.render_to_texture, Some(RenderToTexture(ImageHandle { id: 0 })));
    let s = world.get(surf2).unwrap();
    assert_eq!(s.cam_display, Some(CamDisplay { corresponding_camera: cam2 }));
    assert_eq!(s.material, Some(ScreenspaceTextureMaterial { texture: ImageHandle { id: 3 } }));
    assert_eq!(images.get(ImageHandle { id: 3 }).unwrap(), dummy_image());
}

#[test]
fn resizer_skips_closed_windows_and_plain_cameras() {
    let mut world = World::new();
    let mut images = Images::new();
    let mut windows = Windows::new();
    let open = windows.add(Window { physical_width: 64, physical_height: 32 });
    let closed = windows.add(Window { physical_width: 8, physical_height: 8 });
    windows.close(closed);
    let (a, _) = spawn_portal(&mut world, &mut images, open);
    let (b, _) = spawn_portal(&mut world, &mut images, closed);
    // A camera without a render target, and a target without a camera.
    let plain = world.spawn();
    world.set(plain, Components { camera: Some(Camera { window: open }), ..Components::empty() });
    let h = images.add(dummy_image());
    let orphan = world.spawn();
    world.set(orphan, Components { render_to_texture: Some(RenderToTexture(h)), ..Components::empty() });
    let r = resize_rtt_texture(&world, &windows, &mut images);
    let ta = world.get(a).unwrap().render_to_texture.unwrap().0;
    let tb = world.get(b).unwrap().render_to_texture.unwrap().0;
    assert_eq!(r, vec![ta]);
    assert_eq!(images.get(ta).unwrap().size, Extent3d::new_2d(64, 32));
    assert_eq!(images.get(tb).unwrap().size, Extent3d::new_2d(1, 1));
    assert_eq!(images.get(h).unwrap().size, Extent3d::new_2d(1, 1));
}

#[test]
fn material_textures_follow_their_cameras_window() {
    let mut world = World::new();
    let mut images = Images::new();
    let mut windows = Windows::new();
    let w1 = windows.add(Window { physical_width: 100, physical_height: 50 });
    let w2 = windows.add(Window { physical_width: 30, physical_height: 40 });
    let (a, sa) = spawn_portal(&mut world, &mut images, w1);
    let (b, sb) = spawn_portal(&mut world, &mut images, w2);
    let (c, sc) = spawn_portal(&mut world, &mut images, w1);
    world.despawn(c);
    let r = resize_material_texture(&world, &windows, &mut images);
    let da = world.get(sa).unwrap().material.unwrap().texture;
    let db = world.get(sb).unwrap().material.unwrap().texture;
    let dc = world.get(sc).unwrap().material.unwrap().texture;
    assert_eq!(r, vec![da, db]);
    assert_eq!(images.get(da).unwrap().size, Extent3d::new_2d(100, 50));
    assert_eq!(images.get(db).unwrap().size, Extent3d::new_2d(30, 40));
    assert_eq!(images.get(dc).unwrap().size, Extent3d::new_2d(1, 1));
    // Render targets are not this resizer's business.
    let ta = world.get(a).unwrap().render_to_texture.unwrap().0;
    let tb = world.get(b).unwrap().render_to_texture.unwrap().0;
    assert_eq!(images.get(ta).unwrap().size, Extent3d::new_2d(1, 1));
    assert_eq!(images.get(tb).unwrap().size, Extent3d::new_2d(1, 1));
    assert!(resize_material_texture(&world, &windows, &mut images).is_empty());
}

#[test]
fn extraction_copies_texture_cameras_in_entity_order() {
    let mut world = World::new();
    let mut images = Images::new();
    let window = WindowId { id: 0 };
    let (a, _) = spawn_portal(&mut world, &mut images, window);
    let plain = world.spawn();
    world.set(plain, Components { camera: Some(Camera { window }), ..Components::empty() });
    let (b, _) = spawn_portal(&mut world, &mut images, window);
    let before = world.get(a);
    let ex = extract_rtt_render_phase(&world);
    assert_eq!(
        ex,
        vec![
            ExtractedCamera { entity: a, render_target: ImageHandle { id: 0 } },
            ExtractedCamera { entity: b, render_target: ImageHandle { id: 2 } },
        ]
    );
    assert_eq!(world.get(a), before);
}

#[test]
fn driver_node_skips_cameras_whose_views_are_not_ready() {
    let mut images = Images::new();
    for _ in 0..4 {
        images.add(dummy_image());
    }
    images.resize(ImageHandle { id: 2 }, Extent3d::new_2d(9, 9));
    let one = Extent3d::new_2d(1, 1);
    let gpu = RenderAssets {
        gpu_images: vec![
            Some(GpuImage { texture_view: TextureViewId { id: 10 }, size: one }),
            None,
            Some(GpuImage { texture_view: TextureViewId { id: 12 }, size: one }),
            Some(GpuImage { texture_view: TextureViewId { id: 13 }, size: one }),
        ],
    };
    let depth = ViewDepthTextures {
        views: vec![Some(TextureViewId { id: 20 }), Some(TextureViewId { id: 21 }), Some(TextureViewId { id: 22 }), None],
    };
    let ex = vec![
        // ready
        ExtractedCamera { entity: Entity { id: 0 }, render_target: ImageHandle { id: 0 } },
        // no GPU copy yet
        ExtractedCamera { entity: Entity { id: 1 }, render_target: ImageHandle { id: 1 } },
        // GPU copy older than the resize
        ExtractedCamera { entity: Entity { id: 2 }, render_target: ImageHandle { id: 2 } },
        // no depth view
        ExtractedCamera { entity: Entity { id: 3 }, render_target: ImageHandle { id: 3 } },
        // unknown image
        ExtractedCamera { entity: Entity { id: 0 }, render_target: ImageHandle { id: 8 } },
        // ready, second in order
        ExtractedCamera { entity: Entity { id: 2 }, render_target: ImageHandle { id: 3 } },
    ];
    let runs = SecondCamDriverNode.run(&ex, &images, &gpu, &depth);
    assert_eq!(
        runs,
        vec![
            SubGraphRun {
                view_entity: Entity { id: 0 },
                render_target: ImageHandle { id: 0 },
                color_attachment: TextureViewId { id: 10 },
                depth_attachment: TextureViewId { id: 20 },
            },
            SubGraphRun {
                view_entity: Entity { id: 2 },
                render_target: ImageHandle { id: 3 },
                color_attachment: TextureViewId { id: 13 },
                depth_attachment: TextureViewId { id: 22 },
            },
        ]
    );
}

#[test]
fn finished_passes_stamp_their_targets() {
    let mut images = Images::new();
    for _ in 0..3 {
        images.add(dummy_image());
    }
    let run = |t: usize| SubGraphRun {
        view_entity: Entity { id: 0 },
        render_target: ImageHandle { id: t },
        color_attachment: TextureViewId { id: 0 },
        depth_attachment: TextureViewId { id: 0 },
    };
    finish_passes(&mut images, &vec![run(2), run(0), run(6)], 7);
    assert_eq!(images.get(ImageHandle { id: 0 }).unwrap().contents, ImageContents::Rendered { frame: 7 });
    assert_eq!(images.get(ImageHandle { id: 1 }).unwrap(), dummy_image());
    assert_eq!(images.get(ImageHandle { id: 2 }).unwrap().contents, ImageContents::Rendered { frame: 7 });
    assert_eq!(images.get(ImageHandle { id: 2 }).unwrap().size, Extent3d::new_2d(1, 1));
}

#[test]
fn scene_check_accepts_spawned_portals() {
    let mut world = World::new();
    let mut images = Images::new();
    assert!(scene_is_well_formed(&world, &images));
    spawn_portal(&mut world, &mut images, WindowId { id: 0 });
    spawn_portal(&mut world, &mut images, WindowId { id: 0 });
    assert!(scene_is_well_formed(&world, &images));
    world.despawn(Entity { id: 0 });
    assert!(scene_is_well_formed(&world, &images));
}

#[test]
fn scene_check_rejects_shared_texture() {
    let mut world = World::new();
    let mut images = Images::new();
    let (cam, _) = spawn_portal(&mut world, &mut images, WindowId { id: 0 });
    let (_, surf) = spawn_portal(&mut world, &mut images, WindowId { id: 0 });
    let t = world.get(cam).unwrap().render_to_texture.unwrap().0;
    let mut c = world.get(surf).unwrap();
    c.material = Some(ScreenspaceTextureMaterial { texture: t });
    world.set(surf, c);
    assert!(!scene_is_well_formed(&world, &images));
}

#[test]
fn scene_check_rejects_camera_shown_twice() {
    let mut world = World::new();
    let mut images = Images::new();
    let (cam, _) = spawn_portal(&mut world, &mut images, WindowId { id: 0 });
    let (_, surf) = spawn_portal(&mut world, &mut images, WindowId { id: 0 });
    let mut c = world.get(surf).unwrap();
    c.cam_display = Some(CamDisplay { corresponding_camera: cam });
    world.set(surf, c);
    assert!(!scene_is_well_formed(&world, &images));
}

#[test]
fn scene_check_rejects_dangling_handles_and_ids() {
    let mut world = World::new();
    let mut images = Images::new();
    let (cam, surf) = spawn_portal(&mut world, &mut images, WindowId { id: 0 });
    let mut c = world.get(cam).unwrap();
    c.render_to_texture = Some(RenderToTexture(ImageHandle { id: 17 }));
    world.set(cam, c);
    assert!(!scene_is_well_formed(&world, &images));
    world.despawn(cam);
    assert!(scene_is_well_formed(&world, &images));
    let mut s = world.get(surf).unwrap();
    s.cam_display = Some(CamDisplay { corresponding_camera: Entity { id: 40 } });
    world.set(surf, s);
    assert!(!scene_is_well_formed(&world, &images));
}

#[test]
fn render_textures_use_the_pipeline_color_format() {
    assert_eq!(TextureFormat::default_color(), TextureFormat::Bgra8UnormSrgb);
    assert_eq!(dummy_image().format, TextureFormat::default_color());
    let mut world = World::new();
    let mut images = Images::new();
    spawn_portal(&mut world, &mut images, WindowId { id: 0 });
    for id in 0..images.len() {
        assert_eq!(images.get(ImageHandle { id }).unwrap().format, TextureFormat::Bgra8UnormSrgb);
    }
}
