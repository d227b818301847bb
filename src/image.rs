//! Images held by the image store, and the store itself.

use vstd::prelude::*;

verus! {

/// Pixel dimensions of a texture.
#[derive(Clone, Copy, Debug, PartialEq, Eq, Structural)]
pub struct Extent3d {
    pub width: u32,
    pub height: u32,
    pub depth_or_array_layers: u32,
}

/// Pixel formats that the core allocates.
#[derive(Clone, Copy, Debug, PartialEq, Eq, Structural)]
pub enum TextureFormat {
    Rgba8UnormSrgb,
    Bgra8UnormSrgb,
    Depth32Float,
}

/// How a texture may be used by the GPU.
#[derive(Clone, Copy, Debug, PartialEq, Eq, Structural)]
pub struct TextureUsages {
    pub copy_src: bool,
    pub copy_dst: bool,
    pub texture_binding: bool,
    pub render_attachment: bool,
}

/// What a texture's pixels currently hold.
#[derive(Clone, Copy, Debug, PartialEq, Eq, Structural)]
pub enum ImageContents {
    /// Uniform fill data, or storage that was just reallocated: no
    /// finished picture.
    Fill,
    /// A picture that a secondary pass finished in the given frame.
    Rendered { frame: u64 },
}

/// A GPU-backed image buffer, as the store describes it.
#[derive(Clone, Copy, Debug, PartialEq, Eq, Structural)]
pub struct Image {
    pub size: Extent3d,
    pub format: TextureFormat,
    pub usage: TextureUsages,
    pub contents: ImageContents,
}

/// A stable reference to an image of the store.
#[derive(Clone, Copy, Debug, PartialEq, Eq, Structural)]
pub struct ImageHandle {
    pub id: usize,
}

/// The 2D extent of a viewport of `width` by `height` pixels.
pub open spec fn extent_2d(width: u32, height: u32) -> Extent3d {
    Extent3d { width, height, depth_or_array_layers: 1 }
}

/// The image after its storage was reallocated at `size`: same format and
/// usage, no finished picture.
pub open spec fn resized(image: Image, size: Extent3d) -> Image {
    Image { size, format: image.format, usage: image.usage, contents: ImageContents::Fill }
}

/// The image after a secondary pass of `frame` finished drawing into it.
pub open spec fn rendered(image: Image, frame: u64) -> Image {
    Image {
        size: image.size,
        format: image.format,
        usage: image.usage,
        contents: ImageContents::Rendered { frame },
    }
}

/// Usable both as a render attachment and as a sampled texture.
pub open spec fn is_render_texture_usage(usage: TextureUsages) -> bool {
    usage.render_attachment && usage.texture_binding && usage.copy_dst
}

impl Extent3d {
    /// The extent of a single-layer 2D texture.
    pub fn new_2d(width: u32, height: u32) -> (r: Extent3d)
        ensures
            r == extent_2d(width, height),
    {
        Extent3d { width, height, depth_or_array_layers: 1 }
    }
}

impl TextureFormat {
    /// The format of color targets that the core allocates: the one the
    /// engine's 3D pipeline draws into on desktop targets, so that a
    /// secondary pass can render into them.
    pub fn default_color() -> (r: TextureFormat)
        ensures
            r == TextureFormat::Bgra8UnormSrgb,
    {
        TextureFormat::Bgra8UnormSrgb
    }
}

impl TextureUsages {
    /// Render attachment, sampled, and copy destination.
    pub fn render_texture() -> (r: TextureUsages)
        ensures
            is_render_texture_usage(r),
            !r.copy_src,
    {
        TextureUsages {
            copy_src: false,
            copy_dst: true,
            texture_binding: true,
            render_attachment: true,
        }
    }
}

impl Image {
    /// Reallocates the backing storage at `size`, keeping format and usage.
    /// The old pixels are not kept.
    pub fn resize(&mut self, size: Extent3d)
        ensures
            *final(self) == resized(*old(self), size),
    {
        self.size = size;
        self.contents = ImageContents::Fill;
    }
}

/// The 1x1 placeholder that render textures are allocated with before their
/// first resize: default color format, render-attachment and sampled usage,
/// no picture yet.
pub open spec fn placeholder_image() -> Image {
    Image {
        size: extent_2d(1, 1),
        format: TextureFormat::Bgra8UnormSrgb,
        usage: TextureUsages {
            copy_src: false,
            copy_dst: true,
            texture_binding: true,
            render_attachment: true,
        },
        contents: ImageContents::Fill,
    }
}

pub fn dummy_image() -> (r: Image)
    ensures
        r == placeholder_image(),
        is_render_texture_usage(r.usage),
{
    Image {
        size: Extent3d::new_2d(1, 1),
        format: TextureFormat::default_color(),
        usage: TextureUsages::render_texture(),
        contents: ImageContents::Fill,
    }
}

/// The image store: an arena whose handles are indices. Images are never
/// removed, so a handle stays valid once issued.
#[derive(Clone)]
pub struct Images {
    images: Vec<Image>,
}

impl View for Images {
    type V = Seq<Image>;

    closed spec fn view(&self) -> Seq<Image> {
        self.images@
    }
}

/// `h` names an image of the store `s`.
pub open spec fn valid_handle(s: Seq<Image>, h: ImageHandle) -> bool {
    h.id < s.len()
}

impl Images {
    pub fn new() -> (r: Images)
        ensures
            r@ == Seq::<Image>::empty(),
    {
        Images { images: Vec::new() }
    }

    pub fn len(&self) -> (r: usize)
        ensures
            r == self@.len(),
    {
        self.images.len()
    }

    /// Stores `image` and returns its new handle.
    pub fn add(&mut self, image: Image) -> (h: ImageHandle)
        requires
            old(self)@.len() < usize::MAX,
        ensures
            h.id == old(self)@.len(),
            final(self)@ == old(self)@.push(image),
    {
        let h = ImageHandle { id: self.images.len() };
        self.images.push(image);
        h
    }

    /// The image that `h` names, if any.
    pub fn get(&self, h: ImageHandle) -> (r: Option<Image>)
        ensures
            r == (if valid_handle(self@, h) { Some(self@[h.id as int]) } else { None }),
    {
        if h.id < self.images.len() {
            Some(self.images[h.id])
        } else {
            None
        }
    }

    /// Reallocates the image that `h` names at `size`; `false` when `h`
    /// names no image.
    pub fn resize(&mut self, h: ImageHandle, size: Extent3d) -> (r: bool)
        ensures
            r == valid_handle(old(self)@, h),
            final(self)@ == (if r {
                old(self)@.update(h.id as int, resized(old(self)@[h.id as int], size))
            } else {
                old(self)@
            }),
    {
        if h.id < self.images.len() {
            let mut image = self.images[h.id];
            image.resize(size);
            self.images.set(h.id, image);
            true
        } else {
            false
        }
    }

    /// Records that a secondary pass of `frame` finished drawing into the
    /// image that `h` names; `false` when `h` names no image.
    pub fn mark_rendered(&mut self, h: ImageHandle, frame: u64) -> (r: bool)
        ensures
            r == valid_handle(old(self)@, h),
            final(self)@ == (if r {
                old(self)@.update(h.id as int, rendered(old(self)@[h.id as int], frame))
            } else {
                old(self)@
            }),
    {
        if h.id < self.images.len() {
            let mut image = self.images[h.id];
            image.contents = ImageContents::Rendered { frame };
            self.images.set(h.id, image);
            true
        } else {
            false
        }
    }
}

} // verus!
