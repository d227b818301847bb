//! Render-to-texture portals: the bookkeeping that keeps off-screen render
//! targets sized to their viewports, hands each secondary camera's target to
//! the frame graph, and double-buffers every portal so that its display
//! surface only ever samples a finished picture.
//!
//! The engine's world is modelled as plain component stores indexed by
//! entity id; image and window stores are arenas indexed by handle.

pub mod image;
pub mod window;
pub mod world;
pub mod resize;
pub mod render_to_texture;
pub mod cam_display;
pub mod frame;
pub mod scene;
