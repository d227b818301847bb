//! Windows and their physical sizes, as the windowing layer reports them.

use vstd::prelude::*;
use crate::image::{Extent3d, extent_2d};

verus! {

/// A stable reference to a window.
#[derive(Clone, Copy, Debug, PartialEq, Eq, Structural)]
pub struct WindowId {
    pub id: usize,
}

/// A window's physical size in pixels.
#[derive(Clone, Copy, Debug, PartialEq, Eq, Structural)]
pub struct Window {
    pub physical_width: u32,
    pub physical_height: u32,
}

/// The open windows, indexed by id. A closed window leaves a hole, so ids
/// are never reused.
pub struct Windows {
    windows: Vec<Option<Window>>,
}

impl View for Windows {
    type V = Seq<Option<Window>>;

    closed spec fn view(&self) -> Seq<Option<Window>> {
        self.windows@
    }
}

/// The physical size of window `id`, or `None` when it is not open.
pub open spec fn viewport_size(ws: Seq<Option<Window>>, id: WindowId) -> Option<Extent3d> {
    if id.id < ws.len() && ws[id.id as int] is Some {
        let w = ws[id.id as int]->Some_0;
        Some(extent_2d(w.physical_width, w.physical_height))
    } else {
        None
    }
}

impl Window {
    /// The extent that a texture covering this window must have.
    pub fn physical_extent(&self) -> (r: Extent3d)
        ensures
            r == extent_2d(self.physical_width, self.physical_height),
    {
        Extent3d::new_2d(self.physical_width, self.physical_height)
    }
}

impl Windows {
    pub fn new() -> (r: Windows)
        ensures
            r@ == Seq::<Option<Window>>::empty(),
    {
        Windows { windows: Vec::new() }
    }

    /// Opens a window and returns its id.
    pub fn add(&mut self, window: Window) -> (id: WindowId)
        requires
            old(self)@.len() < usize::MAX,
        ensures
            id.id == old(self)@.len(),
            final(self)@ == old(self)@.push(Some(window)),
    {
        let id = WindowId { id: self.windows.len() };
        self.windows.push(Some(window));
        id
    }

    /// Window `id`, if it is open.
    pub fn get(&self, id: WindowId) -> (r: Option<Window>)
        ensures
            r == (if id.id < self@.len() { self@[id.id as int] } else { None }),
    {
        if id.id < self.windows.len() {
            self.windows[id.id]
        } else {
            None
        }
    }

    /// The physical size of window `id`, or `None` when it is not open.
    pub fn viewport_size(&self, id: WindowId) -> (r: Option<Extent3d>)
        ensures
            r == viewport_size(self@, id),
    {
        match self.get(id) {
            Some(w) => Some(w.physical_extent()),
            None => None,
        }
    }

    /// Records a new physical size for window `id`; `false` when it is not
    /// open.
    pub fn set_physical_resolution(&mut self, id: WindowId, width: u32, height: u32) -> (r: bool)
        ensures
            r == (id.id < old(self)@.len() && old(self)@[id.id as int] is Some),
            final(self)@ == (if r {
                old(self)@.update(
                    id.id as int,
                    Some(Window { physical_width: width, physical_height: height }),
                )
            } else {
                old(self)@
            }),
    {
        if id.id < self.windows.len() && self.windows[id.id].is_some() {
            self.windows.set(id.id, Some(Window { physical_width: width, physical_height: height }));
            true
        } else {
            false
        }
    }

    /// Closes window `id`; `false` when it was not open.
    pub fn close(&mut self, id: WindowId) -> (r: bool)
        ensures
            r == (id.id < old(self)@.len() && old(self)@[id.id as int] is Some),
            final(self)@ == (if r { old(self)@.update(id.id as int, None) } else { old(self)@ }),
    {
        if id.id < self.windows.len() && self.windows[id.id].is_some() {
            self.windows.set(id.id, None);
            true
        } else {
            false
        }
    }
}

} // verus!
