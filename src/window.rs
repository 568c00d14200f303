//! What the core keeps of the window: its title, its size as last reported by
//! the windowing backend, and whether presenting waits for vertical sync.
use vstd::prelude::*;

use crate::events::NativeEvent;

verus! {

/// The window's settings and size.
pub struct WindowData {
    title: String,
    width: u32,
    height: u32,
    vsync: bool,
}

impl WindowData {
    /// The window's title.
    pub closed spec fn spec_title(&self) -> Seq<char> {
        self.title@
    }

    /// The window's width, in screen units.
    pub closed spec fn spec_width(&self) -> u32 {
        self.width
    }

    /// The window's height, in screen units.
    pub closed spec fn spec_height(&self) -> u32 {
        self.height
    }

    /// Whether presenting waits for vertical sync.
    pub closed spec fn spec_vsync(&self) -> bool {
        self.vsync
    }

    /// A window of the given title and size, with vertical sync on.
    pub fn new(title: &str, width: u32, height: u32) -> (r: WindowData)
        ensures
            r.spec_title() == title@,
            r.spec_width() == width,
            r.spec_height() == height,
            r.spec_vsync(),
    {
        WindowData { title: title.to_owned(), width, height, vsync: true }
    }

    /// The window's title.
    pub fn title(&self) -> (r: &str)
        ensures
            r@ == self.spec_title(),
    {
        self.title.as_str()
    }

    /// The window's width.
    pub fn width(&self) -> (r: u32)
        ensures
            r == self.spec_width(),
    {
        self.width
    }

    /// The window's height.
    pub fn height(&self) -> (r: u32)
        ensures
            r == self.spec_height(),
    {
        self.height
    }

    /// Whether presenting waits for vertical sync.
    pub fn is_vsync(&self) -> (r: bool)
        ensures
            r == self.spec_vsync(),
    {
        self.vsync
    }

    /// Turns vertical sync on or off.
    pub fn set_vsync(&mut self, enabled: bool)
        ensures
            final(self).spec_vsync() == enabled,
            final(self).spec_title() == old(self).spec_title(),
            final(self).spec_width() == old(self).spec_width(),
            final(self).spec_height() == old(self).spec_height(),
    {
        self.vsync = enabled;
    }

    /// Takes note of a notification of the windowing backend: a new size is
    /// recorded, converted to unsigned as the backend's values are; every other
    /// notification leaves the data as it is.
    pub fn on_native_event(&mut self, n: &NativeEvent)
        ensures
            final(self).spec_title() == old(self).spec_title(),
            final(self).spec_vsync() == old(self).spec_vsync(),
            match *n {
                NativeEvent::Size { width, height } => final(self).spec_width() == width as u32
                    && final(self).spec_height() == height as u32,
                _ => final(self).spec_width() == old(self).spec_width() && final(self).spec_height() == old(
                    self,
                ).spec_height(),
            },
    {
        match *n {
            NativeEvent::Size { width, height } => {
                self.width = width as u32;
                self.height = height as u32;
            },
            _ => {},
        }
    }
}

} // verus!
