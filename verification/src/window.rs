//! The display surface as the interpreter sees it: a framebuffer plus the
//! repaint request the platform layer polls. Creating the platform window
//! and actually painting are the embedding driver's business; the
//! interpreter only mutates pixels and raises the repaint signal.

use vstd::prelude::*;

use crate::screen::Screen;

verus! {

/// A display surface: the owned framebuffer and a pending-repaint flag.
/// `needs_repaint` is raised whenever the interpreter changes the picture
/// and is lowered by the driver through `take_repaint`.
pub struct Window {
    pub screen: Screen,
    pub needs_repaint: bool,
}

impl Window {
    /// Well-formed when the framebuffer is.
    pub open spec fn wf(self) -> bool {
        self.screen@.wf()
    }

    /// Create a surface with a blank framebuffer and no repaint pending.
    pub fn new(width: u8, height: u8, scale: u32) -> (w: Window)
        requires
            0 < width,
            0 < height,
        ensures
            w.wf(),
            w.screen.width == width,
            w.screen.height == height,
            w.screen.scale == scale,
            forall|k: int| 0 <= k < w.screen@.grid.len() ==> !w.screen@.grid[k],
            !w.needs_repaint,
    {
        Window { screen: Screen::new(width, height, scale), needs_repaint: false }
    }

    /// Unset every pixel and request a repaint.
    pub fn clear(&mut self)
        requires
            old(self).wf(),
        ensures
            final(self).wf(),
            final(self).screen.width == old(self).screen.width,
            final(self).screen.height == old(self).screen.height,
            final(self).screen.scale == old(self).screen.scale,
            final(self).screen@.grid.len() == old(self).screen@.grid.len(),
            forall|k: int| 0 <= k < final(self).screen@.grid.len() ==> !final(self).screen@.grid[k],
            final(self).needs_repaint,
    {
        self.screen.clear();
        self.needs_repaint = true;
    }

    /// Overwrite one pixel. Raising the repaint signal is the blit
    /// routine's business, not this primitive's.
    pub fn set_pixel(&mut self, x: u8, y: u8, on: bool)
        requires
            old(self).wf(),
            x < old(self).screen.width,
            y < old(self).screen.height,
        ensures
            final(self).wf(),
            final(self).screen.width == old(self).screen.width,
            final(self).screen.height == old(self).screen.height,
            final(self).screen.scale == old(self).screen.scale,
            final(self).needs_repaint == old(self).needs_repaint,
            final(self).screen@.grid == old(self).screen@.grid.update(
                old(self).screen@.idx(x as int, y as int),
                on,
            ),
    {
        self.screen.set_pixel(x, y, on);
    }

    /// Read one pixel.
    pub fn get_pixel(&self, x: u8, y: u8) -> (on: bool)
        requires
            self.wf(),
            x < self.screen.width,
            y < self.screen.height,
        ensures
            on == self.screen@.pixel(x as int, y as int),
    {
        self.screen.get_pixel(x, y)
    }

    /// Width of the framebuffer in pixels.
    pub fn get_width(&self) -> (w: u8)
        ensures
            w == self.screen.width,
    {
        self.screen.width
    }

    /// Height of the framebuffer in pixels.
    pub fn get_height(&self) -> (h: u8)
        ensures
            h == self.screen.height,
    {
        self.screen.height
    }

    /// Request a repaint from the driver.
    pub fn invalidate(&mut self)
        requires
            old(self).wf(),
        ensures
            final(self).wf(),
            final(self).screen == old(self).screen,
            final(self).needs_repaint,
    {
        self.needs_repaint = true;
    }

    /// Poll and reset the repaint signal; the driver calls this each time
    /// it is about to present the framebuffer.
    pub fn take_repaint(&mut self) -> (was: bool)
        requires
            old(self).wf(),
        ensures
            final(self).wf(),
            final(self).screen == old(self).screen,
            was == old(self).needs_repaint,
            !final(self).needs_repaint,
    {
        let was = self.needs_repaint;
        self.needs_repaint = false;
        was
    }
}

} // verus!
