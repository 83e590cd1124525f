//! What the interactive viewer does with each keystroke, and how it redraws.

use vstd::prelude::*;

use crate::bmp::Bmp;
use crate::vga::{blank_frame, blit_spec, Mode13hDisplay};

verus! {

/// Scancode of the up arrow.
pub const SCAN_UP: u8 = 0x48;

/// Scancode of the left arrow.
pub const SCAN_LEFT: u8 = 0x4B;

/// Scancode of the right arrow.
pub const SCAN_RIGHT: u8 = 0x4D;

/// Scancode of the down arrow.
pub const SCAN_DOWN: u8 = 0x50;

/// Scancode of the digit 1; the digits up to 9 follow it.
pub const SCAN_DIGIT_1: u8 = 0x02;

/// Scancode of the digit 9.
pub const SCAN_DIGIT_9: u8 = 0x0A;

/// Scancode of the Q key.
pub const SCAN_Q: u8 = 0x10;

/// Where the image's top-left corner sits on the screen.
#[derive(Clone, Copy, Debug, PartialEq, Eq, Structural)]
pub struct Position {
    pub x: isize,
    pub y: isize,
}

/// The viewer's state between keystrokes: the image's place, how far one
/// arrow key moves it, and the scancode seen last.
#[derive(Clone, Copy, Debug, PartialEq, Eq, Structural)]
pub struct Viewer {
    pub pos: Position,
    pub delta: isize,
    pub last_scancode: u8,
}

/// What the caller does after a keystroke.
#[derive(Clone, Copy, Debug, PartialEq, Eq, Structural)]
pub enum KeyAction {
    /// The scancode repeats the last one: nothing changes.
    Ignore,
    /// The state changed or may have: draw the frame again.
    Redraw,
    /// Leave the viewer.
    Quit,
}

/// `v` held to the range of `isize`.
pub open spec fn saturate(v: int) -> isize {
    if v > isize::MAX {
        isize::MAX
    } else if v < isize::MIN {
        isize::MIN
    } else {
        v as isize
    }
}

/// The state after a new scancode other than Q: an arrow moves the image by
/// `delta` (up adds to `y`, down takes from it, right adds to `x`, left takes
/// from it), a digit `d` sets `delta` to `d`, and every scancode becomes the
/// last one seen.
pub open spec fn after_key(v: Viewer, scancode: u8) -> Viewer {
    let p = v.pos;
    let d = v.delta as int;
    let pos = if scancode == SCAN_UP {
        Position { x: p.x, y: saturate(p.y + d) }
    } else if scancode == SCAN_LEFT {
        Position { x: saturate(p.x - d), y: p.y }
    } else if scancode == SCAN_RIGHT {
        Position { x: saturate(p.x + d), y: p.y }
    } else if scancode == SCAN_DOWN {
        Position { x: p.x, y: saturate(p.y - d) }
    } else {
        p
    };
    let delta = if SCAN_DIGIT_1 <= scancode <= SCAN_DIGIT_9 {
        (scancode - 1) as isize
    } else {
        v.delta
    };
    Viewer { pos, delta, last_scancode: scancode }
}

fn add_saturating(a: isize, b: isize) -> (r: isize)
    ensures
        r == saturate(a + b),
{
    match a.checked_add(b) {
        Some(v) => v,
        None => if b > 0 {
            isize::MAX
        } else {
            isize::MIN
        },
    }
}

fn sub_saturating(a: isize, b: isize) -> (r: isize)
    ensures
        r == saturate(a - b),
{
    match a.checked_sub(b) {
        Some(v) => v,
        None => if b > 0 {
            isize::MIN
        } else {
            isize::MAX
        },
    }
}

impl Default for Viewer {
    /// The image at the origin, moving one pixel per arrow key, with no
    /// scancode seen yet.
    fn default() -> (r: Self)
        ensures
            r == (Viewer { pos: Position { x: 0, y: 0 }, delta: 1, last_scancode: 0xFF }),
    {
        Viewer { pos: Position { x: 0, y: 0 }, delta: 1, last_scancode: 0xFF }
    }
}

impl Viewer {
    /// Takes one scancode from the keyboard. A repeat of the last one is
    /// ignored, Q quits, and any other updates the state and asks for a redraw.
    pub fn on_scancode(&mut self, scancode: u8) -> (r: KeyAction)
        ensures
            scancode == old(self).last_scancode ==> r == KeyAction::Ignore && *final(self)
                == *old(self),
            scancode != old(self).last_scancode && scancode == SCAN_Q ==> r == KeyAction::Quit
                && *final(self) == *old(self),
            scancode != old(self).last_scancode && scancode != SCAN_Q ==> r == KeyAction::Redraw
                && *final(self) == after_key(*old(self), scancode),
    {
        if scancode == self.last_scancode {
            return KeyAction::Ignore;
        }
        if scancode == SCAN_Q {
            return KeyAction::Quit;
        }
        if scancode == SCAN_UP {
            self.pos.y = add_saturating(self.pos.y, self.delta);
        } else if scancode == SCAN_LEFT {
            self.pos.x = sub_saturating(self.pos.x, self.delta);
        } else if scancode == SCAN_RIGHT {
            self.pos.x = add_saturating(self.pos.x, self.delta);
        } else if scancode == SCAN_DOWN {
            self.pos.y = sub_saturating(self.pos.y, self.delta);
        } else if SCAN_DIGIT_1 <= scancode && scancode <= SCAN_DIGIT_9 {
            self.delta = (scancode - 1) as isize;
        }
        self.last_scancode = scancode;
        KeyAction::Redraw
    }
}

/// Draws a fresh frame: the image alone, at `pos`, over a cleared screen.
pub fn draw_loop(vga: &mut Mode13hDisplay, bmp: &Bmp, pos: &Position)
    requires
        old(vga).wf(),
        bmp.wf(),
    ensures
        final(vga)@ == blit_spec(
            blank_frame(),
            pos.x as int,
            pos.y as int,
            bmp.header.width as int,
            bmp.header.height as int,
            bmp.data@,
        ),
{
    vga.clear();
    vga.copy_to_screen(
        pos.x,
        pos.y,
        bmp.header.width as usize,
        bmp.header.height as usize,
        bmp.data.as_slice(),
    );
}

} // verus!
