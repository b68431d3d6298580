use vstd::prelude::*;

verus! {

/// A rectangular region of the image, in pixels: the unit of schedulable work.
#[derive(Clone, Copy, Debug, PartialEq, Eq, Structural)]
pub struct Rectangle {
    pub left: usize,
    pub top: usize,
    pub width: usize,
    pub height: usize,
}

impl Rectangle {
    pub fn new(left: usize, top: usize, width: usize, height: usize) -> (r: Self)
        ensures
            r.left == left,
            r.top == top,
            r.width == width,
            r.height == height,
    {
        Rectangle { left, top, width, height }
    }

    /// The tile lies within an image of `w` by `h` pixels.
    pub open spec fn fits(self, w: nat, h: nat) -> bool {
        self.left + self.width <= w && self.top + self.height <= h
    }

    /// Number of pixels the tile covers.
    pub open spec fn area(self) -> nat {
        self.width as nat * self.height as nat
    }
}

/// A tile handed to a remote agent, with the address its result is posted to.
#[derive(Clone, Debug)]
pub struct Task {
    pub tile: Rectangle,
    pub callback: String,
}

impl Task {
    pub fn new(tile: Rectangle, callback: String) -> (r: Self)
        ensures
            r.tile == tile,
            r.callback@ == callback@,
    {
        Task { tile, callback }
    }
}

} // verus!
