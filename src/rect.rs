//! Rectangles on the screen, absolute and relative to another one.
use vstd::prelude::*;

verus! {

/// A rectangle given by its top-left corner and its size.
#[derive(Clone, Copy, Debug, Default, PartialEq, Eq, Structural)]
pub struct Rect {
    pub top: isize,
    pub left: isize,
    pub height: isize,
    pub width: isize,
}

impl Rect {
    /// The row just below the rectangle.
    pub fn bottom(&self) -> (r: isize)
        requires
            isize::MIN <= self.top + self.height <= isize::MAX,
        ensures
            r == self.top + self.height,
    {
        self.top + self.height
    }

    /// The column just right of the rectangle.
    pub fn right(&self) -> (r: isize)
        requires
            isize::MIN <= self.left + self.width <= isize::MAX,
        ensures
            r == self.left + self.width,
    {
        self.left + self.width
    }
}

/// A position counted from the start or from the end of a span.
#[derive(Clone, Copy, Debug, PartialEq, Eq, Structural)]
pub enum RelativePos {
    FromStart(isize),
    FromEnd(isize),
}

/// A size given outright, or as what a span leaves over.
#[derive(Clone, Copy, Debug, PartialEq, Eq, Structural)]
pub enum RelativeSize {
    Absolute(isize),
    Relative(isize),
}

/// The position that `p` names in the span from `start` to `end`.
pub open spec fn spec_pos(p: RelativePos, start: int, end: int) -> int {
    match p {
        RelativePos::FromStart(n) => start + n,
        RelativePos::FromEnd(n) => end - n,
    }
}

/// The size that `s` names in a span of `size`.
pub open spec fn spec_size(s: RelativeSize, size: int) -> int {
    match s {
        RelativeSize::Absolute(n) => n as int,
        RelativeSize::Relative(n) => size - n,
    }
}

impl RelativePos {
    /// The position in the span from `start` to `end`.
    pub fn relative_to(&self, start: isize, end: isize) -> (r: isize)
        requires
            isize::MIN <= spec_pos(*self, start as int, end as int) <= isize::MAX,
        ensures
            r == spec_pos(*self, start as int, end as int),
    {
        match *self {
            RelativePos::FromStart(n) => start + n,
            RelativePos::FromEnd(n) => end - n,
        }
    }
}

impl RelativeSize {
    /// The size in a span of `size`.
    pub fn relative_to(&self, size: isize) -> (r: isize)
        requires
            isize::MIN <= spec_size(*self, size as int) <= isize::MAX,
        ensures
            r == spec_size(*self, size as int),
    {
        match *self {
            RelativeSize::Absolute(n) => n,
            RelativeSize::Relative(n) => size - n,
        }
    }
}

/// A rectangle placed relative to another one.
#[derive(Clone, Copy, Debug, PartialEq, Eq, Structural)]
pub struct RelativeRect {
    pub top: RelativePos,
    pub left: RelativePos,
    pub width: RelativeSize,
    pub height: RelativeSize,
}

impl RelativeRect {
    /// Every coordinate that placing `self` in `outer` computes fits in an `isize`.
    pub open spec fn fits_in(&self, outer: Rect) -> bool {
        let bottom = outer.top + outer.height;
        let right = outer.left + outer.width;
        &&& isize::MIN <= bottom <= isize::MAX
        &&& isize::MIN <= right <= isize::MAX
        &&& isize::MIN <= spec_pos(self.top, outer.top as int, bottom) <= isize::MAX
        &&& isize::MIN <= spec_pos(self.left, outer.left as int, right) <= isize::MAX
        &&& isize::MIN <= spec_size(self.width, outer.width as int) <= isize::MAX
        &&& isize::MIN <= spec_size(self.height, outer.height as int) <= isize::MAX
    }

    /// The absolute rectangle that `self` names inside `relative_to`.
    pub fn get_absolute_to(&self, relative_to: Rect) -> (r: Rect)
        requires
            self.fits_in(relative_to),
        ensures
            r.top == spec_pos(
                self.top,
                relative_to.top as int,
                relative_to.top + relative_to.height,
            ),
            r.left == spec_pos(
                self.left,
                relative_to.left as int,
                relative_to.left + relative_to.width,
            ),
            r.width == spec_size(self.width, relative_to.width as int),
            r.height == spec_size(self.height, relative_to.height as int),
    {
        Rect {
            top: self.top.relative_to(relative_to.top, relative_to.bottom()),
            left: self.left.relative_to(relative_to.left, relative_to.right()),
            width: self.width.relative_to(relative_to.width),
            height: self.height.relative_to(relative_to.height),
        }
    }
}

} // verus!
