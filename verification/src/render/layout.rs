//! Layout protocol primitives: constraints flow down, sizes flow up.

use vstd::prelude::*;

verus! {

/// A width and height in terminal cells.
#[derive(Clone, Copy, Debug, PartialEq, Eq, Structural)]
pub struct Size {
    pub width: u16,
    pub height: u16,
}

/// Bounds a parent hands to a child: inclusive minima and optional maxima
/// (`None` = unbounded) for width and height.
#[derive(Clone, Copy, Debug, PartialEq, Eq, Structural)]
pub struct Constraints {
    pub min_width: u16,
    pub max_width: Option<u16>,
    pub min_height: u16,
    pub max_height: Option<u16>,
}

/// A rectangle of terminal cells.
#[derive(Clone, Copy, Debug, PartialEq, Eq, Structural)]
pub struct Rect {
    pub x: u16,
    pub y: u16,
    pub width: u16,
    pub height: u16,
}

/// Padding offsets for each edge of a rectangle.
#[derive(Clone, Copy, Debug, PartialEq, Eq, Structural)]
pub struct Insets {
    pub left: u16,
    pub top: u16,
    pub right: u16,
    pub bottom: u16,
}

/// `v` clamped into `[min, max]`, the maximum applied first, then the minimum.
pub open spec fn clamp_dim(v: u16, min: u16, max: Option<u16>) -> u16 {
    let capped = match max {
        Some(m) => if v <= m { v } else { m },
        None => v,
    };
    if capped >= min { capped } else { min }
}

/// The size a constrained child ends up with.
pub open spec fn spec_constrain(c: Constraints, s: Size) -> Size {
    Size {
        width: clamp_dim(s.width, c.min_width, c.max_width),
        height: clamp_dim(s.height, c.min_height, c.max_height),
    }
}

/// The width a child that wants all available space takes: the maximum when
/// bounded, the minimum otherwise.
pub open spec fn spec_fill(min: u16, max: Option<u16>) -> u16 {
    match max {
        Some(m) => m,
        None => min,
    }
}

/// The rectangle at `(x, y)` of `width` by `height`, its extent clamped so
/// that it ends within the coordinate space.
pub open spec fn spec_rect(x: u16, y: u16, width: u16, height: u16) -> Rect {
    Rect {
        x,
        y,
        width: if width > u16::MAX - x { (u16::MAX - x) as u16 } else { width },
        height: if height > u16::MAX - y { (u16::MAX - y) as u16 } else { height },
    }
}

/// A child held by a container: owned, or borrowed from the caller.
pub enum LayoutRenderableItem<'a, R> {
    Owned(R),
    Borrowed(&'a R),
}

impl<'a, R> LayoutRenderableItem<'a, R> {
    /// The child itself, however it is held.
    pub open spec fn inner(&self) -> &R {
        match self {
            LayoutRenderableItem::Owned(r) => r,
            LayoutRenderableItem::Borrowed(r) => *r,
        }
    }

    /// Borrow the child.
    pub fn get(&self) -> (r: &R)
        ensures
            r == self.inner(),
    {
        match self {
            LayoutRenderableItem::Owned(r) => r,
            LayoutRenderableItem::Borrowed(r) => *r,
        }
    }
}

/// `a + b`, saturating at `u16::MAX`.
pub open spec fn sat_add(a: u16, b: u16) -> u16 {
    if a + b <= u16::MAX { (a + b) as u16 } else { u16::MAX }
}

/// `a - b`, saturating at 0.
pub open spec fn sat_sub(a: u16, b: u16) -> u16 {
    if a >= b { (a - b) as u16 } else { 0 }
}

fn clamp_u16(v: u16, min: u16, max: Option<u16>) -> (r: u16)
    ensures
        r == clamp_dim(v, min, max),
{
    let capped = match max {
        Some(m) => if v <= m { v } else { m },
        None => v,
    };
    if capped >= min { capped } else { min }
}

impl Size {
    /// The empty size.
    pub fn zero() -> (s: Self)
        ensures
            s == (Size { width: 0, height: 0 }),
    {
        Size { width: 0, height: 0 }
    }

    /// A size of `width` by `height` cells.
    pub fn new(width: u16, height: u16) -> (s: Self)
        ensures
            s == (Size { width, height }),
    {
        Size { width, height }
    }
}

impl Constraints {
    /// Constraints with the given bounds.
    pub fn new(min_width: u16, max_width: Option<u16>, min_height: u16, max_height: Option<u16>) -> (c: Self)
        ensures
            c == (Constraints { min_width, max_width, min_height, max_height }),
    {
        Constraints { min_width, max_width, min_height, max_height }
    }

    /// At most `width` by `height`, no minimum.
    pub fn loose(width: u16, height: u16) -> (c: Self)
        ensures
            c == (Constraints { min_width: 0, max_width: Some(width), min_height: 0, max_height: Some(height) }),
    {
        Constraints { min_width: 0, max_width: Some(width), min_height: 0, max_height: Some(height) }
    }

    /// Exactly `width` by `height`.
    pub fn tight(width: u16, height: u16) -> (c: Self)
        ensures
            c == (Constraints {
                min_width: width,
                max_width: Some(width),
                min_height: height,
                max_height: Some(height),
            }),
    {
        Constraints { min_width: width, max_width: Some(width), min_height: height, max_height: Some(height) }
    }

    /// Exactly `width` wide, any height.
    pub fn tight_width(width: u16) -> (c: Self)
        ensures
            c == (Constraints { min_width: width, max_width: Some(width), min_height: 0, max_height: None }),
    {
        Constraints { min_width: width, max_width: Some(width), min_height: 0, max_height: None }
    }

    /// No bounds at all.
    pub fn unbounded() -> (c: Self)
        ensures
            c == (Constraints { min_width: 0, max_width: None, min_height: 0, max_height: None }),
    {
        Constraints { min_width: 0, max_width: None, min_height: 0, max_height: None }
    }

    /// Clamp a desired size into these bounds.
    pub fn constrain(&self, size: Size) -> (s: Size)
        ensures
            s == spec_constrain(*self, size),
    {
        Size {
            width: clamp_u16(size.width, self.min_width, self.max_width),
            height: clamp_u16(size.height, self.min_height, self.max_height),
        }
    }

    /// The width to take when filling the available space.
    pub fn fill_width(&self) -> (w: u16)
        ensures
            w == spec_fill(self.min_width, self.max_width),
    {
        match self.max_width {
            Some(m) => m,
            None => self.min_width,
        }
    }

    /// The height to take when filling the available space.
    pub fn fill_height(&self) -> (h: u16)
        ensures
            h == spec_fill(self.min_height, self.max_height),
    {
        match self.max_height {
            Some(m) => m,
            None => self.min_height,
        }
    }
}

impl Rect {
    /// A rectangle at `(x, y)` of `width` by `height`, the extent clamped so
    /// that the rectangle ends within the coordinate space.
    pub fn new(x: u16, y: u16, width: u16, height: u16) -> (r: Self)
        ensures
            r == spec_rect(x, y, width, height),
    {
        let max_width = u16::MAX - x;
        let max_height = u16::MAX - y;
        let width = if width > max_width { max_width } else { width };
        let height = if height > max_height { max_height } else { height };
        Rect { x, y, width, height }
    }

    /// The empty rectangle at the origin.
    pub fn zero() -> (r: Self)
        ensures
            r == (Rect { x: 0, y: 0, width: 0, height: 0 }),
    {
        Rect { x: 0, y: 0, width: 0, height: 0 }
    }

    /// Whether the rectangle covers no cell.
    pub fn is_empty(&self) -> (b: bool)
        ensures
            b == (self.width == 0 || self.height == 0),
    {
        self.width == 0 || self.height == 0
    }

    /// Shrink the rectangle inward by the given insets (saturating).
    pub fn inset(&self, insets: Insets) -> (r: Rect)
        ensures
            r == (Rect {
                x: sat_add(self.x, insets.left),
                y: sat_add(self.y, insets.top),
                width: sat_sub(self.width, sat_add(insets.left, insets.right)),
                height: sat_sub(self.height, sat_add(insets.top, insets.bottom)),
            }),
    {
        let horizontal = insets.left.saturating_add(insets.right);
        let vertical = insets.top.saturating_add(insets.bottom);
        Rect {
            x: self.x.saturating_add(insets.left),
            y: self.y.saturating_add(insets.top),
            width: self.width.saturating_sub(horizontal),
            height: self.height.saturating_sub(vertical),
        }
    }
}

impl Insets {
    /// Insets from explicit top, left, bottom and right values.
    pub fn tlbr(top: u16, left: u16, bottom: u16, right: u16) -> (i: Self)
        ensures
            i == (Insets { left, top, right, bottom }),
    {
        Insets { left, top, right, bottom }
    }

    /// Symmetric insets: `v` for top and bottom, `h` for left and right.
    pub fn vh(v: u16, h: u16) -> (i: Self)
        ensures
            i == (Insets { left: h, top: v, right: h, bottom: v }),
    {
        Insets { left: h, top: v, right: h, bottom: v }
    }
}

} // verus!
