//! Areas of rectangles, given as plain numbers, as a tuple and as a struct.
use vstd::prelude::*;

verus! {

/// The area of a rectangle of the given width and height. The product has to
/// fit into an `i32`.
pub fn area(with: i32, height: i32) -> (a: i32)
    requires
        i32::MIN <= with * height <= i32::MAX,
    ensures
        a == with * height,
{
    with * height
}

/// The area of a rectangle given as the pair of its width and height.
pub fn area_tuple(dimensions: (i32, i32)) -> (a: i32)
    requires
        i32::MIN <= dimensions.0 * dimensions.1 <= i32::MAX,
    ensures
        a == dimensions.0 * dimensions.1,
{
    dimensions.0 * dimensions.1
}

/// A rectangle with sides parallel to the axes.
#[derive(Debug, Clone, Copy, PartialEq, Eq, Structural)]
pub struct Rectangle {
    pub width: i32,
    pub height: i32,
}

impl Rectangle {
    /// The area as a mathematical integer.
    pub open spec fn spec_area(self) -> int {
        self.width * self.height
    }

    /// Whether the area can be computed without overflow.
    pub open spec fn area_fits(self) -> bool {
        i32::MIN <= self.spec_area() <= i32::MAX
    }

    /// The area of the rectangle.
    pub fn area(&self) -> (a: i32)
        requires
            self.area_fits(),
        ensures
            a == self.spec_area(),
    {
        self.width * self.height
    }

    /// Whether this rectangle has a strictly larger area than `rect`.
    pub fn can_hold(&self, rect: &Rectangle) -> (b: bool)
        requires
            self.area_fits(),
            rect.area_fits(),
        ensures
            b == (self.spec_area() > rect.spec_area()),
    {
        self.area() > rect.area()
    }

    /// The square with the given side.
    pub fn square(size: i32) -> (rect: Rectangle)
        ensures
            rect == (Rectangle { width: size, height: size }),
    {
        Rectangle { width: size, height: size }
    }
}

/// The area of `rect`.
pub fn area_rectangle(rect: &Rectangle) -> (a: i32)
    requires
        rect.area_fits(),
    ensures
        a == rect.spec_area(),
{
    rect.width * rect.height
}

} // verus!
