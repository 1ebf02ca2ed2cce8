//! Access traits for the decoded subtitle images.

use crate::content::Area;
use vstd::prelude::*;

verus! {

/// Access to the size of an image, in pixels.
pub trait ImageSize {
    /// The width of the image.
    fn width(&self) -> u32;

    /// The height of the image.
    fn height(&self) -> u32;
}

/// Access to the display area of an image.
pub trait ImageArea {
    /// The display area of the image.
    fn area(&self) -> Area;
}

impl ImageArea for crate::vobsub::img::VobSubIndexedImage {
    fn area(&self) -> (r: Area)
        ensures
            r == self.spec_area(),
    {
        crate::vobsub::img::VobSubIndexedImage::area(self)
    }
}

impl ImageSize for crate::vobsub::img::VobSubIndexedImage {
    fn width(&self) -> (r: u32)
        ensures
            self.spec_area().wf() && self.spec_area().spec_width() <= u16::MAX as int ==> r as int
                == self.spec_area().spec_width(),
    {
        let a = crate::vobsub::img::VobSubIndexedImage::area(self);
        let x1 = a.left();
        let values_x2 = right_edge(&a);
        if values_x2 >= x1 {
            (values_x2 - x1) as u32 + 1
        } else {
            0
        }
    }

    fn height(&self) -> (r: u32)
        ensures
            self.spec_area().wf() && self.spec_area().spec_height() <= u16::MAX as int ==> r as int
                == self.spec_area().spec_height(),
    {
        let a = crate::vobsub::img::VobSubIndexedImage::area(self);
        let y1 = a.top();
        let values_y2 = bottom_edge(&a);
        if values_y2 >= y1 {
            (values_y2 - y1) as u32 + 1
        } else {
            0
        }
    }
}

impl ImageSize for crate::pgs::pgs_image::RleEncodedImage {
    fn width(&self) -> (r: u32)
        ensures
            r == self.spec_width() as u32,
    {
        crate::pgs::pgs_image::RleEncodedImage::width(self)
    }

    fn height(&self) -> (r: u32)
        ensures
            r == self.spec_height() as u32,
    {
        crate::pgs::pgs_image::RleEncodedImage::height(self)
    }
}

/// The right edge of an area (its larger `x` coordinate).
fn right_edge(a: &Area) -> (r: u16)
    ensures
        r == a.spec_values().x2,
{
    a.right()
}

/// The bottom edge of an area (its larger `y` coordinate).
fn bottom_edge(a: &Area) -> (r: u16)
    ensures
        r == a.spec_values().y2,
{
    a.bottom()
}

} // verus!
