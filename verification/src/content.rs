//! Spatial model of a subtitle: the screen area it covers and its size.

use vstd::prelude::*;

verus! {

/// Error for subtitle content values.
#[derive(Debug, Clone, Copy, PartialEq, Eq, Structural)]
pub enum ContentError {
    /// An area whose second corner does not lie strictly below and to the
    /// right of the first.
    InvalidAreaBounding,
}

/// The four corner coordinates of a subtitle, as read from the stream.
#[derive(Debug, Clone, Copy, PartialEq, Eq, Structural)]
pub struct AreaValues {
    /// min `x` coordinate value
    pub x1: u16,
    /// min `y` coordinate value
    pub y1: u16,
    /// max `x` coordinate value
    pub x2: u16,
    /// max `y` coordinate value
    pub y2: u16,
}

/// The condition under which corner coordinates form a valid area: the
/// second corner lies strictly right of and strictly below the first.
pub open spec fn area_values_valid(v: AreaValues) -> bool {
    v.x2 > v.x1 && v.y2 > v.y1
}

/// Location at which to display the subtitle: validated `AreaValues`, with
/// `x1 < x2` and `y1 < y2`, so width and height are at least 1.
#[derive(Debug, Clone, Copy, PartialEq, Eq, Structural)]
pub struct Area {
    values: AreaValues,
}

/// The dimensions of an image.
#[derive(Debug, Clone, Copy, PartialEq, Eq, Structural)]
pub struct Size {
    /// Width in pixels.
    pub w: usize,
    /// Height in pixels.
    pub h: usize,
}

impl Area {
    /// The corner coordinates this area was validated from.
    pub closed spec fn spec_values(self) -> AreaValues {
        self.values
    }

    /// The validity bound every `Area` satisfies: the corners are strictly
    /// ordered, so the width and height below are positive.
    pub open spec fn wf(self) -> bool {
        self.spec_values().x1 < self.spec_values().x2 && self.spec_values().y1
            < self.spec_values().y2
    }

    /// The width of the subtitle, in mathematical terms.
    pub open spec fn spec_width(self) -> int {
        self.spec_values().x2 - self.spec_values().x1 + 1
    }

    /// The height of the subtitle, in mathematical terms.
    pub open spec fn spec_height(self) -> int {
        self.spec_values().y2 - self.spec_values().y1 + 1
    }

    /// The area a set of valid corner coordinates validates to.
    pub closed spec fn spec_from_values(v: AreaValues) -> Area {
        Area { values: v }
    }

    /// Validate corner coordinates: succeeds exactly when the second corner
    /// is strictly greater than the first in both axes.
    pub fn try_from(coords_value: AreaValues) -> (r: Result<Self, ContentError>)
        ensures
            r is Ok <==> area_values_valid(coords_value),
            r is Ok ==> r->Ok_0 == Area::spec_from_values(coords_value) && r->Ok_0.wf()
                && r->Ok_0.spec_values() == coords_value,
            r is Err ==> r->Err_0 == ContentError::InvalidAreaBounding,
    {
        if coords_value.x2 <= coords_value.x1 || coords_value.y2 <= coords_value.y1 {
            Err(ContentError::InvalidAreaBounding)
        } else {
            Ok(Area { values: coords_value })
        }
    }

    /// The leftmost edge of the subtitle.
    pub fn left(&self) -> (r: u16)
        ensures
            r == self.spec_values().x1,
    {
        self.values.x1
    }

    /// The top edge of the subtitle.
    pub fn top(&self) -> (r: u16)
        ensures
            r == self.spec_values().y1,
    {
        self.values.y1
    }

    /// The right edge of the subtitle (its larger `x` coordinate).
    pub fn right(&self) -> (r: u16)
        ensures
            r == self.spec_values().x2,
    {
        self.values.x2
    }

    /// The bottom edge of the subtitle (its larger `y` coordinate).
    pub fn bottom(&self) -> (r: u16)
        ensures
            r == self.spec_values().y2,
    {
        self.values.y2
    }

    /// The width of the subtitle.  The result is a `u16`, so the width must
    /// fit in one; only the extreme `x2 == u16::MAX, x1 == 0` corner is
    /// excluded.
    pub fn width(&self) -> (r: u16)
        requires
            self.wf(),
            self.spec_width() <= u16::MAX as int,
        ensures
            r as int == self.spec_width(),
    {
        (self.values.x2 - self.values.x1) + 1
    }

    /// The height of the subtitle, under the same bound as `width`.
    pub fn height(&self) -> (r: u16)
        requires
            self.wf(),
            self.spec_height() <= u16::MAX as int,
        ensures
            r as int == self.spec_height(),
    {
        (self.values.y2 - self.values.y1) + 1
    }

    /// The size of the subtitle.
    pub fn size(&self) -> (r: Size)
        requires
            self.wf(),
            self.spec_width() <= u16::MAX as int,
            self.spec_height() <= u16::MAX as int,
        ensures
            r.w as int == self.spec_width(),
            r.h as int == self.spec_height(),
    {
        Size { w: self.width() as usize, h: self.height() as usize }
    }
}

/// The corner coordinates of a validated area are the ones it was built
/// from, and validity of the coordinates makes the area well-formed.
pub proof fn lemma_area_from_values(v: AreaValues)
    ensures
        Area::spec_from_values(v).spec_values() == v,
        area_values_valid(v) ==> Area::spec_from_values(v).wf(),
{
}

} // verus!
