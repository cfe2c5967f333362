use vstd::prelude::*;

verus! {

/// A two dimensional integer vector: a location or a size in pixels.
#[derive(Debug, Clone, Copy, PartialEq, Eq, Structural)]
pub struct IVec2 {
    pub x: isize,
    pub y: isize,
}

impl IVec2 {
    pub fn new(x: isize, y: isize) -> (res: Self)
        ensures
            res.x == x,
            res.y == y,
    {
        IVec2 { x, y }
    }
}

/// Both components of `a + b` fit in an `isize`.
pub open spec fn add_fits(a: IVec2, b: IVec2) -> bool {
    &&& isize::MIN <= a.x + b.x <= isize::MAX
    &&& isize::MIN <= a.y + b.y <= isize::MAX
}

/// The location in viewport `to` of a point at `p` in viewport `from`.
pub open spec fn relocated(p: IVec2, from: IVec2, to: IVec2) -> (int, int) {
    (p.x + from.x - to.x, p.y + from.y - to.y)
}

/// Viewport of the window in which the 2D/3D scene is rendered.
/// Locations in the viewport consider the top left to be (0, 0) and the
/// bottom right to be (width, height).
#[derive(Debug)]
pub struct Viewport {
    /// dimensions (width, height) of the viewport
    dimensions: IVec2,
    /// location of the top left of the viewport with respect to the top
    /// left of the window
    at_window_loc: IVec2,
}

impl Viewport {
    /// The viewport's (width, height).
    pub closed spec fn spec_dimensions(&self) -> IVec2 {
        self.dimensions
    }

    /// The location of the viewport's top left in the window.
    pub closed spec fn spec_at_window_loc(&self) -> IVec2 {
        self.at_window_loc
    }

    /// The corners of the viewport can be computed without overflow.
    pub open spec fn corners_fit(&self) -> bool {
        add_fits(self.spec_at_window_loc(), self.spec_dimensions())
    }

    pub fn new(dimensions: IVec2, at_window_loc: IVec2) -> (res: Self)
        ensures
            res.spec_dimensions() == dimensions,
            res.spec_at_window_loc() == at_window_loc,
    {
        Self { dimensions, at_window_loc }
    }

    /// The location, in `self`, of the point given with the viewport it
    /// is located in.
    pub fn calculate_location(&self, point_with_viewport: (&IVec2, &Viewport)) -> (res: IVec2)
        requires
            add_fits(*point_with_viewport.0, point_with_viewport.1.spec_at_window_loc()),
            isize::MIN <= point_with_viewport.0.x + point_with_viewport.1.spec_at_window_loc().x
                - self.spec_at_window_loc().x <= isize::MAX,
            isize::MIN <= point_with_viewport.0.y + point_with_viewport.1.spec_at_window_loc().y
                - self.spec_at_window_loc().y <= isize::MAX,
        ensures
            (res.x as int, res.y as int) == relocated(
                *point_with_viewport.0,
                point_with_viewport.1.spec_at_window_loc(),
                self.spec_at_window_loc(),
            ),
    {
        let other = point_with_viewport.1.get_at_window_loc_top_left();
        let point = point_with_viewport.0;
        let in_window = IVec2::new(point.x + other.x, point.y + other.y);
        let top_left = self.get_at_window_loc_top_left();
        IVec2::new(in_window.x - top_left.x, in_window.y - top_left.y)
    }

    pub fn get_width(&self) -> (res: isize)
        ensures
            res == self.spec_dimensions().x,
    {
        self.dimensions.x
    }

    pub fn get_height(&self) -> (res: isize)
        ensures
            res == self.spec_dimensions().y,
    {
        self.dimensions.y
    }

    pub fn get_dimensions(&self) -> (res: IVec2)
        ensures
            res == self.spec_dimensions(),
    {
        self.dimensions
    }

    /// Get location of top left of the viewport in the window
    pub fn get_at_window_loc_top_left(&self) -> (res: IVec2)
        ensures
            res == self.spec_at_window_loc(),
    {
        self.at_window_loc
    }

    /// Get location of bottom left of the viewport in the window
    pub fn get_at_window_loc_bottom_left(&self) -> (res: IVec2)
        requires
            isize::MIN <= self.spec_at_window_loc().y + self.spec_dimensions().y <= isize::MAX,
        ensures
            res.x == self.spec_at_window_loc().x,
            res.y == self.spec_at_window_loc().y + self.spec_dimensions().y,
    {
        let top_left = self.get_at_window_loc_top_left();
        IVec2::new(top_left.x, top_left.y + self.get_height())
    }

    /// Get location of top right of the viewport in the window
    pub fn get_at_window_loc_top_right(&self) -> (res: IVec2)
        requires
            isize::MIN <= self.spec_at_window_loc().x + self.spec_dimensions().x <= isize::MAX,
        ensures
            res.x == self.spec_at_window_loc().x + self.spec_dimensions().x,
            res.y == self.spec_at_window_loc().y,
    {
        let top_left = self.get_at_window_loc_top_left();
        IVec2::new(top_left.x + self.get_width(), top_left.y)
    }

    /// Get location of bottom right of the viewport in the window
    pub fn get_at_window_loc_bottom_right(&self) -> (res: IVec2)
        requires
            self.corners_fit(),
        ensures
            res.x == self.spec_at_window_loc().x + self.spec_dimensions().x,
            res.y == self.spec_at_window_loc().y + self.spec_dimensions().y,
    {
        let top_left = self.get_at_window_loc_top_left();
        IVec2::new(top_left.x + self.get_width(), top_left.y + self.get_height())
    }
}

/// Moving a point from one viewport to another and back gives the
/// point back, and a point located in its own viewport stays where it
/// is.
pub proof fn law_location_round_trip(p: IVec2, a: Viewport, b: Viewport, q: IVec2)
    requires
        (q.x as int, q.y as int) == relocated(p, a.spec_at_window_loc(), b.spec_at_window_loc()),
    ensures
        relocated(q, b.spec_at_window_loc(), a.spec_at_window_loc()) == (p.x as int, p.y as int),
        relocated(p, a.spec_at_window_loc(), a.spec_at_window_loc()) == (p.x as int, p.y as int),
{
}

} // verus!
