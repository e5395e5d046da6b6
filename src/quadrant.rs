use vstd::prelude::*;

verus! {

/// The screen corner that an overlay tile occupies.
#[derive(Clone, Copy, Debug, PartialEq, Eq, Structural)]
pub enum Quadrant {
    TopLeft,
    TopRight,
    BottomLeft,
    BottomRight,
}

/// The tile is anchored to the left screen edge.
pub open spec fn on_left(q: Quadrant) -> bool {
    q is TopLeft || q is BottomLeft
}

/// The tile is anchored to the top screen edge.
pub open spec fn on_top(q: Quadrant) -> bool {
    q is TopLeft || q is TopRight
}

impl Quadrant {
    /// All four corners, in the order TopLeft, TopRight, BottomLeft, BottomRight.
    pub open spec fn all_spec() -> Seq<Quadrant> {
        seq![Quadrant::TopLeft, Quadrant::TopRight, Quadrant::BottomLeft, Quadrant::BottomRight]
    }

    /// All four corners, in the order TopLeft, TopRight, BottomLeft, BottomRight.
    pub fn all() -> (r: [Quadrant; 4])
        ensures
            r@ == Self::all_spec(),
    {
        let r = [Quadrant::TopLeft, Quadrant::TopRight, Quadrant::BottomLeft, Quadrant::BottomRight];
        assert(r@ =~= seq![
            Quadrant::TopLeft,
            Quadrant::TopRight,
            Quadrant::BottomLeft,
            Quadrant::BottomRight,
        ]);
        r
    }

    /// Whether the tile hugs the left edge of the screen (otherwise the right).
    pub fn is_left(&self) -> (r: bool)
        ensures
            r == on_left(*self),
    {
        match self {
            Quadrant::TopLeft | Quadrant::BottomLeft => true,
            Quadrant::TopRight | Quadrant::BottomRight => false,
        }
    }

    /// Whether the tile hugs the top edge of the screen (otherwise the bottom).
    pub fn is_top(&self) -> (r: bool)
        ensures
            r == on_top(*self),
    {
        match self {
            Quadrant::TopLeft | Quadrant::TopRight => true,
            Quadrant::BottomLeft | Quadrant::BottomRight => false,
        }
    }
}

} // verus!
