use vstd::prelude::*;

verus! {

/// Chart axis orientation, describing the direction of the X axis.
///
/// The Y axis is always perpendicular to X in the natural direction
/// (bottom-to-top when vertical, left-to-right when horizontal).
#[derive(Copy, Clone, Debug, PartialEq, Eq, Structural)]
pub enum Orientation {
    /// X axis: left-to-right, Y axis: bottom-to-top. Standard chart orientation.
    LeftToRight,
    /// X axis: right-to-left, Y axis: bottom-to-top. Mirrored chart.
    RightToLeft,
    /// X axis: top-to-bottom, Y axis: left-to-right. Vertical timeline.
    TopToBottom,
    /// X axis: bottom-to-top, Y axis: left-to-right.
    BottomToTop,
}

impl Orientation {
    /// Whether the X axis runs along the horizontal SVG direction.
    pub open spec fn spec_x_is_horizontal(self) -> bool {
        self is LeftToRight || self is RightToLeft
    }

    /// Returns true if the X axis is horizontal (LeftToRight or RightToLeft).
    pub fn x_is_horizontal(&self) -> (r: bool)
        ensures
            r == self.spec_x_is_horizontal(),
    {
        match self {
            Orientation::LeftToRight | Orientation::RightToLeft => true,
            _ => false,
        }
    }
}

impl Default for Orientation {
    /// The standard chart orientation: X runs left-to-right.
    fn default() -> (r: Self)
        ensures
            r == Orientation::LeftToRight,
    {
        Orientation::LeftToRight
    }
}

} // verus!
