use crate::orientation::Orientation;
use vstd::prelude::*;

verus! {

/// A physical edge of the chart.
#[derive(Copy, Clone, Debug, PartialEq, Eq, Structural)]
pub enum Edge {
    /// The top edge.
    Top,
    /// The right edge.
    Right,
    /// The bottom edge.
    Bottom,
    /// The left edge.
    Left,
}

/// Which Y axis a series or label belongs to.
#[derive(Copy, Clone, Debug, PartialEq, Eq, Structural)]
pub enum YAxis {
    /// The primary axis.
    Primary,
    /// The secondary axis.
    Secondary,
}

/// Whether a tick label represents X or Y data, used for projection positioning.
#[derive(Copy, Clone, Debug, PartialEq, Eq, Structural)]
pub enum DataAxis {
    /// X data.
    X,
    /// Y data.
    Y,
}

/// One of the two sides on which an axis places its edge components.
#[derive(Copy, Clone, Debug, PartialEq, Eq, Structural)]
pub enum AxisSide {
    /// The "start" side of the axis.
    Start,
    /// The "end" side of the axis.
    End,
}

impl Default for YAxis {
    fn default() -> (r: Self)
        ensures
            r == YAxis::Primary,
    {
        YAxis::Primary
    }
}

impl Edge {
    /// The left and right edges run vertically.
    pub open spec fn spec_is_vertical(self) -> bool {
        self is Left || self is Right
    }

    /// Whether the edge runs vertically (left or right).
    pub fn is_vertical(&self) -> (r: bool)
        ensures
            r == self.spec_is_vertical(),
    {
        match self {
            Edge::Left | Edge::Right => true,
            _ => false,
        }
    }
}

/// The axis and side whose components a physical edge shows: X components go
/// on the edges across the X axis (top and bottom when X is horizontal), Y
/// components on the other two; "start" is the top or left edge.
pub open spec fn edge_source(orientation: Orientation, edge: Edge) -> (DataAxis, AxisSide) {
    let axis = if orientation.spec_x_is_horizontal() != edge.spec_is_vertical() {
        DataAxis::X
    } else {
        DataAxis::Y
    };
    let side = if edge is Top || edge is Left {
        AxisSide::Start
    } else {
        AxisSide::End
    };
    (axis, side)
}

/// The Y axis whose data a side of the Y axis shows: the start side shows the
/// primary axis and the end side the secondary one.
pub open spec fn y_axis_of_side(side: AxisSide) -> YAxis {
    match side {
        AxisSide::Start => YAxis::Primary,
        AxisSide::End => YAxis::Secondary,
    }
}

/// The projection a tick label positions itself with: X data uses the
/// primary projection; Y data uses the secondary one on the right and bottom
/// edges.
pub open spec fn tick_label_y_axis(data_axis: DataAxis, edge: Edge) -> YAxis {
    match data_axis {
        DataAxis::X => YAxis::Primary,
        DataAxis::Y => if edge is Right || edge is Bottom {
            YAxis::Secondary
        } else {
            YAxis::Primary
        },
    }
}

/// Composing a layout: which axis and side of the components each physical
/// edge shows, for the chart's orientation.
pub fn layout_edge_source(orientation: Orientation, edge: Edge) -> (r: (DataAxis, AxisSide))
    ensures
        r == edge_source(orientation, edge),
{
    if orientation.x_is_horizontal() {
        // X on horizontal edges (top/bottom), Y on vertical edges (left/right)
        match edge {
            Edge::Top => (DataAxis::X, AxisSide::Start),
            Edge::Bottom => (DataAxis::X, AxisSide::End),
            Edge::Left => (DataAxis::Y, AxisSide::Start),
            Edge::Right => (DataAxis::Y, AxisSide::End),
        }
    } else {
        // X on vertical edges (left/right), Y on horizontal edges (top/bottom)
        match edge {
            Edge::Top => (DataAxis::Y, AxisSide::Start),
            Edge::Bottom => (DataAxis::Y, AxisSide::End),
            Edge::Left => (DataAxis::X, AxisSide::Start),
            Edge::Right => (DataAxis::X, AxisSide::End),
        }
    }
}

/// The Y axis whose range a series' values widen: the secondary axis for a
/// series put on it, the primary one otherwise.
pub fn series_y_axis(on_secondary: bool) -> (r: YAxis)
    ensures
        r == (if on_secondary {
            YAxis::Secondary
        } else {
            YAxis::Primary
        }),
{
    if on_secondary {
        YAxis::Secondary
    } else {
        YAxis::Primary
    }
}

/// The Y axis that the components on a side of the Y axis read their range from.
pub fn side_y_axis(side: AxisSide) -> (r: YAxis)
    ensures
        r == y_axis_of_side(side),
{
    match side {
        AxisSide::Start => YAxis::Primary,
        AxisSide::End => YAxis::Secondary,
    }
}

/// The projection a tick label on `edge` uses for its data.
pub fn tick_label_projection(data_axis: DataAxis, edge: Edge) -> (r: YAxis)
    ensures
        r == tick_label_y_axis(data_axis, edge),
{
    match data_axis {
        DataAxis::X => YAxis::Primary,
        // For Y data, "start" side uses primary, "end" side uses secondary.
        DataAxis::Y => match edge {
            Edge::Right | Edge::Bottom => YAxis::Secondary,
            _ => YAxis::Primary,
        },
    }
}

/// Whether a position on the X axis (`is_x`) or on the Y axis lies along the
/// SVG x coordinate: grid lines and guide lines for it are then drawn
/// vertically.
pub fn position_along_svg_x(is_x: bool, orientation: Orientation) -> (r: bool)
    ensures
        r == (is_x == orientation.spec_x_is_horizontal()),
{
    is_x == orientation.x_is_horizontal()
}

/// The edge an area under (or over) a line is filled to: across the Y axis,
/// at the top or right when the area lies above the line.
pub open spec fn area_fill_edge(x_is_horizontal: bool, above: bool) -> Edge {
    if x_is_horizontal {
        if above {
            Edge::Top
        } else {
            Edge::Bottom
        }
    } else {
        if above {
            Edge::Right
        } else {
            Edge::Left
        }
    }
}

/// The SVG text anchor of tick labels on an edge.
pub open spec fn label_anchor(edge: Edge) -> Seq<char> {
    match edge {
        Edge::Left => "end"@,
        Edge::Right => "start"@,
        _ => "middle"@,
    }
}

/// The chart edge a line's area fill reaches: above the line (higher Y
/// values) it is the top edge when X is horizontal and the right edge when X
/// is vertical; below it the bottom or left edge.
pub fn fill_edge(x_is_horizontal: bool, above: bool) -> (r: Edge)
    ensures
        r == area_fill_edge(x_is_horizontal, above),
{
    if x_is_horizontal {
        if above {
            Edge::Top
        } else {
            Edge::Bottom
        }
    } else {
        if above {
            Edge::Right
        } else {
            Edge::Left
        }
    }
}

/// The text anchor of a tick label on `edge`: centred on the top and bottom
/// edges, ending at the inner chart on the left edge, starting from it on the
/// right edge.
pub fn tick_label_anchor(edge: Edge) -> (r: &'static str)
    ensures
        r@ == label_anchor(edge),
{
    match edge {
        Edge::Left => "end",
        Edge::Right => "start",
        _ => "middle",
    }
}

/// The side of an axis an edge shows depends only on the edge, in every
/// orientation: the top and left edges show the start side, the bottom and
/// right edges the end side. Opposite edges show the same axis.
pub proof fn lemma_edge_side_ignores_orientation(orientation: Orientation, edge: Edge)
    ensures
        (edge_source(orientation, edge).1 == AxisSide::Start) == (edge is Top || edge is Left),
        edge_source(orientation, Edge::Top).0 == edge_source(orientation, Edge::Bottom).0,
        edge_source(orientation, Edge::Left).0 == edge_source(orientation, Edge::Right).0,
        edge_source(orientation, Edge::Top).0 != edge_source(orientation, Edge::Left).0,
        (edge_source(orientation, edge).0 == DataAxis::X) == (orientation.spec_x_is_horizontal()
            == !edge.spec_is_vertical()),
{
}

/// An area is filled to an edge that runs along the X axis (so across the Y
/// axis): top or bottom when X is horizontal, right or left otherwise; "above"
/// fills towards the top or right, and the two choices give opposite edges.
pub proof fn lemma_fill_edge_across_y(x_is_horizontal: bool, above: bool)
    ensures
        area_fill_edge(x_is_horizontal, above).spec_is_vertical() == !x_is_horizontal,
        above == (area_fill_edge(x_is_horizontal, above) is Top || area_fill_edge(
            x_is_horizontal,
            above,
        ) is Right),
        area_fill_edge(x_is_horizontal, true) != area_fill_edge(x_is_horizontal, false),
{
}

/// Tick labels sit against the chart: centred on the top and bottom edges,
/// ending at the axis on the left edge and starting at it on the right edge.
pub proof fn lemma_tick_label_anchor_faces_the_chart(edge: Edge)
    ensures
        (label_anchor(edge) == "middle"@) == !edge.spec_is_vertical(),
        edge is Left ==> label_anchor(edge) == "end"@,
        edge is Right ==> label_anchor(edge) == "start"@,
        label_anchor(Edge::Left) != label_anchor(Edge::Right),
{
    reveal_strlit("middle");
    reveal_strlit("end");
    reveal_strlit("start");
    // The three anchors have different lengths, so they are different texts.
    assert("end"@.len() == 3 && "start"@.len() == 5 && "middle"@.len() == 6);
    assert("end"@ != "start"@ && "end"@ != "middle"@ && "start"@ != "middle"@);
}

/// Tick labels of X data always use the primary projection; those of Y data
/// use the projection of the Y axis side the edge shows.
pub proof fn lemma_tick_label_projection_of_each_axis(orientation: Orientation, edge: Edge)
    ensures
        tick_label_y_axis(DataAxis::X, edge) == YAxis::Primary,
        edge_source(orientation, edge).0 == DataAxis::Y ==> tick_label_y_axis(DataAxis::Y, edge)
            == y_axis_of_side(edge_source(orientation, edge).1),
        tick_label_y_axis(DataAxis::Y, edge) == (if edge is Right || edge is Bottom {
            YAxis::Secondary
        } else {
            YAxis::Primary
        }),
{
}

/// Tick labels of Y data position themselves with the projection of the Y
/// axis whose range their edge shows.
pub proof fn lemma_tick_labels_match_their_axis(orientation: Orientation, edge: Edge)
    requires
        edge_source(orientation, edge).0 == DataAxis::Y,
    ensures
        tick_label_y_axis(DataAxis::Y, edge) == y_axis_of_side(edge_source(orientation, edge).1),
{
}

/// In every orientation each edge shows a different axis side, so each of
/// the four axis sides is placed on exactly one edge.
pub proof fn lemma_edge_sources_distinct(orientation: Orientation, a: Edge, b: Edge)
    requires
        a != b,
    ensures
        edge_source(orientation, a) != edge_source(orientation, b),
{
}

/// An area fill reaches one of the edges parallel to the X axis, those that
/// show X components.
pub proof fn lemma_fill_edge_along_x(orientation: Orientation, above: bool)
    ensures
        ({
            let e = if orientation.spec_x_is_horizontal() {
                if above {
                    Edge::Top
                } else {
                    Edge::Bottom
                }
            } else {
                if above {
                    Edge::Right
                } else {
                    Edge::Left
                }
            };
            edge_source(orientation, e).0 == DataAxis::X
        }),
{
}

} // verus!
