use chartistry::layout::edges::{
    fill_edge, layout_edge_source, position_along_svg_x, series_y_axis, side_y_axis, tick_label_anchor,
    tick_label_projection,
    AxisSide, DataAxis, Edge, YAxis,
};
use chartistry::Orientation;

const EDGES: [Edge; 4] = [Edge::Top, Edge::Right, Edge::Bottom, Edge::Left];
const ORIENTATIONS: [Orientation; 4] = [
    Orientation::LeftToRight,
    Orientation::RightToLeft,
    Orientation::TopToBottom,
    Orientation::BottomToTop,
];

#[test]
fn horizontal_x_goes_on_top_and_bottom() {
    let o = Orientation::LeftToRight;
    assert_eq!(layout_edge_source(o, Edge::Top), (DataAxis::X, AxisSide::Start));
    assert_eq!(layout_edge_source(o, Edge::Bottom), (DataAxis::X, AxisSide::End));
    assert_eq!(layout_edge_source(o, Edge::Left), (DataAxis::Y, AxisSide::Start));
    assert_eq!(layout_edge_source(o, Edge::Right), (DataAxis::Y, AxisSide::End));
}

#[test]
fn vertical_x_goes_on_left_and_right() {
    let o = Orientation::BottomToTop;
    assert_eq!(layout_edge_source(o, Edge::Top), (DataAxis::Y, AxisSide::Start));
    assert_eq!(layout_edge_source(o, Edge::Bottom), (DataAxis::Y, AxisSide::End));
    assert_eq!(layout_edge_source(o, Edge::Left), (DataAxis::X, AxisSide::Start));
    assert_eq!(layout_edge_source(o, Edge::Right), (DataAxis::X, AxisSide::End));
}

#[test]
fn y_tick_labels_use_the_axis_of_their_edge() {
    for o in ORIENTATIONS {
        for e in EDGES {
            let (axis, side) = layout_edge_source(o, e);
            if axis == DataAxis::Y {
                assert_eq!(tick_label_projection(DataAxis::Y, e), side_y_axis(side));
            }
            assert_eq!(tick_label_projection(DataAxis::X, e), YAxis::Primary);
        }
    }
}

#[test]
fn every_axis_side_sits_on_one_edge() {
    for o in ORIENTATIONS {
        for a in EDGES {
            for b in EDGES {
                if a != b {
                    assert_ne!(layout_edge_source(o, a), layout_edge_source(o, b));
                }
            }
        }
    }
}

#[test]
fn positions_along_svg_x() {
    assert!(position_along_svg_x(true, Orientation::RightToLeft));
    assert!(!position_along_svg_x(false, Orientation::LeftToRight));
    assert!(!position_along_svg_x(true, Orientation::TopToBottom));
    assert!(position_along_svg_x(false, Orientation::BottomToTop));
}

#[test]
fn fills_reach_edges_parallel_to_x() {
    assert_eq!(fill_edge(true, true), Edge::Top);
    assert_eq!(fill_edge(true, false), Edge::Bottom);
    assert_eq!(fill_edge(false, true), Edge::Right);
    assert_eq!(fill_edge(false, false), Edge::Left);
    for o in ORIENTATIONS {
        for above in [true, false] {
            let e = fill_edge(o.x_is_horizontal(), above);
            assert_eq!(layout_edge_source(o, e).0, DataAxis::X);
        }
    }
}

#[test]
fn vertical_edges() {
    assert!(Edge::Left.is_vertical());
    assert!(Edge::Right.is_vertical());
    assert!(!Edge::Top.is_vertical());
    assert!(!Edge::Bottom.is_vertical());
    assert_eq!(YAxis::default(), YAxis::Primary);
}

#[test]
fn tick_label_anchors() {

    assert_eq!(tick_label_anchor(Edge::Left), "end");
    assert_eq!(tick_label_anchor(Edge::Right), "start");
    assert_eq!(tick_label_anchor(Edge::Top), "middle");
    assert_eq!(tick_label_anchor(Edge::Bottom), "middle");
}

#[test]
fn series_on_the_secondary_axis_widen_its_range() {
    assert_eq!(series_y_axis(true), YAxis::Secondary);
    assert_eq!(series_y_axis(false), YAxis::Primary);
}
