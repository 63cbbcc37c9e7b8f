use chartistry::inner::guide_line::AlignOver;
use chartistry::overlay::tooltip::{TooltipPlacement, TooltipSortBy};
use chartistry::Orientation;

#[test]
fn placement_parses_ignoring_case() {
    assert_eq!(TooltipPlacement::from_str("hide"), Ok(TooltipPlacement::Hide));
    assert_eq!(TooltipPlacement::from_str("HIDE"), Ok(TooltipPlacement::Hide));
    assert_eq!(TooltipPlacement::from_str("Left Cursor"), Ok(TooltipPlacement::LeftCursor));
    assert_eq!(
        TooltipPlacement::from_str("left"),
        Err("invalid TooltipPlacement: `left`".to_string())
    );
}

#[test]
fn placement_display_round_trips() {
    for p in [TooltipPlacement::Hide, TooltipPlacement::LeftCursor] {
        assert_eq!(TooltipPlacement::from_str(&p.to_string()), Ok(p));
    }
    assert_eq!(TooltipPlacement::LeftCursor.to_string(), "Left cursor");
    assert_eq!(TooltipPlacement::default(), TooltipPlacement::Hide);
}

#[test]
fn sort_by_parses_ignoring_case() {
    assert_eq!(TooltipSortBy::from_str("lines"), Ok(TooltipSortBy::Lines));
    assert_eq!(TooltipSortBy::from_str("ASCENDING"), Ok(TooltipSortBy::Ascending));
    assert_eq!(TooltipSortBy::from_str("Descending"), Ok(TooltipSortBy::Descending));
    assert_eq!(TooltipSortBy::from_str("up"), Err("invalid SortBy: `up`".to_string()));
}

#[test]
fn sort_by_display_round_trips() {
    for o in [TooltipSortBy::Lines, TooltipSortBy::Ascending, TooltipSortBy::Descending] {
        assert_eq!(TooltipSortBy::from_str(&o.to_string()), Ok(o));
    }
    assert_eq!(TooltipSortBy::default(), TooltipSortBy::Lines);
}

#[test]
fn align_over_parses_exactly() {
    assert_eq!(AlignOver::from_str("mouse"), Ok(AlignOver::Mouse));
    assert_eq!(AlignOver::from_str("data"), Ok(AlignOver::Data));
    assert_eq!(AlignOver::from_str("Data"), Err("invalid align over: `Data`".to_string()));
    for a in [AlignOver::Mouse, AlignOver::Data] {
        assert_eq!(AlignOver::from_str(&a.to_string()), Ok(a));
    }
    assert_eq!(AlignOver::default(), AlignOver::Mouse);
}

#[test]
fn orientation_axes() {
    assert!(Orientation::LeftToRight.x_is_horizontal());
    assert!(Orientation::RightToLeft.x_is_horizontal());
    assert!(!Orientation::TopToBottom.x_is_horizontal());
    assert!(!Orientation::BottomToTop.x_is_horizontal());
    assert_eq!(Orientation::default(), Orientation::LeftToRight);
}

#[test]
fn options_parse_through_from_str() {
    assert_eq!("Left cursor".parse::<TooltipPlacement>(), Ok(TooltipPlacement::LeftCursor));
    assert_eq!("descending".parse::<TooltipSortBy>(), Ok(TooltipSortBy::Descending));
    assert_eq!("data".parse::<AlignOver>(), Ok(AlignOver::Data));
    assert_eq!(
        "Linear".parse::<chartistry::Interpolation>(),
        Err("unknown line interpolation: `Linear`".to_string())
    );
    assert_eq!("step-vertical".parse(), Ok(chartistry::Interpolation::Step(chartistry::Step::Vertical)));
}
