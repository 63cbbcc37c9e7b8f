use chartistry::layout::edges::YAxis;
use chartistry::overlay::rows::{compare_text, tooltip_rows, value_key, TooltipRow};
use chartistry::overlay::tooltip::{
    tooltip_shown, tooltip_views, y_cell_text, y_format_axis, TooltipPlacement, TooltipSortBy,
};

fn row(id: usize, name: &str, key: Option<i64>) -> TooltipRow {
    TooltipRow { id, name: name.to_string(), axis: YAxis::Primary, key }
}

fn ids(rows: &[TooltipRow]) -> Vec<usize> {
    rows.iter().map(|r| r.id).collect()
}

fn sample() -> Vec<TooltipRow> {
    vec![
        row(0, "pears", Some(3)),
        row(1, "apples", None),
        row(2, "figs", Some(-1)),
        row(3, "apples", Some(3)),
        row(4, "dates", None),
    ]
}

#[test]
fn tooltip_shows_only_while_hovering_and_not_hidden() {
    assert!(tooltip_shown(true, TooltipPlacement::LeftCursor));
    assert!(!tooltip_shown(true, TooltipPlacement::Hide));
    assert!(!tooltip_shown(false, TooltipPlacement::LeftCursor));
}

#[test]
fn secondary_values_fall_back_to_the_primary_format() {
    assert_eq!(y_format_axis(YAxis::Secondary, true), YAxis::Secondary);
    assert_eq!(y_format_axis(YAxis::Secondary, false), YAxis::Primary);
    assert_eq!(y_format_axis(YAxis::Primary, true), YAxis::Primary);
}

#[test]
fn a_custom_body_overrides_header_and_rows() {
    let v = tooltip_views(true, true, true);
    assert!(v.custom_body && !v.custom_x_header && !v.custom_y_row);
    let v = tooltip_views(false, true, false);
    assert!(!v.custom_body && v.custom_x_header && !v.custom_y_row);
}

#[test]
fn rows_sort_stably_by_name() {
    let sorted = tooltip_rows(sample(), false, TooltipSortBy::Lines);
    assert_eq!(ids(&sorted), vec![1, 3, 4, 2, 0]);
}

#[test]
fn rows_sort_by_value_with_missing_first_or_last() {
    assert_eq!(ids(&tooltip_rows(sample(), false, TooltipSortBy::Ascending)), vec![1, 4, 2, 0, 3]);
    assert_eq!(ids(&tooltip_rows(sample(), false, TooltipSortBy::Descending)), vec![0, 3, 2, 1, 4]);
}

#[test]
fn missing_rows_are_skipped_on_request() {
    assert_eq!(ids(&tooltip_rows(sample(), true, TooltipSortBy::Lines)), vec![3, 2, 0]);
    assert_eq!(ids(&tooltip_rows(sample(), true, TooltipSortBy::Ascending)), vec![2, 0, 3]);
    assert_eq!(tooltip_rows(vec![], true, TooltipSortBy::Lines), vec![]);
    assert_eq!(tooltip_rows(sample(), false, TooltipSortBy::Lines)[0], row(1, "apples", None));
}

#[test]
fn text_compares_by_character() {
    assert_eq!(compare_text("apple", "apples"), -1);
    assert_eq!(compare_text("b", "apples"), 1);
    assert_eq!(compare_text("fig", "fig"), 0);
    assert_eq!(compare_text("Zebra", "apple"), -1);
    assert_eq!(compare_text("é", "z"), 1);
}

#[test]
fn nan_values_count_as_missing() {
    assert_eq!(value_key(true, false, 7), Some(7));
    assert_eq!(value_key(true, true, 7), None);
    assert_eq!(value_key(false, false, 7), None);
    // A NaN value is skipped like a missing one.
    let rows = vec![
        row(0, "a", value_key(true, true, 1)),
        row(1, "b", value_key(true, false, 2)),
        row(2, "c", value_key(false, false, 0)),
    ];
    assert_eq!(ids(&tooltip_rows(rows, true, TooltipSortBy::Lines)), vec![1]);
}

#[test]
fn missing_values_show_a_dash() {
    assert_eq!(y_cell_text(None), "-");
    assert_eq!(y_cell_text(Some("4.5".to_string())), "4.5");
}
